use vstd::prelude::*;

use crate::models::msg_already_exists;
use crate::models::AppError;
use crate::order::lemma_lex_le_total;
use crate::order::lemma_lex_le_trans;
use crate::order::lex_le;
use crate::order::str_le;
use crate::text::str_eq;

verus! {

/// A pinned location the user persisted: a path with a display label
/// and an icon name, under a store-assigned unique id.
#[derive(Debug)]
pub struct Favorite {
    pub id: i64,
    pub path: String,
    pub label: String,
    pub icon: String,
}

/// Mathematical image of a [`Favorite`].
pub ghost struct FavoriteV {
    pub id: i64,
    pub path: Seq<char>,
    pub label: Seq<char>,
    pub icon: Seq<char>,
}

impl View for Favorite {
    type V = FavoriteV;

    open spec fn view(&self) -> FavoriteV {
        FavoriteV { id: self.id, path: self.path@, label: self.label@, icon: self.icon@ }
    }
}

/// The images of a sequence of favorites.
pub open spec fn fav_views(s: Seq<Favorite>) -> Seq<FavoriteV> {
    s.map_values(|f: Favorite| f@)
}

/// Well-formed favorites: paths unique, ids unique, and the rows held
/// in ascending label order, so a listing needs no further sorting.
pub open spec fn favs_wf(s: Seq<FavoriteV>) -> bool {
    &&& forall|i: int, j: int| 0 <= i < j < s.len() ==> (#[trigger] s[i]).path != (
    #[trigger] s[j]).path
    &&& forall|i: int, j: int| 0 <= i < j < s.len() ==> (#[trigger] s[i]).id != (
    #[trigger] s[j]).id
    &&& forall|i: int, j: int| 0 <= i < j < s.len() ==> lex_le(
        (#[trigger] s[i]).label,
        (#[trigger] s[j]).label,
    )
}

/// Canonical message when the store has no ids left to assign.
pub open spec fn msg_store_full() -> Seq<char> {
    "Favorite store is full"@
}

/// Copies one favorite row.
fn clone_favorite(f: &Favorite) -> (r: Favorite)
    ensures
        r@ == f@,
{
    Favorite {
        id: f.id,
        path: f.path.clone(),
        label: f.label.clone(),
        icon: f.icon.clone(),
    }
}

/// Taking images commutes with inserting a row.
proof fn lemma_fav_views_insert(s: Seq<Favorite>, i: int, x: Favorite)
    requires
        0 <= i <= s.len(),
    ensures
        fav_views(s.insert(i, x)) =~= fav_views(s).insert(i, x@),
{
    s.insert_ensures(i, x);
    fav_views(s).insert_ensures(i, x@);
}

/// Taking images commutes with removing a row.
proof fn lemma_fav_views_remove(s: Seq<Favorite>, i: int)
    requires
        0 <= i < s.len(),
    ensures
        fav_views(s.remove(i)) =~= fav_views(s).remove(i),
{
    s.remove_ensures(i);
    fav_views(s).remove_ensures(i);
}

/// Finds the position at which a new label belongs, keeping rows with
/// equal labels in insertion order.
fn find_label_pos(favs: &Vec<Favorite>, label: &str) -> (k: usize)
    ensures
        k <= favs@.len(),
        forall|j: int| 0 <= j < k ==> lex_le(#[trigger] fav_views(favs@)[j].label, label@),
        k < favs@.len() ==> lex_le(label@, fav_views(favs@)[k as int].label),
{
    let ghost vs = fav_views(favs@);
    let mut k: usize = 0;
    while k < favs.len()
        invariant
            k <= favs.len(),
            vs == fav_views(favs@),
            forall|j: int| 0 <= j < k ==> lex_le(#[trigger] vs[j].label, label@),
        decreases favs.len() - k,
    {
        assert(favs@[k as int]@ == vs[k as int]);
        if !str_le(favs[k].label.as_str(), label) {
            proof {
                lemma_lex_le_total(vs[k as int].label, label@);
            }
            return k;
        }
        k += 1;
    }
    k
}

/// The durable set of favorites, modelled as rows in label order with
/// store-assigned ids.  The caller persists the same rows; this store
/// is the single place that decides what each operation does.
pub struct FavoritesStore {
    favorites: Vec<Favorite>,
    next_id: i64,
}

impl View for FavoritesStore {
    type V = Seq<FavoriteV>;

    closed spec fn view(&self) -> Seq<FavoriteV> {
        fav_views(self.favorites@)
    }
}

impl FavoritesStore {
    /// Rows well formed, and every assigned id below the next one.
    pub closed spec fn wf(&self) -> bool {
        &&& favs_wf(self@)
        &&& 1 <= self.next_id
        &&& forall|i: int| 0 <= i < self@.len() ==> 0 < (#[trigger] self@[i]).id < self.next_id
    }

    /// No id is left to assign.
    pub closed spec fn full(&self) -> bool {
        self.next_id == i64::MAX
    }

    /// Law: a well-formed store's rows are in ascending label order
    /// with pairwise distinct paths and pairwise distinct ids.
    pub proof fn lemma_wf_rows(&self)
        requires
            self.wf(),
        ensures
            favs_wf(self@),
    {
    }

    /// An empty store.
    pub fn new() -> (s: FavoritesStore)
        ensures
            s.wf(),
            s@ =~= Seq::<FavoriteV>::empty(),
            !s.full(),
    {
        let s = FavoritesStore { favorites: Vec::new(), next_id: 1 };
        proof {
            assert(s@ =~= Seq::<FavoriteV>::empty());
        }
        s
    }

    /// All favorites, in ascending label order.
    pub fn get_favorites(&self) -> (r: Vec<Favorite>)
        requires
            self.wf(),
        ensures
            fav_views(r@) == self@,
            favs_wf(fav_views(r@)),
    {
        let mut r: Vec<Favorite> = Vec::new();
        proof {
            assert(fav_views(r@) =~= self@.take(0));
        }
        let mut k: usize = 0;
        while k < self.favorites.len()
            invariant
                k <= self.favorites.len(),
                fav_views(r@) == self@.take(k as int),
                self@.len() == self.favorites@.len(),
            decreases self.favorites.len() - k,
        {
            let f = clone_favorite(&self.favorites[k]);
            proof {
                assert(self.favorites@[k as int]@ == self@[k as int]);
            }
            r.push(f);
            proof {
                assert(fav_views(r@) =~= self@.take(k as int).push(self@[k as int]));
                assert(self@.take(k as int + 1) =~= self@.take(k as int).push(self@[k as int]));
            }
            k += 1;
        }
        proof {
            assert(self@.take(self.favorites@.len() as int) =~= self@);
        }
        r
    }

    /// Whether some row already pins this path.
    fn contains_path(&self, path: &str) -> (r: bool)
        ensures
            r == exists|i: int| 0 <= i < self@.len() && (#[trigger] self@[i]).path == path@,
    {
        let mut k: usize = 0;
        while k < self.favorites.len()
            invariant
                k <= self.favorites.len(),
                self@.len() == self.favorites@.len(),
                forall|j: int| 0 <= j < k ==> (#[trigger] self@[j]).path != path@,
            decreases self.favorites.len() - k,
        {
            proof {
                assert(self.favorites@[k as int]@ == self@[k as int]);
            }
            if str_eq(self.favorites[k].path.as_str(), path) {
                assert(self@[k as int].path == path@);
                return true;
            }
            k += 1;
        }
        false
    }

    /// Pins a path under a fresh id.  Fails exactly when the path is
    /// already pinned (a conflict) or no id is left.
    pub fn add_favorite(&mut self, path: &str, label: &str, icon: &str) -> (r: Result<
        (),
        AppError,
    >)
        requires
            old(self).wf(),
        ensures
            final(self).wf(),
            favs_wf(final(self)@),
            r is Ok <==> (!(exists|i: int| 0 <= i < old(self)@.len() && (#[trigger] old(self)@[i]).path == path@) && !old(self).full()),
            (exists|i: int| 0 <= i < old(self)@.len() && (#[trigger] old(self)@[i]).path
                == path@) ==> r->Err_0.message@ == msg_already_exists(),
            !(exists|i: int| 0 <= i < old(self)@.len() && (#[trigger] old(self)@[i]).path
                == path@) && old(self).full() ==> r->Err_0.message@ == msg_store_full(),
            r is Err ==> final(self)@ == old(self)@,
            r is Ok ==> exists|k: int, id: i64|
                0 <= k <= old(self)@.len() && final(self)@ == #[trigger] old(self)@.insert(
                    k,
                    (FavoriteV { id, path: path@, label: label@, icon: icon@ }),
                ) && (forall|j: int| 0 <= j < old(self)@.len() ==> (#[trigger] old(self)@[j]).id != id),
    {
        if self.contains_path(path) {
            return Err(AppError::already_exists());
        }
        if self.next_id == i64::MAX {
            return Err(AppError::io_failure("Favorite store is full".to_owned()));
        }
        let id = self.next_id;
        self.next_id = self.next_id + 1;
        let fav = Favorite {
            id,
            path: path.to_owned(),
            label: label.to_owned(),
            icon: icon.to_owned(),
        };
        let ghost vs = fav_views(self.favorites@);
        let k = find_label_pos(&self.favorites, label);
        let ghost pos = k as int;
        self.favorites.insert(k, fav);
        proof {
            lemma_fav_views_insert(old(self).favorites@, pos, fav);
            let nvs = fav_views(self.favorites@);
            assert(nvs =~= vs.insert(pos, fav@));
            vs.insert_ensures(pos, fav@);
            assert forall|a: int, b: int| 0 <= a < b < nvs.len() implies (#[trigger] nvs[a]).path
                != (#[trigger] nvs[b]).path && nvs[a].id != nvs[b].id && lex_le(
                nvs[a].label,
                nvs[b].label,
            ) by {
                if b < pos {
                } else if b == pos {
                    assert(nvs[b] == fav@ && nvs[a] == vs[a]);
                } else {
                    assert(nvs[b] == vs[b - 1]);
                    if a < pos {
                        assert(nvs[a] == vs[a]);
                    } else if a == pos {
                        assert(nvs[a] == fav@);
                        if pos < b - 1 {
                            lemma_lex_le_trans(fav@.label, vs[pos].label, vs[b - 1].label);
                        }
                    } else {
                        assert(nvs[a] == vs[a - 1]);
                    }
                }
            }
            assert(fav@ == (FavoriteV { id: id, path: path@, label: label@, icon: icon@ }));
            assert(self@ == old(self)@.insert(pos, fav@));
        }
        Ok(())
    }

    /// Unpins the row with the given id; doing nothing when no row
    /// bears it.
    pub fn remove_favorite(&mut self, id: i64)
        requires
            old(self).wf(),
        ensures
            final(self).wf(),
            favs_wf(final(self)@),
            (exists|i: int| 0 <= i < old(self)@.len() && (#[trigger] old(self)@[i]).id == id)
                ==> exists|i: int|
                0 <= i < old(self)@.len() && (#[trigger] old(self)@[i]).id == id && final(self)@ == old(self)@.remove(i),
            !(exists|i: int| 0 <= i < old(self)@.len() && (#[trigger] old(self)@[i]).id == id)
                ==> final(self)@ == old(self)@,
    {
        let ghost vs = fav_views(self.favorites@);
        let mut k: usize = 0;
        while k < self.favorites.len()
            invariant
                k <= self.favorites.len(),
                vs == fav_views(self.favorites@),
                self@ == vs,
                old(self).wf(),
                *self == *old(self),
                forall|j: int| 0 <= j < k ==> (#[trigger] vs[j]).id != id,
            decreases self.favorites.len() - k,
        {
            proof {
                assert(self.favorites@[k as int]@ == vs[k as int]);
            }
            if self.favorites[k].id == id {
                let ghost pos = k as int;
                self.favorites.remove(k);
                proof {
                    lemma_fav_views_remove(old(self).favorites@, pos);
                    let nvs = fav_views(self.favorites@);
                    assert(nvs =~= vs.remove(pos));
                    vs.remove_ensures(pos);
                    assert forall|a: int, b: int| 0 <= a < b < nvs.len() implies (
                    #[trigger] nvs[a]).path != (#[trigger] nvs[b]).path && nvs[a].id != nvs[b].id
                        && lex_le(nvs[a].label, nvs[b].label) by {
                        let oa = if a < pos {
                            a
                        } else {
                            a + 1
                        };
                        let ob = if b < pos {
                            b
                        } else {
                            b + 1
                        };
                        assert(nvs[a] == vs[oa] && nvs[b] == vs[ob]);
                    }
                    assert(vs[pos].id == id);
                }
                return ;
            }
            k += 1;
        }
    }

    /// All favorites, as the UI command returns them: in ascending
    /// label order, paths and ids pairwise distinct.
    pub fn get_all_favorites(&self) -> (r: Result<Vec<Favorite>, AppError>)
        requires
            self.wf(),
        ensures
            r is Ok,
            fav_views(r->Ok_0@) == self@,
            favs_wf(fav_views(r->Ok_0@)),
    {
        Ok(self.get_favorites())
    }

    /// Pins a path and returns the updated list, or the conflict.
    pub fn add_new_favorite(&mut self, path: &str, label: &str, icon: &str) -> (r: Result<
        Vec<Favorite>,
        AppError,
    >)
        requires
            old(self).wf(),
        ensures
            final(self).wf(),
            favs_wf(final(self)@),
            r is Ok <==> (!(exists|i: int| 0 <= i < old(self)@.len() && (#[trigger] old(self)@[i]).path == path@) && !old(self).full()),
            (exists|i: int| 0 <= i < old(self)@.len() && (#[trigger] old(self)@[i]).path
                == path@) ==> r->Err_0.message@ == msg_already_exists(),
            r is Err ==> final(self)@ == old(self)@,
            r is Ok ==> fav_views(r->Ok_0@) == final(self)@ && favs_wf(fav_views(r->Ok_0@))
                && exists|k: int, id: i64|
                0 <= k <= old(self)@.len() && final(self)@ == #[trigger] old(self)@.insert(
                    k,
                    (FavoriteV { id, path: path@, label: label@, icon: icon@ }),
                ),
    {
        match self.add_favorite(path, label, icon) {
            Ok(_) => Ok(self.get_favorites()),
            Err(e) => Err(e),
        }
    }

    /// Unpins an id and returns the updated list.
    pub fn remove_existing_favorite(&mut self, id: i64) -> (r: Result<Vec<Favorite>, AppError>)
        requires
            old(self).wf(),
        ensures
            final(self).wf(),
            favs_wf(final(self)@),
            r is Ok,
            fav_views(r->Ok_0@) == final(self)@,
            favs_wf(fav_views(r->Ok_0@)),
            (exists|i: int| 0 <= i < old(self)@.len() && (#[trigger] old(self)@[i]).id == id)
                ==> exists|i: int|
                0 <= i < old(self)@.len() && (#[trigger] old(self)@[i]).id == id && final(self)@ == old(self)@.remove(i),
            !(exists|i: int| 0 <= i < old(self)@.len() && (#[trigger] old(self)@[i]).id == id)
                ==> final(self)@ == old(self)@,
    {
        self.remove_favorite(id);
        Ok(self.get_favorites())
    }
}

} // verus!
