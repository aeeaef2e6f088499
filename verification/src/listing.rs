use vstd::prelude::*;

use crate::models::AppError;
use crate::models::ExplorerView;
use crate::models::ExplorerViewV;
use crate::models::FileNode;
use crate::models::FileNodeV;
use crate::order::lemma_node_le_total;
use crate::order::lemma_node_le_trans;
use crate::order::node_le;
use crate::order::node_le_exec;
use crate::order::sorted_nodes;
use crate::paths::has_parent;
use crate::paths::is_abs;
use crate::paths::parent_of;

verus! {

/// Metadata of one directory child, as plain values.
#[derive(Clone, Copy, Debug)]
pub struct FileMeta {
    pub is_dir: bool,
    pub size: u64,
}

/// One raw child from a directory scan.  `meta` is `None` when the
/// child's metadata could not be read; such a child is deliberately
/// omitted from the listing rather than failing it.
#[derive(Debug)]
pub struct ScanEntry {
    pub name: String,
    pub meta: Option<FileMeta>,
}

/// Mathematical image of a [`ScanEntry`].
pub ghost struct ScanEntryV {
    pub name: Seq<char>,
    pub meta: Option<FileMeta>,
}

impl View for ScanEntry {
    type V = ScanEntryV;

    open spec fn view(&self) -> ScanEntryV {
        ScanEntryV { name: self.name@, meta: self.meta }
    }
}

/// The images of a sequence of scan entries.
pub open spec fn scan_views(s: Seq<ScanEntry>) -> Seq<ScanEntryV> {
    s.map_values(|e: ScanEntry| e@)
}

/// The images of a sequence of listing entries.
pub open spec fn views_of(s: Seq<FileNode>) -> Seq<FileNodeV> {
    s.map_values(|n: FileNode| n@)
}

/// The names of a sequence of listing entries, in order.
pub open spec fn names_of(s: Seq<FileNodeV>) -> Seq<Seq<char>> {
    s.map_values(|n: FileNodeV| n.name)
}

/// The readable entries of a scan in scan order: the "collect results,
/// drop errors" fold over the raw children.
pub open spec fn scan_nodes(s: Seq<ScanEntryV>) -> Seq<FileNodeV>
    decreases s.len(),
{
    if s.len() == 0 {
        Seq::empty()
    } else {
        scan_nodes(s.drop_last()) + (match s.last().meta {
            Option::Some(m) => seq![
                FileNodeV { name: s.last().name, is_dir: m.is_dir, size: m.size },
            ],
            Option::None => Seq::empty(),
        })
    }
}

/// What every listing returned by the engine promises: the path is
/// echoed, the entries are exactly the readable scanned children in
/// listing order, and the affordances follow the parent relation.
pub open spec fn listing_ok(v: ExplorerViewV, path: Seq<char>, scan: Seq<ScanEntryV>) -> bool {
    &&& v.current_path == path
    &&& sorted_nodes(v.items)
    &&& v.items.to_multiset() == scan_nodes(scan).to_multiset()
    &&& names_of(v.items).to_multiset() == names_of(scan_nodes(scan)).to_multiset()
    &&& v.can_go_back == (parent_of(path) is Some)
    &&& v.can_go_up == v.can_go_back
    &&& !v.can_go_forward
}

/// Inserting into a sequence inserts into its multiset.
pub proof fn lemma_insert_to_multiset<A>(s: Seq<A>, i: int, x: A)
    requires
        0 <= i <= s.len(),
    ensures
        s.insert(i, x).to_multiset() =~= s.to_multiset().insert(x),
{
    broadcast use vstd::seq_lib::group_to_multiset_ensures;

    let a = s.subrange(0, i);
    let b = s.subrange(i, s.len() as int);
    vstd::seq_lib::lemma_multiset_commutative(a.push(x), b);
    vstd::seq_lib::lemma_multiset_commutative(a, b);
    assert(a + b =~= s);
    assert(a.push(x).to_multiset() =~= a.to_multiset().insert(x));
    assert(a.to_multiset().insert(x).add(b.to_multiset()) =~= a.to_multiset().add(
        b.to_multiset(),
    ).insert(x));
}

/// Taking images commutes with inserting an element.
proof fn lemma_views_insert(s: Seq<FileNode>, i: int, x: FileNode)
    requires
        0 <= i <= s.len(),
    ensures
        views_of(s.insert(i, x)) =~= views_of(s).insert(i, x@),
{
    s.insert_ensures(i, x);
    views_of(s).insert_ensures(i, x@);
}

/// Taking names commutes with inserting an entry.
proof fn lemma_names_insert(s: Seq<FileNodeV>, i: int, x: FileNodeV)
    requires
        0 <= i <= s.len(),
    ensures
        names_of(s.insert(i, x)) =~= names_of(s).insert(i, x.name),
{
    s.insert_ensures(i, x);
    names_of(s).insert_ensures(i, x.name);
}

/// Finds the position at which an entry belongs in a sorted listing.
fn find_insert_pos(out: &Vec<FileNode>, x: &FileNode) -> (i: usize)
    ensures
        i <= out@.len(),
        forall|j: int| 0 <= j < i ==> node_le(#[trigger] views_of(out@)[j], x@),
        i < out@.len() ==> node_le(x@, views_of(out@)[i as int]),
{
    let ghost vs = views_of(out@);
    let mut i: usize = 0;
    while i < out.len()
        invariant
            i <= out.len(),
            vs == views_of(out@),
            forall|j: int| 0 <= j < i ==> node_le(#[trigger] vs[j], x@),
        decreases out.len() - i,
    {
        assert(out@[i as int]@ == vs[i as int]);
        if !node_le_exec(&out[i], x) {
            proof {
                lemma_node_le_total(vs[i as int], x@);
            }
            return i;
        }
        i += 1;
    }
    i
}

/// Places one entry at its position in a listing kept in listing order.
fn insert_sorted(out: &mut Vec<FileNode>, x: FileNode)
    requires
        sorted_nodes(views_of(old(out)@)),
    ensures
        sorted_nodes(views_of(final(out)@)),
        exists|i: int|
            0 <= i <= old(out)@.len() && final(out)@ == #[trigger] old(out)@.insert(i, x),
{
    let ghost vs = views_of(out@);
    let i = find_insert_pos(out, &x);
    let ghost pos = i as int;
    out.insert(i, x);
    proof {
        lemma_views_insert(old(out)@, pos, x);
        let nvs = views_of(out@);
        assert(nvs =~= vs.insert(pos, x@));
        vs.insert_ensures(pos, x@);
        assert forall|a: int, b: int| 0 <= a < b < nvs.len() implies node_le(nvs[a], nvs[b]) by {
            if b < pos {
                assert(nvs[a] == vs[a] && nvs[b] == vs[b]);
            } else if b == pos {
                assert(nvs[b] == x@ && nvs[a] == vs[a]);
            } else {
                assert(nvs[b] == vs[b - 1]);
                if a < pos {
                    assert(nvs[a] == vs[a]);
                } else if a == pos {
                    assert(nvs[a] == x@);
                    if pos < b - 1 {
                        lemma_node_le_trans(x@, vs[pos], vs[b - 1]);
                    }
                } else {
                    assert(nvs[a] == vs[a - 1]);
                }
            }
        }
        assert(old(out)@.insert(pos, x) == out@);
    }
}

/// Builds the view for one directory from a raw scan of its children.
///
/// A child whose metadata could not be read is omitted; a failed scan
/// of the directory itself fails the whole listing.  The entries come
/// out in listing order: directories first, then names ascending.
pub fn read_directory(path: &str, scan: Result<Vec<ScanEntry>, AppError>) -> (r: Result<
    ExplorerView,
    AppError,
>)
    requires
        is_abs(path@),
    ensures
        r is Ok <==> scan is Ok,
        scan is Err ==> r->Err_0.message@ == scan->Err_0.message@,
        scan is Ok ==> listing_ok(r->Ok_0@, path@, scan_views(scan->Ok_0@)),
{
    broadcast use vstd::seq_lib::group_to_multiset_ensures;

    let entries = match scan {
        Ok(entries) => entries,
        Err(e) => {
            return Err(e);
        },
    };
    let ghost sv = scan_views(entries@);
    let mut items: Vec<FileNode> = Vec::new();
    proof {
        assert(sv.take(0) =~= Seq::<ScanEntryV>::empty());
        assert(views_of(items@) =~= Seq::<FileNodeV>::empty());
        assert(views_of(items@).to_multiset() =~= scan_nodes(sv.take(0)).to_multiset());
        assert(names_of(views_of(items@)).to_multiset() =~= names_of(
            scan_nodes(sv.take(0)),
        ).to_multiset());
    }
    let mut k: usize = 0;
    while k < entries.len()
        invariant
            k <= entries.len(),
            sv == scan_views(entries@),
            sv.len() == entries@.len(),
            sorted_nodes(views_of(items@)),
            views_of(items@).to_multiset() == scan_nodes(sv.take(k as int)).to_multiset(),
            names_of(views_of(items@)).to_multiset() == names_of(
                scan_nodes(sv.take(k as int)),
            ).to_multiset(),
        decreases entries.len() - k,
    {
        broadcast use vstd::seq_lib::group_to_multiset_ensures;

        let ghost prev_items = items@;
        let ghost prev = views_of(items@);
        let ghost step = scan_nodes(sv.take(k as int));
        proof {
            assert(sv.take(k as int + 1).drop_last() =~= sv.take(k as int));
            assert(sv.take(k as int + 1).last() == entries@[k as int]@);
        }
        let e = &entries[k];
        match e.meta {
            Some(m) => {
                let node = FileNode { name: e.name.clone(), is_dir: m.is_dir, size: m.size };
                let ghost nv = node@;
                proof {
                    assert(nv == FileNodeV {
                        name: entries@[k as int]@.name,
                        is_dir: m.is_dir,
                        size: m.size,
                    });
                    assert(scan_nodes(sv.take(k as int + 1)) == step + seq![nv]);
                    assert(step + seq![nv] =~= step.push(nv));
                }
                insert_sorted(&mut items, node);
                proof {
                    let i = choose|i: int|
                        0 <= i <= prev_items.len() && items@ == #[trigger] prev_items.insert(
                            i,
                            node,
                        );
                    lemma_views_insert(prev_items, i, node);
                    assert(views_of(items@) =~= prev.insert(i, nv));
                    lemma_insert_to_multiset(prev, i, nv);
                    assert(views_of(items@).to_multiset() =~= step.push(nv).to_multiset());
                    lemma_names_insert(prev, i, nv);
                    assert(names_of(views_of(items@)) =~= names_of(prev).insert(i, nv.name));
                    lemma_insert_to_multiset(names_of(prev), i, nv.name);
                    assert(names_of(step.push(nv)) =~= names_of(step).push(nv.name));
                    assert(names_of(views_of(items@)).to_multiset() =~= names_of(
                        scan_nodes(sv.take(k as int + 1)),
                    ).to_multiset());
                }
            },
            None => {
                proof {
                    assert(scan_nodes(sv.take(k as int + 1)) =~= step);
                }
            },
        }
        k += 1;
    }
    proof {
        assert(sv.take(entries@.len() as int) =~= sv);
    }
    let can_go_back = has_parent(path);
    let view = ExplorerView {
        current_path: path.to_owned(),
        items,
        can_go_back,
        can_go_forward: false,
        can_go_up: can_go_back,
    };
    proof {
        assert(view@.items =~= views_of(view.items@));
    }
    Ok(view)
}

/// Law: a listing never invents a name.  A name that no readable
/// scanned child bears is borne by no listed entry; in particular,
/// after a deletion the fresh listing no longer shows the deleted name.
pub proof fn lemma_absent_name_not_listed(
    v: ExplorerViewV,
    path: Seq<char>,
    scan: Seq<ScanEntryV>,
    name: Seq<char>,
)
    requires
        listing_ok(v, path, scan),
        forall|j: int| 0 <= j < scan_nodes(scan).len() ==> #[trigger] scan_nodes(scan)[j].name
            != name,
    ensures
        forall|i: int| 0 <= i < v.items.len() ==> #[trigger] v.items[i].name != name,
{
    broadcast use vstd::seq_lib::group_to_multiset_ensures;

    let sn = names_of(scan_nodes(scan));
    let ln = names_of(v.items);
    assert(!sn.contains(name));
    assert(sn.to_multiset().count(name) == 0);
    assert forall|i: int| 0 <= i < v.items.len() implies #[trigger] v.items[i].name != name by {
        if v.items[i].name == name {
            assert(ln[i] == name);
            assert(ln.contains(name));
            assert(ln.to_multiset().count(name) > 0);
        }
    }
}

/// Law: a listing bears each name exactly as often as the readable
/// scanned children bear it; in particular a directory holding exactly
/// one child of a name yields a view listing that name exactly once.
pub proof fn lemma_listing_name_count(
    v: ExplorerViewV,
    path: Seq<char>,
    scan: Seq<ScanEntryV>,
    name: Seq<char>,
)
    requires
        listing_ok(v, path, scan),
    ensures
        names_of(v.items).to_multiset().count(name) == names_of(
            scan_nodes(scan),
        ).to_multiset().count(name),
{
}

/// Law: a listing repeats each name exactly as often as the readable
/// scanned children bear it; with unique names in the directory the
/// listing holds no duplicate names.
pub proof fn lemma_listing_distinct_names(v: ExplorerViewV, path: Seq<char>, scan: Seq<ScanEntryV>)
    requires
        listing_ok(v, path, scan),
        names_of(scan_nodes(scan)).no_duplicates(),
    ensures
        names_of(v.items).no_duplicates(),
{
    broadcast use vstd::seq_lib::group_to_multiset_ensures;

    let sn = names_of(scan_nodes(scan));
    let ln = names_of(v.items);
    sn.lemma_multiset_has_no_duplicates();
    assert forall|i: int, j: int| 0 <= i < ln.len() && 0 <= j < ln.len() && i != j implies ln[i]
        != ln[j] by {
        if ln[i] == ln[j] {
            let x = ln[i];
            assert(ln.contains(x));
            assert(sn.to_multiset().contains(x));
            lemma_two_positions_count(ln, i, j);
        }
    }
}

/// Two distinct positions holding the same value force a count of two.
proof fn lemma_two_positions_count<A>(s: Seq<A>, i: int, j: int)
    requires
        0 <= i < s.len(),
        0 <= j < s.len(),
        i != j,
        s[i] == s[j],
    ensures
        s.to_multiset().count(s[i]) >= 2,
{
    broadcast use vstd::seq_lib::group_to_multiset_ensures;

    let lo = if i < j {
        i
    } else {
        j
    };
    let hi = if i < j {
        j
    } else {
        i
    };
    let r = s.remove(hi);
    assert(r.to_multiset() == s.to_multiset().remove(s[hi]));
    assert(r[lo] == s[lo]);
    assert(r.contains(s[lo]));
    assert(r.to_multiset().count(s[lo]) > 0);
    assert(s.to_multiset().count(s[hi]) == r.to_multiset().count(s[hi]) + 1);
}

} // verus!
