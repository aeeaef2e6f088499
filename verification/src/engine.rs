use vstd::prelude::*;

use crate::listing::listing_ok;
use crate::listing::read_directory;
use crate::listing::scan_views;
use crate::listing::views_of;
use crate::listing::ScanEntry;
use crate::models::msg_already_exists;
use crate::models::msg_invalid_input;
use crate::models::msg_not_a_directory;
use crate::models::AppError;
use crate::models::ExplorerView;
use crate::models::ExplorerViewV;
use crate::models::FileNode;
use crate::models::FileNodeV;
use crate::paths::has_nul;
use crate::paths::is_abs;
use crate::paths::is_absolute;
use crate::paths::join_of;
use crate::paths::lemma_join_abs;
use crate::paths::parent_dir;
use crate::paths::parent_of;
use crate::paths::resolve;
use crate::syspaths::opt_view;
use crate::text::lower_of;
use crate::text::seq_contains;
use crate::text::str_contains;
use crate::text::to_lower;

verus! {

/// How the caller's filesystem action ended.  The engine itself never
/// touches the filesystem: the caller performs the action against the
/// path it resolved and reports the outcome here.
#[derive(Debug)]
pub enum FsOutcome {
    /// The action succeeded.
    Done,
    /// The action failed because the target already exists.
    AlreadyExists,
    /// The action failed for any other reason, with the OS message.
    Failed(String),
}

/// An entry survives a search for `query` when its lowercased name
/// contains the lowercased query.
pub open spec fn matches_query(n: FileNodeV, query: Seq<char>) -> bool {
    seq_contains(lower_of(n.name), lower_of(query))
}

/// The entries of `items` that survive a search for `query`, in order.
pub open spec fn search_filter(items: Seq<FileNodeV>, query: Seq<char>) -> Seq<FileNodeV>
    decreases items.len(),
{
    if items.len() == 0 {
        Seq::empty()
    } else {
        search_filter(items.drop_last(), query) + (if matches_query(items.last(), query) {
            seq![items.last()]
        } else {
            Seq::empty()
        })
    }
}

/// What a search result promises: some full listing of the directory
/// exists whose entries, filtered by the query, are exactly the
/// returned entries; path and affordances are those of that listing.
pub open spec fn search_ok(
    v: ExplorerViewV,
    path: Seq<char>,
    scan: Seq<crate::listing::ScanEntryV>,
    query: Seq<char>,
) -> bool {
    exists|b: Seq<FileNodeV>|
        {
            &&& listing_ok(ExplorerViewV { items: b, ..v }, path, scan)
            &&& v.items == #[trigger] search_filter(b, query)
        }
}

/// Law: a search result is a subset of the listing it filtered, and
/// every surviving entry's name contains the query case-insensitively.
pub proof fn lemma_search_filter_subset(items: Seq<FileNodeV>, query: Seq<char>)
    ensures
        forall|x: FileNodeV| #[trigger]
            search_filter(items, query).contains(x) ==> items.contains(x) && matches_query(
                x,
                query,
            ),
    decreases items.len(),
{
    if items.len() == 0 {
    } else {
        lemma_search_filter_subset(items.drop_last(), query);
        let f = search_filter(items, query);
        let fd = search_filter(items.drop_last(), query);
        assert forall|x: FileNodeV| #[trigger] f.contains(x) implies items.contains(x)
            && matches_query(x, query) by {
            let i = choose|i: int| 0 <= i < f.len() && f[i] == x;
            if i < fd.len() {
                assert(fd[i] == x);
                assert(fd.contains(x));
                let j = choose|j: int| 0 <= j < items.drop_last().len() && items.drop_last()[j]
                    == x;
                assert(items[j] == x);
            } else {
                assert(x == items.last());
                assert(items[items.len() - 1] == x);
            }
        }
    }
}

/// The starting cursor: the home directory the OS reported, when it
/// is an absolute path, else the root.
pub open spec fn start_cursor_of(home: Option<Seq<char>>) -> Seq<char> {
    match home {
        Option::Some(h) => if is_abs(h) {
            h
        } else {
            seq!['/']
        },
        Option::None => seq!['/'],
    }
}

/// The exclusive holder of the single current-directory cursor.
///
/// Every operation resolves paths against the cursor, lets the caller
/// perform the filesystem action, and returns a fresh view; the cursor
/// moves only on a navigation that succeeded in full.
pub struct AppState {
    pub current_dir: String,
}

impl AppState {
    /// The cursor as a character sequence.
    pub open spec fn cursor(&self) -> Seq<char> {
        self.current_dir@
    }

    /// The cursor is always an absolute path.
    pub open spec fn wf(&self) -> bool {
        is_abs(self.current_dir@)
    }

    /// Starts the explorer at the given absolute directory.
    pub fn new(start_path: String) -> (s: AppState)
        requires
            is_abs(start_path@),
        ensures
            s.wf(),
            s.cursor() == start_path@,
    {
        AppState { current_dir: start_path }
    }

    /// Starts the explorer at the home directory the caller's OS
    /// lookup reported, or at the root when none was reported or the
    /// report is not an absolute path.
    pub fn start(home: Option<String>) -> (s: AppState)
        ensures
            s.wf(),
            s.cursor() == start_cursor_of(opt_view(home)),
    {
        let dir = match home {
            Some(h) => {
                if is_absolute(h.as_str()) {
                    h
                } else {
                    "/".to_owned()
                }
            },
            None => "/".to_owned(),
        };
        proof {
            reveal_strlit("/");
            assert("/"@ =~= seq!['/']);
        }
        AppState { current_dir: dir }
    }

    /// Lists the cursor directory as it is.
    pub fn get_current_view(&self, scan: Result<Vec<ScanEntry>, AppError>) -> (r: Result<
        ExplorerView,
        AppError,
    >)
        requires
            self.wf(),
        ensures
            r is Ok <==> scan is Ok,
            scan is Err ==> r->Err_0.message@ == scan->Err_0.message@,
            scan is Ok ==> listing_ok(r->Ok_0@, self.cursor(), scan_views(scan->Ok_0@)),
    {
        read_directory(self.current_dir.as_str(), scan)
    }

    /// Opens a folder: commits the resolved target as the new cursor
    /// and lists it, but only when the target is a directory and the
    /// fresh listing succeeds; any failure leaves the cursor untouched.
    ///
    /// The caller resolves the same name, checks that the target is a
    /// directory, scans it, and passes both results in.
    pub fn open_folder(
        &mut self,
        name: &str,
        target_is_dir: bool,
        scan: Result<Vec<ScanEntry>, AppError>,
    ) -> (r: Result<ExplorerView, AppError>)
        requires
            old(self).wf(),
        ensures
            final(self).wf(),
            r is Ok <==> (!has_nul(name@) && target_is_dir && scan is Ok),
            r is Err ==> *final(self) == *old(self),
            has_nul(name@) ==> r->Err_0.message@ == msg_invalid_input(),
            !has_nul(name@) && !target_is_dir ==> r->Err_0.message@ == msg_not_a_directory(),
            !has_nul(name@) && target_is_dir && scan is Err ==> r->Err_0.message@ == scan->Err_0.message@,
            r is Ok ==> final(self).cursor() == join_of(old(self).cursor(), name@)
                && listing_ok(r->Ok_0@, final(self).cursor(), scan_views(scan->Ok_0@)),
    {
        let resolved = match resolve(self.current_dir.as_str(), name) {
            Ok(p) => p,
            Err(e) => {
                return Err(e);
            },
        };
        if !target_is_dir {
            return Err(AppError::not_a_directory());
        }
        proof {
            lemma_join_abs(self.cursor(), name@);
        }
        match read_directory(resolved.as_str(), scan) {
            Ok(v) => {
                self.current_dir = resolved;
                Ok(v)
            },
            Err(e) => Err(e),
        }
    }

    /// Goes back one level: commits the cursor's parent, if it has
    /// one, and lists the resulting directory.  At the root this is a
    /// no-op that simply lists the root again.
    ///
    /// The caller scans the parent directory (or the cursor directory
    /// itself at the root) and passes the scan in.
    pub fn go_back(&mut self, scan: Result<Vec<ScanEntry>, AppError>) -> (r: Result<
        ExplorerView,
        AppError,
    >)
        requires
            old(self).wf(),
        ensures
            final(self).wf(),
            r is Ok <==> scan is Ok,
            r is Err ==> *final(self) == *old(self) && r->Err_0.message@ == scan->Err_0.message@,
            r is Ok ==> final(self).cursor() == (match parent_of(old(self).cursor()) {
                Option::Some(p) => p,
                Option::None => old(self).cursor(),
            }) && listing_ok(r->Ok_0@, final(self).cursor(), scan_views(scan->Ok_0@)),
    {
        let target = match parent_dir(self.current_dir.as_str()) {
            Some(p) => {
                proof {
                    crate::paths::lemma_parent_normal(self.cursor(), p@);
                }
                p
            },
            None => self.current_dir.clone(),
        };
        match read_directory(target.as_str(), scan) {
            Ok(v) => {
                self.current_dir = target;
                Ok(v)
            },
            Err(e) => Err(e),
        }
    }

    /// Deletes the named item.  The cursor never moves; after the
    /// caller's removal action, the cursor directory is listed afresh.
    pub fn delete_item(
        &self,
        name: &str,
        outcome: FsOutcome,
        rescan: Result<Vec<ScanEntry>, AppError>,
    ) -> (r: Result<ExplorerView, AppError>)
        requires
            self.wf(),
        ensures
            mutation_contract(self.cursor(), name@, outcome, rescan, r),
    {
        self.finish_mutation(name, outcome, rescan)
    }

    /// Creates a folder with the given name in the cursor directory.
    /// Reports a conflict when it already exists; never moves the cursor.
    pub fn create_folder(
        &self,
        name: &str,
        outcome: FsOutcome,
        rescan: Result<Vec<ScanEntry>, AppError>,
    ) -> (r: Result<ExplorerView, AppError>)
        requires
            self.wf(),
        ensures
            mutation_contract(self.cursor(), name@, outcome, rescan, r),
    {
        self.finish_mutation(name, outcome, rescan)
    }

    /// Creates (or truncates) an empty file with the given name in the
    /// cursor directory; never moves the cursor.
    pub fn create_file(
        &self,
        name: &str,
        outcome: FsOutcome,
        rescan: Result<Vec<ScanEntry>, AppError>,
    ) -> (r: Result<ExplorerView, AppError>)
        requires
            self.wf(),
        ensures
            mutation_contract(self.cursor(), name@, outcome, rescan, r),
    {
        self.finish_mutation(name, outcome, rescan)
    }

    /// Renames an item in the cursor directory; never moves the cursor.
    pub fn rename_item(
        &self,
        old_name: &str,
        new_name: &str,
        outcome: FsOutcome,
        rescan: Result<Vec<ScanEntry>, AppError>,
    ) -> (r: Result<ExplorerView, AppError>)
        requires
            self.wf(),
        ensures
            has_nul(old_name@) || has_nul(new_name@) ==> r is Err && r->Err_0.message@
                == msg_invalid_input(),
            !has_nul(old_name@) ==> mutation_contract(
                self.cursor(),
                new_name@,
                outcome,
                rescan,
                r,
            ),
    {
        match resolve(self.current_dir.as_str(), old_name) {
            Ok(_) => (),
            Err(e) => {
                return Err(e);
            },
        }
        self.finish_mutation(new_name, outcome, rescan)
    }

    /// Shared tail of every mutation: validate the name, surface the
    /// caller's outcome, and list the unchanged cursor directory.
    fn finish_mutation(
        &self,
        name: &str,
        outcome: FsOutcome,
        rescan: Result<Vec<ScanEntry>, AppError>,
    ) -> (r: Result<ExplorerView, AppError>)
        requires
            self.wf(),
        ensures
            mutation_contract(self.cursor(), name@, outcome, rescan, r),
    {
        match resolve(self.current_dir.as_str(), name) {
            Ok(_) => (),
            Err(e) => {
                return Err(e);
            },
        }
        match outcome {
            FsOutcome::Done => read_directory(self.current_dir.as_str(), rescan),
            FsOutcome::AlreadyExists => Err(AppError::already_exists()),
            FsOutcome::Failed(m) => Err(AppError::io_failure(m)),
        }
    }

    /// Lists the cursor directory and keeps only the entries whose
    /// name contains the query, case-insensitively.  An empty query
    /// returns the unfiltered view.
    pub fn search_files(&self, query: &str, scan: Result<Vec<ScanEntry>, AppError>) -> (r: Result<
        ExplorerView,
        AppError,
    >)
        requires
            self.wf(),
        ensures
            r is Ok <==> scan is Ok,
            scan is Err ==> r->Err_0.message@ == scan->Err_0.message@,
            scan is Ok && query@.len() == 0 ==> listing_ok(
                r->Ok_0@,
                self.cursor(),
                scan_views(scan->Ok_0@),
            ),
            scan is Ok && query@.len() > 0 ==> search_ok(
                r->Ok_0@,
                self.cursor(),
                scan_views(scan->Ok_0@),
                query@,
            ),
    {
        let view = match read_directory(self.current_dir.as_str(), scan) {
            Ok(v) => v,
            Err(e) => {
                return Err(e);
            },
        };
        if query.unicode_len() == 0 {
            return Ok(view);
        }
        let ghost base = views_of(view.items@);
        let ql = to_lower(query);
        let mut kept: Vec<FileNode> = Vec::new();
        proof {
            assert(base.take(0) =~= Seq::<FileNodeV>::empty());
            assert(views_of(kept@) =~= search_filter(base.take(0), query@));
        }
        let mut k: usize = 0;
        while k < view.items.len()
            invariant
                k <= view.items.len(),
                base == views_of(view.items@),
                base.len() == view.items@.len(),
                ql@ == lower_of(query@),
                views_of(kept@) == search_filter(base.take(k as int), query@),
            decreases view.items.len() - k,
        {
            let ghost prev = views_of(kept@);
            proof {
                assert(base.take(k as int + 1).drop_last() =~= base.take(k as int));
                assert(base.take(k as int + 1).last() == base[k as int]);
                assert(view.items@[k as int]@ == base[k as int]);
            }
            let e = &view.items[k];
            let nl = to_lower(e.name.as_str());
            if str_contains(nl.as_str(), ql.as_str()) {
                let node = FileNode { name: e.name.clone(), is_dir: e.is_dir, size: e.size };
                kept.push(node);
                proof {
                    assert(views_of(kept@) =~= prev.push(base[k as int]));
                    assert(search_filter(base.take(k as int + 1), query@) =~= prev.push(
                        base[k as int],
                    ));
                }
            } else {
                proof {
                    assert(search_filter(base.take(k as int + 1), query@) =~= prev);
                }
            }
            k += 1;
        }
        proof {
            assert(base.take(view.items@.len() as int) =~= base);
        }
        let result = ExplorerView {
            current_path: view.current_path,
            items: kept,
            can_go_back: view.can_go_back,
            can_go_forward: view.can_go_forward,
            can_go_up: view.can_go_up,
        };
        proof {
            let b = base;
            assert(result@.items =~= views_of(result.items@));
            assert(listing_ok(ExplorerViewV { items: b, ..result@ }, self.cursor(), scan_views(scan->Ok_0@)));
            assert(result@.items == search_filter(b, query@));
        }
        Ok(result)
    }
}

/// What every mutating operation promises: a malformed name is
/// rejected, a reported conflict or failure is surfaced with its
/// message, and a completed action yields a fresh listing of the
/// unchanged cursor directory.
pub open spec fn mutation_contract(
    cursor: Seq<char>,
    name: Seq<char>,
    outcome: FsOutcome,
    rescan: Result<Vec<ScanEntry>, AppError>,
    r: Result<ExplorerView, AppError>,
) -> bool {
    &&& (r is Ok <==> (!has_nul(name) && outcome is Done && rescan is Ok))
    &&& (has_nul(name) ==> r->Err_0.message@ == msg_invalid_input())
    &&& (!has_nul(name) && outcome is AlreadyExists ==> r->Err_0.message@ == msg_already_exists())
    &&& (!has_nul(name) && outcome is Failed ==> r->Err_0.message@ == outcome->Failed_0@)
    &&& (!has_nul(name) && outcome is Done && rescan is Err ==> r->Err_0.message@
        == rescan->Err_0.message@)
    &&& (r is Ok ==> listing_ok(r->Ok_0@, cursor, scan_views(rescan->Ok_0@)))
}

} // verus!
