use vstd::prelude::*;
use vstd::string::StrSliceExecFns;
use vstd::string::StringExecFns;

use crate::models::AppError;
use crate::models::msg_invalid_input;

verus! {

/// An absolute path: nonempty and rooted at the separator.
pub open spec fn is_abs(p: Seq<char>) -> bool {
    p.len() > 0 && p[0] == '/'
}

/// A normal cursor path: absolute, and with no trailing separator
/// unless it is the root itself.
pub open spec fn is_normal(p: Seq<char>) -> bool {
    is_abs(p) && (p.len() == 1 || p.last() != '/')
}

/// Path text the OS path representation rejects: an embedded NUL.
pub open spec fn has_nul(s: Seq<char>) -> bool {
    exists|i: int| 0 <= i < s.len() && s[i] == '\0'
}

/// Joining a name onto a directory: an absolute name is used verbatim,
/// anything else is appended behind a separator.
pub open spec fn join_of(dir: Seq<char>, name: Seq<char>) -> Seq<char> {
    if is_abs(name) {
        name
    } else if dir.len() > 0 && dir.last() == '/' {
        dir + name
    } else {
        dir + seq!['/'] + name
    }
}

/// Drops every trailing separator.
pub open spec fn strip_trailing_slashes(p: Seq<char>) -> Seq<char>
    decreases p.len(),
{
    if p.len() > 0 && p.last() == '/' {
        strip_trailing_slashes(p.drop_last())
    } else {
        p
    }
}

/// Drops the trailing run of non-separator characters.
pub open spec fn strip_last_component(p: Seq<char>) -> Seq<char>
    decreases p.len(),
{
    if p.len() > 0 && p.last() != '/' {
        strip_last_component(p.drop_last())
    } else {
        p
    }
}

/// The parent of an absolute path: `None` for the root, otherwise the
/// path with its last component and surplus separators removed.
pub open spec fn parent_of(p: Seq<char>) -> Option<Seq<char>> {
    let q = strip_trailing_slashes(p);
    if q.len() == 0 {
        None
    } else {
        let r = strip_trailing_slashes(strip_last_component(q));
        if r.len() == 0 {
            Some(seq!['/'])
        } else {
            Some(r)
        }
    }
}

/// `strip_trailing_slashes` yields a prefix whose last character, if
/// any, is not a separator.
pub proof fn lemma_strip_trailing_prefix(p: Seq<char>)
    ensures
        strip_trailing_slashes(p).len() <= p.len(),
        strip_trailing_slashes(p) == p.take(strip_trailing_slashes(p).len() as int),
        strip_trailing_slashes(p).len() > 0 ==> strip_trailing_slashes(p).last() != '/',
    decreases p.len(),
{
    if p.len() > 0 && p.last() == '/' {
        lemma_strip_trailing_prefix(p.drop_last());
        assert(p.drop_last() =~= p.take(p.len() - 1));
        assert(p.drop_last().take(strip_trailing_slashes(p).len() as int) =~= p.take(
            strip_trailing_slashes(p).len() as int,
        ));
    } else {
        assert(p =~= p.take(p.len() as int));
    }
}

/// `strip_last_component` yields a prefix whose last character, if any,
/// is a separator.
pub proof fn lemma_strip_component_prefix(p: Seq<char>)
    ensures
        strip_last_component(p).len() <= p.len(),
        strip_last_component(p) == p.take(strip_last_component(p).len() as int),
        strip_last_component(p).len() > 0 ==> strip_last_component(p).last() == '/',
    decreases p.len(),
{
    if p.len() > 0 && p.last() != '/' {
        lemma_strip_component_prefix(p.drop_last());
        assert(p.drop_last() =~= p.take(p.len() - 1));
        assert(p.drop_last().take(strip_last_component(p).len() as int) =~= p.take(
            strip_last_component(p).len() as int,
        ));
    } else {
        assert(p =~= p.take(p.len() as int));
    }
}

/// Appending characters that are not separators does not change where
/// the last component starts.
proof fn lemma_strip_component_append(d: Seq<char>, n: Seq<char>)
    requires
        forall|i: int| 0 <= i < n.len() ==> n[i] != '/',
    ensures
        strip_last_component(d + n) == strip_last_component(d),
    decreases n.len(),
{
    if n.len() == 0 {
        assert(d + n =~= d);
    } else {
        assert((d + n).last() == n.last());
        assert((d + n).drop_last() =~= d + n.drop_last());
        lemma_strip_component_append(d, n.drop_last());
    }
}

/// The parent of an absolute path is again absolute and normal.
pub proof fn lemma_parent_normal(p: Seq<char>, q: Seq<char>)
    requires
        is_abs(p),
        parent_of(p) == Some(q),
    ensures
        is_normal(q),
        q.len() <= p.len(),
{
    lemma_strip_trailing_prefix(p);
    let s = strip_trailing_slashes(p);
    lemma_strip_component_prefix(s);
    let t = strip_last_component(s);
    lemma_strip_trailing_prefix(t);
    let r = strip_trailing_slashes(t);
    if r.len() == 0 {
    } else {
        assert(r[0] == p[0]);
    }
}

/// Law: opening a plain name below a normal cursor and then taking the
/// parent restores the cursor exactly.
pub proof fn lemma_open_then_go_back_restores(cur: Seq<char>, name: Seq<char>)
    requires
        is_normal(cur),
        name.len() > 0,
        forall|i: int| 0 <= i < name.len() ==> name[i] != '/',
    ensures
        parent_of(join_of(cur, name)) == Some(cur),
{
    assert(!is_abs(name));
    if cur.last() == '/' {
        // the cursor is the root itself
        let j = cur + name;
        assert(j.last() == name.last());
        assert(strip_trailing_slashes(j) == j);
        lemma_strip_component_append(cur, name);
        assert(strip_last_component(j) == strip_last_component(cur));
        assert(strip_last_component(cur) == cur);
        assert(strip_trailing_slashes(cur) =~= strip_trailing_slashes(cur.drop_last()));
        assert(cur.drop_last() =~= Seq::<char>::empty());
        assert(strip_trailing_slashes(cur).len() == 0);
        assert(parent_of(j) == Some(seq!['/']));
        assert(cur =~= seq!['/']);
    } else {
        let d = cur + seq!['/'];
        let j = d + name;
        assert(join_of(cur, name) =~= j);
        assert(j.last() == name.last());
        assert(strip_trailing_slashes(j) == j);
        lemma_strip_component_append(d, name);
        assert(strip_last_component(j) == strip_last_component(d));
        assert(d.last() == '/');
        assert(strip_last_component(d) == d);
        assert(d.drop_last() =~= cur);
        assert(strip_trailing_slashes(d) =~= strip_trailing_slashes(cur));
        assert(strip_trailing_slashes(cur) == cur);
        assert(cur.len() > 0);
        assert(parent_of(j) == Some(cur));
    }
}

/// Joining anything onto an absolute directory stays absolute.
pub proof fn lemma_join_abs(dir: Seq<char>, name: Seq<char>)
    requires
        is_abs(dir),
    ensures
        is_abs(join_of(dir, name)),
{
    if !is_abs(name) {
        if dir.last() == '/' {
            assert((dir + name)[0] == dir[0]);
        } else {
            assert((dir + seq!['/'] + name)[0] == dir[0]);
        }
    }
}

/// Reports whether the path text contains an embedded NUL character.
fn contains_nul(s: &str) -> (r: bool)
    ensures
        r == has_nul(s@),
{
    let n = s.unicode_len();
    let mut i: usize = 0;
    while i < n
        invariant
            i <= n,
            n == s@.len(),
            forall|j: int| 0 <= j < i ==> s@[j] != '\0',
        decreases n - i,
    {
        if s.get_char(i) == '\0' {
            return true;
        }
        i += 1;
    }
    false
}

/// Reports whether the path text is absolute.
pub fn is_absolute(s: &str) -> (r: bool)
    ensures
        r == is_abs(s@),
{
    if s.unicode_len() == 0 {
        false
    } else {
        s.get_char(0) == '/'
    }
}

/// Resolves user-supplied path text against the current directory:
/// absolute input is taken verbatim, anything else is joined onto the
/// current directory.  Rejects only text the OS path representation
/// cannot hold (an embedded NUL).
pub fn resolve(current: &str, input: &str) -> (r: Result<String, AppError>)
    ensures
        r is Err <==> has_nul(input@),
        r is Err ==> r->Err_0.message@ == msg_invalid_input(),
        r is Ok ==> r->Ok_0@ == join_of(current@, input@),
{
    if contains_nul(input) {
        return Err(AppError::invalid_input());
    }
    if is_absolute(input) {
        return Ok(input.to_owned());
    }
    let mut out = current.to_owned();
    let clen = current.unicode_len();
    if clen == 0 || current.get_char(clen - 1) != '/' {
        out.append("/");
        proof {
            reveal_strlit("/");
            assert("/"@ =~= seq!['/']);
        }
    }
    out.append(input);
    proof {
        if current@.len() > 0 && current@.last() == '/' {
            assert(out@ =~= current@ + input@);
        } else {
            assert(out@ =~= current@ + seq!['/'] + input@);
        }
    }
    Ok(out)
}

/// The parent directory of an absolute path: `None` at the root.
pub fn parent_dir(p: &str) -> (r: Option<String>)
    requires
        is_abs(p@),
    ensures
        match r {
            Some(q) => parent_of(p@) == Some(q@),
            None => parent_of(p@) is None,
        },
{
    let n = p.unicode_len();
    proof {
        assert(p@.take(n as int) =~= p@);
    }
    // end of the path with trailing separators dropped
    let mut e: usize = n;
    while e > 0 && p.get_char(e - 1) == '/'
        invariant
            e <= n,
            n == p@.len(),
            strip_trailing_slashes(p@) == strip_trailing_slashes(p@.take(e as int)),
        decreases e,
    {
        proof {
            assert(p@.take(e as int).last() == '/');
            assert(p@.take(e as int).drop_last() =~= p@.take(e - 1));
        }
        e -= 1;
    }
    proof {
        assert(p@.take(n as int) =~= p@);
        if e > 0 {
            assert(p@.take(e as int).last() != '/');
        }
        assert(strip_trailing_slashes(p@) == p@.take(e as int));
    }
    if e == 0 {
        proof {
            assert(p@.take(0).len() == 0);
        }
        return None;
    }
    // start of the last component
    let mut m: usize = e;
    while m > 0 && p.get_char(m - 1) != '/'
        invariant
            m <= e,
            e <= n,
            n == p@.len(),
            strip_last_component(p@.take(e as int)) == strip_last_component(p@.take(m as int)),
        decreases m,
    {
        proof {
            assert(p@.take(m as int).last() != '/');
            assert(p@.take(m as int).drop_last() =~= p@.take(m - 1));
        }
        m -= 1;
    }
    proof {
        if m > 0 {
            assert(p@.take(m as int).last() == '/');
        }
        assert(strip_last_component(p@.take(e as int)) == p@.take(m as int));
    }
    // drop the separators in front of the removed component
    let mut k: usize = m;
    while k > 0 && p.get_char(k - 1) == '/'
        invariant
            k <= m,
            m <= n,
            n == p@.len(),
            strip_trailing_slashes(p@.take(m as int)) == strip_trailing_slashes(p@.take(k as int)),
        decreases k,
    {
        proof {
            assert(p@.take(k as int).last() == '/');
            assert(p@.take(k as int).drop_last() =~= p@.take(k - 1));
        }
        k -= 1;
    }
    proof {
        if k > 0 {
            assert(p@.take(k as int).last() != '/');
        }
        assert(strip_trailing_slashes(p@.take(m as int)) == p@.take(k as int));
    }
    if k == 0 {
        let root = "/".to_owned();
        proof {
            reveal_strlit("/");
            assert(root@ =~= seq!['/']);
            assert(p@.take(0).len() == 0);
        }
        Some(root)
    } else {
        let q = p.substring_char(0, k);
        Some(q.to_owned())
    }
}

/// Whether the path has a parent, hence whether going back or up is possible.
pub fn has_parent(p: &str) -> (r: bool)
    requires
        is_abs(p@),
    ensures
        r == (parent_of(p@) is Some),
{
    let d = parent_dir(p);
    d.is_some()
}

} // verus!
