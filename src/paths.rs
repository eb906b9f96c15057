//! POSIX path arithmetic on strings: joining, parents, and relative paths.
//!
//! Paths are `/`-separated strings. A path that starts with `/` is absolute.

use vstd::prelude::*;
use vstd::string::StrSliceExecFns;
use vstd::string::StringExecFns;

verus! {

/// `rel` resolved against `base`: an absolute `rel` replaces `base`; otherwise
/// the two are joined with a single separator unless `base` is empty or
/// already ends with one.
pub open spec fn join_spec(base: Seq<char>, rel: Seq<char>) -> Seq<char> {
    if rel.len() > 0 && rel[0] == '/' {
        rel
    } else if base.len() == 0 || base.last() == '/' {
        base + rel
    } else {
        base + seq!['/'] + rel
    }
}

/// `p` without trailing separators, keeping a lone root `/`.
pub open spec fn trim_end_sep(p: Seq<char>) -> Seq<char>
    decreases p.len(),
{
    if p.len() > 1 && p.last() == '/' {
        trim_end_sep(p.drop_last())
    } else {
        p
    }
}

/// The index of the last separator in `p`, or -1 if it has none.
pub open spec fn last_sep(p: Seq<char>) -> int
    decreases p.len(),
{
    if p.len() == 0 {
        -1
    } else if p.last() == '/' {
        p.len() - 1
    } else {
        last_sep(p.drop_last())
    }
}

/// The path without its final component: `None` for the empty path and for
/// the root, the empty path for a single relative component.
pub open spec fn parent_spec(p: Seq<char>) -> Option<Seq<char>> {
    let t = trim_end_sep(p);
    if t.len() == 0 || t == seq!['/'] {
        None
    } else if last_sep(t) < 0 {
        Some(Seq::empty())
    } else if last_sep(t) == 0 {
        Some(seq!['/'])
    } else {
        Some(trim_end_sep(t.subrange(0, last_sep(t))))
    }
}

/// `p` relative to `root`, when `root` is `p` or one of its ancestors.
pub open spec fn relative_spec(p: Seq<char>, root: Seq<char>) -> Option<Seq<char>> {
    if root.len() <= p.len() && p.subrange(0, root.len() as int) == root {
        if p.len() == root.len() {
            Some(Seq::empty())
        } else if p[root.len() as int] == '/' {
            Some(p.subrange(root.len() as int + 1, p.len() as int))
        } else if root.len() > 0 && root.last() == '/' {
            Some(p.subrange(root.len() as int, p.len() as int))
        } else {
            None
        }
    } else {
        None
    }
}

proof fn lemma_last_sep_bounds(p: Seq<char>)
    ensures
        -1 <= last_sep(p) < p.len(),
        last_sep(p) >= 0 ==> p[last_sep(p)] == '/',
    decreases p.len(),
{
    if p.len() > 0 && p.last() != '/' {
        lemma_last_sep_bounds(p.drop_last());
    }
}

proof fn lemma_trim_end_sep_len(p: Seq<char>)
    ensures
        trim_end_sep(p).len() <= p.len(),
        p.len() > 0 ==> trim_end_sep(p).len() > 0,
        trim_end_sep(p).len() > 0 ==> trim_end_sep(p)[0] == p[0],
    decreases p.len(),
{
    if p.len() > 1 && p.last() == '/' {
        lemma_trim_end_sep_len(p.drop_last());
    }
}

/// A parent is strictly shorter than its child, so never the child itself.
pub proof fn lemma_parent_shorter(p: Seq<char>)
    ensures
        parent_spec(p) matches Some(q) ==> q.len() < p.len(),
{
    let t = trim_end_sep(p);
    lemma_trim_end_sep_len(p);
    lemma_last_sep_bounds(t);
    if t.len() > 0 && t != seq!['/'] && last_sep(t) > 0 {
        lemma_trim_end_sep_len(t.subrange(0, last_sep(t)));
    }
    if t.len() == 1 && last_sep(t) == 0 {
        assert(t =~= seq!['/']);
    }
}

proof fn lemma_last_sep_append(pre: Seq<char>, a: Seq<char>)
    requires
        forall|i: int| 0 <= i < a.len() ==> a[i] != '/',
    ensures
        last_sep(pre + a) == last_sep(pre),
    decreases a.len(),
{
    if a.len() == 0 {
        assert(pre + a =~= pre);
    } else {
        assert((pre + a).drop_last() =~= pre + a.drop_last());
        lemma_last_sep_append(pre, a.drop_last());
    }
}

/// The parent of `pre + a`, for a single component `a`, is no longer than
/// `pre`.
pub proof fn lemma_parent_of_component(pre: Seq<char>, a: Seq<char>)
    requires
        a.len() > 0,
        forall|i: int| 0 <= i < a.len() ==> a[i] != '/',
    ensures
        parent_spec(pre + a) matches Some(q) ==> q.len() <= pre.len(),
{
    let t = pre + a;
    assert(t.last() == a[a.len() - 1]);
    assert(trim_end_sep(t) == t);
    lemma_last_sep_append(pre, a);
    lemma_last_sep_bounds(pre);
    if last_sep(pre) > 0 {
        assert(t.subrange(0, last_sep(t)).len() == last_sep(pre));
        lemma_trim_end_sep_len(t.subrange(0, last_sep(t)));
    }
}

/// Join `rel` onto `base`.
pub fn join(base: &str, rel: &str) -> (r: String)
    ensures
        r@ == join_spec(base@, rel@),
{
    proof {
        reveal_strlit("/");
    }
    let rel_len = rel.unicode_len();
    if rel_len > 0 && rel.get_char(0) == '/' {
        return rel.to_owned();
    }
    let base_len = base.unicode_len();
    if base_len == 0 || base.get_char(base_len - 1) == '/' {
        base.to_owned().concat(rel)
    } else {
        base.to_owned().concat("/").concat(rel)
    }
}

/// The length of `p` once trailing separators are dropped.
fn trimmed_len(p: &str, len: usize) -> (n: usize)
    requires
        len <= p@.len(),
    ensures
        n <= len,
        trim_end_sep(p@.subrange(0, len as int)) == p@.subrange(0, n as int),
{
    let mut n = len;
    loop
        invariant
            n <= len <= p@.len(),
            trim_end_sep(p@.subrange(0, len as int)) == trim_end_sep(p@.subrange(0, n as int)),
        decreases n,
    {
        if n <= 1 || p.get_char(n - 1) != '/' {
            return n;
        }
        assert(p@.subrange(0, n as int).drop_last() =~= p@.subrange(0, n - 1));
        n = n - 1;
    }
}

/// The index of the last separator among the first `len` characters of `p`.
fn last_sep_index(p: &str, len: usize) -> (r: Option<usize>)
    requires
        len <= p@.len(),
    ensures
        match r {
            Some(i) => last_sep(p@.subrange(0, len as int)) == i as int,
            None => last_sep(p@.subrange(0, len as int)) == -1,
        },
{
    let mut n = len;
    loop
        invariant
            n <= len <= p@.len(),
            last_sep(p@.subrange(0, len as int)) == last_sep(p@.subrange(0, n as int)),
        decreases n,
    {
        if n == 0 {
            return None;
        }
        if p.get_char(n - 1) == '/' {
            return Some(n - 1);
        }
        assert(p@.subrange(0, n as int).drop_last() =~= p@.subrange(0, n - 1));
        n = n - 1;
    }
}

/// The path without its final component.
pub fn parent(p: &str) -> (r: Option<String>)
    ensures
        match r {
            Some(q) => parent_spec(p@) == Some(q@),
            None => parent_spec(p@) is None,
        },
{
    proof {
        reveal_strlit("/");
        reveal_strlit("");
    }
    let len = p.unicode_len();
    let n = trimmed_len(p, len);
    assert(p@.subrange(0, len as int) =~= p@);
    let ghost t = p@.subrange(0, n as int);
    if n == 0 || (n == 1 && p.get_char(0) == '/') {
        assert(n == 1 ==> t =~= seq!['/']);
        return None;
    }
    assert(t != seq!['/']) by {
        if n == 1 {
            assert(t[0] == p@[0]);
            assert(seq!['/'][0] == '/');
        } else {
            assert(t.len() != seq!['/'].len());
        }
    }
    match last_sep_index(p, n) {
        None => Some(String::from_str("")),
        Some(0) => Some(String::from_str("/")),
        Some(i) => {
            proof {
                lemma_last_sep_bounds(t);
            }
            let m = trimmed_len(p, i);
            assert(t.subrange(0, i as int) =~= p@.subrange(0, i as int));
            Some(p.substring_char(0, m).to_owned())
        },
    }
}

/// `p` relative to its ancestor `root`.
pub fn relative(p: &str, root: &str) -> (r: Option<String>)
    ensures
        match r {
            Some(q) => relative_spec(p@, root@) == Some(q@),
            None => relative_spec(p@, root@) is None,
        },
{
    proof {
        reveal_strlit("");
    }
    let p_len = p.unicode_len();
    let root_len = root.unicode_len();
    if root_len > p_len {
        return None;
    }
    let mut i: usize = 0;
    while i < root_len
        invariant
            i <= root_len <= p_len,
            root_len == root@.len(),
            p_len == p@.len(),
            p@.subrange(0, i as int) =~= root@.subrange(0, i as int),
        decreases root_len - i,
    {
        if p.get_char(i) != root.get_char(i) {
            assert(p@.subrange(0, root_len as int)[i as int] != root@[i as int]);
            return None;
        }
        i = i + 1;
    }
    assert(root@.subrange(0, root_len as int) =~= root@);
    if p_len == root_len {
        Some(String::from_str(""))
    } else if p.get_char(root_len) == '/' {
        Some(p.substring_char(root_len + 1, p_len).to_owned())
    } else if root_len > 0 && root.get_char(root_len - 1) == '/' {
        Some(p.substring_char(root_len, p_len).to_owned())
    } else {
        None
    }
}

} // verus!
