//! A model of the filesystem that plans act on, and the laws that tie the
//! fixture plans to the assertions.
//!
//! The model maps each path to what lies there. A step's effect is the one it
//! has when it succeeds; symlinks are followed one hop when a path is
//! observed.

use vstd::prelude::*;
use vstd::utf8::{encode_utf8, encode_utf8_decode_utf8, encode_utf8_valid_utf8, valid_utf8};
use crate::assertion::{
    bytes_debug, case_spec, holds, text_diff, PathPredicate, PathState, PredicateView,
    StrPredicateView,
};
use crate::fixture::{Step, WalkItemView, copy_spec, parent_steps, touch_steps, write_steps};
use crate::paths::{join_spec, lemma_parent_of_component, lemma_parent_shorter, parent_spec};

verus! {

/// What lies at a path.
pub enum Node {
    File(Seq<u8>),
    Dir,
    Symlink(Seq<char>),
}

pub type Tree = Map<Seq<char>, Node>;

/// What `p` leads to, following a symlink one hop; `None` when nothing is
/// there or the link dangles.
pub open spec fn resolve(fs: Tree, p: Seq<char>) -> Option<Node> {
    if !fs.contains_key(p) {
        None
    } else {
        match fs[p] {
            Node::Symlink(t) => if fs.contains_key(t) && !(fs[t] is Symlink) {
                Some(fs[t])
            } else {
                None
            },
            n => Some(n),
        }
    }
}

/// The tree after `s` succeeded.
pub open spec fn apply_step(fs: Tree, s: Step) -> Tree {
    match s {
        Step::CreateDirAll(p) => fs.insert(p, Node::Dir),
        Step::Touch(p) => match resolve(fs, p) {
            Some(Node::File(_)) => fs,
            _ => fs.insert(p, Node::File(Seq::empty())),
        },
        Step::WriteFile(p, d) => fs.insert(p, Node::File(d)),
        Step::CopyFile(from, to) => match resolve(fs, from) {
            Some(Node::File(d)) => fs.insert(to, Node::File(d)),
            _ => fs,
        },
        Step::SymlinkFile(link, target) => fs.insert(link, Node::Symlink(target)),
        Step::SymlinkDir(link, target) => fs.insert(link, Node::Symlink(target)),
    }
}

/// The tree after all of `steps` succeeded, in order.
pub open spec fn run(fs: Tree, steps: Seq<Step>) -> Tree
    decreases steps.len(),
{
    if steps.len() == 0 {
        fs
    } else {
        apply_step(run(fs, steps.drop_last()), steps.last())
    }
}

/// `st` is what observing `p` in `fs` reports.
pub open spec fn observes(st: PathState, fs: Tree, p: Seq<char>) -> bool {
    &&& st.path@ == p
    &&& st.exists == resolve(fs, p) is Some
    &&& st.is_file == (resolve(fs, p) matches Some(Node::File(_)))
    &&& st.is_dir == (resolve(fs, p) matches Some(Node::Dir))
    &&& st.is_symlink == (fs.contains_key(p) && fs[p] is Symlink)
    &&& match resolve(fs, p) {
        Some(Node::File(d)) => match st.content {
            Ok(c) => c@ == d,
            Err(_) => false,
        },
        _ => st.content is Err,
    }
}

proof fn lemma_run_push(fs: Tree, steps: Seq<Step>, s: Step)
    ensures
        run(fs, steps.push(s)) == apply_step(run(fs, steps), s),
{
    assert(steps.push(s).drop_last() =~= steps);
}

/// After writing `data` to `p`, the file at `p` holds exactly `data`.
proof fn lemma_write_lands(fs: Tree, p: Seq<char>, data: Seq<u8>)
    ensures
        run(fs, write_steps(p, data)).contains_key(p),
        run(fs, write_steps(p, data))[p] == Node::File(data),
{
    lemma_run_push(fs, parent_steps(p), Step::WriteFile(p, data));
}

/// Writing bytes to a path, then asserting that its content equals those bytes,
/// succeeds. Asserting any other bytes fails, and the explanation shows the
/// path, the expected bytes and the actual ones.
pub proof fn law_bytes_round_trip(fs: Tree, p: Seq<char>, b: Seq<u8>, other: Seq<u8>, st: PathState)
    requires
        observes(st, run(fs, write_steps(p, b)), p),
    ensures
        holds(PredicateView::Bytes(b), st),
        other != b ==> !holds(PredicateView::Bytes(other), st),
        case_spec(PredicateView::Bytes(other), false, st).products == seq![
            ("var"@, p),
            ("expected"@, bytes_debug(other)),
            ("actual"@, bytes_debug(b)),
        ],
{
    lemma_write_lands(fs, p, b);
}

/// Writing a text to a path, then asserting that its content equals that
/// text, succeeds. Asserting any other text fails, and the explanation
/// carries the line diff from the file's text to the expected one.
pub proof fn law_text_round_trip(fs: Tree, p: Seq<char>, s: Seq<char>, other: Seq<char>, st: PathState)
    requires
        observes(st, run(fs, write_steps(p, encode_utf8(s))), p),
    ensures
        holds(PredicateView::Text(s), st),
        other != s ==> !holds(PredicateView::Text(other), st),
        other != s ==> case_spec(PredicateView::Text(other), false, st).products == seq![
            ("var"@, p),
            ("diff"@, text_diff(s, other)),
        ],
{
    lemma_write_lands(fs, p, encode_utf8(s));
    encode_utf8_valid_utf8(s);
    encode_utf8_decode_utf8(s);
}

/// Content that is not valid UTF-8 fails every text assertion: the expected
/// text, and every predicate over text. The explanation names the decoding
/// error.
pub proof fn law_invalid_utf8_fails(st: PathState, t: Seq<char>, q: StrPredicateView)
    requires
        st.content matches Ok(c) && !valid_utf8(c@),
    ensures
        !holds(PredicateView::Text(t), st),
        !holds(PredicateView::TextPred(q), st),
        case_spec(PredicateView::Text(t), false, st).products == seq![
            ("var"@, st.path@),
            ("error"@, "invalid UTF-8"@),
        ],
        case_spec(PredicateView::TextPred(q), false, st).products == seq![
            ("var"@, st.path@),
            ("error"@, "invalid UTF-8"@),
        ],
{
}

/// Touching `p` creates nothing but `p` and its parent.
proof fn lemma_touch_untouched(fs: Tree, p: Seq<char>, q: Seq<char>)
    requires
        q != p,
        parent_spec(p) != Some(q),
        !fs.contains_key(q),
    ensures
        !run(fs, touch_steps(p)).contains_key(q),
{
    lemma_run_push(fs, parent_steps(p), Step::Touch(p));
    let before = run(fs, parent_steps(p));
    assert(run(fs, Seq::<Step>::empty()) == fs);
    if parent_steps(p).len() > 0 {
        assert(parent_steps(p).drop_last() =~= Seq::<Step>::empty());
        assert(before == apply_step(fs, parent_steps(p).last()));
    } else {
        assert(parent_steps(p) =~= Seq::<Step>::empty());
    }
    assert(!before.contains_key(q));
}

/// Touching the entry `a` of a directory `d` leaves a missing sibling entry
/// `b` missing.
pub proof fn law_touch_leaves_sibling_missing(
    fs: Tree,
    d: Seq<char>,
    a: Seq<char>,
    b: Seq<char>,
    st: PathState,
)
    requires
        a.len() > 0,
        b.len() > 0,
        a != b,
        forall|i: int| 0 <= i < a.len() ==> a[i] != '/',
        forall|i: int| 0 <= i < b.len() ==> b[i] != '/',
        !fs.contains_key(join_spec(d, b)),
        observes(st, run(fs, touch_steps(join_spec(d, a))), join_spec(d, b)),
    ensures
        holds(PredicateView::Path(PathPredicate::Missing), st),
{
    let pre = if d.len() == 0 || d.last() == '/' {
        d
    } else {
        d + seq!['/']
    };
    let p = join_spec(d, a);
    let q = join_spec(d, b);
    assert(a[0] != '/' && b[0] != '/');
    assert(p == pre + a);
    assert(q == pre + b);
    if p == q {
        assert(a =~= p.subrange(pre.len() as int, p.len() as int));
        assert(b =~= q.subrange(pre.len() as int, q.len() as int));
    }
    lemma_parent_of_component(pre, a);
    lemma_touch_untouched(fs, p, q);
}

/// After touching `p`, `p` exists; a path `q` that was missing and is neither
/// `p` nor its parent is still missing.
pub proof fn law_touch_then_exists(
    fs: Tree,
    p: Seq<char>,
    q: Seq<char>,
    st_p: PathState,
    st_q: PathState,
)
    requires
        observes(st_p, run(fs, touch_steps(p)), p),
        observes(st_q, run(fs, touch_steps(p)), q),
        q != p,
        parent_spec(p) != Some(q),
        !fs.contains_key(q),
    ensures
        holds(PredicateView::Path(PathPredicate::Exists), st_p),
        holds(PredicateView::Path(PathPredicate::Missing), st_q),
{
    lemma_touch_untouched(fs, p, q);
    lemma_run_push(fs, parent_steps(p), Step::Touch(p));
}

/// Touching a path that already holds a file keeps the file's content.
pub proof fn law_touch_keeps_content(fs: Tree, p: Seq<char>, c: Seq<u8>, st: PathState)
    requires
        fs.contains_key(p),
        fs[p] == Node::File(c),
        observes(st, run(fs, touch_steps(p)), p),
    ensures
        holds(PredicateView::Bytes(c), st),
{
    lemma_run_push(fs, parent_steps(p), Step::Touch(p));
    lemma_parent_shorter(p);
    let before = run(fs, parent_steps(p));
    assert(run(fs, Seq::<Step>::empty()) == fs);
    if parent_steps(p).len() > 0 {
        assert(parent_steps(p).drop_last() =~= Seq::<Step>::empty());
        assert(before == apply_step(fs, parent_steps(p).last()));
    } else {
        assert(parent_steps(p) =~= Seq::<Step>::empty());
    }
    assert(before.contains_key(p) && before[p] == Node::File(c));
}

/// A symlink to an existing directory observes as an existing directory.
pub proof fn law_symlink_to_dir(fs: Tree, link: Seq<char>, target: Seq<char>, st: PathState)
    requires
        fs.contains_key(target),
        fs[target] is Dir,
        link != target,
        observes(st, run(fs, seq![Step::SymlinkDir(link, target)]), link),
    ensures
        holds(PredicateView::Path(PathPredicate::IsDir), st),
        holds(PredicateView::Path(PathPredicate::Exists), st),
        holds(PredicateView::Path(PathPredicate::IsSymlink), st),
{
    lemma_run_push(fs, Seq::empty(), Step::SymlinkDir(link, target));
    assert(Seq::<Step>::empty().push(Step::SymlinkDir(link, target)) =~= seq![
        Step::SymlinkDir(link, target),
    ]);
}

/// The path that a step writes.
pub open spec fn written(s: Step) -> Seq<char> {
    match s {
        Step::CreateDirAll(p) => p,
        Step::Touch(p) => p,
        Step::WriteFile(p, _) => p,
        Step::CopyFile(_, to) => to,
        Step::SymlinkFile(link, _) => link,
        Step::SymlinkDir(link, _) => link,
    }
}

/// Whether step `s`, run on `fs`, reads what lies at `k`: a copy reads its
/// source and, when the source is a symlink, the link's target; a touch reads
/// whether its own path already holds a file.
pub open spec fn reads(fs: Tree, s: Step, k: Seq<char>) -> bool {
    match s {
        Step::Touch(p) => k == p,
        Step::CopyFile(from, _) => k == from || (fs.contains_key(from) && fs[from] == Node::Symlink(
            k,
        )),
        _ => false,
    }
}

/// No step of `steps` writes a path that a step of `steps` reads in `fs`.
pub open spec fn reads_untouched(fs: Tree, steps: Seq<Step>) -> bool {
    forall|i: int, j: int, k: Seq<char>|
        0 <= i < steps.len() && 0 <= j < steps.len() && #[trigger] reads(fs, steps[i], k) ==> k
            != #[trigger] written(steps[j])
}

/// `g` and `fs` hold the same at `k`.
pub open spec fn agree(g: Tree, fs: Tree, k: Seq<char>) -> bool {
    &&& g.contains_key(k) == fs.contains_key(k)
    &&& fs.contains_key(k) ==> g[k] == fs[k]
}

/// What the steps write, last write winning, when what they read is as in `fs`.
pub open spec fn delta(fs: Tree, steps: Seq<Step>) -> Tree
    decreases steps.len(),
{
    if steps.len() == 0 {
        Map::empty()
    } else {
        let d = delta(fs, steps.drop_last());
        match steps.last() {
            Step::CopyFile(from, to) => match resolve(fs, from) {
                Some(Node::File(data)) => d.insert(to, Node::File(data)),
                _ => d,
            },
            s => apply_step(d, s),
        }
    }
}

proof fn lemma_delta_keys_written(fs: Tree, steps: Seq<Step>, k: Seq<char>)
    requires
        delta(fs, steps).contains_key(k),
    ensures
        exists|j: int| 0 <= j < steps.len() && #[trigger] written(steps[j]) == k,
    decreases steps.len(),
{
    let prev = steps.drop_last();
    let last = steps.last();
    if delta(fs, prev).contains_key(k) && written(last) != k {
        lemma_delta_keys_written(fs, prev, k);
        let j = choose|j: int| 0 <= j < prev.len() && #[trigger] written(prev[j]) == k;
        assert(steps[j] == prev[j]);
    } else {
        assert(written(steps[steps.len() - 1]) == k);
    }
}

proof fn lemma_resolve_agrees(g: Tree, fs: Tree, from: Seq<char>)
    requires
        agree(g, fs, from),
        fs.contains_key(from) && fs[from] is Symlink ==> agree(g, fs, fs[from]->Symlink_0),
    ensures
        resolve(g, from) == resolve(fs, from),
{
}

/// Run from any tree that agrees with `fs` wherever the steps read, the
/// steps overlay that tree with `delta(fs, steps)`.
proof fn lemma_run_overlay(fs: Tree, g: Tree, steps: Seq<Step>)
    requires
        reads_untouched(fs, steps),
        forall|i: int, k: Seq<char>|
            0 <= i < steps.len() && #[trigger] reads(fs, steps[i], k) ==> agree(g, fs, k),
    ensures
        run(g, steps) == g.union_prefer_right(delta(fs, steps)),
    decreases steps.len(),
{
    if steps.len() == 0 {
        assert(g.union_prefer_right(Map::empty()) =~= g);
    } else {
        let prev = steps.drop_last();
        let last = steps.last();
        let n = steps.len() - 1;
        assert forall|i: int, j: int, k: Seq<char>|
            0 <= i < prev.len() && 0 <= j < prev.len() && #[trigger] reads(fs, prev[i], k) implies k
            != #[trigger] written(prev[j]) by {
            assert(prev[i] == steps[i] && prev[j] == steps[j]);
        }
        assert forall|i: int, k: Seq<char>|
            0 <= i < prev.len() && #[trigger] reads(fs, prev[i], k) implies agree(g, fs, k) by {
            assert(prev[i] == steps[i]);
        }
        lemma_run_overlay(fs, g, prev);
        let d = delta(fs, prev);
        let h = g.union_prefer_right(d);
        match last {
            Step::CopyFile(from, to) => {
                assert(steps[n] == last);
                assert(reads(fs, steps[n], from));
                assert(agree(g, fs, from));
                if d.contains_key(from) {
                    lemma_delta_keys_written(fs, prev, from);
                    let j = choose|j: int| 0 <= j < prev.len() && #[trigger] written(prev[j]) == from;
                    assert(written(steps[j]) == from);
                }
                assert(agree(h, fs, from));
                if fs.contains_key(from) && fs[from] is Symlink {
                    let t = fs[from]->Symlink_0;
                    assert(reads(fs, steps[n], t));
                    assert(agree(g, fs, t));
                    if d.contains_key(t) {
                        lemma_delta_keys_written(fs, prev, t);
                        let j = choose|j: int| 0 <= j < prev.len() && #[trigger] written(prev[j]) == t;
                        assert(written(steps[j]) == t);
                    }
                    assert(agree(h, fs, t));
                }
                lemma_resolve_agrees(h, fs, from);
                match resolve(fs, from) {
                    Some(Node::File(data)) => {
                        assert(h.insert(to, Node::File(data)) =~= g.union_prefer_right(
                            d.insert(to, Node::File(data)),
                        ));
                    },
                    _ => {},
                }
            },
            Step::Touch(p) => {
                assert(steps[n] == last);
                assert(reads(fs, steps[n], p));
                assert(written(steps[n]) == p);
            },
            _ => {
                assert(apply_step(h, last) =~= g.union_prefer_right(apply_step(d, last)));
            },
        }
    }
}

/// Copying a tree twice leaves the target as copying it once did, provided
/// the copy reads nothing that it writes (the source and target trees do
/// not overlap).
pub proof fn law_copy_idempotent(
    fs: Tree,
    target: Seq<char>,
    root: Seq<char>,
    items: Seq<WalkItemView>,
)
    requires
        reads_untouched(fs, copy_spec(target, root, items).0),
    ensures
        ({
            let plan = copy_spec(target, root, items).0;
            run(run(fs, plan), plan) == run(fs, plan)
        }),
{
    let plan = copy_spec(target, root, items).0;
    lemma_run_overlay(fs, fs, plan);
    let d = delta(fs, plan);
    let once = run(fs, plan);
    assert forall|i: int, k: Seq<char>|
        0 <= i < plan.len() && #[trigger] reads(fs, plan[i], k) implies agree(once, fs, k) by {
        if d.contains_key(k) {
            lemma_delta_keys_written(fs, plan, k);
            let j = choose|j: int| 0 <= j < plan.len() && #[trigger] written(plan[j]) == k;
        }
    }
    lemma_run_overlay(fs, once, plan);
    assert(once.union_prefer_right(d) =~= once);
}

} // verus!
