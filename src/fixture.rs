//! Fixture population as plans of primitive filesystem steps.
//!
//! Every fixture request (touch, write, copy, symlink) is decided here as an
//! ordered list of [`FsOp`]s. The runtime performs the steps in order and stops
//! at the first one that fails; [`FsOp::failed`] turns that failure into the
//! typed error the request reports.

use vstd::prelude::*;
use vstd::string::StrSliceExecFns;
use vstd::utf8::encode_utf8;
use vstd::slice::slice_to_vec;
use crate::errors::{FixtureError, FixtureKind};
use crate::paths::{join, join_spec, parent, parent_spec, relative, relative_spec};

verus! {

/// A path within a sandbox. Holds no resource: only the joined path.
#[derive(Clone, Debug)]
pub struct ChildPath {
    path: String,
}

impl View for ChildPath {
    type V = Seq<char>;

    closed spec fn view(&self) -> Seq<char> {
        self.path@
    }
}

impl ChildPath {
    /// Wrap a path.
    pub fn new(path: &str) -> (r: Self)
        ensures
            r@ == path@,
    {
        ChildPath { path: path.to_owned() }
    }

    /// Access the path.
    pub fn path(&self) -> (r: &str)
        ensures
            r@ == self@,
    {
        self.path.as_str()
    }
}

/// Access paths within a sandbox or within another child path.
pub trait PathChild {
    /// The path that children are resolved against.
    spec fn spec_base(&self) -> Seq<char>;

    /// The path `path` resolved against this one. Never touches the disk.
    fn child(&self, path: &str) -> (r: ChildPath)
        ensures
            r@ == join_spec(self.spec_base(), path@),
    ;
}

impl PathChild for ChildPath {
    open spec fn spec_base(&self) -> Seq<char> {
        self@
    }

    fn child(&self, path: &str) -> (r: ChildPath)
        ensures
            r@ == join_spec(self@, path@),
    {
        ChildPath { path: join(self.path.as_str(), path) }
    }
}

/// Access paths that are created (touched) as they are handed out.
pub trait PathExistingChild: PathChild {
    /// The child at `path`, and the plan that creates it as an empty file.
    fn existing_child(&self, path: &str) -> (r: (ChildPath, Vec<FsOp>))
        ensures
            r.0@ == join_spec(self.spec_base(), path@),
            steps(r.1@) == touch_steps(r.0@),
    ;
}

impl PathExistingChild for ChildPath {
    fn existing_child(&self, path: &str) -> (r: (ChildPath, Vec<FsOp>))
        ensures
            r.0@ == join_spec(self@, path@),
            steps(r.1@) == touch_steps(r.0@),
    {
        let child = self.child(path);
        let plan = touch(child.path());
        (child, plan)
    }
}

/// One primitive filesystem step.
#[derive(Clone, Debug)]
pub enum FsOp {
    /// Create a directory and all its missing ancestors.
    CreateDirAll { path: String },
    /// Create an empty file unless a file is already there; an existing
    /// file keeps its content.
    Touch { path: String },
    /// Create or truncate a file and write exactly `data` into it.
    WriteFile { path: String, data: Vec<u8> },
    /// Copy the bytes of the file `from` into the file `to`.
    CopyFile { from: String, to: String },
    /// Create a symlink at `link` that points to the file `target`.
    SymlinkFile { link: String, target: String },
    /// Create a symlink at `link` that points to the directory `target`.
    SymlinkDir { link: String, target: String },
}

/// The mathematical content of an [`FsOp`].
pub enum Step {
    CreateDirAll(Seq<char>),
    Touch(Seq<char>),
    WriteFile(Seq<char>, Seq<u8>),
    CopyFile(Seq<char>, Seq<char>),
    SymlinkFile(Seq<char>, Seq<char>),
    SymlinkDir(Seq<char>, Seq<char>),
}

impl View for FsOp {
    type V = Step;

    open spec fn view(&self) -> Step {
        match self {
            FsOp::CreateDirAll { path } => Step::CreateDirAll(path@),
            FsOp::Touch { path } => Step::Touch(path@),
            FsOp::WriteFile { path, data } => Step::WriteFile(path@, data@),
            FsOp::CopyFile { from, to } => Step::CopyFile(from@, to@),
            FsOp::SymlinkFile { link, target } => Step::SymlinkFile(link@, target@),
            FsOp::SymlinkDir { link, target } => Step::SymlinkDir(link@, target@),
        }
    }
}

/// The steps of a plan.
pub open spec fn steps(ops: Seq<FsOp>) -> Seq<Step> {
    ops.map_values(|o: FsOp| o@)
}

/// What a failure of this step reports.
pub open spec fn step_kind(s: Step) -> FixtureKind {
    match s {
        Step::CreateDirAll(_) => FixtureKind::CreateDir,
        Step::Touch(_) => FixtureKind::WriteFile,
        Step::WriteFile(_, _) => FixtureKind::WriteFile,
        Step::CopyFile(_, _) => FixtureKind::CopyFile,
        Step::SymlinkFile(_, _) => FixtureKind::Symlink,
        Step::SymlinkDir(_, _) => FixtureKind::Symlink,
    }
}

impl FsOp {
    /// The cause reported when this step fails.
    pub fn failure_kind(&self) -> (r: FixtureKind)
        ensures
            r == step_kind(self@),
    {
        match self {
            FsOp::CreateDirAll { .. } => FixtureKind::CreateDir,
            FsOp::Touch { .. } => FixtureKind::WriteFile,
            FsOp::WriteFile { .. } => FixtureKind::WriteFile,
            FsOp::CopyFile { .. } => FixtureKind::CopyFile,
            FsOp::SymlinkFile { .. } => FixtureKind::Symlink,
            FsOp::SymlinkDir { .. } => FixtureKind::Symlink,
        }
    }

    /// The error reported when this step failed with the error text `cause`.
    pub fn failed(&self, cause: String) -> (r: FixtureError)
        ensures
            r.spec_kind() == step_kind(self@),
            r.spec_cause() == Some(cause@),
    {
        FixtureError::new(self.failure_kind()).chain(cause)
    }
}

/// The steps that make sure the directory holding `p` exists. A path without
/// a parent, or whose parent is the empty path, needs none.
pub open spec fn parent_steps(p: Seq<char>) -> Seq<Step> {
    match parent_spec(p) {
        Some(q) => if q.len() > 0 {
            seq![Step::CreateDirAll(q)]
        } else {
            Seq::empty()
        },
        None => Seq::empty(),
    }
}

pub open spec fn touch_steps(p: Seq<char>) -> Seq<Step> {
    parent_steps(p).push(Step::Touch(p))
}

pub open spec fn write_steps(p: Seq<char>, data: Seq<u8>) -> Seq<Step> {
    parent_steps(p).push(Step::WriteFile(p, data))
}

/// The plan that creates the parent directory of `path`.
pub fn ensure_parent_dir(path: &str) -> (r: Vec<FsOp>)
    ensures
        steps(r@) == parent_steps(path@),
{
    let mut plan: Vec<FsOp> = Vec::new();
    match parent(path) {
        Some(q) => {
            if q.unicode_len() > 0 {
                plan.push(FsOp::CreateDirAll { path: q });
            }
        },
        None => {},
    }
    assert(steps(plan@) =~= parent_steps(path@));
    plan
}

/// The plan that creates an empty file at `path`, parents first.
pub fn touch(path: &str) -> (r: Vec<FsOp>)
    ensures
        steps(r@) == touch_steps(path@),
{
    let mut plan = ensure_parent_dir(path);
    plan.push(FsOp::Touch { path: path.to_owned() });
    assert(steps(plan@) =~= touch_steps(path@));
    plan
}

/// The plan that writes exactly `data` to `path`, parents first.
pub fn write_binary(path: &str, data: &[u8]) -> (r: Vec<FsOp>)
    ensures
        steps(r@) == write_steps(path@, data@),
{
    let mut plan = ensure_parent_dir(path);
    plan.push(FsOp::WriteFile { path: path.to_owned(), data: slice_to_vec(data) });
    assert(steps(plan@) =~= write_steps(path@, data@));
    plan
}

/// The plan that writes the UTF-8 encoding of `data` to `path`, parents first.
pub fn write_str(path: &str, data: &str) -> (r: Vec<FsOp>)
    ensures
        steps(r@) == write_steps(path@, encode_utf8(data@)),
{
    let mut plan = ensure_parent_dir(path);
    plan.push(FsOp::WriteFile { path: path.to_owned(), data: data.as_bytes_vec() });
    assert(steps(plan@) =~= write_steps(path@, encode_utf8(data@)));
    plan
}

/// The plan that copies the file `source` to `path`, parents first.
pub fn write_file(path: &str, source: &str) -> (r: Vec<FsOp>)
    ensures
        steps(r@) == parent_steps(path@).push(Step::CopyFile(source@, path@)),
{
    let mut plan = ensure_parent_dir(path);
    plan.push(FsOp::CopyFile { from: source.to_owned(), to: path.to_owned() });
    assert(steps(plan@) =~= parent_steps(path@).push(Step::CopyFile(source@, path@)));
    plan
}

/// The plan that creates the directory `path` and its ancestors.
pub fn create_dir_all(path: &str) -> (r: Vec<FsOp>)
    ensures
        steps(r@) == seq![Step::CreateDirAll(path@)],
{
    let mut plan: Vec<FsOp> = Vec::new();
    plan.push(FsOp::CreateDirAll { path: path.to_owned() });
    assert(steps(plan@) =~= seq![Step::CreateDirAll(path@)]);
    plan
}

/// The plan that makes `link` a symlink to the file `target`.
pub fn symlink_to_file(link: &str, target: &str) -> (r: Vec<FsOp>)
    ensures
        steps(r@) == seq![Step::SymlinkFile(link@, target@)],
{
    let mut plan: Vec<FsOp> = Vec::new();
    plan.push(FsOp::SymlinkFile { link: link.to_owned(), target: target.to_owned() });
    assert(steps(plan@) =~= seq![Step::SymlinkFile(link@, target@)]);
    plan
}

/// The plan that makes `link` a symlink to the directory `target`.
pub fn symlink_to_dir(link: &str, target: &str) -> (r: Vec<FsOp>)
    ensures
        steps(r@) == seq![Step::SymlinkDir(link@, target@)],
{
    let mut plan: Vec<FsOp> = Vec::new();
    plan.push(FsOp::SymlinkDir { link: link.to_owned(), target: target.to_owned() });
    assert(steps(plan@) =~= seq![Step::SymlinkDir(link@, target@)]);
    plan
}

/// The type of an entry met while walking a source tree, symlinks followed.
#[derive(Copy, Clone, Debug, PartialEq, Eq, Structural)]
pub enum EntryKind {
    Dir,
    File,
    /// Neither a plain file nor a directory (a device, a socket, ...).
    Other,
}

/// One item that the walk of a source tree yielded.
#[derive(Clone, Debug)]
pub enum WalkItem {
    /// An entry that matched the patterns, by its absolute path.
    Entry { path: String, kind: EntryKind },
    /// The walk failed here, with this error text.
    Failed { cause: String },
}

pub enum WalkItemView {
    Entry(Seq<char>, EntryKind),
    Failed(Seq<char>),
}

impl View for WalkItem {
    type V = WalkItemView;

    open spec fn view(&self) -> WalkItemView {
        match self {
            WalkItem::Entry { path, kind } => WalkItemView::Entry(path@, *kind),
            WalkItem::Failed { cause } => WalkItemView::Failed(cause@),
        }
    }
}

pub open spec fn walk_view(items: Seq<WalkItem>) -> Seq<WalkItemView> {
    items.map_values(|w: WalkItem| w@)
}

/// An error as its kind and its cause.
pub type ErrorView = (FixtureKind, Option<Seq<char>>);

pub open spec fn error_view(e: Option<FixtureError>) -> Option<ErrorView> {
    match e {
        Some(e) => Some((e.spec_kind(), e.spec_cause())),
        None => None,
    }
}

/// The steps that reproduce the entry `path` of kind `kind`, found under
/// `root`, at the same relative place under `target`; `None` when `path` is
/// not under `root`. Directories are created, files are copied after their
/// parent directory, other entries are skipped.
pub open spec fn entry_steps(
    target: Seq<char>,
    root: Seq<char>,
    path: Seq<char>,
    kind: EntryKind,
) -> Option<Seq<Step>> {
    match relative_spec(path, root) {
        None => None,
        Some(rel) => {
            let to = join_spec(target, rel);
            Some(
                match kind {
                    EntryKind::Dir => seq![Step::CreateDirAll(to)],
                    EntryKind::File => parent_steps(to).push(Step::CopyFile(path, to)),
                    EntryKind::Other => Seq::empty(),
                },
            )
        },
    }
}

/// The steps for the walked `items`, in order, up to the first failure, and
/// the error of that failure: the walk's own error, or an entry outside
/// `root`.
pub open spec fn copy_spec(target: Seq<char>, root: Seq<char>, items: Seq<WalkItemView>) -> (
    Seq<Step>,
    Option<ErrorView>,
)
    decreases items.len(),
{
    if items.len() == 0 {
        (Seq::empty(), None)
    } else {
        let prev = copy_spec(target, root, items.drop_last());
        if prev.1 is Some {
            prev
        } else {
            match items.last() {
                WalkItemView::Failed(c) => (prev.0, Some((FixtureKind::Walk, Some(c)))),
                WalkItemView::Entry(p, k) => match entry_steps(target, root, p, k) {
                    None => (prev.0, Some((FixtureKind::Walk, None))),
                    Some(s) => (prev.0 + s, None),
                },
            }
        }
    }
}

/// Once planning has failed, the items after the failure change nothing.
proof fn lemma_copy_stops(target: Seq<char>, root: Seq<char>, items: Seq<WalkItemView>, k: int)
    requires
        0 <= k <= items.len(),
        copy_spec(target, root, items.take(k)).1 is Some,
    ensures
        copy_spec(target, root, items) == copy_spec(target, root, items.take(k)),
    decreases items.len(),
{
    if k < items.len() {
        assert(items.drop_last().take(k) =~= items.take(k));
        lemma_copy_stops(target, root, items.drop_last(), k);
    } else {
        assert(items.take(k) =~= items);
    }
}

/// The outcome of planning a tree copy: the steps to perform, then the error
/// to report once they have all succeeded, if any.
#[derive(Clone, Debug)]
pub struct CopyPlan {
    pub ops: Vec<FsOp>,
    pub error: Option<FixtureError>,
}

/// Plan the copy into `target` of the entries that the walk of the source
/// tree yielded. `root` is the source directory, canonicalized, or the error
/// that canonicalizing it gave.
pub fn copy_files(target: &str, root: &Result<String, String>, items: &Vec<WalkItem>) -> (r:
    CopyPlan)
    ensures
        match root {
            Err(c) => r.ops@.len() == 0 && error_view(r.error) == Some(
                (FixtureKind::Walk, Some(c@)),
            ),
            Ok(rt) => steps(r.ops@) == copy_spec(target@, rt@, walk_view(items@)).0 && error_view(
                r.error,
            ) == copy_spec(target@, rt@, walk_view(items@)).1,
        },
{
    let rt = match root {
        Err(c) => {
            return CopyPlan {
                ops: Vec::new(),
                error: Some(FixtureError::new(FixtureKind::Walk).chain(c.clone())),
            };
        },
        Ok(rt) => rt,
    };
    let ghost all = walk_view(items@);
    let mut ops: Vec<FsOp> = Vec::new();
    let mut i: usize = 0;
    while i < items.len()
        invariant
            i <= items@.len(),
            root matches Ok(x) && x@ == rt@,
            all == walk_view(items@),
            steps(ops@) == copy_spec(target@, rt@, all.take(i as int)).0,
            copy_spec(target@, rt@, all.take(i as int)).1 is None,
        decreases items@.len() - i,
    {
        let ghost before = ops@;
        assert(all.take(i + 1).drop_last() =~= all.take(i as int));
        assert(all.take(i + 1).last() == items@[i as int]@);
        match &items[i] {
            WalkItem::Failed { cause } => {
                proof {
                    lemma_copy_stops(target@, rt@, all, i + 1);
                }
                return CopyPlan {
                    ops,
                    error: Some(FixtureError::new(FixtureKind::Walk).chain(cause.clone())),
                };
            },
            WalkItem::Entry { path, kind } => {
                match relative(path.as_str(), rt.as_str()) {
                    None => {
                        proof {
                            lemma_copy_stops(target@, rt@, all, i + 1);
                        }
                        return CopyPlan { ops, error: Some(FixtureError::new(FixtureKind::Walk)) };
                    },
                    Some(rel) => {
                        let to = join(target, rel.as_str());
                        match kind {
                            EntryKind::Dir => {
                                ops.push(FsOp::CreateDirAll { path: to });
                            },
                            EntryKind::File => {
                                let mut parents = ensure_parent_dir(to.as_str());
                                ops.append(&mut parents);
                                ops.push(FsOp::CopyFile { from: path.clone(), to });
                            },
                            EntryKind::Other => {},
                        }
                        assert(steps(ops@) =~= steps(before) + entry_steps(
                            target@,
                            rt@,
                            path@,
                            *kind,
                        ).unwrap());
                    },
                }
            },
        }
        i = i + 1;
    }
    assert(all.take(items@.len() as int) =~= all);
    CopyPlan { ops, error: None }
}

} // verus!
