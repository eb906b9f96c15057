//! Lifecycle rules of a sandbox: a temporary directory, or a named file in a
//! temporary directory of its own.
//!
//! A sandbox starts transient: its directory is removed when it is closed or
//! dropped. Persisting is one-way: a persisted sandbox is never removed.
//! Closing reports a failed removal as a `Cleanup` error; dropping ignores it.

use vstd::prelude::*;
use crate::errors::{FixtureError, FixtureKind};
use crate::fixture::{ChildPath, PathChild, PathExistingChild, FsOp, steps, touch, touch_steps};
use crate::paths::{join, join_spec};

verus! {

/// The state of a sandbox.
#[derive(Clone, Debug)]
pub struct Sandbox {
    dir: String,
    path: String,
    persisted: bool,
}

/// The mathematical state of a sandbox.
pub struct SandboxView {
    /// The directory that removal deletes, with all it holds.
    pub dir: Seq<char>,
    /// The path handed to users: the directory itself, or the named file.
    pub path: Seq<char>,
    /// Whether removal has been given up for good.
    pub persisted: bool,
}

impl View for Sandbox {
    type V = SandboxView;

    closed spec fn view(&self) -> SandboxView {
        SandboxView { dir: self.dir@, path: self.path@, persisted: self.persisted }
    }
}

impl Sandbox {
    /// A transient sandbox that is the freshly allocated directory `dir`.
    pub fn directory(dir: &str) -> (r: Self)
        ensures
            r@.dir == dir@,
            r@.path == dir@,
            !r@.persisted,
    {
        Sandbox { dir: dir.to_owned(), path: dir.to_owned(), persisted: false }
    }

    /// A transient sandbox for the file `name` inside the freshly allocated
    /// directory `dir`. The file itself is not created.
    pub fn named_file(dir: &str, name: &str) -> (r: Self)
        ensures
            r@.dir == dir@,
            r@.path == join_spec(dir@, name@),
            !r@.persisted,
    {
        Sandbox { dir: dir.to_owned(), path: join(dir, name), persisted: false }
    }

    /// The path of the sandbox, persisted or not.
    pub fn path(&self) -> (r: &str)
        ensures
            r@ == self@.path,
    {
        self.path.as_str()
    }

    /// The directory that removal deletes.
    pub fn dir(&self) -> (r: &str)
        ensures
            r@ == self@.dir,
    {
        self.dir.as_str()
    }

    /// Whether removal has been given up.
    pub fn is_persisted(&self) -> (r: bool)
        ensures
            r == self@.persisted,
    {
        self.persisted
    }

    /// Give up removal for good. A no-op on a persisted sandbox.
    pub fn into_persistent(self) -> (r: Self)
        ensures
            r@.dir == self@.dir,
            r@.path == self@.path,
            r@.persisted,
    {
        Sandbox { dir: self.dir, path: self.path, persisted: true }
    }

    /// Give up removal when `yes`; otherwise the sandbox is unchanged.
    pub fn into_persistent_if(self, yes: bool) -> (r: Self)
        ensures
            r@.dir == self@.dir,
            r@.path == self@.path,
            r@.persisted == (self@.persisted || yes),
    {
        if !yes {
            return self;
        }
        self.into_persistent()
    }

    /// Whether closing or dropping the sandbox must remove its directory.
    pub fn needs_removal(&self) -> (r: bool)
        ensures
            r == !self@.persisted,
    {
        !self.persisted
    }

    /// The result of an explicit close, given the outcome of removing the
    /// directory (`None` when no removal was attempted). A persisted sandbox
    /// closes successfully whatever happened; otherwise a failed removal is a
    /// `Cleanup` error that carries the removal's error text.
    pub fn close(self, removal: Option<Result<(), String>>) -> (r: Result<(), FixtureError>)
        ensures
            match r {
                Ok(()) => self@.persisted || !(removal matches Some(Err(_))),
                Err(e) => !self@.persisted && e.spec_kind() == FixtureKind::Cleanup && (
                removal matches Some(Err(c)) && e.spec_cause() == Some(c@)),
            },
    {
        if self.persisted {
            return Ok(());
        }
        match removal {
            Some(Err(c)) => Err(FixtureError::new(FixtureKind::Cleanup).chain(c)),
            _ => Ok(()),
        }
    }
}

impl PathChild for Sandbox {
    open spec fn spec_base(&self) -> Seq<char> {
        self@.path
    }

    fn child(&self, path: &str) -> (r: ChildPath)
        ensures
            r@ == join_spec(self@.path, path@),
    {
        ChildPath::new(self.path.as_str()).child(path)
    }
}

impl PathExistingChild for Sandbox {
    fn existing_child(&self, path: &str) -> (r: (ChildPath, Vec<FsOp>))
        ensures
            r.0@ == join_spec(self@.path, path@),
            steps(r.1@) == touch_steps(r.0@),
    {
        let child = self.child(path);
        let plan = touch(child.path());
        (child, plan)
    }
}

} // verus!
