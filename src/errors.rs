//! Error types for fixtures.

use vstd::prelude::*;
use vstd::string::StringExecFns;

verus! {

/// Fixture initialization cause.
#[derive(Copy, Clone, Debug, PartialEq, Eq, Structural)]
#[non_exhaustive]
pub enum FixtureKind {
    /// Failed when walking the source tree.
    Walk,
    /// Failed when copying a file.
    CopyFile,
    /// Failed when writing to a file.
    WriteFile,
    /// Failed when creating a directory.
    CreateDir,
    /// Failed to cleanup fixture.
    Cleanup,
    /// Failed to create symlink.
    Symlink,
}

impl FixtureKind {
    /// The sentence that describes this cause.
    pub open spec fn spec_description(self) -> Seq<char> {
        match self {
            FixtureKind::Walk => "Failed when walking the source tree."@,
            FixtureKind::CopyFile => "Failed when copying a file."@,
            FixtureKind::WriteFile => "Failed when writing to a file."@,
            FixtureKind::CreateDir => "Failed when creating a directory."@,
            FixtureKind::Cleanup => "Failed to cleanup fixture."@,
            FixtureKind::Symlink => "Failed when symlinking to the target."@,
        }
    }

    /// The sentence that describes this cause.
    pub fn description(&self) -> (r: &'static str)
        ensures
            r@ == self.spec_description(),
    {
        match self {
            FixtureKind::Walk => "Failed when walking the source tree.",
            FixtureKind::CopyFile => "Failed when copying a file.",
            FixtureKind::WriteFile => "Failed when writing to a file.",
            FixtureKind::CreateDir => "Failed when creating a directory.",
            FixtureKind::Cleanup => "Failed to cleanup fixture.",
            FixtureKind::Symlink => "Failed when symlinking to the target.",
        }
    }
}

/// Failure when initializing the fixture: what failed, and optionally the
/// underlying cause as text.
#[derive(Clone, Debug)]
pub struct FixtureError {
    kind: FixtureKind,
    cause: Option<String>,
}

/// The full message of an error of `kind` with an optional `cause`.
pub open spec fn error_message(kind: FixtureKind, cause: Option<Seq<char>>) -> Seq<char> {
    match cause {
        Some(c) => "Failed to initialize fixture: "@ + kind.spec_description() + "\nCause: "@ + c,
        None => "Failed to initialize fixture: "@ + kind.spec_description(),
    }
}

impl FixtureError {
    /// The cause of the failure.
    pub closed spec fn spec_kind(&self) -> FixtureKind {
        self.kind
    }

    /// The text of the underlying error, if one was attached.
    pub closed spec fn spec_cause(&self) -> Option<Seq<char>> {
        match self.cause {
            Some(c) => Some(c@),
            None => None,
        }
    }

    /// Create a `FixtureError` without an underlying cause.
    pub fn new(kind: FixtureKind) -> (r: Self)
        ensures
            r.spec_kind() == kind,
            r.spec_cause() is None,
    {
        FixtureError { kind, cause: None }
    }

    /// Fixture initialization cause.
    pub fn kind(&self) -> (r: FixtureKind)
        ensures
            r == self.spec_kind(),
    {
        self.kind
    }

    /// Attach the text of the underlying error, replacing any earlier one.
    pub fn chain(self, cause: String) -> (r: Self)
        ensures
            r.spec_kind() == self.spec_kind(),
            r.spec_cause() == Some(cause@),
    {
        FixtureError { kind: self.kind, cause: Some(cause) }
    }

    /// The text of the underlying error, if any.
    pub fn cause(&self) -> (r: Option<&str>)
        ensures
            match r {
                Some(c) => self.spec_cause() == Some(c@),
                None => self.spec_cause() is None,
            },
    {
        match &self.cause {
            Some(c) => Some(c.as_str()),
            None => None,
        }
    }

    /// The human-readable message: the kind, then the cause on its own line.
    pub fn message(&self) -> (r: String)
        ensures
            r@ == error_message(self.spec_kind(), self.spec_cause()),
    {
        let head = String::from_str("Failed to initialize fixture: ").concat(
            self.kind.description(),
        );
        match &self.cause {
            Some(c) => head.concat("\nCause: ").concat(c.as_str()),
            None => head,
        }
    }
}

} // verus!
