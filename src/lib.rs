//! Filesystem fixtures and assertions for tests.
//!
//! The library decides; the caller's runtime performs the filesystem work.
//! - [`fixture`] turns fixture requests (touch, write, copy, symlink) into
//!   ordered plans of primitive filesystem steps, and maps a failed step to a
//!   typed [`errors::FixtureError`].
//! - [`assertion`] converts shorthand expectations (bytes, text, structural
//!   predicates) into one uniform path predicate, evaluates it against what was
//!   observed at a path, and explains failures as a tree.
//! - [`sandbox`] holds the lifecycle rules of temporary directories and files.
//! - [`paths`] is the POSIX path arithmetic that all of the above share.
//! - [`model`] models the filesystem that plans act on, and states the laws
//!   that tie writing fixtures to asserting on them.

pub mod errors;
pub mod paths;
pub mod fixture;
pub mod sandbox;
pub mod assertion;
pub mod model;
