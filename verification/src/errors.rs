use vstd::prelude::*;

verus! {

/// The kinds of failure a repository operation can report.
///
/// `Validation` is raised before any store access when a required field is
/// missing or malformed; `NotFound` when an operation references an id that
/// no record carries; `Duplicate` when a uniqueness rule (a map pin's name)
/// would be violated; `Store` when the store itself cannot take the write
/// (the id space is exhausted, or, at the boundary, an I/O failure);
/// `Schema` only at startup, when the schema cannot be brought up.
#[derive(Clone, Copy, Debug, PartialEq, Eq, Structural)]
pub enum RepoError {
    Validation,
    NotFound,
    Duplicate,
    Store,
    Schema,
}

} // verus!
