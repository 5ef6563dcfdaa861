//! The error that every repository operation can give.
use crate::text::{followed, joined};
use vstd::prelude::*;

verus! {

/// Why a repository operation did not succeed.
#[derive(Debug, Clone, PartialEq, Eq)]
pub enum DbError<T = String> {
    /// A statement failed in the storage engine.
    Query(T),
    /// The storage could not be set up, or a value could not be encoded.
    Init(T),
    /// What the operation names does not exist for its caller.
    NotFound(T),
    /// The operation does not fit the stored state.
    Conflict(T),
}

impl View for DbError<String> {
    type V = DbError<Seq<char>>;

    open spec fn view(&self) -> DbError<Seq<char>> {
        match self {
            DbError::Query(text) => DbError::Query(text@),
            DbError::Init(text) => DbError::Init(text@),
            DbError::NotFound(text) => DbError::NotFound(text@),
            DbError::Conflict(text) => DbError::Conflict(text@),
        }
    }
}

/// A missing thing, named between quotes.
pub open spec fn missing(kind: Seq<char>, id: Seq<char>, tail: Seq<char>) -> DbError<Seq<char>> {
    DbError::NotFound(kind + id + tail)
}

/// The error for a missing thing.
pub fn not_found(kind: &str, id: &str, tail: &str) -> (error: DbError)
    ensures
        error@ == missing(kind@, id@, tail@),
{
    DbError::NotFound(joined(kind, id, tail))
}

/// The error for a state that does not fit.
pub fn conflict(text: &str) -> (error: DbError)
    ensures
        error@ == DbError::Conflict(text@),
{
    DbError::Conflict(text.to_owned())
}

/// The error for a named thing whose state does not fit.
pub fn conflict_of(head: &str, id: &str, tail: &str) -> (error: DbError)
    ensures
        error@ == DbError::Conflict(head@ + id@ + tail@),
{
    DbError::Conflict(joined(head, id, tail))
}

/// The error for a state that does not fit, with what was found.
pub fn conflict_with(head: &str, detail: &str) -> (error: DbError)
    ensures
        error@ == DbError::Conflict(head@ + detail@),
{
    DbError::Conflict(followed(head, detail))
}

} // verus!
