//! The application-level error taxonomy of the data-access service and its
//! mapping onto HTTP response parts.
use vstd::prelude::*;

verus! {

/// Everything the data-access service or the surrounding server can fail
/// with. Expected business conditions (a missing row, a uniqueness
/// conflict) get their own variants so callers can tell them from a broken
/// store.
#[derive(Clone, Copy, Debug, PartialEq, Eq, Structural)]
pub enum AppError {
    NotFound,
    Utf8,
    Http,
    AssetExt,
    Migrate,
    DatabaseInsert,
    DatabaseSelect,
    Database,
    Rollback,
    DatabaseUniqueIndex,
}

impl AppError {
    /// The HTTP status and body this error is rendered as: a missing row is
    /// the caller's affair and is told apart; every other failure is opaque,
    /// carrying no internal detail.
    pub fn response_parts(&self) -> (r: (u16, String))
        ensures
            *self == AppError::NotFound ==> r.0 == 404 && r.1@ =~= "404 Not Found"@,
            *self != AppError::NotFound ==> r.0 == 500 && r.1@ =~= "Internal server error"@,
    {
        match self {
            AppError::NotFound => (404, String::from_str("404 Not Found")),
            _ => (500, String::from_str("Internal server error")),
        }
    }
}

} // verus!
