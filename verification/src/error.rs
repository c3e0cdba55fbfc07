//! The error taxonomy of the library.

use vstd::prelude::*;

verus! {

/// What can go wrong while serving a request: a missing or malformed
/// identifier, a store failure, a template failure, or a route whose
/// behaviour is deliberately left unimplemented.
#[derive(Clone, Copy, Debug, PartialEq, Eq, Structural)]
pub enum Error {
    /// No row matches, or the identifier is not parseable. The two are
    /// deliberately collapsed: callers must not be able to distinguish
    /// malformed input from absence.
    NotFound,
    /// Connectivity, constraint or query failure in the store.
    StoreError,
    /// Template rendering failed.
    RenderError,
    /// The route is recognised but its behaviour is not implemented.
    Unimplemented,
}

impl Error {
    /// The status class a handler answers with: not-found maps to 404,
    /// everything else to 500.
    pub fn status_code(&self) -> (c: u16)
        ensures
            c == (if self is NotFound {
                404int
            } else {
                500int
            }),
    {
        match self {
            Error::NotFound => 404,
            _ => 500,
        }
    }
}

} // verus!
