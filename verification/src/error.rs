//! The failure conditions the library surfaces.
use vstd::prelude::*;

verus! {

/// What can go wrong when decoding a page or looking up a resource.
#[derive(Debug, Clone)]
pub enum Error {
    /// A structural grammar rule failed to match, or the page left
    /// unconsumed non-whitespace input; carries the unmatched remainder for
    /// diagnostics.
    GrammarMismatch(String),
    /// A numeric resource key was not a valid number.
    InvalidIndex,
    /// An id, index or keyword named no stored resource.
    NotFound,
    /// A resource store was used before a backing variant was selected.
    NotInitialized,
    /// A command-line argument was missing or malformed.
    InvalidArg,
    /// An unknown subcommand was named.
    InvalidSubcommand,
}

} // verus!
