//! Identities generated from a symbol.
use vstd::prelude::*;

verus! {

/// Unique ID generated from a symbol.
#[derive(Clone, Copy, PartialEq, Eq, Structural, Debug, Hash)]
pub struct StaticID {
    /// The ID.
    pub id: usize,
}

} // verus!
