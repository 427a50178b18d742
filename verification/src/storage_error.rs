//! Why a store refuses.

use vstd::prelude::*;

verus! {

/// The errors of a log store.
#[derive(Debug, Clone, Copy, PartialEq, Eq, Structural)]
pub enum StoreError {
    /// There is no entry at the index.
    NoEntry { idx: u64 },
    /// The entry is too large to be stored.
    TooLarge,
    /// The stored bytes are not those of a value of the expected kind.
    Malformed,
}

} // verus!
