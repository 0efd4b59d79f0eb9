use vstd::prelude::*;

verus! {

/// Why a candidate block, or one of its transfers, was turned down.
#[derive(Debug, Clone, Copy, PartialEq, Eq, Structural)]
pub enum BlockValidationError {
    /// The candidate's index is not one past the tip (or not zero on an empty chain).
    MismatchedIndex,
    /// The candidate's digest does not lie below its difficulty target.
    InvalidHash,
    /// The candidate's timestamp does not strictly exceed the tip's.
    AchronologicalTimestamp,
    /// The candidate's recorded predecessor digest does not match the tip.
    MismatchedPreviousHash,
    /// A first block that already names a predecessor.
    InvalidGenesisBlock,
    /// A transfer spends from an address that has no recorded balance.
    InvalidInput,
    /// A transfer spends more than its source address holds.
    InsufficientInputVal,
    /// Reserved for malformed reward accounting.
    InvalidCoinbaseTransaction,
}

} // verus!
