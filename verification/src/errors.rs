use vstd::prelude::*;

verus! {

/// Everything that can make a swap abort. Every failure aborts the whole
/// operation: no funds move on any of these.
#[derive(Clone, Copy, Debug, PartialEq, Eq, Structural)]
pub enum AmmError {
    /// Trading on this pool has been disabled by administrative action.
    PoolLocked,
    /// A zero-amount trade was requested.
    InvalidAmount,
    /// An intermediate arithmetic step exceeded the representable range.
    Overflow,
    /// A subtraction, division or narrowing produced a value below the
    /// valid range (including a result that does not fit the output type).
    Underflow,
    /// The computed output fell below the caller's minimum acceptable output.
    SlippageExceeded,
    /// A custody transfer's source holds less than the requested amount.
    InsufficientBalance,
    /// A custody transfer's two accounts hold different assets.
    AssetMismatch,
    /// The authority presented to a custody transfer does not own the source.
    BadAuthority,
}

} // verus!
