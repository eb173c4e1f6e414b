use vstd::prelude::*;

verus! {

/// Why a deposit was rejected. Every error aborts the whole deposit with no
/// partial state change; none is retried by the ledger itself.
#[derive(Clone, Copy, Debug, PartialEq, Eq, Structural)]
pub enum StakingError {
    /// The amount is zero: not a valid positive stake.
    InvalidAmount,
    /// The principal's external balance cannot supply the requested amount.
    InsufficientBalance,
    /// A checked addition on the stake amount or the pool totals would
    /// exceed the representable range.
    ArithmeticOverflow,
}

} // verus!
