use vstd::prelude::*;

verus! {

/// Every way a pool operation can be refused. Each error is returned before
/// any state change, so a failing call always leaves the ledger untouched.
#[derive(Debug, Clone, Copy, PartialEq, Eq, Structural)]
pub enum Error {
    /// An operation requiring an active pool was called while both reserves
    /// multiply to zero.
    ZeroLiquidity,
    /// A quantity argument was zero where a positive amount is required.
    ZeroAmount,
    /// The caller's tracked balance is smaller than the amount to debit.
    InsufficientAmount,
    /// Deposited amounts do not match the pool's current ratio under
    /// floor-division equality.
    NonEquivalentValue,
    /// A non-first deposit rounds down to zero mintable shares.
    ThresholdNotReached,
    /// A withdrawal estimate was requested for more shares than exist.
    InvalidShare,
    /// A swap input would meet or exceed the reserve it is paid into.
    InsufficientLiquidity,
    /// A swap output fell below the caller's declared minimum.
    SlippageExceeded,
}

} // verus!
