use vstd::prelude::*;

verus! {

/// Every way an engine or store operation can be rejected.
///
/// Each rejection is terminal for the current invocation and leaves no
/// observable state change; the contracts of the operations say exactly
/// which inputs produce which variant.
#[derive(Clone, Copy, Debug, PartialEq, Eq)]
pub enum Error {
    /// The stake is zero, or too small to fund one unit per requested flip.
    InvalidStake,
    /// The number of flips is zero or above the fixed maximum.
    InvalidFlipCount,
    /// No wager record exists under the given request id.
    NotFound,
    /// Only the account that opened a wager may refund it.
    NotOwner,
    /// The wager already reached a terminal state; outcomes are never
    /// recomputed and stakes are never paid twice.
    AlreadySettledOrRefunded,
    /// A record under this request id already exists in the store.
    DuplicateId,
    /// Paying out would overdraw the funds held in custody.
    InsufficientCustody,
    /// The host ledger rejected a transfer instruction.  The engine itself
    /// never moves value, so this is reported by the boundary that executes
    /// the instruction, not by the verified operations.
    TransferFailed,
}

} // verus!
