//! Why an operation on an account was refused.

use crate::amount::Amount;
use vstd::prelude::*;

verus! {

/// A refused operation. None of these stops the ledger: the account is left
/// as it was and the next event is taken.
#[derive(Clone, Copy, Debug, PartialEq, Eq, Structural)]
pub enum Error {
    /// A deposit names a transaction id that the account already holds.
    DepositError(u32),
    /// A dispute names a deposit that is already disputed.
    DisputeError(u32),
    /// The account holds no deposit with this transaction id.
    NonExistentTxnError(u32),
    /// A withdrawal asks for more than is available: what is available, then
    /// what was asked for.
    InsufficientFundsError(Amount, Amount),
    /// A resolve or chargeback names a deposit that is not disputed.
    InvalidAccountAction(u32),
    /// The account of this client is locked.
    AccountLockedError(u16),
}

} // verus!
