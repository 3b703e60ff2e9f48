use vstd::prelude::*;

verus! {

/// Errors of the risk engine. Every one aborts the whole instruction.
#[derive(Clone, Copy, Debug, PartialEq, Eq, Structural)]
pub enum MangoError {
    /// No known oracle tag matches the account bytes.
    UnknownOracleType,
    /// The bytes carry a known tag but cannot be decoded.
    DecodeError,
    /// The oracle's last update is older than the staleness bound.
    StaleOracle,
    /// The auxiliary account list does not match the account's active slots.
    MissingHealthAccount,
    /// The order id is not in the owner's own order tracking list, or not in the book.
    InvalidOrderId,
    /// An account does not belong to the group, or the signer does not own it.
    ConstraintHasOne,
    /// The order in the book belongs to another account.
    InvalidOwner,
    /// The account is bankrupt and the action is frozen.
    IsBankrupt,
    /// The account is not in the state the action requires.
    StateError,
    /// A health check after the action fails.
    InsolvencyError,
    /// Fixed-point overflow or division by zero.
    ArithmeticError,
    /// An argument is out of its allowed range.
    InvalidArgument,
}

/// Errors reported by the client that submits instructions.
#[derive(Clone, Debug, PartialEq, Eq)]
pub enum MangoClientError {
    /// The transaction failed its simulation; the logs joined by "; ".
    SendTransactionPreflightFailure { logs: String },
}

} // verus!
