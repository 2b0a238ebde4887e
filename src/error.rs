use vstd::prelude::*;

verus! {

/// Every way a settlement operation can fail.
#[derive(Clone, Copy, Debug, PartialEq, Eq, Structural)]
pub enum BestOfferErrorCode {
    /// A checked addition, multiplication or subtraction left the `u64` range.
    NumericalOverflow,
    /// The entity is not in the state that the operation requires.
    InvalidState,
    /// The caller is not the actor designated for the entity.
    Unauthorized,
    /// A write-once record already exists at its address.
    AlreadyExists,
    /// The source account holds less than the amount to move.
    InsufficientFunds,
    /// No record exists at the given address.
    NotFound,
    /// A text or byte field is longer than its declared maximum.
    FieldTooLong,
    /// A fee rate above 10000 basis points.
    InvalidFee,
    /// A token account holds another currency than the one required.
    MintMismatch,
    /// A transfer named a decimal count other than the currency's own.
    DecimalsMismatch,
}

} // verus!
