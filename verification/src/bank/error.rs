//! The reasons for which the ledger turns a transaction down.

use crate::bank::amount::Amount;
use vstd::prelude::*;

verus! {

/// Why a transaction was turned down.
#[derive(Debug)]
#[allow(inconsistent_fields)]
pub enum BankError {
    /// A withdrawal or a dispute asks for more than the account has
    /// available.
    InsufficientFunds { expected: Amount, available: Amount },
    /// A deposit or a withdrawal carries an id that the ledger has seen.
    DuplicateTransaction { id: u32 },
    /// A dispute, resolve or chargeback names a deposit that is not there.
    MissingTransaction { id: u32 },
    /// The transaction names a client that has no account.
    InvalidClient { id: u16 },
    /// A deposit or a withdrawal of an amount that is not positive.
    NegativeAmount,
    /// A deposit or a withdrawal without an amount.
    MissingAmount,
    /// A dispute of a deposit that is under dispute.
    AlreadyDisputed { id: u32 },
    /// A resolve or a chargeback of a deposit that is not under dispute.
    NotDisputed { id: u32 },
    /// The account is locked.
    ClientLocked,
    /// The record is of a kind that the ledger does not know.
    UnknownTransactionType { name: String },
}

/// A `BankError` in the model: amounts as numbers of units, text as a
/// sequence of characters.
#[allow(inconsistent_fields)]
pub enum BankErrorView {
    InsufficientFunds { expected: int, available: int },
    DuplicateTransaction { id: u32 },
    MissingTransaction { id: u32 },
    InvalidClient { id: u16 },
    NegativeAmount,
    MissingAmount,
    AlreadyDisputed { id: u32 },
    NotDisputed { id: u32 },
    ClientLocked,
    UnknownTransactionType { name: Seq<char> },
}

impl View for BankError {
    type V = BankErrorView;

    open spec fn view(&self) -> BankErrorView {
        match *self {
            BankError::InsufficientFunds { expected, available } => BankErrorView::InsufficientFunds {
                expected: expected@,
                available: available@,
            },
            BankError::DuplicateTransaction { id } => BankErrorView::DuplicateTransaction { id },
            BankError::MissingTransaction { id } => BankErrorView::MissingTransaction { id },
            BankError::InvalidClient { id } => BankErrorView::InvalidClient { id },
            BankError::NegativeAmount => BankErrorView::NegativeAmount,
            BankError::MissingAmount => BankErrorView::MissingAmount,
            BankError::AlreadyDisputed { id } => BankErrorView::AlreadyDisputed { id },
            BankError::NotDisputed { id } => BankErrorView::NotDisputed { id },
            BankError::ClientLocked => BankErrorView::ClientLocked,
            BankError::UnknownTransactionType { name } => BankErrorView::UnknownTransactionType {
                name: name@,
            },
        }
    }
}

/// Whether the outcome `r` of an operation on a state is the one that the
/// model gives: on `Ok` the state `after` is the model's next state, on `Err`
/// the error is the model's and the state is as it was `before`.
pub open spec fn agrees<S>(
    expected: Result<S, BankErrorView>,
    before: S,
    after: S,
    r: Result<(), BankError>,
) -> bool {
    match expected {
        Ok(next) => r is Ok && after == next,
        Err(e) => r matches Err(x) && x@ == e && after == before,
    }
}

} // verus!
