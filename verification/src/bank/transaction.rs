//! Transactions as they arrive, and as the ledger applies them.

use crate::bank::amount::{decimal_le, Amount};
use crate::bank::error::{BankError, BankErrorView};
use vstd::prelude::*;

verus! {

/// The kind of a record. A kind that the ledger does not know is kept with
/// its text, so that the rejection can name it.
#[derive(Debug)]
pub enum TransactionKind {
    Deposit,
    Withdrawal,
    Dispute,
    Resolve,
    Chargeback,
    Unknown(String),
}

/// A `TransactionKind` in the model.
pub enum TransactionKindView {
    Deposit,
    Withdrawal,
    Dispute,
    Resolve,
    Chargeback,
    Unknown(Seq<char>),
}

impl View for TransactionKind {
    type V = TransactionKindView;

    open spec fn view(&self) -> TransactionKindView {
        match *self {
            TransactionKind::Deposit => TransactionKindView::Deposit,
            TransactionKind::Withdrawal => TransactionKindView::Withdrawal,
            TransactionKind::Dispute => TransactionKindView::Dispute,
            TransactionKind::Resolve => TransactionKindView::Resolve,
            TransactionKind::Chargeback => TransactionKindView::Chargeback,
            TransactionKind::Unknown(name) => TransactionKindView::Unknown(name@),
        }
    }
}

/// A record as it arrives: nothing in it has been checked.
#[derive(Debug)]
pub struct RawTransaction {
    pub kind: TransactionKind,
    pub client: u16,
    pub id: u32,
    /// Only deposits and withdrawals have an amount.
    pub amount: Option<Amount>,
}

/// A `RawTransaction` in the model.
pub struct RawTransactionView {
    pub kind: TransactionKindView,
    pub client: u16,
    pub id: u32,
    pub amount: Option<int>,
}

impl RawTransactionView {
    /// Whether the record is a deposit or a withdrawal: the kinds that come
    /// with an id of their own.
    pub open spec fn moves_funds(self) -> bool {
        self.kind is Deposit || self.kind is Withdrawal
    }

    /// The amount of a deposit or a withdrawal: it has to be there, and to
    /// be positive.
    pub open spec fn required_amount(self) -> Result<int, BankErrorView> {
        match self.amount {
            Some(amount) => if amount <= 0 {
                Err(BankErrorView::NegativeAmount)
            } else {
                Ok(amount)
            },
            None => Err(BankErrorView::MissingAmount),
        }
    }
}

impl View for RawTransaction {
    type V = RawTransactionView;

    open spec fn view(&self) -> RawTransactionView {
        RawTransactionView {
            kind: self.kind@,
            client: self.client,
            id: self.id,
            amount: match self.amount {
                Some(amount) => Some(amount@),
                None => None,
            },
        }
    }
}

impl RawTransaction {
    /// The amount of a deposit or a withdrawal, as the record gives it.
    pub fn get_amount(&self) -> (r: Result<Amount, BankError>)
        ensures
            match self@.required_amount() {
                Ok(_) => r matches Ok(amount) && self.amount == Some(amount),
                Err(e) => r matches Err(x) && x@ == e,
            },
    {
        if let Some(amount) = self.amount {
            if decimal_le(amount, Amount::zero()) {
                return Err(BankError::NegativeAmount);
            }
            Ok(amount)
        } else {
            Err(BankError::MissingAmount)
        }
    }
}

/// A transaction that has passed validation, with the fields that its kind
/// needs.
pub enum Transaction {
    Deposit { id: u32, client: u16, amount: Amount },
    Withdrawal { id: u32, client: u16, amount: Amount },
    Dispute { client: u16, id: u32 },
    Resolve { client: u16, id: u32 },
    Chargeback { client: u16, id: u32 },
}

/// A `Transaction` in the model.
pub enum TransactionView {
    Deposit { id: u32, client: u16, amount: int },
    Withdrawal { id: u32, client: u16, amount: int },
    Dispute { client: u16, id: u32 },
    Resolve { client: u16, id: u32 },
    Chargeback { client: u16, id: u32 },
}

impl TransactionView {
    /// The client whose account the transaction is for.
    pub open spec fn client(self) -> u16 {
        match self {
            TransactionView::Deposit { client, .. } => client,
            TransactionView::Withdrawal { client, .. } => client,
            TransactionView::Dispute { client, .. } => client,
            TransactionView::Resolve { client, .. } => client,
            TransactionView::Chargeback { client, .. } => client,
        }
    }

    /// The id of the transaction, or of the deposit it refers to.
    pub open spec fn id(self) -> u32 {
        match self {
            TransactionView::Deposit { id, .. } => id,
            TransactionView::Withdrawal { id, .. } => id,
            TransactionView::Dispute { id, .. } => id,
            TransactionView::Resolve { id, .. } => id,
            TransactionView::Chargeback { id, .. } => id,
        }
    }

    /// Whether the transaction moves funds in or out under an id of its
    /// own: a deposit or a withdrawal.
    pub open spec fn takes_id(self) -> bool {
        self is Deposit || self is Withdrawal
    }
}

impl View for Transaction {
    type V = TransactionView;

    open spec fn view(&self) -> TransactionView {
        match *self {
            Transaction::Deposit { id, client, amount } => TransactionView::Deposit {
                id,
                client,
                amount: amount@,
            },
            Transaction::Withdrawal { id, client, amount } => TransactionView::Withdrawal {
                id,
                client,
                amount: amount@,
            },
            Transaction::Dispute { client, id } => TransactionView::Dispute { client, id },
            Transaction::Resolve { client, id } => TransactionView::Resolve { client, id },
            Transaction::Chargeback { client, id } => TransactionView::Chargeback { client, id },
        }
    }
}

impl Transaction {
    /// Whether the amount, where the transaction has one, has no more
    /// fractional digits than the ledger keeps.
    pub open spec fn wf(&self) -> bool {
        match *self {
            Transaction::Deposit { amount, .. } => amount.is_fixed(),
            Transaction::Withdrawal { amount, .. } => amount.is_fixed(),
            _ => true,
        }
    }

    /// Whether the amount, where the transaction has one, is written
    /// without trailing fractional zeros.
    pub open spec fn is_normalized(&self) -> bool {
        match *self {
            Transaction::Deposit { amount, .. } => amount.is_normalized(),
            Transaction::Withdrawal { amount, .. } => amount.is_normalized(),
            _ => true,
        }
    }
}

} // verus!
