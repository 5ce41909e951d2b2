//! The ledger: every client's account, and the transaction ids in use.

pub mod amount;
pub mod client;
pub mod error;
pub mod laws;
pub mod transaction;

use crate::bank::amount::{decimal_normalize, decimal_trunc, truncate, PRECISION};
use crate::bank::client::{Client, ClientExport, ClientView};
use crate::bank::error::{agrees, BankError, BankErrorView};
use crate::bank::transaction::{
    RawTransaction, RawTransactionView, Transaction, TransactionKind, TransactionKindView,
    TransactionView,
};
use std::collections::hash_map::Entry;
use std::collections::{HashMap, HashSet};
use vstd::prelude::*;
use vstd::std_specs::iter::IteratorSpec;

verus! {

broadcast use vstd::std_specs::hash::group_hash_axioms;

/// The ledger in the model: the accounts by client id, and the ids of the
/// deposits and withdrawals that were applied.
#[verifier::ext_equal]
pub struct BankView {
    pub clients: Map<u16, ClientView>,
    pub transactions: Set<u32>,
}

impl BankView {
    /// The ledger before any transaction.
    pub open spec fn new() -> BankView {
        BankView { clients: Map::empty(), transactions: Set::empty() }
    }

    /// Whether the ledger can hold every amount of every account.
    pub open spec fn in_range(self) -> bool {
        forall|id: u16| #[trigger] self.clients.contains_key(id) ==> self.clients[id].in_range()
    }

    /// The account that a deposit for `client` goes to: the client's own, or
    /// a new one for a client that has none.
    pub open spec fn account(self, client: u16) -> ClientView {
        if self.clients.contains_key(client) {
            self.clients[client]
        } else {
            ClientView::new()
        }
    }

    /// The transaction that a record stands for. A deposit or a withdrawal
    /// needs an unused id and a positive amount, of which the digits beyond
    /// the ledger's precision are cut off; a dispute, a resolve or a
    /// chargeback needs an id that is in use, and has no amount.
    pub open spec fn validate(self, raw: RawTransactionView) -> Result<
        TransactionView,
        BankErrorView,
    > {
        match raw.kind {
            TransactionKindView::Deposit => if self.transactions.contains(raw.id) {
                Err(BankErrorView::DuplicateTransaction { id: raw.id })
            } else {
                match raw.required_amount() {
                    Ok(amount) => Ok(
                        TransactionView::Deposit {
                            id: raw.id,
                            client: raw.client,
                            amount: truncate(amount, PRECISION as nat),
                        },
                    ),
                    Err(e) => Err(e),
                }
            },
            TransactionKindView::Withdrawal => if self.transactions.contains(raw.id) {
                Err(BankErrorView::DuplicateTransaction { id: raw.id })
            } else {
                match raw.required_amount() {
                    Ok(amount) => Ok(
                        TransactionView::Withdrawal {
                            id: raw.id,
                            client: raw.client,
                            amount: truncate(amount, PRECISION as nat),
                        },
                    ),
                    Err(e) => Err(e),
                }
            },
            TransactionKindView::Dispute => if self.transactions.contains(raw.id) {
                Ok(TransactionView::Dispute { client: raw.client, id: raw.id })
            } else {
                Err(BankErrorView::MissingTransaction { id: raw.id })
            },
            TransactionKindView::Resolve => if self.transactions.contains(raw.id) {
                Ok(TransactionView::Resolve { client: raw.client, id: raw.id })
            } else {
                Err(BankErrorView::MissingTransaction { id: raw.id })
            },
            TransactionKindView::Chargeback => if self.transactions.contains(raw.id) {
                Ok(TransactionView::Chargeback { client: raw.client, id: raw.id })
            } else {
                Err(BankErrorView::MissingTransaction { id: raw.id })
            },
            TransactionKindView::Unknown(name) => Err(
                BankErrorView::UnknownTransactionType { name },
            ),
        }
    }

    /// The ledger after a validated transaction. A deposit opens the account
    /// of a client that has none; every other kind needs the account to be
    /// there. What the account does with the transaction is the account's
    /// affair; a deposit or a withdrawal that it takes puts its id in use.
    pub open spec fn apply(self, transaction: TransactionView) -> Result<BankView, BankErrorView> {
        let client = transaction.client();
        if !(transaction is Deposit) && !self.clients.contains_key(client) {
            Err(BankErrorView::InvalidClient { id: client })
        } else {
            match self.account(client).apply(transaction) {
                Ok(account) => Ok(
                    BankView {
                        clients: self.clients.insert(client, account),
                        transactions: if transaction.takes_id() {
                            self.transactions.insert(transaction.id())
                        } else {
                            self.transactions
                        },
                    },
                ),
                Err(e) => Err(e),
            }
        }
    }

    /// The ledger after a record: the record is validated, and the
    /// transaction it stands for applied.
    pub open spec fn handle(self, raw: RawTransactionView) -> Result<BankView, BankErrorView> {
        match self.validate(raw) {
            Ok(transaction) => self.apply(transaction),
            Err(e) => Err(e),
        }
    }

    /// The ledger after one record. A record that is turned down leaves it
    /// as it was.
    pub open spec fn after(self, record: RawTransactionView) -> BankView {
        match self.handle(record) {
            Ok(next) => next,
            Err(_) => self,
        }
    }

    /// The ledger after a run of records, each handled in its turn.
    pub open spec fn after_all(self, records: Seq<RawTransactionView>) -> BankView
        decreases records.len(),
    {
        if records.len() == 0 {
            self
        } else {
            self.after_all(records.drop_last()).after(records.last())
        }
    }
}

/// The ledger.
pub struct Bank {
    /// The accounts by client id.
    clients: HashMap<u16, Client>,
    /// The ids of the deposits and withdrawals that were applied.
    transactions: HashSet<u32>,
}

impl View for Bank {
    type V = BankView;

    closed spec fn view(&self) -> BankView {
        BankView {
            clients: self.clients@.map_values(|c: Client| c@),
            transactions: self.transactions@,
        }
    }
}

impl Default for Bank {
    /// A ledger without accounts.
    fn default() -> (r: Bank)
        ensures
            r.wf(),
            r@ == BankView::new(),
    {
        Bank::new()
    }
}

impl Bank {
    /// Every account is well formed.
    pub closed spec fn wf(&self) -> bool {
        forall|id: u16| #[trigger] self.clients@.contains_key(id) ==> self.clients@[id].wf()
    }

    /// A ledger without accounts.
    pub fn new() -> (r: Bank)
        ensures
            r.wf(),
            r@ == BankView::new(),
    {
        let r = Bank { clients: HashMap::new(), transactions: HashSet::new() };
        assert(r@.clients =~= Map::empty());
        r
    }

    /// The snapshots of all accounts, one for each client that ever made a
    /// deposit, in no particular order.
    pub fn export_clients(&self) -> (r: Vec<ClientExport>)
        requires
            self.wf(),
        ensures
            r@.len() == self@.clients.len(),
            forall|i: int|
                0 <= i < r@.len() ==> self@.clients.contains_key(#[trigger] r@[i].id) && r@[i]@
                    == self@.clients[r@[i].id].export(r@[i].id),
            forall|i: int, j: int| 0 <= i < j < r@.len() ==> r@[i].id != r@[j].id,
            forall|id: u16|
                self@.clients.contains_key(id) ==> exists|i: int|
                    0 <= i < r@.len() && (#[trigger] r@[i]).id == id,
    {
        let mut r: Vec<ClientExport> = Vec::new();
        let ghost accounts = self.clients.iter().remaining();
        for entry in it: self.clients.iter()
            invariant
                self.wf(),
                it.seq() == accounts,
                accounts.no_duplicates(),
                r@.len() == it.index(),
                forall|i: int|
                    0 <= i < r@.len() ==> (#[trigger] r@[i]).id == *accounts[i].0 && r@[i]@ == (
                    *accounts[i].1)@.export(r@[i].id),
        {
            let (id, account) = entry;
            assert(self.clients@.contains_key(*id));
            r.push(account.export(*id));
        }
        proof {
            assert(self@.clients.dom() =~= self.clients@.dom());
            assert forall|i: int, j: int| 0 <= i < j < r@.len() implies r@[i].id != r@[j].id by {
                assert(accounts[i] != accounts[j]);
                assert(self.clients@[*accounts[i].0] == *accounts[i].1);
                assert(self.clients@[*accounts[j].0] == *accounts[j].1);
            }
            assert forall|id: u16| self@.clients.contains_key(id) implies exists|i: int|
                0 <= i < r@.len() && (#[trigger] r@[i]).id == id by {
                assert(self.clients@.contains_key(id));
                let i = choose|i: int|
                    0 <= i < accounts.len() && accounts[i] == (&id, &self.clients@[id]);
                assert(r@[i].id == id);
            }
        }
        r
    }

    /// What a well-formed ledger holds is in range.
    pub proof fn lemma_wf_in_range(&self)
        requires
            self.wf(),
        ensures
            self@.in_range(),
    {
    }

    fn ensure_transaction_is_unique(&self, id: u32) -> (r: Result<(), BankError>)
        ensures
            self@.transactions.contains(id) ==> (r matches Err(e) && e@
                == BankErrorView::DuplicateTransaction { id }),
            !self@.transactions.contains(id) ==> r is Ok,
    {
        if self.transactions.contains(&id) {
            return Err(BankError::DuplicateTransaction { id });
        }
        Ok(())
    }

    fn ensure_transaction_exists(&self, id: u32) -> (r: Result<(), BankError>)
        ensures
            !self@.transactions.contains(id) ==> (r matches Err(e) && e@
                == BankErrorView::MissingTransaction { id }),
            self@.transactions.contains(id) ==> r is Ok,
    {
        if !self.transactions.contains(&id) {
            return Err(BankError::MissingTransaction { id });
        }
        Ok(())
    }

    /// Checks a record against the ids in use and turns it into the
    /// transaction it stands for. The amount of a deposit or a withdrawal is
    /// cut down to the ledger's precision, without rounding, and normalized.
    pub fn validate_transaction(&self, transaction: &RawTransaction) -> (r: Result<
        Transaction,
        BankError,
    >)
        ensures
            match self@.validate(transaction@) {
                Ok(valid) => r matches Ok(t) && t@ == valid && t.wf() && t.is_normalized(),
                Err(e) => r matches Err(x) && x@ == e,
            },
    {
        match &transaction.kind {
            TransactionKind::Deposit => {
                self.ensure_transaction_is_unique(transaction.id)?;
                let amount = decimal_normalize(decimal_trunc(transaction.get_amount()?, PRECISION));
                Ok(Transaction::Deposit { id: transaction.id, client: transaction.client, amount })
            },
            TransactionKind::Withdrawal => {
                self.ensure_transaction_is_unique(transaction.id)?;
                let amount = decimal_normalize(decimal_trunc(transaction.get_amount()?, PRECISION));
                Ok(
                    Transaction::Withdrawal {
                        id: transaction.id,
                        client: transaction.client,
                        amount,
                    },
                )
            },
            TransactionKind::Dispute => {
                self.ensure_transaction_exists(transaction.id)?;
                Ok(Transaction::Dispute { client: transaction.client, id: transaction.id })
            },
            TransactionKind::Resolve => {
                self.ensure_transaction_exists(transaction.id)?;
                Ok(Transaction::Resolve { client: transaction.client, id: transaction.id })
            },
            TransactionKind::Chargeback => {
                self.ensure_transaction_exists(transaction.id)?;
                Ok(Transaction::Chargeback { client: transaction.client, id: transaction.id })
            },
            TransactionKind::Unknown(name) => Err(
                BankError::UnknownTransactionType { name: name.clone() },
            ),
        }
    }

    /// Applies a validated transaction to the account it names. Either the
    /// whole effect of the transaction takes place, or the ledger stays as
    /// it was.
    pub fn apply_transaction(&mut self, transaction: Transaction) -> (r: Result<(), BankError>)
        requires
            old(self).wf(),
            transaction.wf(),
            old(self)@.apply(transaction@) matches Ok(next) ==> next.in_range(),
        ensures
            final(self).wf(),
            agrees(old(self)@.apply(transaction@), old(self)@, final(self)@, r),
    {
        proof {
            let client = transaction@.client();
            assert(old(self)@.apply(transaction@) matches Ok(next) ==> next.clients.contains_key(
                client,
            ));
        }
        let outcome = match transaction {
            Transaction::Deposit { id, client, amount } => {
                self.clients.entry(client).or_insert(Client::new()).deposit(id, amount)
            },
            Transaction::Withdrawal { client, amount, .. } => match self.clients.entry(client) {
                Entry::Occupied(entry) => entry.into_mut().withdraw(amount),
                Entry::Vacant(_) => Err(BankError::InvalidClient { id: client }),
            },
            Transaction::Dispute { client, id } => match self.clients.entry(client) {
                Entry::Occupied(entry) => entry.into_mut().dispute(id),
                Entry::Vacant(_) => Err(BankError::InvalidClient { id: client }),
            },
            Transaction::Resolve { client, id } => match self.clients.entry(client) {
                Entry::Occupied(entry) => entry.into_mut().resolve(id),
                Entry::Vacant(_) => Err(BankError::InvalidClient { id: client }),
            },
            Transaction::Chargeback { client, id } => match self.clients.entry(client) {
                Entry::Occupied(entry) => entry.into_mut().chargeback(id),
                Entry::Vacant(_) => Err(BankError::InvalidClient { id: client }),
            },
        };
        match outcome {
            Ok(()) => {
                match transaction {
                    Transaction::Deposit { id, .. } => {
                        self.transactions.insert(id);
                    },
                    Transaction::Withdrawal { id, .. } => {
                        self.transactions.insert(id);
                    },
                    _ => {},
                }
                assert(self@.clients =~= old(self)@.apply(transaction@)->Ok_0.clients);
                Ok(())
            },
            Err(e) => {
                assert(self@.clients =~= old(self)@.clients);
                Err(e)
            },
        }
    }

    /// Validates a record and applies the transaction it stands for.
    pub fn handle_transaction(&mut self, transaction: RawTransaction) -> (r: Result<(), BankError>)
        requires
            old(self).wf(),
            old(self)@.handle(transaction@) matches Ok(next) ==> next.in_range(),
        ensures
            final(self).wf(),
            agrees(old(self)@.handle(transaction@), old(self)@, final(self)@, r),
            final(self)@ == old(self)@.after(transaction@),
    {
        let transaction = self.validate_transaction(&transaction)?;
        self.apply_transaction(transaction)
    }

    /// Whether the ledger can hold the outcome of a validated transaction.
    /// A transaction that would be turned down leaves the ledger as it is.
    pub fn has_room_for(&self, transaction: &Transaction) -> (r: bool)
        requires
            self.wf(),
            transaction.wf(),
        ensures
            r == (self@.apply(transaction@) matches Ok(next) ==> next.in_range()),
    {
        let client = match *transaction {
            Transaction::Deposit { client, .. } => client,
            Transaction::Withdrawal { client, .. } => client,
            Transaction::Dispute { client, .. } => client,
            Transaction::Resolve { client, .. } => client,
            Transaction::Chargeback { client, .. } => client,
        };
        proof {
            let next = self@.apply(transaction@);
            assert(next matches Ok(bank) ==> bank.clients.contains_key(client));
            assert(next matches Ok(bank) ==> (bank.in_range() <==> bank.clients[client].in_range()));
        }
        match self.clients.get(&client) {
            Some(account) => account.has_room_for(transaction),
            None => match *transaction {
                Transaction::Deposit { id, amount, .. } => {
                    assert(ClientView::new().deposit(id, amount@)->Ok_0.deposits.contains_key(id));
                    amount.is_in_range()
                },
                _ => true,
            },
        }
    }

    /// Whether the ledger can hold the outcome of a record: the condition
    /// under which `handle_transaction` takes it.
    pub fn has_room_for_record(&self, transaction: &RawTransaction) -> (r: bool)
        requires
            self.wf(),
        ensures
            r == (self@.handle(transaction@) matches Ok(next) ==> next.in_range()),
    {
        match self.validate_transaction(transaction) {
            Ok(valid) => self.has_room_for(&valid),
            Err(_) => true,
        }
    }
}

} // verus!
