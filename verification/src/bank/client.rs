//! One client's account: its balances, its lock and its deposits.

use crate::bank::amount::{decimal_lt, in_range, Amount};
use crate::bank::error::{agrees, BankError, BankErrorView};
use crate::bank::transaction::{Transaction, TransactionView};
use std::collections::HashMap;
use vstd::prelude::*;

verus! {

broadcast use vstd::std_specs::hash::group_hash_axioms;

/// An account in the model. Amounts are numbers of units; a deposit is its
/// amount and whether it is under dispute.
#[verifier::ext_equal]
pub struct ClientView {
    pub available: int,
    pub held: int,
    pub locked: bool,
    pub deposits: Map<u32, (int, bool)>,
}

impl ClientView {
    /// The account of a client that has done nothing yet.
    pub open spec fn new() -> ClientView {
        ClientView { available: 0, held: 0, locked: false, deposits: Map::empty() }
    }

    /// The funds of the account, available or held.
    pub open spec fn total(self) -> int {
        self.available + self.held
    }

    /// Whether the ledger can hold every amount of the account, its total
    /// included.
    pub open spec fn in_range(self) -> bool {
        &&& in_range(self.available)
        &&& in_range(self.held)
        &&& in_range(self.total())
        &&& forall|id: u32| #[trigger]
            self.deposits.contains_key(id) ==> in_range(self.deposits[id].0)
    }

    /// A deposit adds to the available funds and is recorded, not disputed.
    pub open spec fn deposit(self, id: u32, amount: int) -> Result<ClientView, BankErrorView> {
        if self.locked {
            Err(BankErrorView::ClientLocked)
        } else {
            Ok(
                ClientView {
                    available: self.available + amount,
                    deposits: self.deposits.insert(id, (amount, false)),
                    ..self
                },
            )
        }
    }

    /// A withdrawal takes from the available funds what they can cover.
    pub open spec fn withdraw(self, amount: int) -> Result<ClientView, BankErrorView> {
        if self.locked {
            Err(BankErrorView::ClientLocked)
        } else if self.available < amount {
            Err(BankErrorView::InsufficientFunds { expected: amount, available: self.available })
        } else {
            Ok(ClientView { available: self.available - amount, ..self })
        }
    }

    /// A dispute moves the amount of a deposit from available to held.
    pub open spec fn dispute(self, id: u32) -> Result<ClientView, BankErrorView> {
        if self.locked {
            Err(BankErrorView::ClientLocked)
        } else if !self.deposits.contains_key(id) {
            Err(BankErrorView::MissingTransaction { id })
        } else if self.deposits[id].1 {
            Err(BankErrorView::AlreadyDisputed { id })
        } else if self.available < self.deposits[id].0 {
            Err(
                BankErrorView::InsufficientFunds {
                    expected: self.deposits[id].0,
                    available: self.available,
                },
            )
        } else {
            Ok(
                ClientView {
                    available: self.available - self.deposits[id].0,
                    held: self.held + self.deposits[id].0,
                    deposits: self.deposits.insert(id, (self.deposits[id].0, true)),
                    ..self
                },
            )
        }
    }

    /// A resolve moves the amount of a disputed deposit back from held to
    /// available.
    pub open spec fn resolve(self, id: u32) -> Result<ClientView, BankErrorView> {
        if self.locked {
            Err(BankErrorView::ClientLocked)
        } else if !self.deposits.contains_key(id) {
            Err(BankErrorView::MissingTransaction { id })
        } else if !self.deposits[id].1 {
            Err(BankErrorView::NotDisputed { id })
        } else {
            Ok(
                ClientView {
                    available: self.available + self.deposits[id].0,
                    held: self.held - self.deposits[id].0,
                    deposits: self.deposits.insert(id, (self.deposits[id].0, false)),
                    ..self
                },
            )
        }
    }

    /// A chargeback takes the amount of a disputed deposit out of the held
    /// funds and locks the account.
    pub open spec fn chargeback(self, id: u32) -> Result<ClientView, BankErrorView> {
        if self.locked {
            Err(BankErrorView::ClientLocked)
        } else if !self.deposits.contains_key(id) {
            Err(BankErrorView::MissingTransaction { id })
        } else if !self.deposits[id].1 {
            Err(BankErrorView::NotDisputed { id })
        } else {
            Ok(ClientView { held: self.held - self.deposits[id].0, locked: true, ..self })
        }
    }

    /// The snapshot of the account, for the client `id`.
    pub open spec fn export(self, id: u16) -> ClientExportView {
        ClientExportView {
            id,
            available: self.available,
            held: self.held,
            total: self.total(),
            locked: self.locked,
        }
    }

    /// The account after a transaction for it.
    pub open spec fn apply(self, transaction: TransactionView) -> Result<
        ClientView,
        BankErrorView,
    > {
        match transaction {
            TransactionView::Deposit { id, amount, .. } => self.deposit(id, amount),
            TransactionView::Withdrawal { amount, .. } => self.withdraw(amount),
            TransactionView::Dispute { id, .. } => self.dispute(id),
            TransactionView::Resolve { id, .. } => self.resolve(id),
            TransactionView::Chargeback { id, .. } => self.chargeback(id),
        }
    }
}

/// The snapshot of one account: what the ledger reports of a client.
#[derive(Debug)]
pub struct ClientExport {
    pub id: u16,
    pub available: Amount,
    pub held: Amount,
    pub total: Amount,
    pub locked: bool,
}

/// A `ClientExport` in the model.
pub struct ClientExportView {
    pub id: u16,
    pub available: int,
    pub held: int,
    pub total: int,
    pub locked: bool,
}

impl View for ClientExport {
    type V = ClientExportView;

    open spec fn view(&self) -> ClientExportView {
        ClientExportView {
            id: self.id,
            available: self.available@,
            held: self.held@,
            total: self.total@,
            locked: self.locked,
        }
    }
}

impl PartialEq for ClientExport {
    /// Two snapshots are equal when they are of the same client and report
    /// the same numbers.
    fn eq(&self, other: &ClientExport) -> (r: bool) {
        self.id == other.id && self.available == other.available && self.held == other.held
            && self.total == other.total && self.locked == other.locked
    }
}

impl Eq for ClientExport {

}

impl vstd::std_specs::cmp::PartialEqSpecImpl for ClientExport {
    open spec fn obeys_eq_spec() -> bool {
        true
    }

    open spec fn eq_spec(&self, other: &ClientExport) -> bool {
        self@ == other@
    }
}

/// A client's account.
#[derive(Debug)]
pub struct Client {
    pub available: Amount,
    pub held: Amount,
    pub locked: bool,
    /// The deposits by transaction id: the amount, and whether the deposit
    /// is under dispute.
    pub deposits: HashMap<u32, (Amount, bool)>,
}

impl View for Client {
    type V = ClientView;

    open spec fn view(&self) -> ClientView {
        ClientView {
            available: self.available@,
            held: self.held@,
            locked: self.locked,
            deposits: self.deposits@.map_values(|d: (Amount, bool)| (d.0@, d.1)),
        }
    }
}

impl Default for Client {
    /// An account with no funds and no deposits.
    fn default() -> (r: Client)
        ensures
            r.wf(),
            r@ == ClientView::new(),
    {
        Client::new()
    }
}

impl Client {
    /// Every amount of the account has the ledger's precision and is one
    /// that the ledger can hold.
    pub open spec fn wf(&self) -> bool {
        &&& self.available.is_fixed()
        &&& self.held.is_fixed()
        &&& forall|id: u32| #[trigger]
            self.deposits@.contains_key(id) ==> self.deposits@[id].0.is_fixed()
        &&& self@.in_range()
    }

    /// An account with no funds and no deposits.
    pub fn new() -> (r: Client)
        ensures
            r.wf(),
            r@ == ClientView::new(),
    {
        let r = Client {
            available: Amount::zero(),
            held: Amount::zero(),
            locked: false,
            deposits: HashMap::new(),
        };
        assert(r@.deposits =~= Map::empty());
        r
    }

    /// The snapshot of the account, for the client `id`.
    pub fn export(&self, id: u16) -> (r: ClientExport)
        requires
            self.wf(),
        ensures
            r@ == self@.export(id),
    {
        ClientExport {
            id,
            available: self.available,
            held: self.held,
            total: self.available.checked_add(self.held).unwrap(),
            locked: self.locked,
        }
    }

    /// Whether the ledger can hold the account as `transaction` would leave
    /// it. A transaction that the account turns down leaves it as it is.
    pub fn has_room_for(&self, transaction: &Transaction) -> (r: bool)
        requires
            self.wf(),
            transaction.wf(),
        ensures
            r == (self@.apply(transaction@) matches Ok(next) ==> next.in_range()),
    {
        if self.locked {
            return true;
        }
        match *transaction {
            Transaction::Deposit { id, amount, .. } => {
                assert(self@.deposit(id, amount@)->Ok_0.deposits.contains_key(id));
                match self.available.checked_add(amount) {
                    Some(available) => amount.is_in_range() && available.checked_add(
                        self.held,
                    ).is_some(),
                    None => false,
                }
            },
            Transaction::Withdrawal { amount, .. } => {
                if decimal_lt(self.available, amount) {
                    return true;
                }
                match self.available.checked_sub(amount) {
                    Some(available) => available.checked_add(self.held).is_some(),
                    None => false,
                }
            },
            Transaction::Dispute { id, .. } => {
                match self.deposits.get(&id) {
                    Some(deposit) => {
                        assert(self.deposits@.contains_key(id));
                        deposit.1 || decimal_lt(self.available, deposit.0) || (
                        self.available.checked_sub(deposit.0).is_some() && self.held.checked_add(
                            deposit.0,
                        ).is_some())
                    },
                    None => true,
                }
            },
            Transaction::Resolve { id, .. } => {
                match self.deposits.get(&id) {
                    Some(deposit) => {
                        assert(self.deposits@.contains_key(id));
                        !deposit.1 || (self.available.checked_add(deposit.0).is_some()
                            && self.held.checked_sub(deposit.0).is_some())
                    },
                    None => true,
                }
            },
            Transaction::Chargeback { id, .. } => {
                match self.deposits.get(&id) {
                    Some(deposit) => {
                        assert(self.deposits@.contains_key(id));
                        !deposit.1 || match self.held.checked_sub(deposit.0) {
                            Some(held) => self.available.checked_add(held).is_some(),
                            None => false,
                        }
                    },
                    None => true,
                }
            },
        }
    }

    fn ensure_unlocked(&self) -> (r: Result<(), BankError>)
        ensures
            self.locked ==> (r matches Err(e) && e@ == BankErrorView::ClientLocked),
            !self.locked ==> r is Ok,
    {
        if self.locked {
            Err(BankError::ClientLocked)
        } else {
            Ok(())
        }
    }

    /// Adds `amount` to the available funds and records the deposit.
    pub fn deposit(&mut self, transaction_id: u32, amount: Amount) -> (r: Result<(), BankError>)
        requires
            old(self).wf(),
            amount.is_fixed(),
            old(self)@.deposit(transaction_id, amount@) matches Ok(next) ==> next.in_range(),
        ensures
            final(self).wf(),
            agrees(old(self)@.deposit(transaction_id, amount@), old(self)@, final(self)@, r),
    {
        self.ensure_unlocked()?;
        assert(old(self)@.deposit(transaction_id, amount@)->Ok_0.deposits.contains_key(
            transaction_id,
        ));
        self.available = self.available.checked_add(amount).unwrap();
        self.deposits.insert(transaction_id, (amount, false));
        assert(self@.deposits =~= old(self)@.deposits.insert(transaction_id, (amount@, false)));
        Ok(())
    }

    /// Takes `amount` from the available funds, if they cover it.
    pub fn withdraw(&mut self, amount: Amount) -> (r: Result<(), BankError>)
        requires
            old(self).wf(),
            amount.is_fixed(),
            old(self)@.withdraw(amount@) matches Ok(next) ==> next.in_range(),
        ensures
            final(self).wf(),
            agrees(old(self)@.withdraw(amount@), old(self)@, final(self)@, r),
    {
        self.ensure_unlocked()?;
        if decimal_lt(self.available, amount) {
            return Err(BankError::InsufficientFunds { expected: amount, available: self.available });
        }
        self.available = self.available.checked_sub(amount).unwrap();
        assert(self@.deposits =~= old(self)@.deposits);
        Ok(())
    }

    /// Puts the deposit `transaction_id` under dispute: its amount moves
    /// from available to held.
    pub fn dispute(&mut self, transaction_id: u32) -> (r: Result<(), BankError>)
        requires
            old(self).wf(),
            old(self)@.dispute(transaction_id) matches Ok(next) ==> next.in_range(),
        ensures
            final(self).wf(),
            agrees(old(self)@.dispute(transaction_id), old(self)@, final(self)@, r),
    {
        self.ensure_unlocked()?;
        let (amount, disputed) = match self.deposits.get(&transaction_id) {
            Some(deposit) => *deposit,
            None => {
                return Err(BankError::MissingTransaction { id: transaction_id });
            },
        };
        assert(self.deposits@.contains_key(transaction_id));
        if disputed {
            return Err(BankError::AlreadyDisputed { id: transaction_id });
        }
        if decimal_lt(self.available, amount) {
            return Err(BankError::InsufficientFunds { expected: amount, available: self.available });
        }
        self.available = self.available.checked_sub(amount).unwrap();
        self.held = self.held.checked_add(amount).unwrap();
        self.deposits.insert(transaction_id, (amount, true));
        assert(self@.deposits =~= old(self)@.deposits.insert(transaction_id, (amount@, true)));
        Ok(())
    }

    /// Ends the dispute of the deposit `transaction_id` in the client's
    /// favour: its amount moves back from held to available.
    pub fn resolve(&mut self, transaction_id: u32) -> (r: Result<(), BankError>)
        requires
            old(self).wf(),
            old(self)@.resolve(transaction_id) matches Ok(next) ==> next.in_range(),
        ensures
            final(self).wf(),
            agrees(old(self)@.resolve(transaction_id), old(self)@, final(self)@, r),
    {
        self.ensure_unlocked()?;
        let (amount, disputed) = match self.deposits.get(&transaction_id) {
            Some(deposit) => *deposit,
            None => {
                return Err(BankError::MissingTransaction { id: transaction_id });
            },
        };
        assert(self.deposits@.contains_key(transaction_id));
        if !disputed {
            return Err(BankError::NotDisputed { id: transaction_id });
        }
        self.available = self.available.checked_add(amount).unwrap();
        self.held = self.held.checked_sub(amount).unwrap();
        self.deposits.insert(transaction_id, (amount, false));
        assert(self@.deposits =~= old(self)@.deposits.insert(transaction_id, (amount@, false)));
        Ok(())
    }

    /// Ends the dispute of the deposit `transaction_id` against the client:
    /// its amount leaves the held funds, and the account is locked.
    pub fn chargeback(&mut self, transaction_id: u32) -> (r: Result<(), BankError>)
        requires
            old(self).wf(),
            old(self)@.chargeback(transaction_id) matches Ok(next) ==> next.in_range(),
        ensures
            final(self).wf(),
            agrees(old(self)@.chargeback(transaction_id), old(self)@, final(self)@, r),
    {
        self.ensure_unlocked()?;
        let (amount, disputed) = match self.deposits.get(&transaction_id) {
            Some(deposit) => *deposit,
            None => {
                return Err(BankError::MissingTransaction { id: transaction_id });
            },
        };
        assert(self.deposits@.contains_key(transaction_id));
        if !disputed {
            return Err(BankError::NotDisputed { id: transaction_id });
        }
        self.held = self.held.checked_sub(amount).unwrap();
        self.locked = true;
        assert(self@.deposits =~= old(self)@.deposits);
        Ok(())
    }
}

} // verus!
