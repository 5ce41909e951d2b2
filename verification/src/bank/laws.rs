//! What holds of the ledger over whole runs of records.
//!
//! The laws are stated over the model: `BankView::handle` says what one
//! record does, and the functions of `Bank` are proved to do just that.

use crate::bank::amount::{lemma_pow10, step, truncate, PRECISION};
use crate::bank::error::BankErrorView;
use crate::bank::transaction::{RawTransactionView, TransactionView};
use crate::bank::BankView;
use vstd::prelude::*;

verus! {

impl BankView {
    /// The funds of one client, available and held; nothing for a client
    /// without an account.
    pub open spec fn funds_of(self, client: u16) -> int {
        if self.clients.contains_key(client) {
            self.clients[client].total()
        } else {
            0
        }
    }

    /// The funds of the clients whose id is below `n`.
    pub open spec fn funds_below(self, n: nat) -> int
        decreases n,
    {
        if n == 0 {
            0
        } else {
            self.funds_below((n - 1) as nat) + self.funds_of((n - 1) as u16)
        }
    }

    /// The funds of all clients together.
    pub open spec fn funds(self) -> int {
        self.funds_below(0x10000)
    }

    /// What a record pays in: the amount of a deposit that is taken.
    pub open spec fn paid_in(self, record: RawTransactionView) -> int {
        match self.validate(record) {
            Ok(TransactionView::Deposit { amount, .. }) => if self.handle(record) is Ok {
                amount
            } else {
                0
            },
            _ => 0,
        }
    }

    /// What a record pays out: the amount of a withdrawal that is taken.
    pub open spec fn paid_out(self, record: RawTransactionView) -> int {
        match self.validate(record) {
            Ok(TransactionView::Withdrawal { amount, .. }) => if self.handle(record) is Ok {
                amount
            } else {
                0
            },
            _ => 0,
        }
    }

    /// What a record charges back: the amount of the disputed deposit that
    /// a chargeback which is taken removes.
    pub open spec fn charged_back(self, record: RawTransactionView) -> int {
        match self.validate(record) {
            Ok(TransactionView::Chargeback { client, id }) => if self.handle(record) is Ok {
                self.clients[client].deposits[id].0
            } else {
                0
            },
            _ => 0,
        }
    }

    /// The sum of the deposits taken in a run of records.
    pub open spec fn deposited(self, records: Seq<RawTransactionView>) -> int
        decreases records.len(),
    {
        if records.len() == 0 {
            0
        } else {
            self.deposited(records.drop_last()) + self.after_all(records.drop_last()).paid_in(
                records.last(),
            )
        }
    }

    /// The sum of the withdrawals taken in a run of records.
    pub open spec fn withdrawn(self, records: Seq<RawTransactionView>) -> int
        decreases records.len(),
    {
        if records.len() == 0 {
            0
        } else {
            self.withdrawn(records.drop_last()) + self.after_all(records.drop_last()).paid_out(
                records.last(),
            )
        }
    }

    /// The sum of the deposits charged back in a run of records.
    pub open spec fn reversed(self, records: Seq<RawTransactionView>) -> int
        decreases records.len(),
    {
        if records.len() == 0 {
            0
        } else {
            self.reversed(records.drop_last()) + self.after_all(
                records.drop_last(),
            ).charged_back(records.last())
        }
    }
}

/// Two ledgers that differ in the account of one client at most differ in
/// their funds by what that client's funds differ.
proof fn lemma_funds_below(before: BankView, after: BankView, client: u16, n: nat)
    requires
        forall|other: u16| other != client ==> before.funds_of(other) == after.funds_of(other),
        n <= 0x10000,
    ensures
        after.funds_below(n) - before.funds_below(n) == if client < n {
            after.funds_of(client) - before.funds_of(client)
        } else {
            0
        },
    decreases n,
{
    if n > 0 {
        lemma_funds_below(before, after, client, (n - 1) as nat);
    }
}

/// One record changes the funds of the ledger by what it pays in, less what
/// it pays out and what it charges back.
pub proof fn lemma_funds_after(bank: BankView, record: RawTransactionView)
    ensures
        bank.after(record).funds() == bank.funds() + bank.paid_in(record) - bank.paid_out(record)
            - bank.charged_back(record),
{
    let next = bank.after(record);
    match bank.validate(record) {
        Ok(transaction) => {
            let client = transaction.client();
            assert forall|other: u16| other != client implies bank.funds_of(other)
                == next.funds_of(other) by {}
            lemma_funds_below(bank, next, client, 0x10000);
        },
        Err(_) => {},
    }
}

/// Conservation of funds: after any run of records, the funds of all
/// clients are what they were before, plus the deposits taken, less the
/// withdrawals taken, less the deposits charged back. Disputes and resolves
/// move funds between available and held and leave the sum alone; a record
/// that is turned down changes nothing.
pub proof fn lemma_funds_conserved(bank: BankView, records: Seq<RawTransactionView>)
    ensures
        bank.after_all(records).funds() == bank.funds() + bank.deposited(records) - bank.withdrawn(
            records,
        ) - bank.reversed(records),
    decreases records.len(),
{
    if records.len() > 0 {
        lemma_funds_conserved(bank, records.drop_last());
        lemma_funds_after(bank.after_all(records.drop_last()), records.last());
    }
}

/// A ledger that starts empty holds, after a run of records, the deposits
/// taken less the withdrawals taken and the deposits charged back.
pub proof fn lemma_funds_from_empty(records: Seq<RawTransactionView>)
    ensures
        BankView::new().after_all(records).funds() == BankView::new().deposited(records)
            - BankView::new().withdrawn(records) - BankView::new().reversed(records),
{
    lemma_funds_conserved(BankView::new(), records);
    lemma_no_funds(0x10000);
}

/// A ledger without accounts has no funds.
proof fn lemma_no_funds(n: nat)
    ensures
        BankView::new().funds_below(n) == 0,
    decreases n,
{
    if n > 0 {
        lemma_no_funds((n - 1) as nat);
    }
}

/// Where every record of a run is a deposit, nothing is withdrawn and
/// nothing charged back: the funds of all clients grow by the deposits
/// taken, and by nothing else.
pub proof fn lemma_deposits_add_up(bank: BankView, records: Seq<RawTransactionView>)
    requires
        forall|i: int| 0 <= i < records.len() ==> (#[trigger] records[i]).kind is Deposit,
    ensures
        bank.withdrawn(records) == 0,
        bank.reversed(records) == 0,
        bank.after_all(records).funds() == bank.funds() + bank.deposited(records),
    decreases records.len(),
{
    lemma_funds_conserved(bank, records);
    if records.len() > 0 {
        assert(records.last().kind is Deposit);
        lemma_deposits_add_up(bank, records.drop_last());
    }
}

/// A record changes the account of its own client at most: every other
/// account stays as it is.
pub proof fn lemma_other_accounts_untouched(
    bank: BankView,
    record: RawTransactionView,
    other: u16,
)
    requires
        other != record.client,
    ensures
        bank.after(record).clients.contains_key(other) == bank.clients.contains_key(other),
        bank.clients.contains_key(other) ==> bank.after(record).clients[other]
            == bank.clients[other],
{
}

/// An account, once opened, is never closed: whatever records follow, the
/// ledger goes on to report it.
pub proof fn lemma_accounts_stay(bank: BankView, records: Seq<RawTransactionView>, client: u16)
    requires
        bank.clients.contains_key(client),
    ensures
        bank.after_all(records).clients.contains_key(client),
    decreases records.len(),
{
    if records.len() > 0 {
        lemma_accounts_stay(bank, records.drop_last(), client);
    }
}

/// An id that is in use stays in use.
pub proof fn lemma_ids_stay(bank: BankView, records: Seq<RawTransactionView>, id: u32)
    requires
        bank.transactions.contains(id),
    ensures
        bank.after_all(records).transactions.contains(id),
    decreases records.len(),
{
    if records.len() > 0 {
        lemma_ids_stay(bank, records.drop_last(), id);
    }
}

/// Rejection of duplicates: once a deposit or a withdrawal has been taken,
/// every later deposit or withdrawal under the same id is turned down as a
/// duplicate, whatever else it says and whatever came between, and leaves
/// the ledger as it was.
pub proof fn lemma_duplicate_rejected(
    bank: BankView,
    first: RawTransactionView,
    between: Seq<RawTransactionView>,
    second: RawTransactionView,
)
    requires
        first.moves_funds(),
        second.moves_funds(),
        second.id == first.id,
        bank.handle(first) is Ok,
    ensures
        bank.after(first).after_all(between).handle(second) == Err::<BankView, BankErrorView>(
            BankErrorView::DuplicateTransaction { id: second.id },
        ),
        bank.after(first).after_all(between).after(second) == bank.after(first).after_all(between),
{
    lemma_ids_stay(bank.after(first), between, first.id);
}

/// A deposit or a withdrawal under an id that is in use is turned down as a
/// duplicate, each time it is tried.
pub proof fn lemma_duplicate_rejected_again(bank: BankView, record: RawTransactionView)
    requires
        record.moves_funds(),
        bank.transactions.contains(record.id),
    ensures
        bank.handle(record) == Err::<BankView, BankErrorView>(
            BankErrorView::DuplicateTransaction { id: record.id },
        ),
        bank.after(record) == bank,
        bank.after(record).after(record) == bank,
{
}

/// Round trip of a dispute: a dispute that is taken, followed by the resolve
/// of the same deposit, is taken too and gives back the ledger as it was
/// before the dispute: the available and held funds of the client, and all
/// the rest.
pub proof fn lemma_dispute_resolve(
    bank: BankView,
    dispute: RawTransactionView,
    resolve: RawTransactionView,
)
    requires
        dispute.kind is Dispute,
        resolve.kind is Resolve,
        resolve.client == dispute.client,
        resolve.id == dispute.id,
        bank.handle(dispute) is Ok,
    ensures
        bank.after(dispute).handle(resolve) is Ok,
        bank.after(dispute).after(resolve) == bank,
{
    let client = dispute.client;
    let id = dispute.id;
    let account = bank.clients[client];
    let disputed = account.dispute(id)->Ok_0;
    let resolved = disputed.resolve(id)->Ok_0;
    assert(resolved.deposits =~= account.deposits);
    assert(resolved == account);
    assert(bank.after(dispute).after(resolve).clients =~= bank.clients);
}

/// A chargeback that is taken locks the account.
pub proof fn lemma_chargeback_locks(bank: BankView, chargeback: RawTransactionView)
    requires
        chargeback.kind is Chargeback,
        bank.handle(chargeback) is Ok,
    ensures
        bank.after(chargeback).clients.contains_key(chargeback.client),
        bank.after(chargeback).clients[chargeback.client].locked,
{
}

/// A locked account turns down every record for its client.
pub proof fn lemma_locked_rejects(bank: BankView, record: RawTransactionView)
    requires
        bank.clients.contains_key(record.client),
        bank.clients[record.client].locked,
    ensures
        bank.handle(record) is Err,
        bank.after(record) == bank,
{
}

/// A record leaves a locked account as it is, whichever client the record
/// is for.
pub proof fn lemma_locked_stays(bank: BankView, client: u16, record: RawTransactionView)
    requires
        bank.clients.contains_key(client),
        bank.clients[client].locked,
    ensures
        bank.after(record).clients.contains_key(client),
        bank.after(record).clients[client] == bank.clients[client],
{
}

/// The lock is final: once an account is locked, no run of records changes
/// it, its balances included, and every record for its client that follows
/// the run is turned down.
pub proof fn lemma_lock_is_final(
    bank: BankView,
    client: u16,
    records: Seq<RawTransactionView>,
    record: RawTransactionView,
)
    requires
        bank.clients.contains_key(client),
        bank.clients[client].locked,
        record.client == client,
    ensures
        bank.after_all(records).clients.contains_key(client),
        bank.after_all(records).clients[client] == bank.clients[client],
        bank.after_all(records).handle(record) is Err,
    decreases records.len(),
{
    if records.len() > 0 {
        lemma_lock_is_final(bank, client, records.drop_last(), record);
        lemma_locked_stays(bank.after_all(records.drop_last()), client, records.last());
    }
    lemma_locked_rejects(bank.after_all(records), record);
}

/// Lock terminality: after a chargeback that is taken, the account of its
/// client never changes again, and every further record for that client is
/// turned down.
pub proof fn lemma_chargeback_is_final(
    bank: BankView,
    chargeback: RawTransactionView,
    records: Seq<RawTransactionView>,
    record: RawTransactionView,
)
    requires
        chargeback.kind is Chargeback,
        bank.handle(chargeback) is Ok,
        record.client == chargeback.client,
    ensures
        bank.after(chargeback).after_all(records).clients.contains_key(chargeback.client),
        bank.after(chargeback).after_all(records).clients[chargeback.client] == bank.after(
            chargeback,
        ).clients[chargeback.client],
        bank.after(chargeback).after_all(records).handle(record) is Err,
{
    lemma_chargeback_locks(bank, chargeback);
    lemma_lock_is_final(bank.after(chargeback), chargeback.client, records, record);
}

/// An amount of no more fractional digits than the ledger keeps is a whole
/// number of steps, and cutting it down to the ledger's precision leaves it
/// as it is.
pub proof fn lemma_truncate_whole(steps: int)
    ensures
        truncate(steps * step(), PRECISION as nat) == steps * step(),
{
    lemma_pow10();
    vstd::arithmetic::div_mod::lemma_mod_multiples_basic(steps, step());
    vstd::arithmetic::div_mod::lemma_mod_multiples_basic(-steps, step());
    assert(-(steps * step()) == (-steps) * step()) by (nonlinear_arith);
}

/// Cutting a positive amount down to the ledger's precision gives a whole
/// number of steps of 10^-4, no larger than the amount and less than one
/// step below it: the digits beyond the fourth are dropped, never rounded.
pub proof fn lemma_truncate_floor(amount: int)
    requires
        amount >= 0,
    ensures
        truncate(amount, PRECISION as nat) % step() == 0,
        truncate(amount, PRECISION as nat) <= amount < truncate(amount, PRECISION as nat) + step(),
{
    lemma_pow10();
    let cut = truncate(amount, PRECISION as nat);
    assert(cut == step() * (amount / step())) by {
        vstd::arithmetic::div_mod::lemma_fundamental_div_mod(amount, step());
    }
    assert(cut % step() == 0) by {
        vstd::arithmetic::div_mod::lemma_mod_multiples_basic(amount / step(), step());
        assert(step() * (amount / step()) == (amount / step()) * step()) by (nonlinear_arith);
    }
}

/// Precision floor: a deposit that is taken is recorded, and added to the
/// available funds, with its amount cut down to the ledger's precision.
pub proof fn lemma_deposit_truncated(bank: BankView, deposit: RawTransactionView)
    requires
        deposit.kind is Deposit,
        bank.handle(deposit) is Ok,
    ensures
        deposit.amount is Some,
        bank.after(deposit).clients.contains_key(deposit.client),
        bank.after(deposit).clients[deposit.client].deposits.contains_key(deposit.id),
        bank.after(deposit).clients[deposit.client].deposits[deposit.id] == (
            truncate(deposit.amount->0, PRECISION as nat),
            false,
        ),
        bank.after(deposit).clients[deposit.client].available == bank.account(
            deposit.client,
        ).available + truncate(deposit.amount->0, PRECISION as nat),
{
}

} // verus!
