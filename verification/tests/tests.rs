use bank_payments_engine::bank::amount::Amount;
use bank_payments_engine::bank::client::ClientExport;
use bank_payments_engine::bank::transaction::{RawTransaction, TransactionKind};
use bank_payments_engine::bank::Bank;

fn dec(mantissa: i128, scale: u32) -> Amount {
    Amount::new(mantissa, scale).expect("a mantissa of at most 96 bits and a scale of at most 28")
}

fn a_deposit(client: u16, id: u32, amount: Amount) -> RawTransaction {
    RawTransaction { kind: TransactionKind::Deposit, client, id, amount: Some(amount) }
}

fn a_withdrawal(client: u16, id: u32, amount: Amount) -> RawTransaction {
    RawTransaction { kind: TransactionKind::Withdrawal, client, id, amount: Some(amount) }
}

fn a_dispute(client: u16, id: u32) -> RawTransaction {
    RawTransaction { kind: TransactionKind::Dispute, client, id, amount: None }
}

fn a_resolve(client: u16, id: u32) -> RawTransaction {
    RawTransaction { kind: TransactionKind::Resolve, client, id, amount: None }
}

fn a_chargeback(client: u16, id: u32) -> RawTransaction {
    RawTransaction { kind: TransactionKind::Chargeback, client, id, amount: None }
}

/// Feeds the records to a new ledger, one after the other, and returns the
/// snapshots ordered by client. A record that is turned down is passed over.
fn process(records: Vec<RawTransaction>) -> Vec<ClientExport> {
    let mut bank = Bank::new();
    for record in records {
        assert!(bank.has_room_for_record(&record));
        let _ = bank.handle_transaction(record);
    }

    let mut clients = bank.export_clients();

    clients.sort_by_key(|client| client.id);

    clients
}

#[test]
fn single_deposit() {
    let clients = process(vec![a_deposit(1, 1, dec(10, 1))]);
    assert_eq!(clients, vec![
        ClientExport { id: 1, available: dec(10, 1), held: dec(0, 1), total: dec(10, 1), locked: false },
    ]);
}

#[test]
fn negative_deposit() {
    let clients = process(vec![a_deposit(1, 1, dec(-10, 1))]);
    assert_eq!(clients, vec![]);
}

#[test]
fn two_clients_deposit() {
    let clients = process(vec![a_deposit(1, 1, dec(10, 1)), a_deposit(2, 2, dec(20, 1))]);
    assert_eq!(clients, vec![
        ClientExport { id: 1, available: dec(10, 1), held: dec(0, 1), total: dec(10, 1), locked: false },
        ClientExport { id: 2, available: dec(20, 1), held: dec(0, 1), total: dec(20, 1), locked: false },
    ]);
}

#[test]
fn single_withdrawal() {
    let clients = process(vec![a_withdrawal(1, 1, dec(10, 1))]);
    assert_eq!(clients, vec![]);
}

#[test]
fn withdrawal_after_deposit() {
    let clients = process(vec![a_deposit(1, 1, dec(10, 1)), a_withdrawal(1, 2, dec(6, 1))]);
    assert_eq!(clients, vec![
        ClientExport { id: 1, available: dec(4, 1), held: dec(0, 1), total: dec(4, 1), locked: false },
    ]);
}

#[test]
fn negative_withdrawal() {
    let clients = process(vec![a_deposit(1, 1, dec(20, 1)), a_withdrawal(1, 2, dec(-10, 1))]);
    assert_eq!(clients, vec![
        ClientExport { id: 1, available: dec(20, 1), held: dec(0, 1), total: dec(20, 1), locked: false },
    ]);
}

#[test]
fn duplicate_transaction_id() {
    let clients = process(vec![a_deposit(1, 1, dec(10, 1)), a_deposit(1, 1, dec(20, 1))]);
    assert_eq!(clients, vec![
        ClientExport { id: 1, available: dec(10, 1), held: dec(0, 1), total: dec(10, 1), locked: false },
    ]);
}

#[test]
fn insufficient_funds_for_withdrawal() {
    let clients = process(vec![a_deposit(1, 1, dec(10, 1)), a_withdrawal(1, 2, dec(20, 1))]);
    assert_eq!(clients, vec![
        ClientExport { id: 1, available: dec(10, 1), held: dec(0, 1), total: dec(10, 1), locked: false },
    ]);
}

#[test]
fn dispute() {
    let clients = process(vec![a_deposit(1, 1, dec(10, 1)), a_dispute(1, 1)]);
    assert_eq!(clients, vec![
        ClientExport { id: 1, available: dec(0, 1), held: dec(10, 1), total: dec(10, 1), locked: false },
    ]);
}

#[test]
fn double_dispute() {
    let clients = process(vec![
        a_deposit(1, 1, dec(10, 1)),
        a_deposit(1, 2, dec(100, 1)),
        a_dispute(1, 1),
        a_dispute(1, 1),
    ]);
    assert_eq!(clients, vec![
        ClientExport { id: 1, available: dec(100, 1), held: dec(10, 1), total: dec(110, 1), locked: false },
    ]);
}

#[test]
fn dispute_resolve() {
    let clients = process(vec![a_deposit(1, 1, dec(10, 1)), a_dispute(1, 1), a_resolve(1, 1)]);
    assert_eq!(clients, vec![
        ClientExport { id: 1, available: dec(10, 1), held: dec(0, 1), total: dec(10, 1), locked: false },
    ]);
}

#[test]
fn dispute_chargeback() {
    let clients = process(vec![a_deposit(1, 1, dec(10, 1)), a_dispute(1, 1), a_chargeback(1, 1)]);
    assert_eq!(clients, vec![
        ClientExport { id: 1, available: dec(0, 1), held: dec(0, 1), total: dec(0, 1), locked: true },
    ]);
}

#[test]
fn deposit_while_locked() {
    let clients = process(vec![
        a_deposit(1, 1, dec(10, 1)),
        a_dispute(1, 1),
        a_chargeback(1, 1),
        a_deposit(1, 2, dec(50, 1)),
    ]);
    assert_eq!(clients, vec![
        ClientExport { id: 1, available: dec(0, 1), held: dec(0, 1), total: dec(0, 1), locked: true },
    ]);
}

#[test]
fn withdraw_while_locked() {
    let clients = process(vec![
        a_deposit(1, 1, dec(10, 1)),
        a_deposit(1, 2, dec(100, 1)),
        a_dispute(1, 1),
        a_chargeback(1, 1),
        a_withdrawal(1, 3, dec(50, 1)),
    ]);
    assert_eq!(clients, vec![
        ClientExport { id: 1, available: dec(100, 1), held: dec(0, 1), total: dec(100, 1), locked: true },
    ]);
}

#[test]
fn invalid_type() {
    let clients = process(vec![RawTransaction {
        kind: TransactionKind::Unknown(String::from("transfer")),
        client: 1,
        id: 1,
        amount: Some(dec(10, 1)),
    }]);
    assert_eq!(clients, vec![]);
}

#[test]
fn precision_deposits() {
    let clients = process(vec![a_deposit(1, 1, dec(100001, 5)), a_deposit(1, 2, dec(100009, 5))]);
    assert_eq!(clients, vec![
        ClientExport { id: 1, available: dec(20, 1), held: dec(0, 1), total: dec(20, 1), locked: false },
    ]);
}

#[test]
fn precision_withdrawals() {
    let clients = process(vec![
        a_deposit(1, 1, dec(100, 1)),
        a_withdrawal(1, 2, dec(100001, 5)),
        a_withdrawal(1, 3, dec(100009, 5)),
    ]);
    assert_eq!(clients, vec![
        ClientExport { id: 1, available: dec(80, 1), held: dec(0, 1), total: dec(80, 1), locked: false },
    ]);
}
