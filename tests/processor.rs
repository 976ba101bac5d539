use transactions_ledger::errors::CoreError;
use transactions_ledger::ingest::{classify_row, kind_from_trimmed, parse_kind, IngestEvent};
use transactions_ledger::processor::Processor;
use transactions_ledger::state::{AccountState, EngineState, TxKind};
use transactions_ledger::store::{HashMapStore, TxStore};
use transactions_ledger::types::{AccountRow, Amount, Transaction, TransactionType};

fn amt(s: &str) -> Amount {
    Amount::from_str_4dp(s).unwrap()
}

fn ev(kind: TransactionType, client: u16, tx: u32, amount: Option<&str>) -> IngestEvent {
    IngestEvent::Tx(Transaction {
        kind,
        client,
        tx,
        amount: amount.map(amt),
    })
}

fn account(p: &Processor<HashMapStore>, client: u16) -> AccountState {
    *p.state().accounts.get(&client).unwrap()
}

fn run(events: Vec<IngestEvent>) -> Processor<HashMapStore> {
    let mut p = Processor::new(HashMapStore::new());
    for e in events {
        p.apply_event(e);
    }
    p
}

#[test]
fn deposit_then_withdrawal_scenario() {
    let p = run(vec![
        ev(TransactionType::Deposit, 1, 1, Some("1.5000")),
        ev(TransactionType::Withdrawal, 1, 2, Some("0.5000")),
    ]);
    let rows = p.results();
    assert_eq!(rows.len(), 1);
    let r = rows[0];
    assert_eq!(r.client, 1);
    assert_eq!(r.available.to_string(), "1.0000");
    assert_eq!(r.held.to_string(), "0.0000");
    assert_eq!(r.total.to_string(), "1.0000");
    assert!(!r.locked);
}

#[test]
fn dispute_scenario() {
    let p = run(vec![
        ev(TransactionType::Deposit, 1, 100, Some("2.0000")),
        ev(TransactionType::Dispute, 1, 100, None),
    ]);
    let r = p.results()[0];
    assert_eq!(r.available.to_string(), "0.0000");
    assert_eq!(r.held.to_string(), "2.0000");
    assert_eq!(r.total.to_string(), "2.0000");
    assert!(p.state().store.get(100).unwrap().disputed);
}

#[test]
fn dispute_then_resolve_scenario() {
    let p = run(vec![
        ev(TransactionType::Deposit, 1, 100, Some("2.0000")),
        ev(TransactionType::Dispute, 1, 100, None),
        ev(TransactionType::Resolve, 1, 100, None),
    ]);
    let r = p.results()[0];
    assert_eq!(r.available.to_string(), "2.0000");
    assert_eq!(r.held.to_string(), "0.0000");
    assert_eq!(r.total.to_string(), "2.0000");
    assert!(!p.state().store.get(100).unwrap().disputed);
}

#[test]
fn dispute_then_chargeback_scenario() {
    let mut p = run(vec![
        ev(TransactionType::Deposit, 1, 100, Some("2.0000")),
        ev(TransactionType::Dispute, 1, 100, None),
        ev(TransactionType::Chargeback, 1, 100, None),
    ]);
    let r = p.results()[0];
    assert_eq!(r.available.to_string(), "0.0000");
    assert_eq!(r.held.to_string(), "0.0000");
    assert_eq!(r.total.to_string(), "0.0000");
    assert!(r.locked);

    p.apply_event(ev(TransactionType::Deposit, 1, 101, Some("5.0000")));
    assert_eq!(p.metrics().locked_ignored, 1);
    let after = p.results()[0];
    assert_eq!(after, r);
    assert!(!p.state().store.contains(101));
}

#[test]
fn failed_withdrawal_leaves_id_free() {
    let mut p = run(vec![ev(TransactionType::Withdrawal, 2, 200, Some("5.0000"))]);
    let a = account(&p, 2);
    assert_eq!(a.available.to_string(), "0.0000");
    assert!(!p.state().store.contains(200));
    assert_eq!(p.metrics().ledger_errors, 1);

    p.apply_event(ev(TransactionType::Deposit, 2, 200, Some("3.0000")));
    assert_eq!(account(&p, 2).available.to_string(), "3.0000");
    let rec = *p.state().store.get(200).unwrap();
    assert_eq!(rec.kind, TxKind::Deposit);
    assert_eq!(rec.client, 2);
}

#[test]
fn dispute_of_unknown_or_foreign_tx_scenario() {
    let mut p = run(vec![
        ev(TransactionType::Deposit, 1, 1, Some("1.0000")),
        ev(TransactionType::Deposit, 2, 2, Some("4.0000")),
    ]);
    let before = p.results();
    p.apply_event(ev(TransactionType::Dispute, 1, 999, None));
    assert_eq!(p.metrics().tx_not_found, 1);
    p.apply_event(ev(TransactionType::Dispute, 1, 2, None));
    assert_eq!(p.metrics().wrong_client_ref, 1);
    assert_eq!(p.results(), before);
    assert!(!p.state().store.get(2).unwrap().disputed);
}

#[test]
fn duplicate_id_is_rejected_not_overwritten() {
    let mut p = run(vec![ev(TransactionType::Deposit, 1, 7, Some("1.0000"))]);
    p.apply_event(ev(TransactionType::Deposit, 3, 7, Some("9.0000")));
    p.apply_event(ev(TransactionType::Withdrawal, 1, 7, Some("0.5000")));
    assert_eq!(p.metrics().duplicate_tx, 2);
    let rec = *p.state().store.get(7).unwrap();
    assert_eq!(rec.client, 1);
    assert_eq!(rec.amount, amt("1.0000"));
    assert_eq!(account(&p, 1).available, amt("1.0000"));
    assert_eq!(account(&p, 3).available, Amount(0));
}

#[test]
fn missing_amount_and_row_failures_are_counted() {
    let p = run(vec![
        ev(TransactionType::Deposit, 1, 1, None),
        IngestEvent::MalformedRow,
        IngestEvent::UnknownType,
        IngestEvent::UnknownType,
    ]);
    let m = p.metrics();
    assert_eq!(m.missing_amount, 1);
    assert_eq!(m.malformed_rows, 1);
    assert_eq!(m.unknown_type, 2);
    assert_eq!(account(&p, 1).available, Amount(0));
}

#[test]
fn accounts_are_created_on_first_reference() {
    let p = run(vec![ev(TransactionType::Dispute, 9, 1, None)]);
    assert_eq!(p.results().len(), 1);
    assert_eq!(p.results()[0].client, 9);
}

#[test]
fn results_sorted_by_client_with_exact_totals() {
    let p = run(vec![
        ev(TransactionType::Deposit, 65535, 1, Some("1.0000")),
        ev(TransactionType::Deposit, 3, 2, Some("2.0000")),
        ev(TransactionType::Deposit, 0, 3, Some("3.0000")),
        ev(TransactionType::Deposit, 3, 4, Some("0.5000")),
        ev(TransactionType::Dispute, 3, 4, None),
    ]);
    let rows = p.results();
    let clients: Vec<u16> = rows.iter().map(|r| r.client).collect();
    assert_eq!(clients, vec![0, 3, 65535]);
    assert_eq!(
        rows[1],
        AccountRow {
            client: 3,
            available: amt("2.0000"),
            held: amt("0.5000"),
            total: amt("2.5000"),
            locked: false,
        }
    );
    for r in rows.iter() {
        assert_eq!(r.total.as_i64(), r.available.as_i64() + r.held.as_i64());
        assert!(r.held.as_i64() >= 0);
    }
}

#[test]
fn locked_account_ignores_dispute_of_its_own_deposit() {
    let mut p = run(vec![
        ev(TransactionType::Deposit, 1, 1, Some("2.0000")),
        ev(TransactionType::Deposit, 1, 2, Some("1.0000")),
        ev(TransactionType::Dispute, 1, 1, None),
        ev(TransactionType::Chargeback, 1, 1, None),
    ]);
    let frozen = account(&p, 1);
    p.apply_event(ev(TransactionType::Dispute, 1, 2, None));
    p.apply_event(ev(TransactionType::Withdrawal, 1, 3, Some("0.5000")));
    assert_eq!(account(&p, 1), frozen);
    assert_eq!(p.metrics().locked_ignored, 2);
    assert!(!p.state().store.get(2).unwrap().disputed);
}

#[test]
fn engine_state_account_mut_creates_and_updates() {
    let mut s = EngineState::new(HashMapStore::new());
    let a = s.account_mut(5);
    assert_eq!(*a, AccountState::new());
    a.available = amt("1.0000");
    assert_eq!(s.accounts.get(&5).unwrap().available, amt("1.0000"));
    assert_eq!(s.accounts_iter().count(), 1);
}

#[test]
fn store_set_disputed_and_insert() {
    let mut st = HashMapStore::new();
    assert!(!st.contains(1));
    st.set_disputed(1, true);
    assert!(st.get(1).is_none());
    let mut p = run(vec![ev(TransactionType::Deposit, 1, 1, Some("1.0000"))]);
    let rec = *p.state().store.get(1).unwrap();
    st.insert(1, rec);
    st.set_disputed(1, true);
    assert!(st.get(1).unwrap().disputed);
    assert_eq!(st.get(1).unwrap().amount, amt("1.0000"));
    p.apply_event(IngestEvent::MalformedRow);
}

#[test]
fn kind_names() {
    assert_eq!(parse_kind("deposit"), Ok(TransactionType::Deposit));
    assert_eq!(parse_kind(" withdrawal "), Ok(TransactionType::Withdrawal));
    assert_eq!(parse_kind("dispute"), Ok(TransactionType::Dispute));
    assert_eq!(parse_kind("resolve"), Ok(TransactionType::Resolve));
    assert_eq!(parse_kind("chargeback"), Ok(TransactionType::Chargeback));
    assert_eq!(parse_kind("Deposit"), Err(CoreError::UnknownTransactionType));
    assert_eq!(parse_kind("refund"), Err(CoreError::UnknownTransactionType));
    assert_eq!(kind_from_trimmed(" deposit"), Err(CoreError::UnknownTransactionType));
}

#[test]
fn classify_rows() {
    assert_eq!(classify_row("bogus", 1, 1, Some("1.0")), IngestEvent::UnknownType);
    assert_eq!(
        classify_row("deposit", 4, 8, Some(" 1.25 ")),
        ev(TransactionType::Deposit, 4, 8, Some("1.2500"))
    );
    assert_eq!(
        classify_row("withdrawal", 4, 9, Some("-1")),
        ev(TransactionType::Withdrawal, 4, 9, None)
    );
    assert_eq!(
        classify_row("dispute", 4, 8, Some("1.0")),
        ev(TransactionType::Dispute, 4, 8, None)
    );
    assert_eq!(
        classify_row(" chargeback", 4, 8, None),
        ev(TransactionType::Chargeback, 4, 8, None)
    );
}
