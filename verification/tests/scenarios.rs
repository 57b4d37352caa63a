//! End-to-end scenarios: ordered record batches through the engine.

use moneybags::{
    process_records, render_summary, Amount, Client, EventError, Ledger, Record, RecordType,
};

fn amt(units: i64) -> Amount {
    Amount::from_units(units)
}

fn rec(record_type: RecordType, client: u32, tx: u32, units: i64) -> Record {
    Record::new(record_type, client, tx, amt(units))
}

fn client(id: u32, available: i64, held: i64, total: i64, locked: bool) -> Client {
    Client {
        id,
        available: amt(available),
        held: amt(held),
        total: amt(total),
        locked,
    }
}

#[test]
fn deposit_and_failing_withdrawal() {
    // deposit(client=1, tx=1, 1.0111), then withdrawal(client=2, tx=22, 2.0222)
    // with client 2 having no funds: the withdrawal fails, client 2 still
    // gets an all-zero account.
    let mut ledger = Ledger::new();
    assert_eq!(ledger.apply(&rec(RecordType::Deposit, 1, 1, 10111)), Ok(()));
    assert_eq!(
        ledger.apply(&rec(RecordType::Withdrawal, 2, 22, 20222)),
        Err(EventError::InsufficientFunds)
    );
    assert_eq!(
        ledger.clients,
        vec![client(1, 10111, 0, 10111, false), client(2, 0, 0, 0, false)]
    );
    assert_eq!(
        render_summary(&ledger.clients),
        "client,available,held,total,locked\n1,1.0111,0,1.0111,false\n2,0,0,0,false\n"
    );
}

#[test]
fn dispute_then_resolve_returns_to_baseline() {
    // deposit(c1, tx1, 200.9999), withdrawal(c1, tx2, 100.5001),
    // dispute(c1, tx2), resolve(c1, tx2): the dispute holds the withdrawn
    // amount (driving available negative), the resolve releases it again.
    let mut ledger = Ledger::new();
    assert_eq!(ledger.apply(&rec(RecordType::Deposit, 1, 1, 2009999)), Ok(()));
    assert_eq!(
        ledger.apply(&rec(RecordType::Withdrawal, 1, 2, 1005001)),
        Ok(())
    );
    assert_eq!(ledger.clients, vec![client(1, 1004998, 0, 1004998, false)]);
    assert_eq!(ledger.apply(&rec(RecordType::Dispute, 1, 2, 0)), Ok(()));
    assert_eq!(
        ledger.clients,
        vec![client(1, -3, 1005001, 1004998, false)]
    );
    assert_eq!(ledger.apply(&rec(RecordType::Resolve, 1, 2, 0)), Ok(()));
    assert_eq!(ledger.clients, vec![client(1, 1004998, 0, 1004998, false)]);
}

#[test]
fn dispute_then_chargeback_locks_and_goes_negative() {
    // Same setup, but the dispute ends in a chargeback: the held amount
    // leaves held and total funds, the account is locked, and the
    // available balance keeps the negative value the dispute gave it.
    let mut ledger = Ledger::new();
    assert_eq!(ledger.apply(&rec(RecordType::Deposit, 1, 1, 2009999)), Ok(()));
    assert_eq!(
        ledger.apply(&rec(RecordType::Withdrawal, 1, 2, 1005001)),
        Ok(())
    );
    assert_eq!(ledger.apply(&rec(RecordType::Dispute, 1, 2, 0)), Ok(()));
    assert_eq!(ledger.apply(&rec(RecordType::Chargeback, 1, 2, 0)), Ok(()));
    assert_eq!(ledger.clients, vec![client(1, -3, 0, -3, true)]);
    assert_eq!(
        render_summary(&ledger.clients),
        "client,available,held,total,locked\n1,-0.0003,0,-0.0003,true\n"
    );
}

#[test]
fn unknown_reference_fails_and_run_continues() {
    // resolve(c1, tx=999) with no prior record for tx 999: the resolve is
    // rejected as unknown, the account stays all zero, and later records
    // still apply.
    let mut ledger = Ledger::new();
    assert_eq!(
        ledger.apply(&rec(RecordType::Resolve, 1, 999, 0)),
        Err(EventError::UnknownTransaction)
    );
    assert_eq!(ledger.clients, vec![client(1, 0, 0, 0, false)]);
    assert_eq!(ledger.apply(&rec(RecordType::Deposit, 1, 1, 5000)), Ok(()));
    assert_eq!(ledger.clients, vec![client(1, 5000, 0, 5000, false)]);
}

#[test]
fn balance_invariant_holds_after_every_record() {
    // total == available + held for every account, after every record,
    // applied or rejected.
    let records = vec![
        rec(RecordType::Deposit, 1, 1, 2009999),
        rec(RecordType::Withdrawal, 1, 2, 1005001),
        rec(RecordType::Dispute, 1, 2, 0),
        rec(RecordType::Deposit, 2, 3, 77),
        rec(RecordType::Withdrawal, 2, 4, 100000),
        rec(RecordType::Chargeback, 1, 2, 0),
        rec(RecordType::Deposit, 1, 5, 11),
        rec(RecordType::Resolve, 2, 3, 0),
    ];
    let mut ledger = Ledger::new();
    for r in &records {
        let _ = ledger.apply(r);
        for c in &ledger.clients {
            assert_eq!(
                c.total.as_units(),
                c.available.as_units() + c.held.as_units()
            );
        }
    }
}

#[test]
fn identical_runs_give_identical_bytes() {
    let records = vec![
        rec(RecordType::Deposit, 7, 1, 123),
        rec(RecordType::Deposit, 2, 2, 456000),
        rec(RecordType::Dispute, 2, 2, 0),
        rec(RecordType::Withdrawal, 7, 3, 23),
        rec(RecordType::Chargeback, 2, 2, 0),
    ];
    let once = render_summary(&process_records(&records));
    let twice = render_summary(&process_records(&records));
    assert_eq!(once, twice);
    assert_eq!(once.into_bytes(), twice.into_bytes());
}

#[test]
fn reference_before_registration_fails_even_if_tx_comes_later() {
    // The dispute names tx 9 before any deposit carries that id, so it
    // fails; the deposit afterwards is unaffected, and a second dispute
    // then succeeds.
    let mut ledger = Ledger::new();
    assert_eq!(
        ledger.apply(&rec(RecordType::Dispute, 1, 9, 0)),
        Err(EventError::UnknownTransaction)
    );
    assert_eq!(ledger.apply(&rec(RecordType::Deposit, 1, 9, 300)), Ok(()));
    assert_eq!(ledger.clients, vec![client(1, 300, 0, 300, false)]);
    assert_eq!(ledger.apply(&rec(RecordType::Dispute, 1, 9, 0)), Ok(()));
    assert_eq!(ledger.clients, vec![client(1, 0, 300, 300, false)]);
}

#[test]
fn locked_account_rejects_everything_and_never_moves() {
    let mut ledger = Ledger::new();
    assert_eq!(ledger.apply(&rec(RecordType::Deposit, 1, 1, 1000)), Ok(()));
    assert_eq!(ledger.apply(&rec(RecordType::Dispute, 1, 1, 0)), Ok(()));
    assert_eq!(ledger.apply(&rec(RecordType::Chargeback, 1, 1, 0)), Ok(()));
    let frozen = client(1, 0, 0, 0, true);
    assert_eq!(ledger.clients, vec![frozen]);
    let later = vec![
        rec(RecordType::Deposit, 1, 2, 5000),
        rec(RecordType::Withdrawal, 1, 3, 1),
        rec(RecordType::Dispute, 1, 1, 0),
        rec(RecordType::Resolve, 1, 1, 0),
        rec(RecordType::Chargeback, 1, 1, 0),
    ];
    for r in &later {
        assert_eq!(ledger.apply(r), Err(EventError::AccountLocked));
        assert_eq!(ledger.clients, vec![frozen]);
    }
}

#[test]
fn mismatched_client_is_rejected() {
    let mut ledger = Ledger::new();
    assert_eq!(ledger.apply(&rec(RecordType::Deposit, 1, 1, 1000)), Ok(()));
    assert_eq!(
        ledger.apply(&rec(RecordType::Dispute, 2, 1, 0)),
        Err(EventError::ClientMismatch)
    );
    assert_eq!(
        ledger.apply(&rec(RecordType::Resolve, 2, 1, 0)),
        Err(EventError::ClientMismatch)
    );
    assert_eq!(
        ledger.apply(&rec(RecordType::Chargeback, 2, 1, 0)),
        Err(EventError::ClientMismatch)
    );
    assert_eq!(
        ledger.clients,
        vec![client(1, 1000, 0, 1000, false), client(2, 0, 0, 0, false)]
    );
}

#[test]
fn overflowing_deposit_is_rejected_whole() {
    let mut ledger = Ledger::new();
    assert_eq!(
        ledger.apply(&rec(RecordType::Deposit, 1, 1, i64::MAX)),
        Ok(())
    );
    assert_eq!(
        ledger.apply(&rec(RecordType::Deposit, 1, 2, 1)),
        Err(EventError::BalanceOverflow)
    );
    assert_eq!(ledger.clients, vec![client(1, i64::MAX, 0, i64::MAX, false)]);
}

#[test]
fn first_write_wins_in_the_event_store() {
    // A second deposit under an already-registered tx id is applied to
    // the balances, but the store keeps the first record's amount: the
    // dispute holds 2, not 5.
    let mut ledger = Ledger::new();
    assert_eq!(ledger.apply(&rec(RecordType::Deposit, 1, 1, 20000)), Ok(()));
    assert_eq!(ledger.apply(&rec(RecordType::Deposit, 1, 1, 50000)), Ok(()));
    assert_eq!(ledger.clients, vec![client(1, 70000, 0, 70000, false)]);
    assert_eq!(ledger.apply(&rec(RecordType::Dispute, 1, 1, 0)), Ok(()));
    assert_eq!(ledger.clients, vec![client(1, 50000, 20000, 70000, false)]);
}

#[test]
fn failed_referenceable_records_are_still_registered() {
    // A withdrawal rejected for insufficient funds still lands in the
    // store: a later dispute of its tx id succeeds.
    let mut ledger = Ledger::new();
    assert_eq!(
        ledger.apply(&rec(RecordType::Withdrawal, 1, 4, 10000)),
        Err(EventError::InsufficientFunds)
    );
    assert_eq!(ledger.apply(&rec(RecordType::Dispute, 1, 4, 0)), Ok(()));
    assert_eq!(ledger.clients, vec![client(1, -10000, 10000, 0, false)]);
}

#[test]
fn summary_is_sorted_by_client_id() {
    let records = vec![
        rec(RecordType::Deposit, 9, 1, 1),
        rec(RecordType::Deposit, 3, 2, 2),
        rec(RecordType::Deposit, 7, 3, 3),
        rec(RecordType::Deposit, 1, 4, 4),
    ];
    let clients = process_records(&records);
    let ids: Vec<u32> = clients.iter().map(|c| c.id).collect();
    assert_eq!(ids, vec![1, 3, 7, 9]);
}
