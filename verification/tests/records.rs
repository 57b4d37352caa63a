//! Record and account basics.

use moneybags::{Amount, Client, EventError, Record, RecordType};

#[test]
fn default_record_type_is_deposit() {
    assert_eq!(RecordType::default(), RecordType::Deposit);
}

#[test]
fn only_deposits_and_withdrawals_are_referenceable() {
    assert!(RecordType::Deposit.referenceable());
    assert!(RecordType::Withdrawal.referenceable());
    assert!(!RecordType::Dispute.referenceable());
    assert!(!RecordType::Resolve.referenceable());
    assert!(!RecordType::Chargeback.referenceable());
}

#[test]
fn new_accounts_are_zeroed_and_unlocked() {
    let c = Client::new(42);
    assert_eq!(c.id, 42);
    assert_eq!(c.available, Amount::zero());
    assert_eq!(c.held, Amount::zero());
    assert_eq!(c.total, Amount::zero());
    assert!(!c.locked);
}

#[test]
fn records_carry_their_fields() {
    let r = Record::new(RecordType::Withdrawal, 3, 9, Amount::from_units(15));
    assert_eq!(r.record_type, RecordType::Withdrawal);
    assert_eq!(r.client, 3);
    assert_eq!(r.tx, 9);
    assert_eq!(r.amount.as_units(), 15);
}

#[test]
fn errors_describe_themselves() {
    assert_eq!(EventError::AccountLocked.describe(), "client account is locked");
    assert_eq!(
        EventError::InsufficientFunds.describe(),
        "withdrawal failed: available funds insufficient"
    );
    assert_eq!(
        EventError::UnknownTransaction.describe(),
        "referenced transaction could not be found"
    );
    assert_eq!(
        EventError::ClientMismatch.describe(),
        "referenced transaction belongs to a different client"
    );
    assert_eq!(
        EventError::BalanceOverflow.describe(),
        "balance would leave the representable range"
    );
}
