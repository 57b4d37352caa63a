//! Input records and the per-record error policy.

use vstd::prelude::*;
use crate::amount::Amount;

verus! {

/// The kind of an input transaction record.
#[derive(Debug, Clone, Copy, PartialEq, Eq, Hash, Structural)]
pub enum RecordType {
    /// A credit to the client's account: available and total funds both
    /// grow by the record's amount.
    Deposit,
    /// A debit to the client's account: available and total funds both
    /// shrink by the record's amount, which must not exceed the
    /// available funds.
    Withdrawal,
    /// A claim that an earlier deposit or withdrawal was erroneous. The
    /// referenced transaction's amount moves from available to held
    /// funds; total funds do not change.
    Dispute,
    /// A resolution of a dispute: the referenced transaction's amount
    /// moves back from held to available funds.
    Resolve,
    /// The final state of a dispute: the referenced transaction's amount
    /// leaves both held and total funds, and the account is locked for
    /// good.
    Chargeback,
}

impl Default for RecordType {
    /// The default record type is a deposit.
    fn default() -> (r: Self)
        ensures
            r == RecordType::Deposit,
    {
        RecordType::Deposit
    }
}

impl RecordType {
    /// Whether records of this type can be referenced later by a
    /// dispute, resolve or chargeback. Only deposits and withdrawals
    /// can; they are the records that carry an amount of their own.
    pub open spec fn spec_referenceable(self) -> bool {
        self == RecordType::Deposit || self == RecordType::Withdrawal
    }

    /// Executable twin of [`Self::spec_referenceable`].
    pub fn referenceable(&self) -> (r: bool)
        ensures
            r == self.spec_referenceable(),
    {
        matches!(self, RecordType::Deposit | RecordType::Withdrawal)
    }
}

/// One input row, already parsed: a record type, the client it concerns,
/// a transaction identifier and an amount.
///
/// For deposits and withdrawals `tx` names the record itself and
/// `amount` is the moved sum. For dispute, resolve and chargeback
/// records `tx` references an earlier deposit or withdrawal and the
/// record carries no amount of its own, so `amount` is zero.
#[derive(Debug, Clone, Copy, PartialEq, Eq, Hash, Structural)]
pub struct Record {
    /// The type of the record.
    pub record_type: RecordType,
    /// The client the record concerns.
    pub client: u32,
    /// The transaction identifier.
    pub tx: u32,
    /// The record's own amount.
    pub amount: Amount,
}

impl Record {
    /// Builds a record from its four fields.
    pub fn new(record_type: RecordType, client: u32, tx: u32, amount: Amount) -> (r: Record)
        ensures
            r == (Record { record_type, client, tx, amount }),
    {
        Record { record_type, client, tx, amount }
    }
}

/// Why one record was rejected. A rejected record changes no balance;
/// the engine goes on with the next record.
#[derive(Debug, Clone, Copy, PartialEq, Eq, Hash, Structural)]
pub enum EventError {
    /// The account is locked by an earlier chargeback; no further record
    /// for this client is applied.
    AccountLocked,
    /// A withdrawal asked for more than the available funds.
    InsufficientFunds,
    /// A dispute, resolve or chargeback referenced a transaction that no
    /// earlier deposit or withdrawal has registered.
    UnknownTransaction,
    /// A dispute, resolve or chargeback referenced a transaction that
    /// belongs to a different client.
    ClientMismatch,
    /// Applying the record would push a balance outside the
    /// representable fixed-point range.
    BalanceOverflow,
}

impl EventError {
    /// A short human-readable description of the error.
    pub fn describe(&self) -> (r: &'static str)
        ensures
            match self {
                EventError::AccountLocked => r@ == "client account is locked"@,
                EventError::InsufficientFunds => r@
                    == "withdrawal failed: available funds insufficient"@,
                EventError::UnknownTransaction => r@
                    == "referenced transaction could not be found"@,
                EventError::ClientMismatch => r@
                    == "referenced transaction belongs to a different client"@,
                EventError::BalanceOverflow => r@
                    == "balance would leave the representable range"@,
            },
    {
        match self {
            EventError::AccountLocked => "client account is locked",
            EventError::InsufficientFunds => "withdrawal failed: available funds insufficient",
            EventError::UnknownTransaction => "referenced transaction could not be found",
            EventError::ClientMismatch => "referenced transaction belongs to a different client",
            EventError::BalanceOverflow => "balance would leave the representable range",
        }
    }
}

} // verus!
