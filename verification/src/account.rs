//! Per-client account state.

use vstd::prelude::*;
use crate::amount::Amount;

verus! {

/// The balances of one client.
///
/// `available` is what the client can spend, `held` is what sits under
/// an open dispute, and `total` is their sum. `locked` is set by a
/// chargeback and is never reset: a locked account rejects every further
/// record.
#[derive(Debug, Clone, Copy, PartialEq, Eq, Hash, Structural)]
pub struct Client {
    /// The client identifier.
    pub id: u32,
    /// Funds the client can spend.
    pub available: Amount,
    /// Funds under an open dispute.
    pub held: Amount,
    /// The sum of available and held funds.
    pub total: Amount,
    /// Whether a chargeback has frozen the account.
    pub locked: bool,
}

impl Client {
    /// The balance invariant: the total is exactly the sum of the
    /// available and the held funds.
    pub open spec fn balanced(self) -> bool {
        self.total@ == self.available@ + self.held@
    }

    /// A fresh account: all balances zero, not locked.
    pub open spec fn spec_new(id: u32) -> Client {
        Client {
            id,
            available: Amount { units: 0 },
            held: Amount { units: 0 },
            total: Amount { units: 0 },
            locked: false,
        }
    }

    /// Creates the account a client has before any record of theirs is
    /// applied: all balances zero, not locked.
    pub fn new(id: u32) -> (r: Self)
        ensures
            r == Client::spec_new(id),
    {
        Client {
            id,
            available: Amount::zero(),
            held: Amount::zero(),
            total: Amount::zero(),
            locked: false,
        }
    }
}

} // verus!
