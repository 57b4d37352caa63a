//! The event store: the referenceable transactions seen so far.
//!
//! Deposits and withdrawals are the only records a later dispute,
//! resolve or chargeback can reference, so the engine registers each of
//! them here, keyed by its transaction identifier, the first time that
//! identifier appears. An entry is written once and never changed or
//! removed: a second deposit or withdrawal with an already-registered
//! identifier leaves the store as it is (first write wins).

use vstd::prelude::*;
use crate::amount::Amount;

verus! {

/// What the store keeps of one deposit or withdrawal: who it belonged
/// to and how much it moved.
#[derive(Debug, Clone, Copy, PartialEq, Eq, Hash, Structural)]
pub struct TxEntry {
    /// The transaction identifier of the registered record.
    pub tx: u32,
    /// The client the registered record belonged to.
    pub client: u32,
    /// The amount the registered record moved.
    pub amount: Amount,
}

/// The first entry at or after position `i` whose identifier is `tx`.
pub open spec fn find_tx_from(s: Seq<TxEntry>, tx: u32, i: int) -> Option<TxEntry>
    decreases s.len() - i,
{
    if i < 0 || i >= s.len() {
        None
    } else if s[i].tx == tx {
        Some(s[i])
    } else {
        find_tx_from(s, tx, i + 1)
    }
}

/// The entry registered under identifier `tx`, if any.
pub open spec fn find_tx(s: Seq<TxEntry>, tx: u32) -> Option<TxEntry> {
    find_tx_from(s, tx, 0)
}

/// An append-or-lookup table of referenceable transactions.
pub struct EventStore {
    /// The registered entries, in order of registration.
    pub entries: Vec<TxEntry>,
}

impl View for EventStore {
    type V = Seq<TxEntry>;

    open spec fn view(&self) -> Seq<TxEntry> {
        self.entries@
    }
}

impl EventStore {
    /// Well-formedness: no transaction identifier is registered twice.
    pub open spec fn wf(self) -> bool {
        forall|i: int, j: int|
            0 <= i < j < self@.len() ==> self@[i].tx != self@[j].tx
    }

    /// An empty store.
    pub fn new() -> (r: EventStore)
        ensures
            r@ == Seq::<TxEntry>::empty(),
            r.wf(),
    {
        EventStore { entries: Vec::new() }
    }

    /// Looks the identifier up; a pure read.
    pub fn get(&self, tx: u32) -> (r: Option<TxEntry>)
        ensures
            r == find_tx(self@, tx),
    {
        let n = self.entries.len();
        for i in 0..n
            invariant
                n == self@.len(),
                find_tx(self@, tx) == find_tx_from(self@, tx, i as int),
        {
            if self.entries[i].tx == tx {
                return Some(self.entries[i]);
            }
        }
        None
    }

    /// Registers an entry under its identifier, unless that identifier
    /// is already registered; the first write wins. Returns whether the
    /// entry was added.
    pub fn put(&mut self, e: TxEntry) -> (added: bool)
        requires
            old(self).wf(),
        ensures
            final(self).wf(),
            added == (find_tx(old(self)@, e.tx) is None),
            final(self)@ == if find_tx(old(self)@, e.tx) is None {
                old(self)@.push(e)
            } else {
                old(self)@
            },
    {
        let n = self.entries.len();
        for i in 0..n
            invariant
                *self == *old(self),
                self.wf(),
                n == self@.len(),
                find_tx(self@, e.tx) == find_tx_from(self@, e.tx, i as int),
                forall|k: int| 0 <= k < i ==> self@[k].tx != e.tx,
        {
            if self.entries[i].tx == e.tx {
                return false;
            }
        }
        self.entries.push(e);
        true
    }
}

} // verus!
