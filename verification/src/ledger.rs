//! The ledger engine: the account state machine.
//!
//! The engine owns the per-client account table and the event store. It
//! consumes one record at a time, in input order. Applying a record
//! first creates the client's account (all zero, unlocked) if this is
//! the first record that names the client, then attempts the transition
//! the record asks for on a private copy of the account, and commits
//! the copy only if the whole transition succeeds: a rejected record
//! never changes any balance. Every deposit and withdrawal is also
//! registered in the event store — whether or not its transition
//! succeeded — so that later disputes can find it.
//!
//! The whole behaviour of the engine is pinned down by the spec
//! functions [`transition`], [`store_after`], [`apply_model`] and
//! [`run_model`]; the executable functions promise to agree with them.

use vstd::prelude::*;
use crate::account::Client;
use crate::amount::Amount;
use crate::record::EventError;
use crate::record::Record;
use crate::record::RecordType;
use crate::store::EventStore;
use crate::store::TxEntry;
use crate::store::find_tx;

verus! {

/// Whether `v`, a count of ten-thousandths, fits in an [`Amount`].
pub open spec fn in_amount_range(v: int) -> bool {
    i64::MIN <= v <= i64::MAX
}

/// The accounts are kept sorted by strictly ascending client id, so
/// each client appears at most once.
pub open spec fn sorted_by_id(s: Seq<Client>) -> bool {
    forall|i: int, j: int| 0 <= i < j < s.len() ==> s[i].id < s[j].id
}

/// Every account satisfies the balance invariant.
pub open spec fn balanced_all(s: Seq<Client>) -> bool {
    forall|i: int| 0 <= i < s.len() ==> s[i].balanced()
}

/// The first account at or after position `i` that belongs to `id`.
pub open spec fn find_client_from(s: Seq<Client>, id: u32, i: int) -> Option<Client>
    decreases s.len() - i,
{
    if i < 0 || i >= s.len() {
        None
    } else if s[i].id == id {
        Some(s[i])
    } else {
        find_client_from(s, id, i + 1)
    }
}

/// The account of client `id`, if one exists yet.
pub open spec fn find_client(s: Seq<Client>, id: u32) -> Option<Client> {
    find_client_from(s, id, 0)
}

/// The account a record for client `id` starts from: the stored one,
/// or a fresh all-zero account if `id` has not been seen before.
pub open spec fn client_or_new(s: Seq<Client>, id: u32) -> Client {
    match find_client(s, id) {
        Some(c) => c,
        None => Client::spec_new(id),
    }
}

/// The account table after storing `c` under its id, scanning from
/// position `i`: `c` replaces the account with the same id, or is
/// inserted where the ascending id order puts it.
pub open spec fn upsert_from(s: Seq<Client>, c: Client, i: int) -> Seq<Client>
    decreases s.len() - i,
{
    if i < 0 {
        s
    } else if i >= s.len() {
        s.push(c)
    } else if c.id < s[i].id {
        s.insert(i, c)
    } else if c.id == s[i].id {
        s.update(i, c)
    } else {
        upsert_from(s, c, i + 1)
    }
}

/// The account table after storing `c` under its id.
pub open spec fn upsert(s: Seq<Client>, c: Client) -> Seq<Client> {
    upsert_from(s, c, 0)
}

/// The state transition table: what one record does to the account it
/// concerns, given the event store as it stood when the record arrived.
///
/// A locked account rejects every record. A deposit grows available and
/// total funds by the record's amount; a withdrawal shrinks them, and
/// is rejected if the available funds are smaller than the amount. A
/// dispute, resolve or chargeback carries no amount of its own: it
/// moves the amount stored for the transaction it references, and is
/// rejected if that transaction is unknown or belongs to another
/// client. A dispute moves the referenced amount from available to held
/// funds; a resolve moves it back; a chargeback removes it from held
/// and total funds and locks the account. Held funds are deliberately
/// not clamped: a resolve or chargeback of a transaction whose dispute
/// never happened can drive balances negative. Any step whose exact
/// result would leave the representable range is rejected whole.
pub open spec fn transition(c: Client, store: Seq<TxEntry>, rec: Record) -> Result<
    Client,
    EventError,
> {
    if c.locked {
        Err(EventError::AccountLocked)
    } else {
        match rec.record_type {
            RecordType::Deposit => {
                let av = c.available@ + rec.amount@;
                let tot = c.total@ + rec.amount@;
                if in_amount_range(av) && in_amount_range(tot) {
                    Ok(
                        Client {
                            available: Amount { units: av as i64 },
                            total: Amount { units: tot as i64 },
                            ..c
                        },
                    )
                } else {
                    Err(EventError::BalanceOverflow)
                }
            },
            RecordType::Withdrawal => {
                if c.available@ < rec.amount@ {
                    Err(EventError::InsufficientFunds)
                } else {
                    let av = c.available@ - rec.amount@;
                    let tot = c.total@ - rec.amount@;
                    if in_amount_range(av) && in_amount_range(tot) {
                        Ok(
                            Client {
                                available: Amount { units: av as i64 },
                                total: Amount { units: tot as i64 },
                                ..c
                            },
                        )
                    } else {
                        Err(EventError::BalanceOverflow)
                    }
                }
            },
            RecordType::Dispute => match find_tx(store, rec.tx) {
                None => Err(EventError::UnknownTransaction),
                Some(e) => {
                    if e.client != rec.client {
                        Err(EventError::ClientMismatch)
                    } else {
                        let av = c.available@ - e.amount@;
                        let held = c.held@ + e.amount@;
                        if in_amount_range(av) && in_amount_range(held) {
                            Ok(
                                Client {
                                    available: Amount { units: av as i64 },
                                    held: Amount { units: held as i64 },
                                    ..c
                                },
                            )
                        } else {
                            Err(EventError::BalanceOverflow)
                        }
                    }
                },
            },
            RecordType::Resolve => match find_tx(store, rec.tx) {
                None => Err(EventError::UnknownTransaction),
                Some(e) => {
                    if e.client != rec.client {
                        Err(EventError::ClientMismatch)
                    } else {
                        let av = c.available@ + e.amount@;
                        let held = c.held@ - e.amount@;
                        if in_amount_range(av) && in_amount_range(held) {
                            Ok(
                                Client {
                                    available: Amount { units: av as i64 },
                                    held: Amount { units: held as i64 },
                                    ..c
                                },
                            )
                        } else {
                            Err(EventError::BalanceOverflow)
                        }
                    }
                },
            },
            RecordType::Chargeback => match find_tx(store, rec.tx) {
                None => Err(EventError::UnknownTransaction),
                Some(e) => {
                    if e.client != rec.client {
                        Err(EventError::ClientMismatch)
                    } else {
                        let tot = c.total@ - e.amount@;
                        let held = c.held@ - e.amount@;
                        if in_amount_range(tot) && in_amount_range(held) {
                            Ok(
                                Client {
                                    total: Amount { units: tot as i64 },
                                    held: Amount { units: held as i64 },
                                    locked: true,
                                    ..c
                                },
                            )
                        } else {
                            Err(EventError::BalanceOverflow)
                        }
                    }
                },
            },
        }
    }
}

/// The event store after one record: a deposit or withdrawal whose
/// transaction identifier is new is registered (whether or not its
/// transition succeeded); everything else leaves the store unchanged.
pub open spec fn store_after(store: Seq<TxEntry>, rec: Record) -> Seq<TxEntry> {
    if rec.record_type.spec_referenceable() && find_tx(store, rec.tx) is None {
        store.push(TxEntry { tx: rec.tx, client: rec.client, amount: rec.amount })
    } else {
        store
    }
}

/// One whole step of the engine on the model: the account table, the
/// event store, and the outcome reported for the record. The client's
/// account exists afterwards even when the record is rejected, but on
/// rejection it keeps the balances it started from.
pub open spec fn apply_model(clients: Seq<Client>, store: Seq<TxEntry>, rec: Record) -> (
    Seq<Client>,
    Seq<TxEntry>,
    Result<(), EventError>,
) {
    let pre = client_or_new(clients, rec.client);
    let st = store_after(store, rec);
    match transition(pre, store, rec) {
        Ok(c) => (upsert(clients, c), st, Ok(())),
        Err(e) => (upsert(clients, pre), st, Err(e)),
    }
}

/// The engine's state after an ordered sequence of records, starting
/// from no accounts and an empty store.
pub open spec fn run_model(recs: Seq<Record>) -> (Seq<Client>, Seq<TxEntry>)
    decreases recs.len(),
{
    if recs.len() == 0 {
        (Seq::<Client>::empty(), Seq::<TxEntry>::empty())
    } else {
        let prev = run_model(recs.drop_last());
        let step = apply_model(prev.0, prev.1, recs.last());
        (step.0, step.1)
    }
}

/// The ledger engine: the account table, sorted by ascending client
/// id, and the event store of referenceable transactions.
pub struct Ledger {
    /// The accounts, sorted by strictly ascending client id.
    pub clients: Vec<Client>,
    /// The deposits and withdrawals seen so far.
    pub store: EventStore,
}

impl Ledger {
    /// Well-formedness: accounts sorted by strictly ascending id, every
    /// account balanced, no transaction registered twice.
    pub open spec fn wf(self) -> bool {
        &&& sorted_by_id(self.clients@)
        &&& balanced_all(self.clients@)
        &&& self.store.wf()
    }

    /// An engine with no accounts and an empty store.
    pub fn new() -> (r: Ledger)
        ensures
            r.wf(),
            r.clients@ == Seq::<Client>::empty(),
            r.store@ == Seq::<TxEntry>::empty(),
    {
        Ledger { clients: Vec::new(), store: EventStore::new() }
    }

    /// Applies one record, in input order.
    ///
    /// The record's client gets an account (all zero, unlocked) if this
    /// is the first record naming them. The record's transition is then
    /// attempted on a private copy of that account and committed only
    /// if it succeeds as a whole, so a rejected record leaves every
    /// balance as it was. A deposit or withdrawal with a new
    /// transaction identifier is registered in the event store whether
    /// or not its transition succeeded. The returned value reports the
    /// rejection, if any; the engine is ready for the next record
    /// either way.
    pub fn apply(&mut self, rec: &Record) -> (r: Result<(), EventError>)
        requires
            old(self).wf(),
        ensures
            final(self).wf(),
            ({
                let m = apply_model(old(self).clients@, old(self).store@, *rec);
                &&& final(self).clients@ == m.0
                &&& final(self).store@ == m.1
                &&& r == m.2
            }),
    {
        let ghost s0 = self.clients@;
        let n = self.clients.len();
        let mut i: usize = 0;
        while i < n && self.clients[i].id < rec.client
            invariant
                *self == *old(self),
                old(self).wf(),
                n == self.clients@.len(),
                i <= n,
                forall|k: int| 0 <= k < i ==> self.clients@[k].id < rec.client,
            decreases n - i,
        {
            i = i + 1;
        }
        let found = i < n && self.clients[i].id == rec.client;
        let pre: Client = if found {
            self.clients[i]
        } else {
            Client::new(rec.client)
        };
        proof {
            lemma_find_client_from_skip(s0, rec.client, i as int);
            if found {
                assert(find_client_from(s0, rec.client, i as int) == Some(s0[i as int]));
            } else {
                assert forall|k: int| i <= k < s0.len() implies s0[k].id != rec.client by {
                    if i < s0.len() && k > i {
                        assert(s0[i as int].id < s0[k].id);
                    }
                }
                lemma_find_client_from_none(s0, rec.client, i as int);
            }
            assert(pre == client_or_new(s0, rec.client));
            assert(pre.balanced());
        }
        let res = step(pre, &self.store, rec);
        let commit: Client = match res {
            Ok(c) => c,
            Err(_) => pre,
        };
        proof {
            assert(commit.id == rec.client);
            assert(commit.balanced());
            lemma_upsert_at(s0, commit, i as int);
        }
        if found {
            self.clients[i] = commit;
        } else {
            self.clients.insert(i, commit);
        }
        if rec.record_type.referenceable() {
            self.store.put(TxEntry { tx: rec.tx, client: rec.client, amount: rec.amount });
        }
        match res {
            Ok(_) => Ok(()),
            Err(e) => Err(e),
        }
    }
}

/// Runs a whole batch of records through a fresh engine, in order, and
/// returns the final accounts, sorted by ascending client id. Rejected
/// records are skipped: each one leaves every balance unchanged and
/// processing continues with the next record.
pub fn process_records(records: &Vec<Record>) -> (r: Vec<Client>)
    ensures
        r@ == run_model(records@).0,
        sorted_by_id(r@),
        balanced_all(r@),
{
    let mut ledger = Ledger::new();
    let n = records.len();
    assert(records@.take(0) =~= Seq::<Record>::empty());
    for i in 0..n
        invariant
            ledger.wf(),
            n == records@.len(),
            ledger.clients@ == run_model(records@.take(i as int)).0,
            ledger.store@ == run_model(records@.take(i as int)).1,
    {
        let ghost prefix = records@.take(i as int);
        let _ = ledger.apply(&records[i]);
        proof {
            let longer = records@.take(i + 1 as int);
            assert(longer.drop_last() =~= prefix);
            assert(longer.last() == records@[i as int]);
        }
    }
    assert(records@.take(n as int) =~= records@);
    ledger.clients
}

/// No account at or after position `i` belongs to `id`, so the scan
/// from `i` finds nothing.
proof fn lemma_find_client_from_none(s: Seq<Client>, id: u32, i: int)
    requires
        0 <= i <= s.len(),
        forall|k: int| i <= k < s.len() ==> s[k].id != id,
    ensures
        find_client_from(s, id, i) is None,
    decreases s.len() - i,
{
    if i < s.len() {
        lemma_find_client_from_none(s, id, i + 1);
    }
}

/// Looking an id up may skip a prefix of accounts with other ids
/// without changing the result.
proof fn lemma_find_client_from_skip(s: Seq<Client>, id: u32, i: int)
    requires
        0 <= i <= s.len(),
        forall|k: int| 0 <= k < i ==> s[k].id != id,
    ensures
        find_client(s, id) == find_client_from(s, id, i),
    decreases i,
{
    if i > 0 {
        lemma_find_client_from_skip(s, id, i - 1);
    }
}

/// Scanning for the place of `c` may skip a prefix of accounts with
/// smaller ids without changing the result.
proof fn lemma_upsert_from_skip(s: Seq<Client>, c: Client, i: int)
    requires
        0 <= i <= s.len(),
        forall|k: int| 0 <= k < i ==> s[k].id < c.id,
    ensures
        upsert(s, c) == upsert_from(s, c, i),
    decreases i,
{
    if i > 0 {
        lemma_upsert_from_skip(s, c, i - 1);
    }
}

/// What `upsert` does at the position the sorted scan stops at, and
/// that it keeps the table sorted and balanced.
proof fn lemma_upsert_at(s: Seq<Client>, c: Client, i: int)
    requires
        sorted_by_id(s),
        balanced_all(s),
        c.balanced(),
        0 <= i <= s.len(),
        forall|k: int| 0 <= k < i ==> s[k].id < c.id,
        i < s.len() ==> s[i].id >= c.id,
    ensures
        i < s.len() && s[i].id == c.id ==> upsert(s, c) == s.update(i, c),
        !(i < s.len() && s[i].id == c.id) ==> upsert(s, c) == s.insert(i, c),
        sorted_by_id(upsert(s, c)),
        balanced_all(upsert(s, c)),
{
    lemma_upsert_from_skip(s, c, i);
    let up = upsert(s, c);
    if i < s.len() && s[i].id == c.id {
        assert(up == s.update(i, c));
        assert(sorted_by_id(up));
        assert(balanced_all(up));
    } else {
        s.insert_ensures(i, c);
        if i == s.len() {
            assert(up == s.push(c));
            assert(s.push(c) =~= s.insert(i, c));
        } else {
            assert(up == s.insert(i, c));
        }
        assert(sorted_by_id(up)) by {
            assert forall|a: int, b: int| 0 <= a < b < up.len() implies up[a].id < up[b].id by {
                if a > i {
                    assert(up[(a - 1) + 1] == s[a - 1]);
                }
                if b > i {
                    assert(up[(b - 1) + 1] == s[b - 1]);
                }
            }
        }
        assert(balanced_all(up)) by {
            assert forall|a: int| 0 <= a < up.len() implies up[a].balanced() by {
                if a > i {
                    assert(up[(a - 1) + 1] == s[a - 1]);
                }
            }
        }
    }
}

/// Attempts `rec`'s transition on the account copy `pre`, reading the
/// referenced transaction from `store` where the record type calls for
/// one. Returns the new account state, or the reason the record is
/// rejected.
fn step(pre: Client, store: &EventStore, rec: &Record) -> (r: Result<Client, EventError>)
    ensures
        r == transition(pre, store@, *rec),
{
    if pre.locked {
        return Err(EventError::AccountLocked);
    }
    match rec.record_type {
        RecordType::Deposit => {
            match (pre.available.checked_add(rec.amount), pre.total.checked_add(rec.amount)) {
                (Some(available), Some(total)) => Ok(Client { available, total, ..pre }),
                _ => Err(EventError::BalanceOverflow),
            }
        },
        RecordType::Withdrawal => {
            if !pre.available.ge(&rec.amount) {
                return Err(EventError::InsufficientFunds);
            }
            match (pre.available.checked_sub(rec.amount), pre.total.checked_sub(rec.amount)) {
                (Some(available), Some(total)) => Ok(Client { available, total, ..pre }),
                _ => Err(EventError::BalanceOverflow),
            }
        },
        RecordType::Dispute => {
            let e = match store.get(rec.tx) {
                Some(e) => e,
                None => {
                    return Err(EventError::UnknownTransaction);
                },
            };
            if e.client != rec.client {
                return Err(EventError::ClientMismatch);
            }
            match (pre.available.checked_sub(e.amount), pre.held.checked_add(e.amount)) {
                (Some(available), Some(held)) => Ok(Client { available, held, ..pre }),
                _ => Err(EventError::BalanceOverflow),
            }
        },
        RecordType::Resolve => {
            let e = match store.get(rec.tx) {
                Some(e) => e,
                None => {
                    return Err(EventError::UnknownTransaction);
                },
            };
            if e.client != rec.client {
                return Err(EventError::ClientMismatch);
            }
            match (pre.available.checked_add(e.amount), pre.held.checked_sub(e.amount)) {
                (Some(available), Some(held)) => Ok(Client { available, held, ..pre }),
                _ => Err(EventError::BalanceOverflow),
            }
        },
        RecordType::Chargeback => {
            let e = match store.get(rec.tx) {
                Some(e) => e,
                None => {
                    return Err(EventError::UnknownTransaction);
                },
            };
            if e.client != rec.client {
                return Err(EventError::ClientMismatch);
            }
            match (pre.total.checked_sub(e.amount), pre.held.checked_sub(e.amount)) {
                (Some(total), Some(held)) => Ok(Client { total, held, locked: true, ..pre }),
                _ => Err(EventError::BalanceOverflow),
            }
        },
    }
}

} // verus!
