//! The engine's laws: properties of the ledger model, stated and
//! proved once, for every input the model admits.

use vstd::prelude::*;
use crate::account::Client;
use crate::ledger::apply_model;
use crate::ledger::balanced_all;
use crate::ledger::client_or_new;
use crate::ledger::find_client;
use crate::ledger::find_client_from;
use crate::ledger::run_model;
use crate::ledger::sorted_by_id;
use crate::ledger::transition;
use crate::ledger::upsert;
use crate::ledger::upsert_from;
use crate::record::EventError;
use crate::record::Record;
use crate::render::spec_summary;
use crate::store::TxEntry;
use crate::store::find_tx;

verus! {

/// A found account is one of the accounts of the table.
proof fn lemma_find_client_is_element(s: Seq<Client>, id: u32, i: int)
    requires
        0 <= i <= s.len(),
    ensures
        find_client_from(s, id, i) matches Some(c) ==> exists|k: int|
            i <= k < s.len() && s[k] == c,
    decreases s.len() - i,
{
    if i < s.len() {
        lemma_find_client_is_element(s, id, i + 1);
    }
}

/// Storing a balanced account keeps every account balanced.
proof fn lemma_upsert_balanced(s: Seq<Client>, c: Client, i: int)
    requires
        balanced_all(s),
        c.balanced(),
        0 <= i <= s.len(),
    ensures
        balanced_all(upsert_from(s, c, i)),
    decreases s.len() - i,
{
    if i < s.len() && s[i].id != c.id && !(c.id < s[i].id) {
        lemma_upsert_balanced(s, c, i + 1);
    } else if i < s.len() && c.id < s[i].id {
        let up = s.insert(i, c);
        s.insert_ensures(i, c);
        assert forall|a: int| 0 <= a < up.len() implies up[a].balanced() by {
            if a > i {
                assert(up[(a - 1) + 1] == s[a - 1]);
            }
        }
    }
}

/// Storing an account whose id is larger than everything in the
/// scanned prefix keeps the table sorted.
proof fn lemma_upsert_sorted(s: Seq<Client>, c: Client, i: int)
    requires
        sorted_by_id(s),
        0 <= i <= s.len(),
        forall|k: int| 0 <= k < i ==> s[k].id < c.id,
    ensures
        sorted_by_id(upsert_from(s, c, i)),
    decreases s.len() - i,
{
    if i < s.len() && s[i].id != c.id && !(c.id < s[i].id) {
        lemma_upsert_sorted(s, c, i + 1);
    } else if i < s.len() && c.id < s[i].id {
        let up = s.insert(i, c);
        s.insert_ensures(i, c);
        assert forall|a: int, b: int| 0 <= a < b < up.len() implies up[a].id < up[b].id by {
            if a > i {
                assert(up[(a - 1) + 1] == s[a - 1]);
            }
            if b > i {
                assert(up[(b - 1) + 1] == s[b - 1]);
            }
        }
    }
}

/// A found account carries the id it was looked up by.
proof fn lemma_find_client_id(s: Seq<Client>, id: u32, i: int)
    requires
        0 <= i <= s.len(),
    ensures
        find_client_from(s, id, i) matches Some(c) ==> c.id == id,
    decreases s.len() - i,
{
    if i < s.len() {
        lemma_find_client_id(s, id, i + 1);
    }
}

/// Scanning two sequences that agree from the scan positions on finds
/// the same account.
proof fn lemma_find_from_shift(a: Seq<Client>, b: Seq<Client>, id: u32, i: int, j: int)
    requires
        0 <= i <= a.len(),
        0 <= j <= b.len(),
        a.len() - i == b.len() - j,
        forall|k: int| 0 <= k < a.len() - i ==> #[trigger] a[i + k] == b[j + k],
    ensures
        find_client_from(a, id, i) == find_client_from(b, id, j),
    decreases a.len() - i,
{
    if i < a.len() {
        assert(a[i + 0] == b[j + 0]);
        assert forall|k: int| 0 <= k < a.len() - (i + 1) implies #[trigger] a[i + 1 + k] == b[j + 1 + k] by {
            assert(a[i + (k + 1)] == b[j + (k + 1)]);
        }
        lemma_find_from_shift(a, b, id, i + 1, j + 1);
    }
}

/// After storing `c`, looking `c.id` up finds exactly `c`; positions
/// before the scan start are untouched.
proof fn lemma_upsert_find_same(s: Seq<Client>, c: Client, i: int)
    requires
        0 <= i <= s.len(),
    ensures
        forall|k: int| 0 <= k < i ==> upsert_from(s, c, i)[k] == s[k],
        upsert_from(s, c, i).len() >= s.len(),
        find_client_from(upsert_from(s, c, i), c.id, i) == Some(c),
    decreases s.len() - i,
{
    let up = upsert_from(s, c, i);
    if i >= s.len() {
        assert(up == s.push(c));
    } else if c.id < s[i].id {
        s.insert_ensures(i, c);
        assert(up[i] == c);
    } else if c.id == s[i].id {
        assert(up[i] == c);
    } else {
        lemma_upsert_find_same(s, c, i + 1);
        assert(up[i] == s[i]);
    }
}

/// Storing an account leaves the lookup of every other id unchanged.
proof fn lemma_upsert_find_other(s: Seq<Client>, c: Client, id: u32, i: int)
    requires
        0 <= i <= s.len(),
        id != c.id,
    ensures
        forall|k: int| 0 <= k < i ==> upsert_from(s, c, i)[k] == s[k],
        upsert_from(s, c, i).len() >= s.len(),
        find_client_from(upsert_from(s, c, i), id, i) == find_client_from(s, id, i),
    decreases s.len() - i,
{
    let up = upsert_from(s, c, i);
    if i >= s.len() {
        assert(up == s.push(c));
        assert(up[i] == c);
        assert(find_client_from(up, id, i + 1) is None);
        assert(find_client_from(s, id, i) is None);
        assert(find_client_from(up, id, i) is None);
    } else if c.id < s[i].id {
        s.insert_ensures(i, c);
        assert(up[i] == c);
        assert forall|k: int| 0 <= k < up.len() - (i + 1) implies #[trigger] up[i + 1 + k] == s[i + k] by {
            assert(up[(i + k) + 1] == s[i + k]);
        }
        lemma_find_from_shift(up, s, id, i + 1, i);
    } else if c.id == s[i].id {
        assert(up[i] == c);
        assert forall|k: int| 0 <= k < up.len() - (i + 1) implies #[trigger] up[i + 1 + k] == s[i + 1 + k] by {
        }
        lemma_find_from_shift(up, s, id, i + 1, i + 1);
    } else {
        lemma_upsert_find_other(s, c, id, i + 1);
        assert(up[i] == s[i]);
    }
}

/// Law: a successful transition keeps the account balanced — its total
/// funds stay exactly the sum of its available and its held funds —
/// and a failed one returns no new account at all.
pub proof fn lemma_transition_keeps_balance(c: Client, store: Seq<TxEntry>, rec: Record)
    requires
        c.balanced(),
    ensures
        transition(c, store, rec) matches Ok(d) ==> d.balanced(),
{
}

/// Law: after every applied record — for every input sequence, and so
/// after every prefix of a longer stream — each account's total funds
/// equal its available plus its held funds, and the account table is
/// sorted by strictly ascending client id.
pub proof fn lemma_run_model_wf(recs: Seq<Record>)
    ensures
        balanced_all(run_model(recs).0),
        sorted_by_id(run_model(recs).0),
    decreases recs.len(),
{
    if recs.len() > 0 {
        lemma_run_model_wf(recs.drop_last());
        let clients = run_model(recs.drop_last()).0;
        let store = run_model(recs.drop_last()).1;
        let rec = recs.last();
        let pre = client_or_new(clients, rec.client);
        lemma_find_client_is_element(clients, rec.client, 0);
        assert(pre.balanced());
        match transition(pre, store, rec) {
            Ok(d) => {
                lemma_transition_keeps_balance(pre, store, rec);
                lemma_upsert_balanced(clients, d, 0);
                lemma_upsert_sorted(clients, d, 0);
            },
            Err(_) => {
                lemma_upsert_balanced(clients, pre, 0);
                lemma_upsert_sorted(clients, pre, 0);
            },
        }
    }
}

/// Law: the engine is deterministic — the final state is a function of
/// the ordered input sequence alone, so running it twice on the same
/// records gives the same accounts, the same store, and a rendered
/// summary made of the very same characters.
pub proof fn lemma_deterministic(a: Seq<Record>, b: Seq<Record>)
    requires
        a == b,
    ensures
        run_model(a) == run_model(b),
        spec_summary(run_model(a).0) == spec_summary(run_model(b).0),
{
}

/// Law: order matters — a dispute, resolve or chargeback that
/// references a transaction the stream has not yet registered is
/// rejected as unknown, even if a deposit or withdrawal with that
/// identifier appears later. The store keeps nothing of the record,
/// and the client's balances stay as they were (only their account is
/// created, all zero, if this record is the first to name them).
///
/// A locked account is rejected before the reference is looked at, so
/// the law speaks of unlocked accounts.
pub proof fn lemma_unknown_reference(clients: Seq<Client>, store: Seq<TxEntry>, rec: Record)
    requires
        !rec.record_type.spec_referenceable(),
        find_tx(store, rec.tx) is None,
        !client_or_new(clients, rec.client).locked,
    ensures
        apply_model(clients, store, rec).2 == Err::<(), EventError>(
            EventError::UnknownTransaction,
        ),
        apply_model(clients, store, rec).0 == upsert(
            clients,
            client_or_new(clients, rec.client),
        ),
        apply_model(clients, store, rec).1 == store,
{
}

/// Law: a locked account is final — the next record, whatever it is,
/// leaves the account exactly as it stands, and a record for that very
/// client is rejected with `AccountLocked`.
pub proof fn lemma_locked_is_final(
    clients: Seq<Client>,
    store: Seq<TxEntry>,
    rec: Record,
    id: u32,
    c: Client,
)
    requires
        find_client(clients, id) == Some(c),
        c.locked,
    ensures
        find_client(apply_model(clients, store, rec).0, id) == Some(c),
        rec.client == id ==> apply_model(clients, store, rec).2 == Err::<(), EventError>(
            EventError::AccountLocked,
        ),
{
    lemma_find_client_id(clients, id, 0);
    lemma_find_client_id(clients, rec.client, 0);
    let pre = client_or_new(clients, rec.client);
    let commit = match transition(pre, store, rec) {
        Ok(d) => d,
        Err(_) => pre,
    };
    if rec.client == id {
        assert(pre == c);
        assert(transition(pre, store, rec) == Err::<Client, EventError>(EventError::AccountLocked));
        lemma_upsert_find_same(clients, c, 0);
    } else {
        assert(commit.id == rec.client);
        lemma_upsert_find_other(clients, commit, id, 0);
    }
}

/// Law: once an account is locked it stays locked and its balances
/// never move again, however many further records the stream carries.
pub proof fn lemma_locked_stays(recs: Seq<Record>, more: Seq<Record>, id: u32, c: Client)
    requires
        find_client(run_model(recs).0, id) == Some(c),
        c.locked,
    ensures
        find_client(run_model(recs + more).0, id) == Some(c),
    decreases more.len(),
{
    if more.len() == 0 {
        assert(recs + more =~= recs);
    } else {
        let shorter = recs + more.drop_last();
        lemma_locked_stays(recs, more.drop_last(), id, c);
        assert((recs + more).drop_last() =~= shorter);
        assert((recs + more).last() == more.last());
        lemma_locked_is_final(
            run_model(shorter).0,
            run_model(shorter).1,
            more.last(),
            id,
            c,
        );
    }
}

} // verus!
