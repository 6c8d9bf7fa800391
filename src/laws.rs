use vstd::prelude::*;

use crate::change::ChangeView;
use crate::cycle::{baseline_of, is_idle};
use crate::store::{changed_after, event_of, events_since, keys_unique, MemoryStore, Record};

verus! {

/// When every record changed after `b`, the changes after `b` are one event
/// per record, in record order.
pub proof fn lemma_all_changed_after(rs: Seq<Record>, b: int)
    requires
        forall|i: int| 0 <= i < rs.len() ==> #[trigger] rs[i].changed > b,
    ensures
        events_since(rs, b) == rs.map_values(|r: Record| event_of(r, b)),
    decreases rs.len(),
{
    if rs.len() > 0 {
        let prev = rs.drop_last();
        assert forall|i: int| 0 <= i < prev.len() implies #[trigger] prev[i].changed > b by {
            assert(prev[i] == rs[i]);
        }
        lemma_all_changed_after(prev, b);
        assert(rs[rs.len() - 1].changed > b);
        assert(events_since(rs, b) =~= rs.map_values(|r: Record| event_of(r, b)));
    }
}

/// Bootstrap: with no cursor yet, the first cycle fetches every record that
/// exists, each as an insert carrying its latest version, however long the
/// version history behind them.
pub proof fn lemma_bootstrap_fetches_every_record(s: MemoryStore)
    requires
        s.wf(),
        s.cursor is None,
    ensures
        s.pending().len() == s.records@.len(),
        forall|i: int| 0 <= i < s.records@.len() ==> {
            &&& (#[trigger] s.pending()[i]).id == s.records@[i].id@
            &&& s.pending()[i].version == s.records@[i].changed
            &&& s.pending()[i].operation == crate::change::OpKind::Insert
        },
{
    assert forall|i: int| 0 <= i < s.records@.len() implies #[trigger] s.records@[i].changed > 0 by {
        assert(s.records@[i].created > 0);
    }
    lemma_all_changed_after(s.records@, 0);
    assert forall|i: int| 0 <= i < s.records@.len() implies s.records@[i].created > 0 by {}
}

/// The event `ev` is what some record that changed after `b` shows.
pub open spec fn from_some_record(rs: Seq<Record>, b: int, ev: ChangeView) -> bool {
    exists|i: int| 0 <= i < rs.len() && rs[i].changed > b && ev == event_of(rs[i], b)
}

/// The event `ev` occurs in `evs`.
pub open spec fn has_event(evs: Seq<ChangeView>, ev: ChangeView) -> bool {
    exists|j: int| 0 <= j < evs.len() && evs[j] == ev
}

/// Every pending event stands for one record that changed after `b`, and
/// every record that changed after `b` has such an event.
pub proof fn lemma_events_match_records(rs: Seq<Record>, b: int)
    ensures
        forall|j: int| 0 <= j < events_since(rs, b).len() ==> from_some_record(rs, b, #[trigger] events_since(rs, b)[j]),
        forall|i: int| 0 <= i < rs.len() && #[trigger] rs[i].changed > b ==> has_event(events_since(rs, b), event_of(rs[i], b)),
    decreases rs.len(),
{
    if rs.len() > 0 {
        let n = rs.len() - 1;
        let prev = rs.drop_last();
        lemma_events_match_records(prev, b);
        let e = events_since(prev, b);
        let all = events_since(rs, b);
        assert forall|i: int| 0 <= i < n implies #[trigger] prev[i] == rs[i] by {}
        assert forall|j: int| 0 <= j < all.len() implies from_some_record(rs, b, #[trigger] all[j]) by {
            if j < e.len() {
                assert(all[j] == e[j]);
                assert(from_some_record(prev, b, e[j]));
                let i = choose|i: int| 0 <= i < prev.len() && prev[i].changed > b && e[j] == event_of(prev[i], b);
                assert(rs[i] == prev[i]);
            } else {
                assert(all[j] == event_of(rs[n], b));
            }
        }
        assert forall|i: int| 0 <= i < rs.len() && #[trigger] rs[i].changed > b implies has_event(all, event_of(rs[i], b)) by {
            if i < n {
                assert(prev[i].changed > b);
                assert(has_event(e, event_of(prev[i], b)));
                let j = choose|j: int| 0 <= j < e.len() && e[j] == event_of(prev[i], b);
                assert(all[j] == e[j]);
            } else {
                assert(all[all.len() - 1] == event_of(rs[n], b));
            }
        }
    }
}

/// Distinct records give events with distinct keys.
pub proof fn lemma_event_keys_unique(rs: Seq<Record>, b: int)
    requires
        keys_unique(rs),
    ensures
        forall|j1: int, j2: int|
            0 <= j1 < events_since(rs, b).len() && 0 <= j2 < events_since(rs, b).len()
                && (#[trigger] events_since(rs, b)[j1]).id == (#[trigger] events_since(rs, b)[j2]).id
                ==> j1 == j2,
    decreases rs.len(),
{
    if rs.len() > 0 {
        let n = rs.len() - 1;
        let prev = rs.drop_last();
        let all = events_since(rs, b);
        assert(keys_unique(prev));
        lemma_event_keys_unique(prev, b);
        lemma_events_match_records(prev, b);
        let e = events_since(prev, b);
        if rs[n].changed > b {
            assert forall|j: int| 0 <= j < e.len() implies (#[trigger] e[j]).id != rs[n].id@ by {
                assert(from_some_record(prev, b, e[j]));
                let i = choose|i: int| 0 <= i < prev.len() && prev[i].changed > b && e[j] == event_of(prev[i], b);
                assert(prev[i] == rs[i]);
                assert(rs[i].id@ != rs[n].id@);
            }
            assert forall|j1: int, j2: int|
                0 <= j1 < all.len() && 0 <= j2 < all.len() && (#[trigger] all[j1]).id == (#[trigger] all[j2]).id
                implies j1 == j2 by {
                if j1 < e.len() && j2 < e.len() {
                    assert(all[j1] == e[j1] && all[j2] == e[j2]);
                } else if j1 < e.len() {
                    assert(all[j1] == e[j1]);
                } else if j2 < e.len() {
                    assert(all[j2] == e[j2]);
                }
            }
        }
    }
}

/// Compaction: however many writes a key took after `b`, the changes after
/// `b` hold exactly one event for it, carrying its latest version; a key
/// that did not change after `b` has none.
pub proof fn lemma_one_event_per_key(rs: Seq<Record>, b: int)
    requires
        keys_unique(rs),
    ensures
        forall|j1: int, j2: int|
            0 <= j1 < events_since(rs, b).len() && 0 <= j2 < events_since(rs, b).len()
                && (#[trigger] events_since(rs, b)[j1]).id == (#[trigger] events_since(rs, b)[j2]).id
                ==> j1 == j2,
        forall|k: Seq<char>| #[trigger] changed_after(rs, b, k) <==> exists|j: int|
            0 <= j < events_since(rs, b).len() && events_since(rs, b)[j].id == k,
        forall|i: int| 0 <= i < rs.len() && #[trigger] rs[i].changed > b ==> exists|j: int|
            0 <= j < events_since(rs, b).len() && events_since(rs, b)[j].id == rs[i].id@
                && events_since(rs, b)[j].version == rs[i].changed,
{
    lemma_event_keys_unique(rs, b);
    lemma_events_match_records(rs, b);
    let all = events_since(rs, b);
    assert forall|i: int| 0 <= i < rs.len() && #[trigger] rs[i].changed > b implies exists|j: int|
        0 <= j < all.len() && all[j].id == rs[i].id@ && all[j].version == rs[i].changed by {
        assert(has_event(all, event_of(rs[i], b)));
    }
    assert forall|k: Seq<char>| #[trigger] changed_after(rs, b, k) implies exists|j: int|
        0 <= j < all.len() && all[j].id == k by {
        let i = choose|i: int| 0 <= i < rs.len() && rs[i].changed > b && rs[i].id@ == k;
        assert(has_event(all, event_of(rs[i], b)));
    }
    assert forall|k: Seq<char>| (exists|j: int| 0 <= j < all.len() && all[j].id == k) implies
        #[trigger] changed_after(rs, b, k) by {
        let j = choose|j: int| 0 <= j < all.len() && all[j].id == k;
        assert(from_some_record(rs, b, all[j]));
    }
}

/// No loss: once the cursor has caught up with the latest version, the
/// changes handed downstream over all successful cycles hold every record
/// with its final version.
pub proof fn lemma_caught_up_delivered_everything(s: MemoryStore)
    requires
        s.wf(),
        s.cursor == Some(s.version),
    ensures
        forall|i: int| 0 <= i < s.records@.len() ==> {
            &&& s.delivered@.contains_key((#[trigger] s.records@[i]).id@)
            &&& s.delivered@[s.records@[i].id@] == s.records@[i].changed
        },
{
    assert forall|i: int| 0 <= i < s.records@.len() implies {
        &&& s.delivered@.contains_key((#[trigger] s.records@[i]).id@)
        &&& s.delivered@[s.records@[i].id@] == s.records@[i].changed
    } by {
        assert(s.records@[i].changed <= s.version);
    }
}

/// At least once: a cycle whose batch was rejected leaves the store as it
/// was, so the next cycle fetches the identical batch over the same
/// version interval.
pub proof fn lemma_rejected_batch_is_fetched_again(before: MemoryStore, after: MemoryStore)
    requires
        before.wf(),
        after == before,
    ensures
        baseline_of(after.cursor) == baseline_of(before.cursor),
        after.version == before.version,
        is_idle(after.version, after.cursor) == is_idle(before.version, before.cursor),
        after.pending() == before.pending(),
{
}

/// Cursor monotonicity: a successful cycle persists the version it read
/// first, which is never below the cursor it started from.
pub proof fn lemma_cursor_never_decreases(before: MemoryStore, after: MemoryStore)
    requires
        before.wf(),
        after.cursor == Some(before.version),
    ensures
        baseline_of(before.cursor) <= baseline_of(after.cursor),
{
}

} // verus!
