use vstd::prelude::*;

use crate::cycle::{baseline_of, fetch_baseline, is_idle, needs_fetch};
use crate::change::{views, Change, ChangeView, ConsumerError, MutatorError, OpKind, ProcessedBatch};

verus! {

/// One tracked record, with the versions at which it was created and last changed.
pub struct Record {
    pub id: String,
    pub value: i32,
    pub created: i64,
    pub changed: i64,
}

/// The net change a record shows relative to a baseline version.
pub open spec fn event_of(r: Record, b: int) -> ChangeView {
    ChangeView {
        id: r.id@,
        version: r.changed,
        operation: if r.created > b { OpKind::Insert } else { OpKind::Update },
    }
}

/// The compacted changes of the interval after `b`: one event for each record
/// that changed after `b`, in the order of the records.
pub open spec fn events_since(rs: Seq<Record>, b: int) -> Seq<ChangeView>
    decreases rs.len(),
{
    if rs.len() == 0 {
        Seq::empty()
    } else {
        let prev = events_since(rs.drop_last(), b);
        if rs.last().changed > b {
            prev.push(event_of(rs.last(), b))
        } else {
            prev
        }
    }
}

/// The latest version seen of each key after taking in a sequence of events.
pub open spec fn apply_events(m: Map<Seq<char>, i64>, evs: Seq<ChangeView>) -> Map<Seq<char>, i64>
    decreases evs.len(),
{
    if evs.len() == 0 {
        m
    } else {
        apply_events(m, evs.drop_last()).insert(evs.last().id, evs.last().version)
    }
}

/// Whether some record has the key `k`.
pub open spec fn has_key(rs: Seq<Record>, k: Seq<char>) -> bool {
    exists|i: int| 0 <= i < rs.len() && rs[i].id@ == k
}

/// No two records share a key.
pub open spec fn keys_unique(rs: Seq<Record>) -> bool {
    forall|i: int, j: int|
        0 <= i < rs.len() && 0 <= j < rs.len() && i != j ==> rs[i].id@ != rs[j].id@
}

/// Whether the record with key `k` changed after `b`.
pub open spec fn changed_after(rs: Seq<Record>, b: int, k: Seq<char>) -> bool {
    exists|j: int| 0 <= j < rs.len() && rs[j].changed > b && rs[j].id@ == k
}

/// An in-memory data store that plays the three collaborators of the
/// protocol: the record store, the change source with its global version
/// counter, and the cursor store of one stream.
pub struct MemoryStore {
    pub records: Vec<Record>,
    pub version: i64,
    pub cursor: Option<i64>,
    /// The latest version of each key that a successful cycle handed downstream.
    pub delivered: Ghost<Map<Seq<char>, i64>>,
}

impl MemoryStore {
    /// The store's invariant. Its last clause is the no-loss guarantee: every
    /// record whose last change lies at or below the cursor has been handed
    /// downstream with that very version.
    pub open spec fn wf(&self) -> bool {
        &&& self.version >= 0
        &&& forall|i: int|
            0 <= i < self.records@.len() ==> 0 < (#[trigger] self.records@[i]).created
                <= self.records@[i].changed <= self.version
        &&& keys_unique(self.records@)
        &&& match self.cursor {
            Some(c) => 0 <= c <= self.version,
            None => true,
        }
        &&& forall|i: int|
            0 <= i < self.records@.len() && #[trigger] self.records@[i].changed <= baseline_of(
                self.cursor,
            ) ==> self.delivered@.contains_key(self.records@[i].id@)
                && self.delivered@[self.records@[i].id@] == self.records@[i].changed
    }

    /// The changes that the next cycle fetches and hands downstream.
    pub open spec fn pending(&self) -> Seq<ChangeView> {
        events_since(self.records@, baseline_of(self.cursor) as int)
    }

    /// An empty store: no records, version zero, no cursor yet.
    pub fn new() -> (r: MemoryStore)
        ensures
            r.wf(),
            r.records@.len() == 0,
            r.version == 0,
            r.cursor is None,
    {
        MemoryStore { records: Vec::new(), version: 0, cursor: None, delivered: Ghost(Map::empty()) }
    }

    /// The position of the record with key `id`, if there is one.
    fn find(&self, id: &str) -> (r: Option<usize>)
        ensures
            match r {
                Some(i) => i < self.records@.len() && self.records@[i as int].id@ == id@,
                None => !has_key(self.records@, id@),
            },
    {
        let key = id.to_owned();
        let mut i: usize = 0;
        while i < self.records.len()
            invariant
                i <= self.records@.len(),
                key@ == id@,
                forall|j: int| 0 <= j < i ==> self.records@[j].id@ != id@,
            decreases self.records@.len() - i,
        {
            if self.records[i].id == key {
                return Some(i);
            }
            i = i + 1;
        }
        None
    }

    /// The value stored under `id`, if the key exists.
    pub fn read_value(&self, id: &str) -> (r: Option<i32>)
        ensures
            match r {
                Some(v) => exists|i: int|
                    0 <= i < self.records@.len() && self.records@[i].id@ == id@
                        && self.records@[i].value == v,
                None => !has_key(self.records@, id@),
            },
    {
        match self.find(id) {
            Some(i) => Some(self.records[i].value),
            None => None,
        }
    }

    /// The current global version: the version of the latest write.
    pub fn current_version(&self) -> (r: i64)
        ensures
            r == self.version,
    {
        self.version
    }

    /// The persisted cursor, absent before the first successful cycle.
    pub fn read_cursor(&self) -> (r: Option<i64>)
        ensures
            r == self.cursor,
    {
        self.cursor
    }

    /// Inserts `(id, initial)` if `id` is absent, as one write with a new
    /// version; returns whether it inserted. A present key is left alone.
    pub fn upsert_if_absent(&mut self, id: &str, initial: i32) -> (r: bool)
        requires
            old(self).wf(),
            old(self).version < i64::MAX,
        ensures
            final(self).wf(),
            r == !has_key(old(self).records@, id@),
            r ==> {
                &&& final(self).records@.len() == old(self).records@.len() + 1
                &&& final(self).records@.drop_last() == old(self).records@
                &&& final(self).records@.last().id@ == id@
                &&& final(self).records@.last().value == initial
                &&& final(self).records@.last().created == old(self).version + 1
                &&& final(self).records@.last().changed == old(self).version + 1
                &&& final(self).version == old(self).version + 1
                &&& final(self).cursor == old(self).cursor
                &&& final(self).delivered == old(self).delivered
            },
            !r ==> *final(self) == *old(self),
    {
        match self.find(id) {
            Some(_) => false,
            None => {
                let v = self.version + 1;
                self.records.push(Record { id: id.to_owned(), value: initial, created: v, changed: v });
                self.version = v;
                proof {
                    assert(self.records@.drop_last() =~= old(self).records@);
                    let n = old(self).records@.len() as int;
                    assert forall|i: int| 0 <= i < self.records@.len() && i != n implies
                        self.records@[i] == old(self).records@[i] by {}
                }
                true
            },
        }
    }

    /// Overwrites the value of an existing key, as one write with a new
    /// version. A key that was never created is refused with `KeyNotFound`
    /// and nothing changes.
    pub fn set_value(&mut self, id: &str, value: i32) -> (r: Result<(), MutatorError>)
        requires
            old(self).wf(),
            old(self).version < i64::MAX,
        ensures
            final(self).wf(),
            r is Err <==> !has_key(old(self).records@, id@),
            r is Err ==> r == Err::<(), MutatorError>(MutatorError::KeyNotFound) && *final(self) == *old(self),
            r is Ok ==> exists|i: int|
                0 <= i < old(self).records@.len() && old(self).records@[i].id@ == id@
                    && final(self).records@ == old(self).records@.update(
                    i,
                    (Record {
                        id: old(self).records@[i].id,
                        value: value,
                        created: old(self).records@[i].created,
                        changed: (old(self).version + 1) as i64,
                    }),
                ),
            r is Ok ==> final(self).version == old(self).version + 1,
            r is Ok ==> final(self).cursor == old(self).cursor,
            r is Ok ==> final(self).delivered == old(self).delivered,
    {
        match self.find(id) {
            None => Err(MutatorError::KeyNotFound),
            Some(i) => {
                let v = self.version + 1;
                let created = self.records[i].created;
                let key = self.records[i].id.clone();
                self.records.set(i, Record { id: key, value, created, changed: v });
                self.version = v;
                proof {
                    assert forall|j: int| 0 <= j < self.records@.len() && j != i implies
                        self.records@[j] == old(self).records@[j] by {}
                }
                Ok(())
            },
        }
    }

    /// The compacted changes after `baseline`: one event per record that
    /// changed after it, carrying the record's latest version.
    pub fn changes_since(&self, baseline: i64) -> (r: Vec<Change>)
        ensures
            views(r@) == events_since(self.records@, baseline as int),
    {
        let mut out: Vec<Change> = Vec::new();
        let mut i: usize = 0;
        while i < self.records.len()
            invariant
                i <= self.records@.len(),
                views(out@) == events_since(self.records@.subrange(0, i as int), baseline as int),
            decreases self.records@.len() - i,
        {
            let rec = &self.records[i];
            proof {
                assert(self.records@.subrange(0, i + 1).drop_last() =~= self.records@.subrange(0, i as int));
            }
            if rec.changed > baseline {
                let op = if rec.created > baseline { OpKind::Insert } else { OpKind::Update };
                let ghost before = out@;
                out.push(Change { id: rec.id.clone(), version: rec.changed, operation: op });
                proof {
                    assert(views(out@) =~= views(before).push(out@.last()@));
                }
            }
            i = i + 1;
        }
        proof {
            assert(self.records@.subrange(0, i as int) =~= self.records@);
        }
        out
    }
}


impl MemoryStore {
    /// Persists the cursor: updates the row when `existed`, inserts it
    /// otherwise. A path that does not match the stored row (a duplicate
    /// insert, an update of a missing row) fails and writes nothing.
    fn write_cursor(&mut self, version: i64, existed: bool) -> (r: Result<(), ConsumerError>)
        ensures
            r is Ok <==> existed == old(self).cursor is Some,
            r is Ok ==> final(self).cursor == Some(version) && final(self).records == old(self).records
                && final(self).version == old(self).version && final(self).delivered == old(self).delivered,
            r is Err ==> r == Err::<(), ConsumerError>(ConsumerError::CursorStoreUnavailable) && *final(self) == *old(self),
    {
        match self.cursor {
            Some(_) => {
                if existed {
                    self.cursor = Some(version);
                    Ok(())
                } else {
                    Err(ConsumerError::CursorStoreUnavailable)
                }
            },
            None => {
                if existed {
                    Err(ConsumerError::CursorStoreUnavailable)
                } else {
                    self.cursor = Some(version);
                    Ok(())
                }
            },
        }
    }

    /// Runs one polling cycle: reads the current version, then the cursor,
    /// fetches the changes after the cursor, offers them downstream and,
    /// only when `downstream_ok` says the sink accepted them, persists the
    /// version read first as the new cursor. An idle cycle (no version since
    /// the cursor) fetches and writes nothing and succeeds with no changes.
    pub fn poll_once(&mut self, downstream_ok: bool) -> (r: Result<ProcessedBatch, ConsumerError>)
        requires
            old(self).wf(),
        ensures
            final(self).wf(),
            r is Ok <==> (downstream_ok || is_idle(old(self).version, old(self).cursor)),
            r is Ok ==> {
                &&& views(r->Ok_0.changes@) == old(self).pending()
                &&& r->Ok_0.cursor == old(self).version
                &&& final(self).records == old(self).records
                &&& final(self).version == old(self).version
                &&& final(self).cursor == Some(old(self).version)
                &&& final(self).delivered@ == apply_events(old(self).delivered@, old(self).pending())
            },
            r is Err ==> r == Err::<ProcessedBatch, ConsumerError>(ConsumerError::DownstreamApplyFailed)
                && *final(self) == *old(self),
            baseline_of(old(self).cursor) <= baseline_of(final(self).cursor),
    {
        let now = self.current_version();
        let last = self.read_cursor();
        if !needs_fetch(now, last) {
            proof {
                lemma_nothing_after_latest(self.records@, now as int);
            }
            return Ok(ProcessedBatch { changes: Vec::new(), cursor: now });
        }
        let baseline = fetch_baseline(last);
        let changes = self.changes_since(baseline);
        if !downstream_ok {
            return Err(ConsumerError::DownstreamApplyFailed);
        }
        proof {
            lemma_apply_events_since(self.delivered@, self.records@, baseline as int);
            let rs = self.records@;
            let m = self.delivered@;
            let m2 = apply_events(m, views(changes@));
            assert forall|i: int| 0 <= i < rs.len() && #[trigger] rs[i].changed <= now implies
                m2.contains_key(rs[i].id@) && m2[rs[i].id@] == rs[i].changed by {
                if rs[i].changed <= baseline {
                    assert(!changed_after(rs, baseline as int, rs[i].id@));
                }
            }
        }
        self.delivered = Ghost(apply_events(self.delivered@, views(changes@)));
        match self.write_cursor(now, last.is_some()) {
            Ok(()) => Ok(ProcessedBatch { changes, cursor: now }),
            Err(e) => Err(e),
        }
    }
}

/// No record changed after the latest version, so nothing is pending there.
pub proof fn lemma_nothing_after_latest(rs: Seq<Record>, b: int)
    requires
        forall|i: int| 0 <= i < rs.len() ==> #[trigger] rs[i].changed <= b,
    ensures
        events_since(rs, b).len() == 0,
    decreases rs.len(),
{
    if rs.len() > 0 {
        lemma_nothing_after_latest(rs.drop_last(), b);
    }
}

/// Taking in the changes after `b` records each record that changed after
/// `b` with its latest version, and leaves every other key as it was.
pub proof fn lemma_apply_events_since(m: Map<Seq<char>, i64>, rs: Seq<Record>, b: int)
    requires
        keys_unique(rs),
    ensures
        forall|i: int| 0 <= i < rs.len() && #[trigger] rs[i].changed > b ==> {
            &&& apply_events(m, events_since(rs, b)).contains_key(rs[i].id@)
            &&& apply_events(m, events_since(rs, b))[rs[i].id@] == rs[i].changed
        },
        forall|k: Seq<char>| #![trigger apply_events(m, events_since(rs, b)).contains_key(k)]
            changed_after(rs, b, k) == false ==> {
            &&& apply_events(m, events_since(rs, b)).contains_key(k) == m.contains_key(k)
            &&& m.contains_key(k) ==> apply_events(m, events_since(rs, b))[k] == m[k]
        },
    decreases rs.len(),
{
    if rs.len() > 0 {
        let n = rs.len() - 1;
        let prev = rs.drop_last();
        assert(keys_unique(prev));
        lemma_apply_events_since(m, prev, b);
        let e = events_since(prev, b);
        let pm = apply_events(m, e);
        assert forall|i: int| 0 <= i < n implies #[trigger] prev[i] == rs[i] by {}
        if rs.last().changed > b {
            let ev = event_of(rs.last(), b);
            assert(events_since(rs, b) == e.push(ev));
            assert(e.push(ev).drop_last() =~= e);
            assert(apply_events(m, e.push(ev)) == pm.insert(ev.id, ev.version));
            assert forall|i: int| 0 <= i < rs.len() && #[trigger] rs[i].changed > b implies {
                &&& apply_events(m, events_since(rs, b)).contains_key(rs[i].id@)
                &&& apply_events(m, events_since(rs, b))[rs[i].id@] == rs[i].changed
            } by {
                if i < n {
                    assert(rs[i].id@ != rs[n].id@);
                    assert(prev[i].changed > b);
                }
            }
            assert forall|k: Seq<char>| changed_after(rs, b, k) == false implies {
                &&& apply_events(m, events_since(rs, b)).contains_key(k) == m.contains_key(k)
                &&& m.contains_key(k) ==> apply_events(m, events_since(rs, b))[k] == m[k]
            } by {
                assert(rs[n].id@ != k);
                assert(!changed_after(prev, b, k)) by {
                    if changed_after(prev, b, k) {
                        let j = choose|j: int| 0 <= j < prev.len() && prev[j].changed > b && prev[j].id@ == k;
                        assert(rs[j] == prev[j]);
                    }
                }
                assert(pm.contains_key(k) == m.contains_key(k));
            }
        } else {
            assert(events_since(rs, b) == e);
            assert forall|i: int| 0 <= i < rs.len() && #[trigger] rs[i].changed > b implies {
                &&& apply_events(m, events_since(rs, b)).contains_key(rs[i].id@)
                &&& apply_events(m, events_since(rs, b))[rs[i].id@] == rs[i].changed
            } by {
                assert(i < n);
                assert(prev[i].changed > b);
            }
            assert forall|k: Seq<char>| changed_after(rs, b, k) == false implies {
                &&& apply_events(m, events_since(rs, b)).contains_key(k) == m.contains_key(k)
                &&& m.contains_key(k) ==> apply_events(m, events_since(rs, b))[k] == m[k]
            } by {
                assert(!changed_after(prev, b, k)) by {
                    if changed_after(prev, b, k) {
                        let j = choose|j: int| 0 <= j < prev.len() && prev[j].changed > b && prev[j].id@ == k;
                        assert(rs[j] == prev[j]);
                    }
                }
                assert(pm.contains_key(k) == m.contains_key(k));
            }
        }
    }
}

} // verus!
