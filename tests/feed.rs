use change_feed::change::{duplicate_all, Change, ConsumerError, MutatorError, OpKind};
use change_feed::cycle::{fetch_baseline, needs_fetch, Action, ConsumerCycle, Event, Phase};
use change_feed::producer::{next_counter, plan_start, INITIAL_VALUE};
use change_feed::store::MemoryStore;

fn ids(changes: &[Change]) -> Vec<String> {
    changes.iter().map(|c| c.id.clone()).collect()
}

#[test]
fn concrete_scenario_insert_update_idle() {
    let mut s = MemoryStore::new();
    assert_eq!(s.read_cursor(), None);
    assert!(s.upsert_if_absent("a", 0));

    let b = s.poll_once(true).unwrap();
    assert_eq!(b.changes.len(), 1);
    assert_eq!(b.changes[0].id, "a");
    assert_eq!(b.changes[0].operation, OpKind::Insert);
    assert_eq!(b.changes[0].version, 1);
    assert_eq!(b.cursor, 1);
    assert_eq!(s.read_cursor(), Some(1));

    assert_eq!(s.set_value("a", 1), Ok(()));
    assert_eq!(s.set_value("a", 2), Ok(()));
    let b = s.poll_once(true).unwrap();
    assert_eq!(b.changes.len(), 1);
    assert_eq!(b.changes[0].id, "a");
    assert_eq!(b.changes[0].operation, OpKind::Update);
    assert_eq!(b.changes[0].version, 3);
    assert_eq!(s.read_value("a"), Some(2));
    assert_eq!(b.cursor, 3);
    assert_eq!(s.read_cursor(), Some(3));

    let b = s.poll_once(true).unwrap();
    assert_eq!(b.changes.len(), 0);
    assert_eq!(b.cursor, 3);
    assert_eq!(s.read_cursor(), Some(3));
}

#[test]
fn bootstrap_returns_whole_history() {
    let mut s = MemoryStore::new();
    for k in ["x", "y", "z"] {
        assert!(s.upsert_if_absent(k, 5));
    }
    for v in 0..20 {
        s.set_value("y", v).unwrap();
    }
    assert_eq!(s.current_version(), 23);
    let b = s.poll_once(true).unwrap();
    assert_eq!(ids(&b.changes), vec!["x", "y", "z"]);
    assert!(b.changes.iter().all(|c| c.operation == OpKind::Insert));
    assert_eq!(b.changes[1].version, 23);
    assert_eq!(b.cursor, 23);
}

#[test]
fn no_change_is_lost_across_cycles() {
    let mut s = MemoryStore::new();
    let mut seen: Vec<(String, i64)> = Vec::new();
    s.upsert_if_absent("a", 0);
    s.upsert_if_absent("b", 0);
    for c in s.poll_once(true).unwrap().changes {
        seen.push((c.id, c.version));
    }
    s.set_value("a", 7).unwrap();
    s.upsert_if_absent("c", 1);
    s.set_value("a", 8).unwrap();
    for c in s.poll_once(true).unwrap().changes {
        seen.push((c.id, c.version));
    }
    for c in s.poll_once(true).unwrap().changes {
        seen.push((c.id, c.version));
    }
    let last = |k: &str| seen.iter().rev().find(|(id, _)| id == k).map(|(_, v)| *v);
    assert_eq!(last("a"), Some(5));
    assert_eq!(last("b"), Some(2));
    assert_eq!(last("c"), Some(4));
    assert_eq!(s.read_cursor(), Some(s.current_version()));
}

#[test]
fn rejected_batch_is_delivered_again() {
    let mut s = MemoryStore::new();
    s.upsert_if_absent("a", 0);
    s.poll_once(true).unwrap();
    s.set_value("a", 1).unwrap();
    s.upsert_if_absent("b", 0);
    let r = s.poll_once(false);
    assert!(matches!(r, Err(ConsumerError::DownstreamApplyFailed)));
    assert_eq!(s.read_cursor(), Some(1));
    let b = s.poll_once(true).unwrap();
    assert_eq!(ids(&b.changes), vec!["a", "b"]);
    assert_eq!(b.changes[0].version, 2);
    assert_eq!(b.changes[0].operation, OpKind::Update);
    assert_eq!(b.changes[1].version, 3);
    assert_eq!(b.changes[1].operation, OpKind::Insert);
    assert_eq!(s.read_cursor(), Some(3));
}

#[test]
fn idle_cycle_succeeds_even_if_sink_would_reject() {
    let mut s = MemoryStore::new();
    s.upsert_if_absent("a", 0);
    s.poll_once(true).unwrap();
    let b = s.poll_once(false).unwrap();
    assert!(b.changes.is_empty());
    assert_eq!(b.cursor, 1);
}

#[test]
fn empty_source_still_advances_cursor() {
    let mut s = MemoryStore::new();
    let b = s.poll_once(true).unwrap();
    assert!(b.changes.is_empty());
    assert_eq!(b.cursor, 0);
    assert_eq!(s.read_cursor(), Some(0));
}

#[test]
fn two_updates_compact_to_one_event() {
    let mut s = MemoryStore::new();
    s.upsert_if_absent("k", 0);
    s.upsert_if_absent("other", 0);
    s.poll_once(true).unwrap();
    s.set_value("k", 1).unwrap();
    s.set_value("k", 2).unwrap();
    let b = s.poll_once(true).unwrap();
    assert_eq!(ids(&b.changes), vec!["k"]);
    assert_eq!(b.changes[0].version, 4);
}

#[test]
fn insert_then_update_in_one_interval_is_an_insert() {
    let mut s = MemoryStore::new();
    s.upsert_if_absent("k", 0);
    s.set_value("k", 9).unwrap();
    let changes = s.changes_since(0);
    assert_eq!(changes.len(), 1);
    assert_eq!(changes[0].operation, OpKind::Insert);
    assert_eq!(changes[0].version, 2);
}

#[test]
fn cursor_never_decreases() {
    let mut s = MemoryStore::new();
    let mut prev = -1;
    for i in 0..5 {
        s.upsert_if_absent(&format!("k{i}"), i);
        s.set_value("k0", i).unwrap();
        let b = s.poll_once(i % 2 == 0).map(|b| b.cursor);
        let c = s.read_cursor().unwrap_or(0);
        assert!(c >= prev);
        if let Ok(v) = b {
            assert_eq!(v, c);
        }
        prev = c;
    }
}

#[test]
fn upsert_keeps_existing_value() {
    let mut s = MemoryStore::new();
    assert!(s.upsert_if_absent("a", 3));
    assert!(!s.upsert_if_absent("a", 9));
    assert_eq!(s.read_value("a"), Some(3));
    assert_eq!(s.current_version(), 1);
}

#[test]
fn set_value_on_missing_key_is_refused() {
    let mut s = MemoryStore::new();
    assert_eq!(s.set_value("nope", 1), Err(MutatorError::KeyNotFound));
    assert_eq!(s.current_version(), 0);
    assert_eq!(s.read_value("nope"), None);
}

#[test]
fn op_codes_round_trip() {
    assert_eq!(OpKind::from_code('I'), Some(OpKind::Insert));
    assert_eq!(OpKind::from_code('U'), Some(OpKind::Update));
    assert_eq!(OpKind::from_code('D'), Some(OpKind::Delete));
    assert_eq!(OpKind::from_code('X'), None);
    for op in [OpKind::Insert, OpKind::Update, OpKind::Delete] {
        assert_eq!(OpKind::from_code(op.code()), Some(op));
    }
}

#[test]
fn duplicate_all_copies_changes() {
    let v = vec![Change { id: "a".to_string(), version: 4, operation: OpKind::Delete }];
    let d = duplicate_all(&v);
    assert_eq!(d.len(), 1);
    assert_eq!(d[0].id, "a");
    assert_eq!(d[0].version, 4);
    assert_eq!(d[0].operation, OpKind::Delete);
}

#[test]
fn baseline_and_idle_decisions() {
    assert_eq!(fetch_baseline(None), 0);
    assert_eq!(fetch_baseline(Some(17)), 17);
    assert!(needs_fetch(5, None));
    assert!(needs_fetch(5, Some(4)));
    assert!(!needs_fetch(5, Some(5)));
}

fn run_cycle(events: Vec<Event>) -> Vec<Action> {
    let mut c = ConsumerCycle::start();
    let mut actions = Vec::new();
    for e in events {
        assert!(c.accepts(&e));
        let (next, a) = c.step(e);
        c = next;
        actions.push(a);
    }
    actions
}

#[test]
fn cycle_bootstrap_inserts_cursor_after_apply() {
    let batch = vec![Change { id: "a".to_string(), version: 1, operation: OpKind::Insert }];
    let actions = run_cycle(vec![
        Event::VersionRead(7),
        Event::CursorRead(None),
        Event::ChangesFetched(batch),
        Event::BatchApplied,
        Event::CursorWritten,
    ]);
    assert!(matches!(actions[0], Action::ReadCursor));
    assert!(matches!(actions[1], Action::FetchChanges { baseline: 0 }));
    match &actions[2] {
        Action::ApplyBatch { changes } => assert_eq!(ids(changes), vec!["a"]),
        _ => panic!("expected ApplyBatch"),
    }
    assert!(matches!(actions[3], Action::WriteCursor { version: 7, existed: false }));
    match &actions[4] {
        Action::Finish(Ok(b)) => {
            assert_eq!(b.cursor, 7);
            assert_eq!(ids(&b.changes), vec!["a"]);
        }
        _ => panic!("expected a finished batch"),
    }
}

#[test]
fn cycle_steady_state_updates_cursor() {
    let actions = run_cycle(vec![
        Event::VersionRead(9),
        Event::CursorRead(Some(7)),
        Event::ChangesFetched(Vec::new()),
        Event::BatchApplied,
        Event::CursorWritten,
    ]);
    assert!(matches!(actions[1], Action::FetchChanges { baseline: 7 }));
    assert!(matches!(actions[3], Action::WriteCursor { version: 9, existed: true }));
    assert!(matches!(&actions[4], Action::Finish(Ok(b)) if b.cursor == 9 && b.changes.is_empty()));
}

#[test]
fn cycle_idle_finishes_without_fetch() {
    let actions = run_cycle(vec![Event::VersionRead(4), Event::CursorRead(Some(4))]);
    assert!(matches!(&actions[1], Action::Finish(Ok(b)) if b.cursor == 4 && b.changes.is_empty()));
}

#[test]
fn cycle_failures_report_their_error() {
    let a = run_cycle(vec![Event::SourceFailed]);
    assert!(matches!(a[0], Action::Finish(Err(ConsumerError::SourceUnavailable))));
    let a = run_cycle(vec![Event::VersionRead(3), Event::CursorStoreFailed]);
    assert!(matches!(a[1], Action::Finish(Err(ConsumerError::CursorStoreUnavailable))));
    let a = run_cycle(vec![Event::VersionRead(3), Event::CursorRead(None), Event::SourceFailed]);
    assert!(matches!(a[2], Action::Finish(Err(ConsumerError::SourceUnavailable))));
    let a = run_cycle(vec![
        Event::VersionRead(3),
        Event::CursorRead(Some(1)),
        Event::ChangesFetched(Vec::new()),
        Event::ApplyFailed,
    ]);
    assert!(matches!(a[3], Action::Finish(Err(ConsumerError::DownstreamApplyFailed))));
    let a = run_cycle(vec![
        Event::VersionRead(3),
        Event::CursorRead(Some(1)),
        Event::ChangesFetched(Vec::new()),
        Event::BatchApplied,
        Event::CursorStoreFailed,
    ]);
    assert!(matches!(a[4], Action::Finish(Err(ConsumerError::CursorStoreUnavailable))));
}

#[test]
fn cycle_refuses_out_of_order_events() {
    let c = ConsumerCycle::start();
    assert!(!c.accepts(&Event::BatchApplied));
    let (c, _) = c.step(Event::SourceFailed);
    assert!(matches!(c.phase, Phase::Done));
    assert!(!c.accepts(&Event::VersionRead(1)));
}

#[test]
fn producer_start_and_counting() {
    let p = plan_start(None);
    assert!(p.insert_initial);
    assert_eq!(p.counter, INITIAL_VALUE + 1);
    assert_eq!(p.counter, 1);
    let p = plan_start(Some(41));
    assert!(!p.insert_initial);
    assert_eq!(p.counter, 41);
    assert_eq!(next_counter(41), Some(42));
    assert_eq!(next_counter(i32::MAX), None);
}
