use linkflow::ledger::{FiredLedger, FiredRecord};

const DAY_MS: i64 = 24 * 60 * 60 * 1000;

fn record(task_id: &str, remind_at_ms: i64, fired_at_ms: i64) -> FiredRecord {
    FiredRecord {
        task_id: task_id.to_string(),
        remind_at_ms,
        fired_at_ms,
    }
}

#[test]
fn a_pair_is_claimed_at_most_once() {
    let mut ledger = FiredLedger::new();
    assert!(ledger.try_mark_fired("task_a", 1_000, 1_050));
    assert!(!ledger.try_mark_fired("task_a", 1_000, 1_060));
    assert!(!ledger.try_mark_fired("task_a", 1_000, 1_070));
}

#[test]
fn is_fired_follows_claims() {
    let mut ledger = FiredLedger::new();
    assert!(!ledger.is_fired("task_a", 1_000));
    assert!(ledger.try_mark_fired("task_a", 1_000, 1_050));
    assert!(ledger.is_fired("task_a", 1_000));
    assert!(!ledger.is_fired("task_a", 2_000));
    assert!(!ledger.is_fired("task_b", 1_000));
}

#[test]
fn a_new_instant_of_the_same_task_is_independent() {
    // Editing a task's due date gives it a new remind instant; the old
    // claim must not block the new one.
    let mut ledger = FiredLedger::new();
    assert!(ledger.try_mark_fired("task_a", 1_000, 1_050));
    assert!(ledger.try_mark_fired("task_a", 2_000, 2_050));
    assert!(ledger.is_fired("task_a", 1_000));
    assert!(ledger.is_fired("task_a", 2_000));
}

#[test]
fn purge_drops_only_records_past_retention() {
    let now: i64 = 100 * DAY_MS;
    let mut ledger = FiredLedger::new();
    assert!(ledger.try_mark_fired("old", 1, now - 31 * DAY_MS));
    assert!(ledger.try_mark_fired("recent", 2, now - 10 * DAY_MS));
    assert!(ledger.try_mark_fired("fresh", 3, now));

    ledger.purge_older_than(now - 30 * DAY_MS);

    assert!(!ledger.is_fired("old", 1));
    assert!(ledger.is_fired("recent", 2));
    assert!(ledger.is_fired("fresh", 3));
    assert_eq!(ledger.len(), 2);
}

#[test]
fn purged_pair_can_fire_again() {
    let mut ledger = FiredLedger::new();
    assert!(ledger.try_mark_fired("task_a", 1_000, 1_050));
    ledger.purge_older_than(2_000);
    assert!(!ledger.is_fired("task_a", 1_000));
    assert!(ledger.try_mark_fired("task_a", 1_000, 3_000));
}

#[test]
fn from_records_restores_stored_rows() {
    let rows = vec![
        record("task_a", 1_000, 1_050),
        record("task_b", 2_000, 2_050),
    ];
    let ledger = FiredLedger::from_records(rows);
    assert_eq!(ledger.len(), 2);
    assert!(ledger.is_fired("task_a", 1_000));
    assert!(ledger.is_fired("task_b", 2_000));
    assert!(!ledger.is_fired("task_a", 2_000));
}

#[test]
fn from_records_keeps_the_first_of_duplicate_keys() {
    let rows = vec![
        record("task_a", 1_000, 1_050),
        record("task_a", 1_000, 9_999),
        record("task_b", 2_000, 2_050),
    ];
    let ledger = FiredLedger::from_records(rows);
    assert_eq!(ledger.len(), 2);
    assert!(ledger.is_fired("task_a", 1_000));
    assert!(ledger.is_fired("task_b", 2_000));
}
