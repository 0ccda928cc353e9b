use acadctl_plugin::documents::NativeDocumentKey;
use acadctl_plugin::history::{
    ExecutionId, HistoryDirection, HistoryLedger, MAX_RETAINED_HISTORY_STEPS,
    MAX_TRACKED_HISTORY_DOCUMENTS,
};


#[test]
fn starts_behind_an_unknown_barrier() {
    let history = HistoryLedger::new();

    assert_eq!(history.prepare(key(1, 101), HistoryDirection::Undo), None);
    assert_eq!(history.prepare(key(1, 101), HistoryDirection::Redo), None);
}

#[test]
fn traverses_only_the_contiguous_owned_suffix() {
    let key = key(1, 101);
    let mut history = HistoryLedger::new();
    history.record_owned_step(key, step(1));
    history.record_owned_step(key, step(2));

    let undo_two = history.prepare(key, HistoryDirection::Undo).unwrap();
    assert_eq!(undo_two.expected_step, step(2));
    assert!(history.complete(undo_two, true));
    let undo_one = history.prepare(key, HistoryDirection::Undo).unwrap();
    assert_eq!(undo_one.expected_step, step(1));
    assert!(history.complete(undo_one, true));
    assert_eq!(history.prepare(key, HistoryDirection::Undo), None);

    let redo_one = history.prepare(key, HistoryDirection::Redo).unwrap();
    assert_eq!(redo_one.expected_step, step(1));
    assert!(history.complete(redo_one, true));
    let redo_two = history.prepare(key, HistoryDirection::Redo).unwrap();
    assert_eq!(redo_two.expected_step, step(2));
    assert!(history.complete(redo_two, true));
    assert_eq!(history.prepare(key, HistoryDirection::Redo), None);
}

#[test]
fn new_owned_step_and_lisp_without_a_step_invalidate_redo() {
    let key = key(1, 101);
    let mut history = HistoryLedger::new();
    history.record_owned_step(key, step(1));
    let undo = history.prepare(key, HistoryDirection::Undo).unwrap();
    assert!(history.complete(undo, true));

    history.record_no_step_execution(key);
    assert_eq!(history.prepare(key, HistoryDirection::Redo), None);

    history.record_owned_step(key, step(2));
    assert_eq!(
        history
            .prepare(key, HistoryDirection::Undo)
            .unwrap()
            .expected_step,
        step(2)
    );
}

#[test]
fn step_cap_discards_the_bottom_and_never_crosses_the_raised_barrier() {
    let key = key(1, 101);
    let mut history = HistoryLedger::new();
    for value in 1..=MAX_RETAINED_HISTORY_STEPS as u64 + 1 {
        history.record_owned_step(key, step(value));
    }

    for expected in (2..=MAX_RETAINED_HISTORY_STEPS as u64 + 1).rev() {
        let claim = history.prepare(key, HistoryDirection::Undo).unwrap();
        assert_eq!(claim.expected_step, step(expected));
        assert!(history.complete(claim, true));
    }
    assert_eq!(history.prepare(key, HistoryDirection::Undo), None);
}

#[test]
fn document_cap_forgets_the_oldest_document_without_reconstructing_it() {
    let mut history = HistoryLedger::new();
    for value in 1..=MAX_TRACKED_HISTORY_DOCUMENTS as u64 + 1 {
        history.record_owned_step(key(value as usize, value as usize + 100), step(value));
    }

    let evicted = key(1, 101);
    assert_eq!(history.prepare(evicted, HistoryDirection::Undo), None);
    history.record_owned_step(evicted, step(999));
    assert_eq!(
        history
            .prepare(evicted, HistoryDirection::Undo)
            .unwrap()
            .expected_step,
        step(999)
    );
    assert_eq!(history.documents.len(), MAX_TRACKED_HISTORY_DOCUMENTS);
}

#[test]
fn document_reconciliation_requires_the_exact_database_generation() {
    let original = key(1, 101);
    let retained = key(2, 102);
    let replacement = key(1, 201);
    let mut history = HistoryLedger::new();
    history.record_owned_step(original, step(1));
    history.record_owned_step(retained, step(2));

    history.reconcile_documents(vec![replacement, retained]);

    assert_eq!(history.prepare(original, HistoryDirection::Undo), None);
    assert_eq!(history.prepare(replacement, HistoryDirection::Undo), None);
    assert!(history.prepare(retained, HistoryDirection::Undo).is_some());
}

#[test]
fn forced_or_ambiguous_activity_clears_both_directions_before_a_result() {
    let key = key(1, 101);
    let mut history = HistoryLedger::new();
    history.record_owned_step(key, step(1));
    history.record_owned_step(key, step(2));
    let undo = history.prepare(key, HistoryDirection::Undo).unwrap();
    assert!(history.complete(undo, true));
    assert!(history.prepare(key, HistoryDirection::Undo).is_some());
    assert!(history.prepare(key, HistoryDirection::Redo).is_some());

    history.force_issued(key);

    assert_eq!(history.prepare(key, HistoryDirection::Undo), None);
    assert_eq!(history.prepare(key, HistoryDirection::Redo), None);
}

#[test]
fn stale_claim_cannot_survive_invalidation_or_key_recreation() {
    let key = key(1, 101);
    let mut history = HistoryLedger::new();
    history.record_owned_step(key, step(1));
    let stale = history.prepare(key, HistoryDirection::Undo).unwrap();
    history.invalidate(key);
    history.record_owned_step(key, step(1));

    assert!(!history.complete(stale, true));
    assert_eq!(history.prepare(key, HistoryDirection::Undo), None);
}

#[test]
fn cap_eviction_makes_an_earlier_claim_stale() {
    let key = key(1, 101);
    let mut history = HistoryLedger::new();
    for value in 1..=MAX_RETAINED_HISTORY_STEPS as u64 {
        history.record_owned_step(key, step(value));
    }
    let stale = history.prepare(key, HistoryDirection::Undo).unwrap();

    history.record_owned_step(key, step(999));

    assert!(!history.complete(stale, true));
    assert_eq!(history.prepare(key, HistoryDirection::Undo), None);
}

#[test]
fn document_eviction_and_same_key_recreation_cannot_revive_a_claim() {
    let original = key(1, 101);
    let mut history = HistoryLedger::new();
    history.record_owned_step(original, step(1));
    let stale = history.prepare(original, HistoryDirection::Undo).unwrap();
    for value in 2..=MAX_TRACKED_HISTORY_DOCUMENTS as u64 + 1 {
        history.record_owned_step(key(value as usize, value as usize + 100), step(value));
    }
    assert_eq!(history.prepare(original, HistoryDirection::Undo), None);

    history.record_owned_step(original, step(2));

    assert!(!history.complete(stale, true));
    assert_eq!(history.prepare(original, HistoryDirection::Undo), None);
}

#[test]
fn close_then_pointer_reuse_does_not_recreate_forgotten_knowledge() {
    let key = key(1, 101);
    let mut history = HistoryLedger::new();
    history.record_owned_step(key, step(1));

    history.reconcile_documents(vec![]);
    history.reconcile_documents(vec![key]);

    assert_eq!(history.prepare(key, HistoryDirection::Undo), None);
}

#[test]
fn revision_exhaustion_clears_every_document_and_stays_fail_closed() {
    let key = key(1, 101);
    let mut history = HistoryLedger::new();
    history.record_owned_step(key, step(1));
    history.next_revision = u64::MAX;

    history.record_owned_step(key, step(2));
    history.record_owned_step(key, step(3));

    assert_eq!(history.prepare(key, HistoryDirection::Undo), None);
    assert!(history.revision_exhausted);
}

fn key(document_token: usize, database_token: usize) -> NativeDocumentKey {
    NativeDocumentKey {
        document_token,
        database_token,
    }
}

fn step(value: u64) -> ExecutionId {
    ExecutionId::from_raw(value)
}
#[test]
fn forgetting_everything_forgets_every_document() {
    let mut history = HistoryLedger::new();
    history.seed_owned_step(key(1, 101), 1);
    history.seed_owned_step(key(2, 102), 2);
    assert!(history.has_owned_step(key(1, 101)));
    assert!(history.has_owned_step(key(2, 102)));
    history.invalidate(key(1, 101));
    assert!(!history.has_owned_step(key(1, 101)));
    history.invalidate_all();
    assert!(!history.has_owned_step(key(2, 102)));
}

#[test]
fn a_failed_step_leaves_nothing_to_undo_or_redo() {
    let key = key(1, 101);
    let mut history = HistoryLedger::new();
    history.record_owned_step(key, step(1));
    let claim = history.prepare(key, HistoryDirection::Undo).unwrap();
    assert!(!history.complete(claim, false));
    assert!(!history.has_owned_step(key));
}
