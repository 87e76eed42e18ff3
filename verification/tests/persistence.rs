use realm_session::persistence::{
    PersistCompletion, PersistCompletionError, PersistenceCoordinator, SNAPSHOT_DELAY_NANOS,
};
use realm_session::session::{Layout, SessionSnapshotV1, SnapshotLedger};

const MILLI: u64 = 1_000_000;
const START: u64 = 1_000_000_000;

fn snapshot_with_layout(layout: Layout) -> SessionSnapshotV1 {
    let mut ledger = SnapshotLedger::new();
    ledger.set_layout(layout);
    SessionSnapshotV1::new(ledger, Vec::new(), 0).unwrap()
}

#[test]
fn older_completion_cannot_clear_the_latest_snapshot() {
    for completion in [PersistCompletion::Succeeded, PersistCompletion::Failed] {
        let start = START;
        let snapshot_a = snapshot_with_layout(Layout::Triptych);
        let snapshot_b = snapshot_with_layout(Layout::Mono);
        let snapshot_c = snapshot_with_layout(Layout::Even);
        let mut coordinator = PersistenceCoordinator::new(None);

        assert!(coordinator.observe(Some(snapshot_a.clone()), start));
        let request_a = coordinator.take_due(start + SNAPSHOT_DELAY_NANOS).unwrap();
        assert_eq!(request_a.sequence(), 1);
        assert!(request_a.snapshot().same_as(&snapshot_a));

        let later = start + SNAPSHOT_DELAY_NANOS + 10 * MILLI;
        assert!(coordinator.observe(Some(snapshot_b), later));
        let fixed_deadline = later + SNAPSHOT_DELAY_NANOS;
        assert_eq!(coordinator.deadline(), None);
        assert!(coordinator.observe(Some(snapshot_c.clone()), later + 10 * MILLI));
        assert_eq!(coordinator.deadline(), None);
        assert!(coordinator
            .take_due(fixed_deadline + 1_000 * MILLI)
            .is_none());

        coordinator
            .complete(request_a.sequence(), completion, later)
            .unwrap();
        assert_eq!(coordinator.deadline(), Some(fixed_deadline));
        assert!(coordinator.take_due(fixed_deadline - 1).is_none());
        let request_c = coordinator.take_due(fixed_deadline).unwrap();
        assert_eq!(request_c.sequence(), 2);
        assert!(request_c.snapshot().same_as(&snapshot_c));
    }
}

#[test]
fn failed_latest_snapshot_rearms_from_completion() {
    let start = START;
    let completed_at = start + SNAPSHOT_DELAY_NANOS + 20 * MILLI;
    let snapshot = snapshot_with_layout(Layout::Mono);
    let mut coordinator = PersistenceCoordinator::new(None);
    coordinator.observe(Some(snapshot.clone()), start);
    let request = coordinator.take_due(start + SNAPSHOT_DELAY_NANOS).unwrap();

    coordinator
        .complete(request.sequence(), PersistCompletion::Failed, completed_at)
        .unwrap();

    assert_eq!(
        coordinator.deadline(),
        Some(completed_at + SNAPSHOT_DELAY_NANOS)
    );
    assert!(coordinator
        .take_due(completed_at + SNAPSHOT_DELAY_NANOS - 1)
        .is_none());
    assert!(coordinator
        .take_due(completed_at + SNAPSHOT_DELAY_NANOS)
        .unwrap()
        .snapshot()
        .same_as(&snapshot));
}

#[test]
fn queued_value_reverting_to_persisted_is_not_written() {
    let start = START;
    let persisted = snapshot_with_layout(Layout::Triptych);
    let changed = snapshot_with_layout(Layout::Mono);
    let mut coordinator = PersistenceCoordinator::new(Some(persisted.clone()));

    assert!(coordinator.observe(Some(changed), start));
    assert_eq!(coordinator.deadline(), Some(start + SNAPSHOT_DELAY_NANOS));
    assert!(coordinator.observe(Some(persisted), start + 10 * MILLI));

    assert_eq!(coordinator.deadline(), None);
    assert!(coordinator.shutdown_snapshot().is_none());
    assert!(coordinator.take_due(start + SNAPSHOT_DELAY_NANOS).is_none());
}

#[test]
fn in_flight_value_reversion_is_cleared_only_by_success() {
    let start = START;
    let completed_at = start + SNAPSHOT_DELAY_NANOS + 20 * MILLI;
    let snapshot_a = snapshot_with_layout(Layout::Triptych);
    let snapshot_b = snapshot_with_layout(Layout::Mono);

    let mut successful = PersistenceCoordinator::new(None);
    successful.observe(Some(snapshot_a.clone()), start);
    let request_a = successful.take_due(start + SNAPSHOT_DELAY_NANOS).unwrap();
    successful.observe(Some(snapshot_b.clone()), completed_at);
    successful.observe(Some(snapshot_a.clone()), completed_at);
    successful
        .complete(
            request_a.sequence(),
            PersistCompletion::Succeeded,
            completed_at,
        )
        .unwrap();
    assert_eq!(successful.deadline(), None);
    assert!(successful.shutdown_snapshot().is_none());

    let mut failed = PersistenceCoordinator::new(None);
    failed.observe(Some(snapshot_a.clone()), start);
    let request_a = failed.take_due(start + SNAPSHOT_DELAY_NANOS).unwrap();
    failed.observe(Some(snapshot_b), completed_at);
    failed.observe(Some(snapshot_a.clone()), completed_at);
    failed
        .complete(
            request_a.sequence(),
            PersistCompletion::Failed,
            completed_at,
        )
        .unwrap();
    assert_eq!(failed.deadline(), Some(completed_at + SNAPSHOT_DELAY_NANOS));
    assert!(failed
        .take_due(completed_at + SNAPSHOT_DELAY_NANOS)
        .unwrap()
        .snapshot()
        .same_as(&snapshot_a));
}

#[test]
fn failed_in_flight_write_clears_latest_value_already_persisted() {
    let start = START;
    let completed_at = start + SNAPSHOT_DELAY_NANOS + 20 * MILLI;
    let persisted = snapshot_with_layout(Layout::Triptych);
    let changed = snapshot_with_layout(Layout::Mono);
    let mut coordinator = PersistenceCoordinator::new(Some(persisted.clone()));

    coordinator.observe(Some(changed), start);
    let request = coordinator.take_due(start + SNAPSHOT_DELAY_NANOS).unwrap();
    coordinator.observe(Some(persisted), completed_at);
    coordinator
        .complete(request.sequence(), PersistCompletion::Failed, completed_at)
        .unwrap();

    assert_eq!(coordinator.deadline(), None);
    assert!(coordinator.shutdown_snapshot().is_none());
}

#[test]
fn shutdown_yields_the_latest_unpersisted_snapshot() {
    let start = START;
    let snapshot_a = snapshot_with_layout(Layout::Mono);
    let snapshot_b = snapshot_with_layout(Layout::Even);
    let mut coordinator = PersistenceCoordinator::new(None);
    coordinator.observe(Some(snapshot_a), start);
    coordinator.take_due(start + SNAPSHOT_DELAY_NANOS).unwrap();
    coordinator.observe(Some(snapshot_b.clone()), start + SNAPSHOT_DELAY_NANOS);

    assert!(coordinator
        .shutdown_snapshot()
        .unwrap()
        .same_as(&snapshot_b));
}

#[test]
fn completion_must_name_the_request_in_flight() {
    let mut coordinator = PersistenceCoordinator::new(None);
    assert_eq!(
        coordinator.complete(1, PersistCompletion::Succeeded, START),
        Err(PersistCompletionError {
            expected: None,
            actual: 1
        })
    );
    coordinator.observe(Some(snapshot_with_layout(Layout::Mono)), START);
    let request = coordinator.take_due(START + SNAPSHOT_DELAY_NANOS).unwrap();
    let error = coordinator
        .complete(request.sequence() + 1, PersistCompletion::Failed, START)
        .unwrap_err();
    assert_eq!(
        error,
        PersistCompletionError {
            expected: Some(1),
            actual: 2
        }
    );
    assert_eq!(
        error.message(),
        "unexpected persistence completion 2; expected Some(1)"
    );
    assert!(coordinator
        .complete(request.sequence(), PersistCompletion::Succeeded, START)
        .is_ok());
    assert!(!coordinator.observe(Some(snapshot_with_layout(Layout::Mono)), START));
    assert!(!coordinator.observe(None, START));
}

#[test]
fn observing_a_waiting_value_keeps_its_deadline() {
    let mut coordinator = PersistenceCoordinator::new(None);
    assert!(coordinator.observe(Some(snapshot_with_layout(Layout::Mono)), START));
    assert!(coordinator.observe(Some(snapshot_with_layout(Layout::Even)), START + 100 * MILLI));
    assert!(!coordinator.observe(Some(snapshot_with_layout(Layout::Even)), START + 200 * MILLI));
    assert_eq!(coordinator.deadline(), Some(START + SNAPSHOT_DELAY_NANOS));
}

#[test]
fn request_numbers_count_up_and_are_never_reused() {
    let layouts = [Layout::Mono, Layout::Even, Layout::Triptych, Layout::Mono];
    let mut coordinator = PersistenceCoordinator::new(None);
    let mut now = START;
    let mut expected: u64 = 1;
    for (index, layout) in layouts.into_iter().enumerate() {
        coordinator.observe(Some(snapshot_with_layout(layout)), now);
        assert!(coordinator.take_due(now).is_none());
        now += SNAPSHOT_DELAY_NANOS;
        let request = coordinator.take_due(now).unwrap();
        assert_eq!(request.sequence(), expected);
        expected += 1;
        if index % 2 == 0 {
            coordinator
                .complete(request.sequence(), PersistCompletion::Failed, now)
                .unwrap();
            now += SNAPSHOT_DELAY_NANOS;
            let retry = coordinator.take_due(now).unwrap();
            assert_eq!(retry.sequence(), expected);
            expected += 1;
            coordinator
                .complete(retry.sequence(), PersistCompletion::Succeeded, now)
                .unwrap();
        } else {
            coordinator
                .complete(request.sequence(), PersistCompletion::Succeeded, now)
                .unwrap();
        }
    }
    assert_eq!(expected, 7);
}
