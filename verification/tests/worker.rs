use realm_session::backend::{WorkerCapacityResource, MAX_WORKER_JOBS, WORKER_SHUTDOWN_TIMEOUT_MS};
use realm_session::session::{SessionSnapshotV1, SnapshotLedger};
use realm_session::worker::{
    FenceStatus, ProcessJob, Worker, WorkerError, WorkerMessage, WorkerResult,
};

const MILLI: u64 = 1_000_000;

#[test]
fn worker_process_queue_accepts_256_and_rejects_257_atomically() {
    let mut worker = Worker::new();
    let reservation = worker.reserve_process_jobs(MAX_WORKER_JOBS).unwrap();

    let error = worker.reserve_process_jobs(1).unwrap_err();
    assert_eq!(error.resource, WorkerCapacityResource::Jobs);
    assert_eq!(error.limit, MAX_WORKER_JOBS);

    worker.cancel(reservation);
    assert!(worker.reserve_process_jobs(1).is_ok());
}

#[test]
fn worker_seal_is_capacity_free_idempotent_and_has_a_fixed_deadline() {
    let mut worker = Worker::new();
    let started = 5_000 * MILLI;
    assert!(worker.seal(started));
    assert!(!worker.seal(started + 500 * MILLI));

    assert_eq!(
        worker.fence_status(started + (WORKER_SHUTDOWN_TIMEOUT_MS - 1) * MILLI),
        FenceStatus::Pending
    );
    assert_eq!(
        worker.fence_status(started + WORKER_SHUTDOWN_TIMEOUT_MS * MILLI),
        FenceStatus::TimedOut
    );
    assert!(worker.reserve_process_jobs(1).is_err());
}

#[test]
fn committed_jobs_become_messages_and_results_settle_them() {
    let mut worker = Worker::new();
    let reservation = worker.reserve_process_jobs(2).unwrap();
    let mismatch = worker
        .commit(reservation, vec![ProcessJob::Spawn(vec!["/bin/true".into()])])
        .unwrap_err();
    assert_eq!(
        mismatch,
        WorkerError::ReservationMismatch {
            reserved: 2,
            provided: 1
        }
    );
    assert_eq!(
        mismatch.message(),
        "worker reservation expected 2 jobs but received 1"
    );

    let reservation = worker.reserve_process_jobs(0).unwrap();
    worker.cancel(reservation);
    let mut worker = Worker::new();
    let reservation = worker.reserve_process_jobs(1).unwrap();
    let messages = worker
        .commit(reservation, vec![ProcessJob::Spawn(vec!["/bin/true".into()])])
        .unwrap();
    assert_eq!(messages.len(), 1);
    assert!(matches!(
        &messages[0],
        WorkerMessage::Process(ProcessJob::Spawn(argv)) if argv == &vec!["/bin/true".to_owned()]
    ));

    assert!(worker.needs_drain());
    worker.note_drained(1);
    assert!(worker.has_results());
    worker.observe_result(&WorkerResult::Process { result: Ok(()) });
    assert!(!worker.has_results());
    assert_eq!(worker.fence_status(0), FenceStatus::Pending);

    assert!(worker.seal(10));
    worker.observe_result(&WorkerResult::Fence);
    assert_eq!(worker.fence_status(10), FenceStatus::Acknowledged);
    assert_eq!(
        worker.request_snapshot_read().unwrap_err(),
        WorkerError::Sealed
    );
    assert_eq!(WorkerError::Sealed.message(), "worker is sealed");
    assert_eq!(
        WorkerError::Disconnected.message(),
        "worker channel disconnected"
    );
}

#[test]
fn replaceable_snapshot_slot_notifies_once() {
    let snapshot = SessionSnapshotV1::new(SnapshotLedger::new(), Vec::new(), 0).unwrap();
    let mut worker = Worker::new();
    assert!(matches!(
        worker.request_snapshot_read(),
        Ok(WorkerMessage::ReadSnapshot)
    ));
    assert_eq!(worker.submit_snapshot(1, snapshot.clone()), Ok(true));
    assert_eq!(worker.submit_snapshot(2, snapshot.clone()), Ok(false));
    let job = worker.answer_snapshot_request().unwrap();
    assert_eq!(job.sequence, 2);
    assert!(job.snapshot.same_as(&snapshot));
    assert!(worker.answer_snapshot_request().is_none());
    worker.seal(0);
    assert_eq!(
        worker.submit_snapshot(3, snapshot),
        Err(WorkerError::Sealed)
    );
}
