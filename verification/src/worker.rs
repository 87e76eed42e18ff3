//! Owner-side admission and accounting for the bounded filesystem and
//! process worker.
//!
//! The worker thread, its channels and its result descriptor live with the
//! caller; this state machine decides what may be admitted, which messages the
//! caller must send, and when the terminal fence has settled. Times are
//! monotonic instants in nanoseconds since an arbitrary origin.
use vstd::prelude::*;

use crate::backend::{
    WorkerCapacityError, WorkerCapacityResource, MAX_WORKER_JOBS, WORKER_SHUTDOWN_TIMEOUT_MS,
};
use crate::session::{SessionSnapshotV1, SnapshotValue};
use crate::text::{decimal, push_decimal};

verus! {

/// Hard worker fence deadline after the seal, in nanoseconds.
pub const WORKER_SHUTDOWN_TIMEOUT_NANOS: u64 = 2_000_000_000;

/// The fence deadline in nanoseconds agrees with the millisecond policy.
pub proof fn lemma_fence_timeout_units()
    ensures
        WORKER_SHUTDOWN_TIMEOUT_NANOS == WORKER_SHUTDOWN_TIMEOUT_MS * 1_000_000,
{
}

/// Process work executed away from the compositor event loop.
#[derive(Debug, Clone, PartialEq, Eq)]
pub enum ProcessJob {
    /// Spawn one argv vector without a shell.
    Spawn(Vec<String>),
}

/// One replaceable snapshot write waiting for the worker to ask for it.
#[derive(Debug, Clone)]
pub struct SnapshotJob {
    /// Persistence sequence of the snapshot.
    pub sequence: u64,
    /// The snapshot to write.
    pub snapshot: SessionSnapshotV1,
}

/// A message the owner hands to the worker thread.
#[derive(Debug, Clone)]
pub enum WorkerMessage {
    /// Read the startup snapshot once.
    ReadSnapshot,
    /// Run one process job.
    Process(ProcessJob),
    /// A replaceable snapshot is waiting in the owner's slot.
    SnapshotAvailable,
    /// Every earlier message must reach a terminal result, then the worker stops.
    Seal,
}

/// One terminal result returned by the worker.
#[derive(Debug)]
pub enum WorkerResult {
    /// Initial bounded pathname read completed.
    SnapshotRead(Result<Vec<u8>, std::io::Error>),
    /// The worker is ready to take the latest replaceable snapshot.
    SnapshotRequested,
    /// One process request reached its spawn boundary.
    Process {
        /// Spawn result.
        result: Result<(), std::io::Error>,
    },
    /// One immutable persistence sequence reached a terminal write result.
    SnapshotWritten {
        /// Persistence sequence.
        sequence: u64,
        /// Atomic write result.
        result: Result<(), std::io::Error>,
    },
    /// Every message preceding the seal reached a terminal result.
    Fence,
}

/// Non-sliding state of the clean-shutdown worker fence.
#[derive(Debug, Clone, Copy, PartialEq, Eq, Structural)]
pub enum FenceStatus {
    /// The worker has not yet acknowledged the seal.
    Pending,
    /// Every pre-seal operation produced a terminal result.
    Acknowledged,
    /// The hard worker deadline elapsed before acknowledgement.
    TimedOut,
}

/// A nonblocking reservation made before acknowledging process effects.
#[derive(Debug)]
pub struct WorkerReservation {
    count: usize,
}

impl WorkerReservation {
    /// Number of process jobs the reservation covers.
    pub closed spec fn spec_count(&self) -> nat {
        self.count as nat
    }

    /// Number of process jobs the reservation covers.
    pub fn count(&self) -> (n: usize)
        ensures
            n == self.spec_count(),
    {
        self.count
    }
}

/// Invalid worker use after admission or seal.
#[derive(Debug, Clone, Copy, PartialEq, Eq, Structural)]
pub enum WorkerError {
    /// The worker thread or one of its bounded channels disappeared.
    Disconnected,
    /// Commit did not provide exactly the number of reserved jobs.
    ReservationMismatch {
        /// Reserved count.
        reserved: usize,
        /// Submitted count.
        provided: usize,
    },
    /// No work may be admitted after the terminal seal.
    Sealed,
}

impl WorkerError {
    /// The error's message.
    pub open spec fn spec_message(self) -> Seq<char> {
        match self {
            WorkerError::Disconnected => "worker channel disconnected"@,
            WorkerError::ReservationMismatch { reserved, provided } => "worker reservation expected "@
                + decimal(reserved as nat) + " jobs but received "@ + decimal(provided as nat),
            WorkerError::Sealed => "worker is sealed"@,
        }
    }

    /// Render the error's message.
    pub fn message(&self) -> (m: String)
        ensures
            m@ == self.spec_message(),
    {
        match self {
            WorkerError::Disconnected => String::from_str("worker channel disconnected"),
            WorkerError::ReservationMismatch { reserved, provided } => {
                let mut m = String::from_str("worker reservation expected ");
                push_decimal(&mut m, *reserved as u64);
                m.append(" jobs but received ");
                push_decimal(&mut m, *provided as u64);
                m
            },
            WorkerError::Sealed => String::from_str("worker is sealed"),
        }
    }
}

/// The fence state at time `now` for a worker sealed at `sealed_at`.
pub open spec fn spec_fence(acknowledged: bool, sealed_at: Option<u64>, now: u64) -> FenceStatus {
    if acknowledged {
        FenceStatus::Acknowledged
    } else {
        match sealed_at {
            None => FenceStatus::Pending,
            Some(s) => if now >= s + WORKER_SHUTDOWN_TIMEOUT_NANOS {
                FenceStatus::TimedOut
            } else {
                FenceStatus::Pending
            },
        }
    }
}

/// Owner-side accounting for the single worker thread.
pub struct Worker {
    pending_snapshot: Option<SnapshotJob>,
    outstanding_process: usize,
    reserved_process: usize,
    sealed_at: Option<u64>,
    fence_acknowledged: bool,
    pending_result_notifications: u64,
}

impl Worker {
    /// Committed process jobs without a terminal result yet.
    pub closed spec fn outstanding(&self) -> nat {
        self.outstanding_process as nat
    }

    /// Process jobs reserved but not yet committed or cancelled.
    pub closed spec fn reserved(&self) -> nat {
        self.reserved_process as nat
    }

    /// When the worker was sealed, if it was.
    pub closed spec fn sealed_at(&self) -> Option<u64> {
        self.sealed_at
    }

    /// Whether the worker acknowledged the seal.
    pub closed spec fn acknowledged(&self) -> bool {
        self.fence_acknowledged
    }

    /// Result notifications already drained but not yet consumed.
    pub closed spec fn notifications(&self) -> nat {
        self.pending_result_notifications as nat
    }

    /// The replaceable snapshot waiting for the worker, by sequence and value.
    pub closed spec fn pending_snapshot(&self) -> Option<(u64, SnapshotValue)> {
        match self.pending_snapshot {
            Some(job) => Some((job.sequence, job.snapshot@)),
            None => None,
        }
    }

    /// The admission bound: committed and reserved jobs never exceed capacity.
    pub closed spec fn wf(&self) -> bool {
        self.outstanding_process + self.reserved_process <= MAX_WORKER_JOBS
    }

    /// The fence state at `now`.
    pub open spec fn spec_fence_status(&self, now: u64) -> FenceStatus {
        spec_fence(self.acknowledged(), self.sealed_at(), now)
    }

    /// Process jobs reserved but not yet committed or cancelled.
    pub fn reserved_jobs(&self) -> (n: usize)
        ensures
            n == self.reserved(),
    {
        self.reserved_process
    }

    /// Committed process jobs without a terminal result yet.
    pub fn outstanding_jobs(&self) -> (n: usize)
        ensures
            n == self.outstanding(),
    {
        self.outstanding_process
    }

    /// A fresh, unsealed worker with nothing admitted.
    pub fn new() -> (w: Self)
        ensures
            w.wf(),
            w.outstanding() == 0,
            w.reserved() == 0,
            w.sealed_at() is None,
            !w.acknowledged(),
            w.notifications() == 0,
            w.pending_snapshot() is None,
    {
        Worker {
            pending_snapshot: None,
            outstanding_process: 0,
            reserved_process: 0,
            sealed_at: None,
            fence_acknowledged: false,
            pending_result_notifications: 0,
        }
    }

    /// Admit the exactly-once startup snapshot read: the message to send, or
    /// `Sealed` once the worker is sealed.
    pub fn request_snapshot_read(&self) -> (r: Result<WorkerMessage, WorkerError>)
        ensures
            self.sealed_at() is Some <==> r == Err::<WorkerMessage, WorkerError>(WorkerError::Sealed),
            self.sealed_at() is None ==> r matches Ok(WorkerMessage::ReadSnapshot),
    {
        if self.sealed_at.is_some() {
            Err(WorkerError::Sealed)
        } else {
            Ok(WorkerMessage::ReadSnapshot)
        }
    }

    /// Reserve process capacity without exposing work to the worker.
    ///
    /// Refused, with nothing changed, once sealed or when the committed,
    /// reserved and requested jobs together would exceed capacity.
    pub fn reserve_process_jobs(&mut self, count: usize) -> (r: Result<WorkerReservation, WorkerCapacityError>)
        requires
            old(self).wf(),
        ensures
            final(self).wf(),
            ({
                let refused = old(self).sealed_at() is Some
                    || old(self).outstanding() + old(self).reserved() + count > MAX_WORKER_JOBS;
                &&& refused <==> r is Err
                &&& refused ==> *final(self) == *old(self)
                &&& refused ==> r == Err::<WorkerReservation, WorkerCapacityError>(
                    WorkerCapacityError { resource: WorkerCapacityResource::Jobs, limit: MAX_WORKER_JOBS },
                )
                &&& !refused ==> r.unwrap().spec_count() == count
                &&& !refused ==> final(self).reserved() == old(self).reserved() + count
                &&& !refused ==> final(self).outstanding() == old(self).outstanding()
                &&& !refused ==> final(self).sealed_at() == old(self).sealed_at()
                &&& !refused ==> final(self).acknowledged() == old(self).acknowledged()
                &&& !refused ==> final(self).notifications() == old(self).notifications()
                &&& !refused ==> final(self).pending_snapshot() == old(self).pending_snapshot()
            }),
    {
        let room: usize = MAX_WORKER_JOBS - self.outstanding_process - self.reserved_process;
        if self.sealed_at.is_some() || count > room {
            return Err(WorkerCapacityError { resource: WorkerCapacityResource::Jobs, limit: MAX_WORKER_JOBS });
        }
        self.reserved_process = self.reserved_process + count;
        Ok(WorkerReservation { count })
    }

    /// Cancel an unused process reservation.
    pub fn cancel(&mut self, reservation: WorkerReservation)
        requires
            old(self).wf(),
            reservation.spec_count() <= old(self).reserved(),
        ensures
            final(self).wf(),
            final(self).reserved() == old(self).reserved() - reservation.spec_count(),
            final(self).outstanding() == old(self).outstanding(),
            final(self).sealed_at() == old(self).sealed_at(),
            final(self).acknowledged() == old(self).acknowledged(),
            final(self).notifications() == old(self).notifications(),
            final(self).pending_snapshot() == old(self).pending_snapshot(),
    {
        self.reserved_process = self.reserved_process - reservation.count;
    }

    /// Commit exactly the jobs covered by a prior reservation; on success the
    /// messages to hand to the worker, in order.
    pub fn commit(&mut self, reservation: WorkerReservation, jobs: Vec<ProcessJob>) -> (r: Result<Vec<WorkerMessage>, WorkerError>)
        requires
            old(self).wf(),
            reservation.spec_count() <= old(self).reserved(),
        ensures
            final(self).wf(),
            old(self).sealed_at() is Some ==> r == Err::<Vec<WorkerMessage>, WorkerError>(WorkerError::Sealed),
            old(self).sealed_at() is None && jobs.len() != reservation.spec_count() ==> r
                == Err::<Vec<WorkerMessage>, WorkerError>(WorkerError::ReservationMismatch {
                    reserved: reservation.spec_count() as usize,
                    provided: jobs.len(),
                }),
            r is Err ==> *final(self) == *old(self),
            old(self).sealed_at() is None && jobs.len() == reservation.spec_count() ==> {
                &&& r is Ok
                &&& r.unwrap().len() == jobs.len()
                &&& forall|i: int| 0 <= i < jobs.len() ==> #[trigger] r.unwrap()[i] == WorkerMessage::Process(jobs[i])
                &&& final(self).reserved() == old(self).reserved() - reservation.spec_count()
                &&& final(self).outstanding() == old(self).outstanding() + reservation.spec_count()
                &&& final(self).sealed_at() == old(self).sealed_at()
                &&& final(self).acknowledged() == old(self).acknowledged()
                &&& final(self).notifications() == old(self).notifications()
                &&& final(self).pending_snapshot() == old(self).pending_snapshot()
            },
    {
        if self.sealed_at.is_some() {
            return Err(WorkerError::Sealed);
        }
        if jobs.len() != reservation.count {
            return Err(WorkerError::ReservationMismatch { reserved: reservation.count, provided: jobs.len() });
        }
        self.reserved_process = self.reserved_process - reservation.count;
        self.outstanding_process = self.outstanding_process + reservation.count;
        let ghost submitted = jobs@;
        let mut messages: Vec<WorkerMessage> = Vec::new();
        proof {
            vstd::std_specs::vec::axiom_spec_into_iter(jobs);
        }
        for job in it: jobs.into_iter()
            invariant
                it.seq() == submitted,
                messages.len() == it.index(),
                forall|k: int| 0 <= k < it.index() ==> #[trigger] messages[k] == WorkerMessage::Process(submitted[k]),
        {
            messages.push(WorkerMessage::Process(job));
        }
        Ok(messages)
    }

    /// Replace the not-yet-started snapshot slot with the newest value.
    ///
    /// On success, `true` means the slot was empty and the caller must tell
    /// the worker a snapshot is available.
    pub fn submit_snapshot(&mut self, sequence: u64, snapshot: SessionSnapshotV1) -> (r: Result<bool, WorkerError>)
        requires
            old(self).wf(),
        ensures
            final(self).wf(),
            old(self).sealed_at() is Some ==> r == Err::<bool, WorkerError>(WorkerError::Sealed)
                && *final(self) == *old(self),
            old(self).sealed_at() is None ==> {
                &&& r == Ok::<bool, WorkerError>(old(self).pending_snapshot() is None)
                &&& final(self).pending_snapshot() == Some((sequence, snapshot@))
                &&& final(self).outstanding() == old(self).outstanding()
                &&& final(self).reserved() == old(self).reserved()
                &&& final(self).sealed_at() == old(self).sealed_at()
                &&& final(self).acknowledged() == old(self).acknowledged()
                &&& final(self).notifications() == old(self).notifications()
            },
    {
        if self.sealed_at.is_some() {
            return Err(WorkerError::Sealed);
        }
        let notify = self.pending_snapshot.is_none();
        self.pending_snapshot = Some(SnapshotJob { sequence, snapshot });
        Ok(notify)
    }

    /// Answer one worker request with the current replaceable snapshot,
    /// emptying the slot.
    pub fn answer_snapshot_request(&mut self) -> (job: Option<SnapshotJob>)
        requires
            old(self).wf(),
        ensures
            final(self).wf(),
            match job {
                Some(j) => old(self).pending_snapshot() == Some((j.sequence, j.snapshot@)),
                None => old(self).pending_snapshot() is None,
            },
            final(self).pending_snapshot() is None,
            final(self).outstanding() == old(self).outstanding(),
            final(self).reserved() == old(self).reserved(),
            final(self).sealed_at() == old(self).sealed_at(),
            final(self).acknowledged() == old(self).acknowledged(),
            final(self).notifications() == old(self).notifications(),
    {
        self.pending_snapshot.take()
    }

    /// Seal all admission and fix the hard fence deadline at the first seal.
    ///
    /// Returns `true` only for the first seal, when the caller must send the
    /// seal message; a later seal changes nothing.
    pub fn seal(&mut self, now: u64) -> (first: bool)
        requires
            old(self).wf(),
        ensures
            final(self).wf(),
            first == (old(self).sealed_at() is None),
            first ==> final(self).sealed_at() == Some(now),
            !first ==> *final(self) == *old(self),
            final(self).outstanding() == old(self).outstanding(),
            final(self).reserved() == old(self).reserved(),
            final(self).acknowledged() == old(self).acknowledged(),
            final(self).notifications() == old(self).notifications(),
            final(self).pending_snapshot() == old(self).pending_snapshot(),
    {
        if self.sealed_at.is_some() {
            return false;
        }
        self.sealed_at = Some(now);
        true
    }

    /// Whether the caller must drain the result descriptor before receiving.
    pub fn needs_drain(&self) -> (r: bool)
        ensures
            r == (self.notifications() == 0),
    {
        self.pending_result_notifications == 0
    }

    /// Record the notification count drained from the result descriptor; an
    /// earlier undrained count is kept.
    pub fn note_drained(&mut self, drained: u64)
        requires
            old(self).wf(),
        ensures
            final(self).wf(),
            final(self).notifications() == if old(self).notifications() == 0 {
                drained as nat
            } else {
                old(self).notifications()
            },
            final(self).outstanding() == old(self).outstanding(),
            final(self).reserved() == old(self).reserved(),
            final(self).sealed_at() == old(self).sealed_at(),
            final(self).acknowledged() == old(self).acknowledged(),
            final(self).pending_snapshot() == old(self).pending_snapshot(),
    {
        if self.pending_result_notifications == 0 {
            self.pending_result_notifications = drained;
        }
    }

    /// Account for one received terminal result.
    ///
    /// Each process job has exactly one terminal result, so a process result
    /// requires an outstanding job.
    pub fn observe_result(&mut self, result: &WorkerResult)
        requires
            old(self).wf(),
            result is Process ==> old(self).outstanding() > 0,
        ensures
            final(self).wf(),
            final(self).notifications() == if old(self).notifications() == 0 {
                0
            } else {
                (old(self).notifications() - 1) as nat
            },
            final(self).outstanding() == if result is Process {
                (old(self).outstanding() - 1) as nat
            } else {
                old(self).outstanding()
            },
            final(self).acknowledged() == (old(self).acknowledged() || result is Fence),
            final(self).reserved() == old(self).reserved(),
            final(self).sealed_at() == old(self).sealed_at(),
            final(self).pending_snapshot() == old(self).pending_snapshot(),
    {
        if self.pending_result_notifications > 0 {
            self.pending_result_notifications = self.pending_result_notifications - 1;
        }
        match result {
            WorkerResult::Process { .. } => {
                self.outstanding_process = self.outstanding_process - 1;
            },
            WorkerResult::Fence => {
                self.fence_acknowledged = true;
            },
            _ => {},
        }
    }

    /// True while more already-queued results require immediate bounded service.
    pub fn has_results(&self) -> (r: bool)
        ensures
            r == (self.notifications() > 0),
    {
        self.pending_result_notifications > 0
    }

    /// Current terminal fence state at the captured loop time.
    pub fn fence_status(&self, now: u64) -> (s: FenceStatus)
        ensures
            s == self.spec_fence_status(now),
    {
        if self.fence_acknowledged {
            return FenceStatus::Acknowledged;
        }
        match self.sealed_at {
            None => FenceStatus::Pending,
            Some(sealed_at) => {
                if now >= sealed_at && now - sealed_at >= WORKER_SHUTDOWN_TIMEOUT_NANOS {
                    FenceStatus::TimedOut
                } else {
                    FenceStatus::Pending
                }
            },
        }
    }
}

/// The fence never slides back: once it settled at some time, it stays
/// settled at every later time.
pub proof fn lemma_fence_settles_for_good(acknowledged: bool, sealed_at: Option<u64>, earlier: u64, later: u64)
    requires
        earlier <= later,
        spec_fence(acknowledged, sealed_at, earlier) != FenceStatus::Pending,
    ensures
        spec_fence(acknowledged, sealed_at, later) == spec_fence(acknowledged, sealed_at, earlier),
{
}

/// A sealed worker's fence settles no later than the hard deadline after the seal.
pub proof fn lemma_fence_deadline(acknowledged: bool, sealed: u64, now: u64)
    requires
        now >= sealed + WORKER_SHUTDOWN_TIMEOUT_NANOS,
    ensures
        spec_fence(acknowledged, Some(sealed), now) != FenceStatus::Pending,
{
}

impl Worker {
    /// Admitted process work never exceeds the worker's job capacity.
    pub proof fn lemma_admission_bounded(&self)
        requires
            self.wf(),
        ensures
            self.outstanding() + self.reserved() <= MAX_WORKER_JOBS,
    {
    }
}

} // verus!
