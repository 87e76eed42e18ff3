//! Decisions of the combined daemon poll loop: which sources are serviced,
//! how long the loop may block, how released session effects become worker
//! jobs, and when shutdown and the terminal exit may begin.
//!
//! Times are monotonic instants in nanoseconds since an arbitrary origin.
use vstd::prelude::*;

use crate::backend::{BackendError, BackendReady, WorkerCapacityError};
use crate::persistence::PersistCompletionError;
use crate::session::{QuitAfter, RecoveryPhase, SessionActionError, SessionEffect};
use crate::policy::SessionEventError;
use crate::text::{has_prefix, starts_with, str_equal};
use crate::persistence::PersistCompletion;
use crate::worker::{FenceStatus, ProcessJob, WorkerError, WorkerResult};

verus! {

/// Fatal failure of the loop's own decisions.
#[derive(Debug, PartialEq, Eq)]
pub enum RuntimeError {
    /// An action failed in a class that terminates the current incarnation.
    FatalAction(SessionActionError),
    /// The compositor backend failed outside an admitted action.
    Backend(BackendError),
    /// A bounded worker capacity was exhausted before acknowledgement.
    WorkerCapacity(WorkerCapacityError),
    /// The worker owner failed.
    Worker(WorkerError),
    /// A worker reported a persistence sequence the owner did not issue.
    Persistence(PersistCompletionError),
    /// Poll reported an invalid runtime descriptor.
    InvalidDescriptor,
    /// Runtime owner state violated one of its invariants.
    Invariant(&'static str),
    /// A session lifecycle invariant failed.
    Session(SessionEventError),
}

/// What poll reported for one registered descriptor.
#[derive(Debug, Clone, Copy, PartialEq, Eq, Structural)]
pub struct PollEvents {
    /// Read readiness.
    pub readable: bool,
    /// Write readiness.
    pub writable: bool,
    /// An error condition.
    pub error: bool,
    /// The peer hung up.
    pub hangup: bool,
    /// The descriptor is not open.
    pub invalid: bool,
}

/// Whether one backend quantum is due: only while the backend is enabled,
/// and then when its descriptor is ready or it has queued internal work.
pub fn backend_quantum_due(enabled: bool, ready: bool, immediate: bool) -> (due: bool)
    ensures
        due == (enabled && (ready || immediate)),
{
    enabled && (ready || immediate)
}

/// Whether a due snapshot may still be handed to the worker: never once the
/// worker is sealed.
pub fn snapshot_submission_allowed(worker_sealed: bool) -> (allowed: bool)
    ensures
        allowed == !worker_sealed,
{
    !worker_sealed
}

/// Whether the backend takes part in the loop in this session phase.
pub fn backend_enabled(phase: RecoveryPhase) -> (enabled: bool)
    ensures
        enabled == (phase == RecoveryPhase::Live || phase == RecoveryPhase::Exiting),
{
    match phase {
        RecoveryPhase::Live | RecoveryPhase::Exiting => true,
        _ => false,
    }
}

/// Whether the loop must poll without blocking: enabled backend work is
/// already queued, or worker results are waiting.
pub fn loop_immediate(enabled: bool, backend_immediate: bool, worker_results: bool) -> (immediate: bool)
    ensures
        immediate == ((enabled && backend_immediate) || worker_results),
{
    (enabled && backend_immediate) || worker_results
}

/// Refuse events that report an invalid descriptor.
pub fn validate_poll_events(events: PollEvents) -> (r: Result<(), RuntimeError>)
    ensures
        events.invalid <==> r == Err::<(), RuntimeError>(RuntimeError::InvalidDescriptor),
        !events.invalid <==> r is Ok,
{
    if events.invalid {
        Err(RuntimeError::InvalidDescriptor)
    } else {
        Ok(())
    }
}

/// The backend readiness carried by a descriptor's poll events: an error or
/// hangup is terminal.
pub fn backend_ready(events: PollEvents) -> (r: Result<BackendReady, RuntimeError>)
    ensures
        events.invalid ==> r == Err::<BackendReady, RuntimeError>(RuntimeError::InvalidDescriptor),
        !events.invalid ==> r == Ok::<BackendReady, RuntimeError>(
            BackendReady {
                readable: events.readable,
                writable: events.writable,
                terminal: events.error || events.hangup,
            },
        ),
{
    match validate_poll_events(events) {
        Err(e) => Err(e),
        Ok(()) => Ok(BackendReady {
            readable: events.readable,
            writable: events.writable,
            terminal: events.error || events.hangup,
        }),
    }
}

/// Readiness handed to a backend quantum: none while internal work is
/// queued or when the backend descriptor reported nothing.
pub fn backend_readiness(backend_immediate: bool, events: Option<PollEvents>) -> (r: Result<BackendReady, RuntimeError>)
    ensures
        backend_immediate || events is None ==> r == Ok::<BackendReady, RuntimeError>(
            BackendReady { readable: false, terminal: false, writable: false },
        ),
        !backend_immediate && events is Some ==> {
            let e = events.unwrap();
            &&& e.invalid ==> r == Err::<BackendReady, RuntimeError>(RuntimeError::InvalidDescriptor)
            &&& !e.invalid ==> r == Ok::<BackendReady, RuntimeError>(
                BackendReady { readable: e.readable, writable: e.writable, terminal: e.error || e.hangup },
            )
        },
{
    if backend_immediate {
        return Ok(BackendReady { readable: false, terminal: false, writable: false });
    }
    match events {
        Some(e) => backend_ready(e),
        None => Ok(BackendReady { readable: false, terminal: false, writable: false }),
    }
}

/// How long the loop may block, in nanoseconds: not at all when work is
/// immediate, until the next deadline (zero once it has passed), or without
/// limit when there is none.
pub fn poll_timeout(immediate: bool, deadline: Option<u64>, now: u64) -> (t: Option<u64>)
    ensures
        immediate ==> t == Some(0u64),
        !immediate && deadline is None ==> t is None,
        !immediate && deadline is Some ==> t == Some(
            if deadline.unwrap() >= now { (deadline.unwrap() - now) as u64 } else { 0u64 },
        ),
{
    if immediate {
        return Some(0);
    }
    match deadline {
        None => None,
        Some(d) => if d >= now {
            Some(d - now)
        } else {
            Some(0)
        },
    }
}

/// The launcher program started for a launcher effect.
pub open spec fn launcher_argv() -> Seq<Seq<char>> {
    seq!["fuzzel"@]
}

/// The worker job an effect releases, if any.
pub open spec fn effect_job(e: SessionEffect) -> Option<Seq<Seq<char>>> {
    match e {
        SessionEffect::Spawn(argv) => Some(argv@.map_values(|a: String| a@)),
        SessionEffect::Launcher => Some(launcher_argv()),
        _ => None,
    }
}

/// The argv vectors of the worker jobs released by an ordered effect list.
pub open spec fn effect_jobs(effects: Seq<SessionEffect>) -> Seq<Seq<Seq<char>>>
    decreases effects.len(),
{
    if effects.len() == 0 {
        seq![]
    } else {
        let rest = effect_jobs(effects.drop_last());
        match effect_job(effects.last()) {
            Some(job) => rest.push(job),
            None => rest,
        }
    }
}

/// The number of Quit barriers in an effect list.
pub open spec fn quit_count(effects: Seq<SessionEffect>) -> nat
    decreases effects.len(),
{
    if effects.len() == 0 {
        0
    } else {
        quit_count(effects.drop_last()) + if effects.last() is QuitPending { 1nat } else { 0nat }
    }
}

/// The barrier of the last Quit in an effect list, if any.
pub open spec fn quit_barrier(effects: Seq<SessionEffect>) -> Option<QuitAfter>
    decreases effects.len(),
{
    if effects.len() == 0 {
        None
    } else {
        match effects.last() {
            SessionEffect::QuitPending { after } => Some(after),
            _ => quit_barrier(effects.drop_last()),
        }
    }
}

/// The argv vector of a process job, by the characters of each argument.
pub open spec fn job_argv(j: ProcessJob) -> Seq<Seq<char>> {
    match j {
        ProcessJob::Spawn(argv) => argv@.map_values(|a: String| a@),
    }
}

/// What one clean update releases to the worker and the shutdown barrier.
#[derive(Debug)]
pub struct EffectPlan {
    /// Process jobs, in effect order.
    pub jobs: Vec<ProcessJob>,
    /// The one Quit barrier the update carried, if any.
    pub quit_after: Option<QuitAfter>,
}

/// Split an update's ordered effects into worker jobs and its Quit barrier.
///
/// Spawn effects become jobs with their argv, a launcher effect starts the
/// launcher, and the retired theme reload and the binding sheet release no
/// job. An update carrying more than one Quit barrier breaks the session's
/// invariant and is refused.
pub fn plan_effects(effects: Vec<SessionEffect>) -> (r: Result<EffectPlan, RuntimeError>)
    ensures
        quit_count(effects@) > 1 <==> r == Err::<EffectPlan, RuntimeError>(
            RuntimeError::Invariant("one update contained more than one Quit barrier"),
        ),
        quit_count(effects@) <= 1 ==> {
            &&& r is Ok
            &&& r.unwrap().jobs@.map_values(|j: ProcessJob| job_argv(j)) == effect_jobs(effects@)
            &&& r.unwrap().quit_after == quit_barrier(effects@)
        },
{
    let ghost all = effects@;
    let mut jobs: Vec<ProcessJob> = Vec::new();
    let mut quit_after: Option<QuitAfter> = None;
    proof {
        vstd::std_specs::vec::axiom_spec_into_iter(effects);
    }
    for effect in it: effects.into_iter()
        invariant
            it.seq() == all,
            jobs@.map_values(|j: ProcessJob| job_argv(j)) == effect_jobs(all.take(it.index() as int)),
            quit_after == quit_barrier(all.take(it.index() as int)),
            quit_count(all.take(it.index() as int)) <= 1,
            quit_after is Some <==> quit_count(all.take(it.index() as int)) == 1,
    {
        let ghost k = it.index() as int;
        proof {
            assert(all.take(k + 1).drop_last() =~= all.take(k));
            assert(all.take(k + 1).last() == effect);
        }
        match effect {
            SessionEffect::Spawn(argv) => {
                let ghost before = jobs@;
                jobs.push(ProcessJob::Spawn(argv));
                proof {
                    assert(jobs@.map_values(|j: ProcessJob| job_argv(j)) =~= before.map_values(
                        |j: ProcessJob| job_argv(j),
                    ).push(job_argv(jobs@.last())));
                }
            },
            SessionEffect::Launcher => {
                let ghost before = jobs@;
                let mut argv: Vec<String> = Vec::new();
                argv.push(String::from_str("fuzzel"));
                proof {
                    reveal_strlit("fuzzel");
                    assert(argv@.map_values(|a: String| a@) =~= launcher_argv());
                }
                jobs.push(ProcessJob::Spawn(argv));
                proof {
                    assert(jobs@.map_values(|j: ProcessJob| job_argv(j)) =~= before.map_values(
                        |j: ProcessJob| job_argv(j),
                    ).push(job_argv(jobs@.last())));
                }
            },
            SessionEffect::Grimoire => {},
            SessionEffect::ReloadTheme => {},
            SessionEffect::QuitPending { after } => {
                if quit_after.is_some() {
                    proof {
                        lemma_quit_count_prefix(all, k + 1);
                    }
                    return Err(RuntimeError::Invariant("one update contained more than one Quit barrier"));
                }
                quit_after = Some(after);
            },
        }
    }
    proof {
        assert(all.take(all.len() as int) =~= all);
    }
    Ok(EffectPlan { jobs, quit_after })
}

/// Quit barriers in a prefix never exceed those in the whole list.
proof fn lemma_quit_count_prefix(s: Seq<SessionEffect>, n: int)
    requires
        0 <= n <= s.len(),
    ensures
        quit_count(s.take(n)) <= quit_count(s),
    decreases s.len() - n,
{
    if n < s.len() {
        lemma_quit_count_prefix(s, n + 1);
        assert(s.take(n + 1).drop_last() =~= s.take(n));
    } else {
        assert(s.take(n) =~= s);
    }
}

/// Whether a Quit barrier lets shutdown begin at once.
///
/// A key-only Quit has no requester. A Quit that answers a request waits
/// while the exact response is still pending; `receipt_pending` is `None`
/// when the response was not queued at all.
pub fn quit_starts_shutdown(after: QuitAfter, receipt_pending: Option<bool>) -> (now: bool)
    ensures
        now == match after {
            QuitAfter::NoRequester => true,
            _ => match receipt_pending {
                Some(pending) => !pending,
                None => true,
            },
        },
{
    match after {
        QuitAfter::NoRequester => true,
        _ => match receipt_pending {
            Some(pending) => !pending,
            None => true,
        },
    }
}

/// The once-only shutdown steps of one daemon incarnation.
#[derive(Debug, Clone, Copy, PartialEq, Eq, Structural)]
pub struct ShutdownGates {
    /// The worker was handed its final snapshot and sealed.
    pub worker_sealed: bool,
    /// Control shutdown and session shutdown began.
    pub shutdown_started: bool,
    /// The backend was asked for the terminal exit.
    pub exit_started: bool,
}

impl ShutdownGates {
    /// The steps only ever move forward: exit follows shutdown.
    pub open spec fn wf(self) -> bool {
        self.exit_started ==> self.shutdown_started
    }

    /// No step taken yet.
    pub fn new() -> (g: Self)
        ensures
            g == (ShutdownGates { worker_sealed: false, shutdown_started: false, exit_started: false }),
            g.wf(),
    {
        ShutdownGates { worker_sealed: false, shutdown_started: false, exit_started: false }
    }

    /// Begin the terminal worker step; `true` exactly once, when the caller
    /// must flush the final snapshot and seal the worker.
    pub fn begin_terminal_worker(&mut self) -> (first: bool)
        ensures
            first == !old(self).worker_sealed,
            *final(self) == (ShutdownGates { worker_sealed: true, ..*old(self) }),
    {
        let first = !self.worker_sealed;
        self.worker_sealed = true;
        first
    }

    /// Begin shutdown; `true` exactly once, when the caller must shut the
    /// control server and the session down.
    pub fn begin_shutdown(&mut self) -> (first: bool)
        requires
            old(self).wf(),
        ensures
            first == !old(self).shutdown_started,
            *final(self) == (ShutdownGates { shutdown_started: true, ..*old(self) }),
            final(self).wf(),
    {
        let first = !self.shutdown_started;
        self.shutdown_started = true;
        first
    }

    /// Whether the terminal exit begins now: `true` exactly once, after
    /// shutdown began, once control shutdown finished and the worker fence
    /// settled either way.
    pub fn exit_due(&mut self, control_complete: bool, fence: FenceStatus) -> (due: bool)
        requires
            old(self).wf(),
        ensures
            due == (old(self).shutdown_started && !old(self).exit_started && control_complete
                && fence != FenceStatus::Pending),
            *final(self) == (ShutdownGates {
                exit_started: old(self).exit_started || due,
                ..*old(self)
            }),
            final(self).wf(),
    {
        let due = self.shutdown_started && !self.exit_started && control_complete
            && fence != FenceStatus::Pending;
        if due {
            self.exit_started = true;
        }
        due
    }

    /// Whether due snapshots may still be handed to the worker.
    pub fn snapshot_submission_allowed(&self) -> (allowed: bool)
        ensures
            allowed == !self.worker_sealed,
    {
        snapshot_submission_allowed(self.worker_sealed)
    }
}

/// The backend failure behind a fatal runtime error, if there is one.
pub open spec fn backend_failure(e: RuntimeError) -> Option<BackendError> {
    match e {
        RuntimeError::Backend(b) => Some(b),
        RuntimeError::Session(SessionEventError::Backend(b)) => Some(b),
        _ => None,
    }
}

/// The process exit status for a fatal runtime error: the service's
/// configuration-error status when a required compositor global is missing
/// or too old, its unavailable status when another window manager holds the
/// compositor, and a generic failure otherwise.
pub open spec fn spec_exit_status(e: RuntimeError) -> i32 {
    match backend_failure(e) {
        Some(BackendError::Unavailable { message }) => if starts_with(message@, "required global "@) {
            78
        } else if message@ == "another River window manager is active"@ {
            69
        } else {
            1
        },
        _ => 1,
    }
}

/// Exit status of the daemon after a fatal runtime error.
pub fn exit_status(error: &RuntimeError) -> (status: i32)
    ensures
        status == spec_exit_status(*error),
{
    let backend = match error {
        RuntimeError::Backend(b) => Some(b),
        RuntimeError::Session(SessionEventError::Backend(b)) => Some(b),
        _ => None,
    };
    match backend {
        Some(BackendError::Unavailable { message }) => {
            let chars = crate::text::chars_of(message.as_str());
            if has_prefix(&chars, "required global ") {
                78
            } else if str_equal(message.as_str(), "another River window manager is active") {
                69
            } else {
                1
            }
        },
        _ => 1,
    }
}

/// The earlier of two optional deadlines.
pub open spec fn earlier(a: Option<u64>, b: Option<u64>) -> Option<u64> {
    match (a, b) {
        (Some(x), Some(y)) => Some(if x <= y { x } else { y }),
        (Some(x), None) => Some(x),
        (None, y) => y,
    }
}

/// The nearest of the control, persistence and worker-fence deadlines.
pub fn next_deadline(control: Option<u64>, persistence: Option<u64>, fence: Option<u64>) -> (d: Option<u64>)
    ensures
        d == earlier(earlier(control, persistence), fence),
{
    let first = match (control, persistence) {
        (Some(x), Some(y)) => Some(if x <= y { x } else { y }),
        (Some(x), None) => Some(x),
        (None, y) => y,
    };
    match (first, fence) {
        (Some(x), Some(y)) => Some(if x <= y { x } else { y }),
        (Some(x), None) => Some(x),
        (None, y) => y,
    }
}

/// Whether a backend quantum may run in this phase: never while Quit is
/// pending or shutdown is in progress.
pub fn backend_service_allowed(phase: RecoveryPhase) -> (allowed: bool)
    ensures
        allowed == !(phase == RecoveryPhase::QuitPending || phase == RecoveryPhase::ShuttingDown),
{
    match phase {
        RecoveryPhase::QuitPending | RecoveryPhase::ShuttingDown => false,
        _ => true,
    }
}

/// What the live loop does with one worker result.
#[derive(Debug, Clone, Copy, PartialEq, Eq, Structural)]
pub enum WorkerFollowUp {
    /// Hand the worker the current replaceable snapshot.
    AnswerSnapshotRequest,
    /// Complete a persistence request.
    CompletePersistence {
        /// The request's sequence.
        sequence: u64,
        /// How the write ended.
        completion: PersistCompletion,
    },
    /// Nothing beyond reporting a failure.
    Nothing,
}

/// Route one worker result in the live loop. The startup read never
/// belongs there.
pub fn route_worker_result(result: &WorkerResult) -> (r: Result<WorkerFollowUp, RuntimeError>)
    ensures
        match result {
            WorkerResult::SnapshotRead(_) => r == Err::<WorkerFollowUp, RuntimeError>(
                RuntimeError::Invariant("startup snapshot result reached the live loop"),
            ),
            WorkerResult::SnapshotRequested => r == Ok::<WorkerFollowUp, RuntimeError>(WorkerFollowUp::AnswerSnapshotRequest),
            WorkerResult::SnapshotWritten { sequence, result } => r == Ok::<WorkerFollowUp, RuntimeError>(
                WorkerFollowUp::CompletePersistence {
                    sequence: *sequence,
                    completion: if result is Ok { PersistCompletion::Succeeded } else { PersistCompletion::Failed },
                },
            ),
            WorkerResult::Process { .. } | WorkerResult::Fence => r == Ok::<WorkerFollowUp, RuntimeError>(
                WorkerFollowUp::Nothing,
            ),
        },
{
    match result {
        WorkerResult::SnapshotRead(_) => Err(RuntimeError::Invariant("startup snapshot result reached the live loop")),
        WorkerResult::SnapshotRequested => Ok(WorkerFollowUp::AnswerSnapshotRequest),
        WorkerResult::SnapshotWritten { sequence, result } => {
            let completion = match result {
                Ok(()) => PersistCompletion::Succeeded,
                Err(_) => PersistCompletion::Failed,
            };
            Ok(WorkerFollowUp::CompletePersistence { sequence: *sequence, completion })
        },
        WorkerResult::Process { .. } | WorkerResult::Fence => Ok(WorkerFollowUp::Nothing),
    }
}

} // verus!
