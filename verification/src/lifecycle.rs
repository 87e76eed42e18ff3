//! The session's lifecycle and transaction bookkeeping: recovery phases,
//! the one backend transaction, response tickets, Quit, shutdown and the
//! terminal exit.
use vstd::prelude::*;

use crate::backend::{BackendBindingId, BackendContractError, BackendError, BackendReady, BackendTicket};
use crate::policy::{SessionEventError, TransactionSubstate};
use crate::session::{QuitAfter, RecoveryPhase, RepeatTimerDirective, SessionEffect};

verus! {

/// Position of a phase in the one-way lifecycle.
pub open spec fn phase_order(p: RecoveryPhase) -> int {
    match p {
        RecoveryPhase::InitialReplay => 0,
        RecoveryPhase::FinalizingReplay => 1,
        RecoveryPhase::Live => 2,
        RecoveryPhase::QuitPending => 3,
        RecoveryPhase::ShuttingDown => 4,
        RecoveryPhase::Exiting => 5,
        RecoveryPhase::ExitComplete => 6,
    }
}

/// Timer and effect edges released by a lifecycle step.
#[derive(Debug, PartialEq, Eq)]
pub struct LifecycleUpdate {
    /// Immediate programming edge for the key-repeat timer.
    pub repeat_timer: RepeatTimerDirective,
    /// Ordered effects released with the step.
    pub effects: Vec<SessionEffect>,
}

/// The lifecycle and transaction bookkeeping of one session.
#[derive(Debug, Clone, Copy, PartialEq, Eq, Structural)]
pub struct SessionLifecycle {
    /// Recovery position.
    pub phase: RecoveryPhase,
    /// The one backend transaction's position.
    pub transaction: TransactionSubstate,
    /// Whether a private working transaction is held.
    pub active: bool,
    /// Whether the terminal exit was already requested.
    pub exit_attempted: bool,
    /// The last response ticket handed out; zero before the first.
    pub last_backend_ticket: u64,
    /// The binding whose held key repeats.
    pub repeat_target: Option<BackendBindingId>,
}

/// The refusal of a lifecycle operation in the wrong phase.
pub open spec fn invalid_in(operation: &'static str, phase: RecoveryPhase) -> SessionEventError {
    SessionEventError::InvalidLifecycleOperation { operation, phase }
}

impl SessionLifecycle {
    /// A session at the start of the initial replay.
    pub fn new() -> (l: Self)
        ensures
            l == (SessionLifecycle {
                phase: RecoveryPhase::InitialReplay,
                transaction: TransactionSubstate::Idle,
                active: false,
                exit_attempted: false,
                last_backend_ticket: 0,
                repeat_target: None,
            }),
    {
        SessionLifecycle {
            phase: RecoveryPhase::InitialReplay,
            transaction: TransactionSubstate::Idle,
            active: false,
            exit_attempted: false,
            last_backend_ticket: 0,
            repeat_target: None,
        }
    }

    /// Whether a backend transaction is open.
    pub fn has_active_backend_transaction(&self) -> (r: bool)
        ensures
            r == (self.transaction != TransactionSubstate::Idle),
    {
        match self.transaction {
            TransactionSubstate::Idle => false,
            _ => true,
        }
    }

    /// Drop any private work and close the transaction.
    pub fn abandon_private_transaction(&mut self)
        ensures
            *final(self) == (SessionLifecycle {
                active: false,
                transaction: TransactionSubstate::Idle,
                ..*old(self)
            }),
    {
        self.active = false;
        self.transaction = TransactionSubstate::Idle;
    }

    /// Hand out the next response ticket; `None`, with nothing changed,
    /// once every nonzero ticket has been used.
    pub fn allocate_ticket(&mut self) -> (t: Option<BackendTicket>)
        ensures
            old(self).last_backend_ticket == u64::MAX ==> t is None && *final(self) == *old(self),
            old(self).last_backend_ticket < u64::MAX ==> {
                &&& t matches Some(ticket) && ticket@ == old(self).last_backend_ticket + 1
                &&& *final(self) == (SessionLifecycle {
                    last_backend_ticket: (old(self).last_backend_ticket + 1) as u64,
                    ..*old(self)
                })
            },
    {
        if self.last_backend_ticket == u64::MAX {
            return None;
        }
        let raw = self.last_backend_ticket + 1;
        let ticket = BackendTicket::new(raw);
        self.last_backend_ticket = raw;
        ticket
    }

    /// Enter the Quit barrier for a direct control request.
    ///
    /// Idempotent while Quit is pending; refused outside the live phase.
    /// Entering it drops private work, stops key repeat and releases the
    /// barrier owned by the current request.
    pub fn begin_direct_quit(&mut self) -> (r: Result<LifecycleUpdate, SessionEventError>)
        ensures
            old(self).phase == RecoveryPhase::QuitPending ==> *final(self) == *old(self) && (r matches Ok(u)
                && u.repeat_timer == RepeatTimerDirective::Preserve && u.effects@.len() == 0),
            old(self).phase == RecoveryPhase::Live ==> {
                &&& *final(self) == (SessionLifecycle {
                    phase: RecoveryPhase::QuitPending,
                    active: false,
                    transaction: TransactionSubstate::Idle,
                    repeat_target: None,
                    ..*old(self)
                })
                &&& r matches Ok(u)
                &&& u.repeat_timer == RepeatTimerDirective::Disarm
                &&& u.effects@ == seq![SessionEffect::QuitPending { after: QuitAfter::CurrentControlRequest }]
            },
            old(self).phase != RecoveryPhase::QuitPending && old(self).phase != RecoveryPhase::Live ==> r
                == Err::<LifecycleUpdate, SessionEventError>(invalid_in("begin_direct_quit", old(self).phase))
                && *final(self) == *old(self),
            phase_order(final(self).phase) >= phase_order(old(self).phase),
    {
        match self.phase {
            RecoveryPhase::QuitPending => {
                return Ok(LifecycleUpdate { repeat_timer: RepeatTimerDirective::Preserve, effects: Vec::new() });
            },
            RecoveryPhase::Live => {},
            phase => {
                return Err(SessionEventError::InvalidLifecycleOperation { operation: "begin_direct_quit", phase });
            },
        }
        self.abandon_private_transaction();
        self.repeat_target = None;
        self.phase = RecoveryPhase::QuitPending;
        let mut effects: Vec<SessionEffect> = Vec::new();
        effects.push(SessionEffect::QuitPending { after: QuitAfter::CurrentControlRequest });
        proof {
            assert(effects@ =~= seq![SessionEffect::QuitPending { after: QuitAfter::CurrentControlRequest }]);
        }
        Ok(LifecycleUpdate { repeat_timer: RepeatTimerDirective::Disarm, effects })
    }

    /// Drop private work and enter the externally coordinated shutdown.
    ///
    /// Returns the repeat-timer edge: disarm on entry, nothing once
    /// shutdown or the exit has begun.
    pub fn begin_shutdown(&mut self) -> (d: RepeatTimerDirective)
        ensures
            phase_order(old(self).phase) >= 4 ==> d == RepeatTimerDirective::Preserve && *final(self) == *old(self),
            phase_order(old(self).phase) < 4 ==> d == RepeatTimerDirective::Disarm && *final(self) == (SessionLifecycle {
                phase: RecoveryPhase::ShuttingDown,
                active: false,
                transaction: TransactionSubstate::Idle,
                repeat_target: None,
                ..*old(self)
            }),
            phase_order(final(self).phase) >= phase_order(old(self).phase),
    {
        match self.phase {
            RecoveryPhase::ShuttingDown | RecoveryPhase::Exiting | RecoveryPhase::ExitComplete => {
                return RepeatTimerDirective::Preserve;
            },
            _ => {},
        }
        self.abandon_private_transaction();
        self.repeat_target = None;
        self.phase = RecoveryPhase::ShuttingDown;
        RepeatTimerDirective::Disarm
    }

    /// Authorize the compositor's terminal exit, exactly once and only
    /// during shutdown. The caller then asks the backend to exit.
    pub fn authorize_exit(&mut self) -> (r: Result<(), SessionEventError>)
        ensures
            old(self).phase == RecoveryPhase::ShuttingDown && !old(self).exit_attempted ==> r is Ok
                && *final(self) == (SessionLifecycle { exit_attempted: true, ..*old(self) }),
            !(old(self).phase == RecoveryPhase::ShuttingDown && !old(self).exit_attempted) ==> r
                == Err::<(), SessionEventError>(invalid_in("begin_exit_session", old(self).phase))
                && *final(self) == *old(self),
    {
        if self.phase != RecoveryPhase::ShuttingDown || self.exit_attempted {
            return Err(SessionEventError::InvalidLifecycleOperation {
                operation: "begin_exit_session",
                phase: self.phase,
            });
        }
        self.exit_attempted = true;
        Ok(())
    }

    /// Record the backend's answer to the authorized exit request: on
    /// acceptance the session is exiting; a failure is fatal and leaves the
    /// exit spent.
    pub fn exit_requested(&mut self, backend: Result<(), BackendError>) -> (r: Result<(), SessionEventError>)
        requires
            old(self).phase == RecoveryPhase::ShuttingDown,
            old(self).exit_attempted,
        ensures
            match backend {
                Ok(()) => r is Ok && *final(self) == (SessionLifecycle { phase: RecoveryPhase::Exiting, ..*old(self) }),
                Err(e) => r == Err::<(), SessionEventError>(SessionEventError::Backend(e)) && *final(self) == *old(self),
            },
            phase_order(final(self).phase) >= phase_order(old(self).phase),
    {
        match backend {
            Ok(()) => {
                self.phase = RecoveryPhase::Exiting;
                Ok(())
            },
            Err(e) => Err(SessionEventError::Backend(e)),
        }
    }

    /// The expected post-flush disconnect completes the session.
    pub fn complete_expected_exit(&mut self) -> (r: Result<(), SessionEventError>)
        ensures
            old(self).phase == RecoveryPhase::Exiting ==> r is Ok && *final(self) == (SessionLifecycle {
                phase: RecoveryPhase::ExitComplete,
                ..*old(self)
            }),
            old(self).phase != RecoveryPhase::Exiting ==> r == Err::<(), SessionEventError>(
                invalid_in("service_backend", old(self).phase),
            ) && *final(self) == *old(self),
    {
        if self.phase != RecoveryPhase::Exiting {
            return Err(SessionEventError::InvalidLifecycleOperation { operation: "service_backend", phase: self.phase });
        }
        self.phase = RecoveryPhase::ExitComplete;
        Ok(())
    }

    /// Whether one backend quantum should run: refused once the session has
    /// completed, idle without queued work or fresh readiness.
    pub fn backend_turn_due(&self, immediate: bool, ready: BackendReady) -> (r: Result<bool, SessionEventError>)
        ensures
            self.phase == RecoveryPhase::ExitComplete ==> r == Err::<bool, SessionEventError>(
                invalid_in("service_backend", RecoveryPhase::ExitComplete),
            ),
            self.phase != RecoveryPhase::ExitComplete ==> r == Ok::<bool, SessionEventError>(
                immediate || ready.readable || ready.terminal || ready.writable,
            ),
    {
        if self.phase == RecoveryPhase::ExitComplete {
            return Err(SessionEventError::InvalidLifecycleOperation {
                operation: "service_backend",
                phase: RecoveryPhase::ExitComplete,
            });
        }
        Ok(immediate || ready.readable || ready.terminal || ready.writable)
    }

    /// Whether a backend disconnect is the expected end of the exit.
    pub fn disconnect_completes_exit(&self) -> (r: bool)
        ensures
            r == (self.phase == RecoveryPhase::Exiting),
    {
        self.phase == RecoveryPhase::Exiting
    }

    /// A backend service failure drops private work and is fatal.
    pub fn backend_failed(&mut self, error: BackendError) -> (r: SessionEventError)
        ensures
            r == SessionEventError::Backend(error),
            *final(self) == (SessionLifecycle {
                active: false,
                transaction: TransactionSubstate::Idle,
                ..*old(self)
            }),
    {
        self.abandon_private_transaction();
        SessionEventError::Backend(error)
    }

    /// The backend completed the in-flight operation with `ticket`.
    ///
    /// A completion for any other ticket or state is a contract violation
    /// that drops private work, as is a failed operation; otherwise the
    /// transaction waits for the turn that drains the operation.
    pub fn handle_operation_completed(&mut self, ticket: BackendTicket, result: Result<(), BackendError>) -> (r: Result<(), SessionEventError>)
        ensures
            ({
                let expected = old(self).transaction == (TransactionSubstate::InFlight { ticket });
                let abandoned = SessionLifecycle {
                    active: false,
                    transaction: TransactionSubstate::Idle,
                    ..*old(self)
                };
                &&& !expected ==> r == Err::<(), SessionEventError>(
                    SessionEventError::BackendContract(BackendContractError::InvalidPolicySequence),
                ) && *final(self) == abandoned
                &&& expected && result is Err ==> r == Err::<(), SessionEventError>(
                    SessionEventError::Backend(result->Err_0),
                ) && *final(self) == abandoned
                &&& expected && result is Ok && !old(self).active ==> r == Err::<(), SessionEventError>(
                    SessionEventError::BackendContract(BackendContractError::InvalidPolicySequence),
                ) && *final(self) == *old(self)
                &&& expected && result is Ok && old(self).active ==> r is Ok && *final(self) == (SessionLifecycle {
                    transaction: TransactionSubstate::AwaitingDrain { ticket },
                    ..*old(self)
                })
            }),
    {
        let expected = match self.transaction {
            TransactionSubstate::InFlight { ticket: t } => t == ticket,
            _ => false,
        };
        if !expected {
            self.abandon_private_transaction();
            return Err(SessionEventError::BackendContract(BackendContractError::InvalidPolicySequence));
        }
        match result {
            Err(error) => {
                self.abandon_private_transaction();
                return Err(SessionEventError::Backend(error));
            },
            Ok(()) => {},
        }
        if !self.active {
            return Err(SessionEventError::BackendContract(BackendContractError::InvalidPolicySequence));
        }
        self.transaction = TransactionSubstate::AwaitingDrain { ticket };
        Ok(())
    }
}

} // verus!
