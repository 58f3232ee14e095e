//! The life of one search job, from the queue to the confirmed cleanup of its browser tab.
use vstd::prelude::*;

use crate::daemon::error::ErrorDetail;
use crate::daemon::model::{SearchCommand, SearchResult};

verus! {

/// What a caller is answered: the results of its search, or why there are none.
pub type SearchOutcome = Result<Vec<SearchResult>, ErrorDetail>;

/// How far the search message of a job has come.
#[derive(Debug, Clone, Copy, PartialEq, Eq, Structural)]
pub enum DispatchPhase {
    Queued,
    Dispatching,
    Dispatched,
}

/// A job that has not left the scheduler yet.
pub struct PendingJob {
    pub id: u128,
    pub command: SearchCommand,
    /// The job holds one of the browser slots.
    pub permit: bool,
    pub phase: DispatchPhase,
    /// The HTTP caller has received its terminal outcome.
    pub responded: bool,
    /// Cancellation happened while the bridge search message was being sent.
    pub cancel_requested: bool,
    pub pending_cancel_reason: Option<String>,
    /// The extension has received a cancellation and still owes cleanup confirmation.
    pub awaiting_cleanup: bool,
    /// This job contributes one entry to the scheduler cleanup gate.
    pub cleanup_blocker_registered: bool,
    /// Both the caller response and browser-resource lifecycle are complete.
    pub finalized: bool,
}

/// What a job leaves behind when it is over.
pub struct JobEnding {
    /// The outcome that the caller is still owed.
    pub response: Option<SearchOutcome>,
    /// The job gives back its browser slot.
    pub permit: bool,
    /// The job gives back its entry in the cleanup gate.
    pub had_cleanup_blocker: bool,
}

/// What follows from an attempt to send the search message of a job.
pub enum DispatchCompletion {
    Sent,
    SendCancel(Option<String>),
    Finished(JobEnding),
    Skipped,
}

/// What follows from a request to cancel a job.
pub enum CancellationResult {
    AlreadyHandled,
    Finished(JobEnding),
    PendingCleanup {
        response: Option<SearchOutcome>,
        send_cancel: Option<String>,
        register_blocker: bool,
    },
}

impl PendingJob {
    /// The job is cancelled and the extension has not confirmed the cleanup yet.
    pub open spec fn cleanup_pending(self) -> bool {
        self.cancel_requested || self.awaiting_cleanup
    }

    /// How the parts of a job that is not over fit together.
    pub open spec fn wf(self) -> bool {
        &&& !self.finalized
        &&& self.permit == (self.phase != DispatchPhase::Queued)
        &&& self.responded == self.cleanup_pending()
        &&& self.cleanup_blocker_registered == self.responded
        &&& self.phase == DispatchPhase::Queued ==> !self.responded
        &&& self.phase == DispatchPhase::Dispatching ==> !self.awaiting_cleanup
        &&& self.phase == DispatchPhase::Dispatched && self.responded ==> self.awaiting_cleanup
        &&& self.pending_cancel_reason is Some ==> {
            &&& self.cancel_requested
            &&& self.phase == DispatchPhase::Dispatching
        }
    }

    /// The job as it waits in the queue.
    pub open spec fn queued(id: u128, command: SearchCommand) -> PendingJob {
        PendingJob {
            id,
            command,
            permit: false,
            phase: DispatchPhase::Queued,
            responded: false,
            cancel_requested: false,
            pending_cancel_reason: None,
            awaiting_cleanup: false,
            cleanup_blocker_registered: false,
            finalized: false,
        }
    }

    /// The job can be handed to the browser.
    pub open spec fn dispatchable(self) -> bool {
        !self.responded && !self.finalized && self.phase == DispatchPhase::Queued
    }

    /// The job with a slot, while its search message is being sent.
    pub open spec fn dispatching(self) -> PendingJob {
        PendingJob { permit: true, phase: DispatchPhase::Dispatching, ..self }
    }

    /// The job once its search message was accepted.
    pub open spec fn dispatched(self) -> PendingJob {
        if self.cancel_requested {
            PendingJob {
                phase: DispatchPhase::Dispatched,
                awaiting_cleanup: true,
                pending_cancel_reason: None,
                ..self
            }
        } else {
            PendingJob { phase: DispatchPhase::Dispatched, ..self }
        }
    }

    /// The job after its caller was told that it is cancelled.
    pub open spec fn cancelled(self, reason: Option<String>) -> PendingJob {
        match self.phase {
            DispatchPhase::Queued => PendingJob {
                responded: true,
                finalized: true,
                permit: false,
                ..self
            },
            DispatchPhase::Dispatching => PendingJob {
                responded: true,
                cancel_requested: true,
                pending_cancel_reason: reason,
                cleanup_blocker_registered: true,
                ..self
            },
            DispatchPhase::Dispatched => PendingJob {
                responded: true,
                awaiting_cleanup: true,
                cleanup_blocker_registered: true,
                ..self
            },
        }
    }

    /// The job ends when the extension reports back, with or without an outcome for the caller.
    pub open spec fn can_finish(self, has_outcome: bool, require_cleanup_wait: bool) -> bool {
        &&& !self.finalized
        &&& self.phase != DispatchPhase::Queued
        &&& require_cleanup_wait ==> self.cleanup_pending()
        &&& self.responded || has_outcome
    }

    /// The job once its search message could not be sent.
    pub open spec fn failed(self) -> PendingJob {
        PendingJob { responded: true, finalized: true, permit: false, ..self }
    }

    /// The job once it is known whether its search message was accepted.
    pub open spec fn after_dispatch(self, sent: Result<(), ErrorDetail>) -> PendingJob {
        if self.finalized {
            self
        } else if sent is Ok {
            self.dispatched()
        } else {
            self.failed()
        }
    }

    /// What follows from an attempt to send the search message.
    pub open spec fn completion(self, sent: Result<(), ErrorDetail>) -> DispatchCompletion {
        if self.finalized {
            DispatchCompletion::Skipped
        } else {
            match sent {
                Ok(_) => if self.cancel_requested {
                    DispatchCompletion::SendCancel(self.pending_cancel_reason)
                } else {
                    DispatchCompletion::Sent
                },
                Err(error) => DispatchCompletion::Finished(
                    JobEnding {
                        response: if self.responded {
                            None
                        } else {
                            Some(Err(error))
                        },
                        permit: self.permit,
                        had_cleanup_blocker: self.cleanup_blocker_registered,
                    },
                ),
            }
        }
    }

    /// The job after a request to cancel it.
    pub open spec fn after_cancellation(self, reason: Option<String>) -> PendingJob {
        if self.finalized || self.responded {
            self
        } else {
            self.cancelled(reason)
        }
    }

    /// What follows from a request to cancel the job.
    pub open spec fn cancellation(
        self,
        outcome: SearchOutcome,
        reason: Option<String>,
    ) -> CancellationResult {
        if self.finalized || (self.responded && !self.cleanup_pending()) {
            CancellationResult::AlreadyHandled
        } else if self.responded {
            CancellationResult::PendingCleanup {
                response: None,
                send_cancel: None,
                register_blocker: false,
            }
        } else {
            match self.phase {
                DispatchPhase::Queued => CancellationResult::Finished(
                    JobEnding {
                        response: Some(outcome),
                        permit: self.permit,
                        had_cleanup_blocker: false,
                    },
                ),
                DispatchPhase::Dispatching => CancellationResult::PendingCleanup {
                    response: Some(outcome),
                    send_cancel: None,
                    register_blocker: true,
                },
                DispatchPhase::Dispatched => CancellationResult::PendingCleanup {
                    response: Some(outcome),
                    send_cancel: reason,
                    register_blocker: true,
                },
            }
        }
    }

    /// The job after the extension has reported back.
    pub open spec fn after_report(
        self,
        has_outcome: bool,
        require_cleanup_wait: bool,
    ) -> PendingJob {
        if self.can_finish(has_outcome, require_cleanup_wait) {
            PendingJob {
                responded: true,
                cancel_requested: false,
                pending_cancel_reason: None,
                awaiting_cleanup: false,
                cleanup_blocker_registered: false,
                finalized: true,
                permit: false,
                ..self
            }
        } else {
            self
        }
    }

    /// How the job ends when the extension reports back, if it does.
    pub open spec fn report(
        self,
        outcome: Option<SearchOutcome>,
        require_cleanup_wait: bool,
    ) -> Option<JobEnding> {
        if self.can_finish(outcome is Some, require_cleanup_wait) {
            Some(
                JobEnding {
                    response: if self.responded {
                        None
                    } else {
                        outcome
                    },
                    permit: self.permit,
                    had_cleanup_blocker: self.cleanup_blocker_registered,
                },
            )
        } else {
            None
        }
    }

    pub fn new(id: u128, command: SearchCommand) -> (result: Self)
        ensures
            result == PendingJob::queued(id, command),
            result.wf(),
    {
        PendingJob {
            id,
            command,
            permit: false,
            phase: DispatchPhase::Queued,
            responded: false,
            cancel_requested: false,
            pending_cancel_reason: None,
            awaiting_cleanup: false,
            cleanup_blocker_registered: false,
            finalized: false,
        }
    }

    /// Takes a browser slot for the job, unless it was cancelled or dispatched meanwhile.
    pub fn prepare_dispatch(&mut self) -> (result: bool)
        ensures
            result == old(self).dispatchable(),
            result ==> *final(self) == old(self).dispatching(),
            !result ==> *final(self) == *old(self),
            old(self).wf() ==> final(self).wf(),
    {
        if self.responded || self.finalized || self.phase != DispatchPhase::Queued {
            return false;
        }
        self.permit = true;
        self.phase = DispatchPhase::Dispatching;
        true
    }

    /// Records whether the search message was accepted.
    pub fn finish_dispatch(&mut self, sent: Result<(), ErrorDetail>) -> (result: DispatchCompletion)
        ensures
            *final(self) == old(self).after_dispatch(sent),
            result == old(self).completion(sent),
            old(self).wf() && old(self).phase == DispatchPhase::Dispatching && sent is Ok
                ==> final(self).wf(),
    {
        if self.finalized {
            return DispatchCompletion::Skipped;
        }
        match sent {
            Ok(()) => {
                self.phase = DispatchPhase::Dispatched;
                if self.cancel_requested {
                    self.awaiting_cleanup = true;
                    DispatchCompletion::SendCancel(self.pending_cancel_reason.take())
                } else {
                    DispatchCompletion::Sent
                }
            },
            Err(error) => {
                let response: Option<SearchOutcome> = if self.responded {
                    None
                } else {
                    self.responded = true;
                    Some(Err(error))
                };
                self.finalized = true;
                let permit = self.permit;
                self.permit = false;
                DispatchCompletion::Finished(
                    JobEnding {
                        response,
                        permit,
                        had_cleanup_blocker: self.cleanup_blocker_registered,
                    },
                )
            },
        }
    }

    /// Answers the caller with `outcome`, unless it has its answer, and asks for the cleanup of
    /// what the browser may have started.
    pub fn request_cancellation(
        &mut self,
        outcome: SearchOutcome,
        cancel_reason: Option<String>,
    ) -> (result: CancellationResult)
        ensures
            *final(self) == old(self).after_cancellation(cancel_reason),
            result == old(self).cancellation(outcome, cancel_reason),
            old(self).wf() && old(self).phase != DispatchPhase::Queued ==> final(self).wf(),
    {
        if self.finalized {
            return CancellationResult::AlreadyHandled;
        }
        if self.responded {
            return if self.cancel_requested || self.awaiting_cleanup {
                CancellationResult::PendingCleanup {
                    response: None,
                    send_cancel: None,
                    register_blocker: false,
                }
            } else {
                CancellationResult::AlreadyHandled
            };
        }
        self.responded = true;
        match self.phase {
            DispatchPhase::Queued => {
                self.finalized = true;
                let permit = self.permit;
                self.permit = false;
                CancellationResult::Finished(
                    JobEnding { response: Some(outcome), permit, had_cleanup_blocker: false },
                )
            },
            DispatchPhase::Dispatching => {
                self.cancel_requested = true;
                self.pending_cancel_reason = cancel_reason;
                self.cleanup_blocker_registered = true;
                CancellationResult::PendingCleanup {
                    response: Some(outcome),
                    send_cancel: None,
                    register_blocker: true,
                }
            },
            DispatchPhase::Dispatched => {
                self.awaiting_cleanup = true;
                self.cleanup_blocker_registered = true;
                CancellationResult::PendingCleanup {
                    response: Some(outcome),
                    send_cancel: cancel_reason,
                    register_blocker: true,
                }
            },
        }
    }

    /// Ends the job once the extension has reported back. Without an outcome, a caller that still
    /// waits keeps the job alive; with `require_cleanup_wait`, so does a job that nobody
    /// cancelled.
    pub fn finish_after_cleanup(
        &mut self,
        outcome: Option<SearchOutcome>,
        require_cleanup_wait: bool,
    ) -> (result: Option<JobEnding>)
        ensures
            *final(self) == old(self).after_report(outcome is Some, require_cleanup_wait),
            result == old(self).report(outcome, require_cleanup_wait),
    {
        if self.finalized || self.phase == DispatchPhase::Queued {
            return None;
        }
        if require_cleanup_wait && !(self.cancel_requested || self.awaiting_cleanup) {
            return None;
        }
        let response: Option<SearchOutcome> = if self.responded {
            None
        } else {
            if outcome.is_none() {
                return None;
            }
            self.responded = true;
            outcome
        };
        self.cancel_requested = false;
        self.pending_cancel_reason = None;
        self.awaiting_cleanup = false;
        let had_cleanup_blocker = self.cleanup_blocker_registered;
        self.cleanup_blocker_registered = false;
        self.finalized = true;
        let permit = self.permit;
        self.permit = false;
        Some(JobEnding { response, permit, had_cleanup_blocker })
    }
}

} // verus!
