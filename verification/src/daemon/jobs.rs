//! The scheduler: which job is handed to the browser next, what becomes of a job when it is
//! answered, cancelled or cut off, and when the browser may be used again.
use std::collections::VecDeque;
use std::sync::Arc;

use dashmap::DashMap;
use vstd::prelude::*;

use crate::daemon::config::Config;
use crate::daemon::error::{ErrorCode, ErrorDetail};
use crate::daemon::job_table::{empty_table, insert_job, job_contents, job_ids, remove_job};
use crate::daemon::model::{SearchCommand, SearchResult};
use crate::daemon::pending_job::{
    CancellationResult, DispatchCompletion, DispatchPhase, PendingJob, SearchOutcome,
};
use crate::text::{optional_text, same_text};
use crate::unique_id::{is_random_id, new_id};

verus! {

/// What the dispatcher is doing.
#[derive(Debug, Clone, Copy, PartialEq, Eq, Structural)]
pub enum DispatchStage {
    Idle,
    /// The job was taken from the queue and needs a browser slot.
    AwaitingSlot(u128),
    /// The dispatcher holds a slot for the job and waits for pending cleanups.
    AwaitingCleanup(u128),
}

/// Keeps the jobs, the queue in front of the browser and the cleanup gate.
pub struct JobScheduler {
    config: Arc<Config>,
    jobs: DashMap<u128, PendingJob>,
    queue: VecDeque<u128>,
    stage: DispatchStage,
    cleanup_gate: usize,
    cleanup_owner: Option<String>,
    active_jobs: usize,
}

/// The state of a [`JobScheduler`].
pub struct SchedulerView {
    pub jobs: Map<u128, PendingJob>,
    /// Ids in the order in which they will be dispatched.
    pub queue: Seq<u128>,
    pub stage: DispatchStage,
    /// How many cancelled jobs still owe their cleanup.
    pub cleanup_gate: nat,
    /// The browser instance that has to come back and clean up.
    pub cleanup_owner: Option<Seq<char>>,
    /// How many browser slots are taken.
    pub active_jobs: nat,
    pub config: Config,
}

/// The jobs that hold up the dispatch until their cleanup is confirmed.
pub open spec fn blockers(jobs: Map<u128, PendingJob>) -> Set<u128> {
    jobs.dom().filter(|id: u128| jobs[id].cleanup_blocker_registered)
}

/// The jobs that hold a browser slot.
pub open spec fn slot_holders(jobs: Map<u128, PendingJob>) -> Set<u128> {
    jobs.dom().filter(|id: u128| jobs[id].permit)
}

/// The slots that the dispatcher holds for a job that has not taken them yet.
pub open spec fn reserved(stage: DispatchStage) -> nat {
    if stage is AwaitingCleanup {
        1
    } else {
        0
    }
}

impl SchedulerView {
    /// A scheduler without jobs.
    pub open spec fn empty(config: Config) -> SchedulerView {
        SchedulerView {
            jobs: Map::empty(),
            queue: Seq::empty(),
            stage: DispatchStage::Idle,
            cleanup_gate: 0,
            cleanup_owner: None,
            active_jobs: 0,
            config,
        }
    }

    /// How many browser slots there are.
    pub open spec fn max_concurrency(self) -> nat {
        self.config.executor.max_concurrency as nat
    }

    /// How many jobs can wait in the queue.
    pub open spec fn max_queue_size(self) -> nat {
        self.config.executor.max_queue_size as nat
    }

    /// Whether the queue has room for another job.
    pub open spec fn has_room(self) -> bool {
        self.queue.len() < self.max_queue_size()
    }

    /// The state with another job at the end of the queue.
    pub open spec fn enqueued(self, id: u128, command: SearchCommand) -> SchedulerView {
        SchedulerView {
            jobs: self.jobs.insert(id, PendingJob::queued(id, command)),
            queue: self.queue.push(id),
            ..self
        }
    }

    /// The counters agree with the jobs, the limits hold, and no waiting job is forgotten.
    pub open spec fn wf(self) -> bool {
        &&& self.jobs.dom().finite()
        &&& forall|id: u128| #[trigger]
            self.jobs.contains_key(id) ==> self.jobs[id].id == id && self.jobs[id].wf()
        &&& self.cleanup_gate == blockers(self.jobs).len()
        &&& self.active_jobs == slot_holders(self.jobs).len() + reserved(self.stage)
        &&& self.active_jobs <= self.max_concurrency()
        &&& self.queue.len() <= self.max_queue_size()
        &&& forall|id: u128| #[trigger]
            self.jobs.contains_key(id) && self.jobs[id].phase == DispatchPhase::Queued
                ==> self.queue.contains(id) || self.stage == DispatchStage::AwaitingSlot(id)
                || self.stage == DispatchStage::AwaitingCleanup(id)
    }

    /// This state with other jobs, and the counters that go with them.
    pub open spec fn with_jobs(self, jobs: Map<u128, PendingJob>) -> SchedulerView {
        SchedulerView {
            jobs,
            cleanup_gate: blockers(jobs).len(),
            active_jobs: slot_holders(jobs).len() + reserved(self.stage),
            ..self
        }
    }

    /// This state with the dispatcher at another stage, and the slot that goes with it.
    pub open spec fn at_stage(self, stage: DispatchStage) -> SchedulerView {
        SchedulerView {
            stage,
            active_jobs: slot_holders(self.jobs).len() + reserved(stage),
            ..self
        }
    }
}

impl SchedulerView {
    /// Whether the dispatcher can do nothing but wait: the queue is empty, all slots are taken,
    /// or a cleanup is pending.
    pub open spec fn stalled(self) -> bool {
        match self.stage {
            DispatchStage::Idle => self.queue.len() == 0,
            DispatchStage::AwaitingSlot(_) => self.active_jobs >= self.max_concurrency(),
            DispatchStage::AwaitingCleanup(_) => self.cleanup_gate != 0,
        }
    }

    /// The job whose search message the dispatcher sends in its next step.
    pub open spec fn next_search(self) -> Option<u128> {
        match self.stage {
            DispatchStage::AwaitingCleanup(id) => if self.cleanup_gate == 0
                && self.jobs.contains_key(id) && self.jobs[id].dispatchable() {
                Some(id)
            } else {
                None
            },
            _ => None,
        }
    }

    /// The state after the dispatcher's next step.
    pub open spec fn advanced(self) -> SchedulerView {
        if self.stalled() {
            self
        } else {
            match self.stage {
                DispatchStage::Idle => SchedulerView {
                    queue: self.queue.drop_first(),
                    stage: if self.jobs.contains_key(self.queue[0]) {
                        DispatchStage::AwaitingSlot(self.queue[0])
                    } else {
                        DispatchStage::Idle
                    },
                    ..self
                },
                DispatchStage::AwaitingSlot(id) => self.at_stage(
                    DispatchStage::AwaitingCleanup(id),
                ),
                DispatchStage::AwaitingCleanup(id) => if self.next_search() is Some {
                    self.at_stage(DispatchStage::Idle).with_jobs(
                        self.jobs.insert(id, self.jobs[id].dispatching()),
                    )
                } else {
                    self.at_stage(DispatchStage::Idle)
                },
            }
        }
    }

    /// The state after the next search message was accepted.
    pub open spec fn search_sent(self, id: u128) -> SchedulerView {
        self.at_stage(DispatchStage::Idle).with_jobs(
            self.jobs.insert(id, self.jobs[id].dispatching().dispatched()),
        )
    }

    /// The state after the next search message could not be sent.
    pub open spec fn search_failed(self, id: u128) -> SchedulerView {
        self.at_stage(DispatchStage::Idle).with_jobs(self.jobs.remove(id))
    }

    /// Whether the message of a job, if there is one, is being sent.
    pub open spec fn may_be_sending(self, id: u128) -> bool {
        self.jobs.contains_key(id) ==> self.jobs[id].phase == DispatchPhase::Dispatching
    }

    /// The state after the message of a job was accepted.
    pub open spec fn dispatch_accepted(self, id: u128) -> SchedulerView {
        if self.jobs.contains_key(id) {
            self.with_jobs(self.jobs.insert(id, self.jobs[id].dispatched()))
        } else {
            self
        }
    }

    /// The state after the message of a job was refused.
    pub open spec fn dispatch_refused(self, id: u128) -> SchedulerView {
        if self.jobs.contains_key(id) {
            self.with_jobs(self.jobs.remove(id))
        } else {
            self
        }
    }

    /// Whether the caller of a job has not been answered yet.
    pub open spec fn awaits_answer(self, id: u128) -> bool {
        self.jobs.contains_key(id) && !self.jobs[id].responded
    }

    /// Whether the extension works on a job whose caller has not been answered yet.
    pub open spec fn is_searching(self, id: u128) -> bool {
        self.awaits_answer(id) && self.jobs[id].phase == DispatchPhase::Dispatched
    }

    /// Whether what the extension reports about a job ends it.
    pub open spec fn ends(self, id: u128) -> bool {
        self.jobs.contains_key(id) && self.jobs[id].phase != DispatchPhase::Queued
    }

    /// The state after the extension has reported the end of a job.
    pub open spec fn job_ended(self, id: u128) -> SchedulerView {
        if self.ends(id) {
            self.with_jobs(self.jobs.remove(id))
        } else {
            self
        }
    }

    /// The state after the extension has confirmed the cleanup of a job.
    pub open spec fn job_cleaned_up(self, id: u128) -> SchedulerView {
        if self.jobs.contains_key(id) && self.jobs[id].cleanup_pending() {
            self.with_jobs(self.jobs.remove(id))
        } else {
            self
        }
    }

    /// The state after a job is cancelled.
    pub open spec fn job_cancelled(self, id: u128, reason: Option<String>) -> SchedulerView {
        if !self.awaits_answer(id) {
            self
        } else if self.jobs[id].phase == DispatchPhase::Queued {
            self.with_jobs(self.jobs.remove(id))
        } else {
            self.with_jobs(self.jobs.insert(id, self.jobs[id].cancelled(reason)))
        }
    }

    /// The state once the extension is gone: callers are answered, jobs that only waited are
    /// gone, and the others wait for the instance to come back and clean up.
    pub open spec fn disconnected(self, browser_instance_id: Seq<char>) -> SchedulerView {
        SchedulerView {
            cleanup_owner: if exists|id: u128| #[trigger]
                self.jobs.contains_key(id) && self.jobs[id].phase != DispatchPhase::Queued {
                Some(browser_instance_id)
            } else {
                None
            },
            ..self.with_jobs(jobs_after_disconnect(self.jobs, self.jobs.dom()))
        }
    }

    /// The state once an extension is back: the instance that owed the cleanup has done it.
    pub open spec fn reconnected(self, browser_instance_id: Seq<char>) -> SchedulerView {
        if self.cleanup_owner == Some(browser_instance_id) {
            SchedulerView {
                cleanup_owner: None,
                ..self.with_jobs(jobs_after_reconnect(self.jobs, self.jobs.dom()))
            }
        } else {
            self
        }
    }
}

/// The jobs when those in `done` have been cut off from the extension.
pub open spec fn jobs_after_disconnect(jobs: Map<u128, PendingJob>, done: Set<u128>) -> Map<
    u128,
    PendingJob,
> {
    Map::new(
        |id: u128|
            jobs.contains_key(id) && !(done.contains(id) && jobs[id].phase
                == DispatchPhase::Queued),
        |id: u128|
            if done.contains(id) && !jobs[id].responded {
                jobs[id].cancelled(None)
            } else {
                jobs[id]
            },
    )
}

/// The jobs when the pending cleanups in `done` have been confirmed.
pub open spec fn jobs_after_reconnect(jobs: Map<u128, PendingJob>, done: Set<u128>) -> Map<
    u128,
    PendingJob,
> {
    Map::new(
        |id: u128| jobs.contains_key(id) && !(done.contains(id) && jobs[id].cleanup_pending()),
        |id: u128| jobs[id],
    )
}

/// The jobs that a list of answers is for.
pub open spec fn reply_ids(replies: Seq<Reply>) -> Seq<u128> {
    replies.map_values(|reply: Reply| reply.id)
}

/// The results that are handed on: those with at least one field, as many as were asked for.
pub open spec fn kept_results(results: Seq<SearchResult>, limit: nat) -> Seq<SearchResult> {
    let filled = results.filter(|result: SearchResult| result@.len() > 0);
    if filled.len() <= limit {
        filled
    } else {
        filled.take(limit as int)
    }
}

pub(crate) proof fn lemma_add_job(jobs: Map<u128, PendingJob>, id: u128, job: PendingJob)
    requires
        jobs.dom().finite(),
        !jobs.contains_key(id),
    ensures
        jobs.insert(id, job).dom().finite(),
        blockers(jobs.insert(id, job)).len() == blockers(jobs).len() + if job.cleanup_blocker_registered {
            1nat
        } else {
            0nat
        },
        slot_holders(jobs.insert(id, job)).len() == slot_holders(jobs).len() + if job.permit {
            1nat
        } else {
            0nat
        },
{
    let after = jobs.insert(id, job);
    jobs.dom().lemma_len_filter(|id: u128| jobs[id].cleanup_blocker_registered);
    jobs.dom().lemma_len_filter(|id: u128| jobs[id].permit);
    if job.cleanup_blocker_registered {
        assert(blockers(after) =~= blockers(jobs).insert(id));
    } else {
        assert(blockers(after) =~= blockers(jobs));
    }
    if job.permit {
        assert(slot_holders(after) =~= slot_holders(jobs).insert(id));
    } else {
        assert(slot_holders(after) =~= slot_holders(jobs));
    }
}

pub(crate) proof fn lemma_drop_job(jobs: Map<u128, PendingJob>, id: u128)
    requires
        jobs.dom().finite(),
        jobs.contains_key(id),
    ensures
        jobs.remove(id).dom().finite(),
        blockers(jobs).len() == blockers(jobs.remove(id)).len() + if jobs[id].cleanup_blocker_registered {
            1nat
        } else {
            0nat
        },
        slot_holders(jobs).len() == slot_holders(jobs.remove(id)).len() + if jobs[id].permit {
            1nat
        } else {
            0nat
        },
{
    lemma_add_job(jobs.remove(id), id, jobs[id]);
    assert(jobs.remove(id).insert(id, jobs[id]) =~= jobs);
}

pub(crate) proof fn lemma_replace_job(jobs: Map<u128, PendingJob>, id: u128, job: PendingJob)
    requires
        jobs.dom().finite(),
        jobs.contains_key(id),
    ensures
        jobs.remove(id).insert(id, job) == jobs.insert(id, job),
        jobs.insert(id, job).dom().finite(),
        blockers(jobs.insert(id, job)).len() == blockers(jobs.remove(id)).len()
            + if job.cleanup_blocker_registered {
            1nat
        } else {
            0nat
        },
        slot_holders(jobs.insert(id, job)).len() == slot_holders(jobs.remove(id)).len()
            + if job.permit {
            1nat
        } else {
            0nat
        },
{
    lemma_drop_job(jobs, id);
    lemma_add_job(jobs.remove(id), id, job);
    assert(jobs.remove(id).insert(id, job) =~= jobs.insert(id, job));
}

proof fn lemma_blockers_hold_slots(jobs: Map<u128, PendingJob>)
    requires
        jobs.dom().finite(),
        forall|id: u128| #[trigger] jobs.contains_key(id) ==> jobs[id].wf(),
    ensures
        blockers(jobs).len() <= slot_holders(jobs).len(),
{
    jobs.dom().lemma_len_filter(|id: u128| jobs[id].permit);
    assert(blockers(jobs).subset_of(slot_holders(jobs))) by {
        assert forall|id: u128| blockers(jobs).contains(id) implies slot_holders(jobs).contains(
            id,
        ) by {
            assert(jobs.contains_key(id));
        }
    }
    vstd::set_lib::lemma_len_subset(blockers(jobs), slot_holders(jobs));
}

impl View for JobScheduler {
    type V = SchedulerView;

    closed spec fn view(&self) -> SchedulerView {
        SchedulerView {
            jobs: job_contents(self.jobs),
            queue: self.queue@,
            stage: self.stage,
            cleanup_gate: self.cleanup_gate as nat,
            cleanup_owner: optional_text(self.cleanup_owner),
            active_jobs: self.active_jobs as nat,
            config: *self.config,
        }
    }
}

/// What the dispatcher does next.
pub enum DispatchStep {
    /// Nothing can be done until something else happens.
    Wait,
    /// A step was made; another one may follow at once.
    Continue,
    /// The search message of this job is to be sent.
    Search { id: u128, command: SearchCommand },
}

/// What the end of a dispatch leads to, besides the change of the job.
pub struct DispatchEnd {
    /// The outcome that the caller is to be given now.
    pub reply: Option<SearchOutcome>,
    /// The reason with which the extension is to be told to stop.
    pub send_cancel: Option<String>,
}

/// An answer for the caller of a job.
pub struct Reply {
    pub id: u128,
    pub outcome: SearchOutcome,
}

/// What a cancellation leads to, besides the change of the job.
pub struct Cancellation {
    /// The outcome that the caller is to be given now.
    pub reply: Option<SearchOutcome>,
    /// The reason with which the extension is to be told to stop.
    pub send_cancel: Option<String>,
    /// The job stays until its cleanup is confirmed.
    pub cleanup_pending: bool,
}

impl JobScheduler {
    fn release_cleanup_blocker(&mut self, had_cleanup_blocker: bool)
        requires
            had_cleanup_blocker ==> old(self)@.cleanup_gate > 0,
        ensures
            final(self)@ == (SchedulerView {
                cleanup_gate: if had_cleanup_blocker {
                    (old(self)@.cleanup_gate - 1) as nat
                } else {
                    old(self)@.cleanup_gate
                },
                ..old(self)@
            }),
    {
        if had_cleanup_blocker {
            self.cleanup_gate = self.cleanup_gate - 1;
        }
    }

    fn release_active_permit(&mut self, permit: bool)
        requires
            permit ==> old(self)@.active_jobs > 0,
        ensures
            final(self)@ == (SchedulerView {
                active_jobs: if permit {
                    (old(self)@.active_jobs - 1) as nat
                } else {
                    old(self)@.active_jobs
                },
                ..old(self)@
            }),
    {
        if permit {
            self.active_jobs = self.active_jobs - 1;
        }
    }

    /// Answers the caller of a job with `outcome` and stops what the browser may have started
    /// for it. A job that waits in the queue is gone at once; one that the extension may know of
    /// stays until its cleanup is confirmed.
    pub fn cancel_job(
        &mut self,
        id: u128,
        outcome: SearchOutcome,
        cancel_reason: Option<String>,
    ) -> (result: Cancellation)
        requires
            old(self)@.wf(),
        ensures
            final(self)@.wf(),
            final(self)@ == old(self)@.job_cancelled(id, cancel_reason),
            result == (Cancellation {
                reply: if old(self)@.awaits_answer(id) {
                    Some(outcome)
                } else {
                    None
                },
                send_cancel: if old(self)@.is_searching(id) {
                    cancel_reason
                } else {
                    None
                },
                cleanup_pending: old(self)@.ends(id),
            }),
    {
        let ghost before = self@;
        match remove_job(&mut self.jobs, id) {
            None => {
                assert(before.jobs.remove(id) =~= before.jobs);
                Cancellation { reply: None, send_cancel: None, cleanup_pending: false }
            },
            Some(mut job) => {
                let ghost old_job = job;
                proof {
                    lemma_drop_job(before.jobs, id);
                    lemma_blockers_hold_slots(before.jobs.remove(id));
                }
                match job.request_cancellation(outcome, cancel_reason) {
                    CancellationResult::AlreadyHandled => {
                        let _ = insert_job(&mut self.jobs, id, job);
                        Cancellation { reply: None, send_cancel: None, cleanup_pending: false }
                    },
                    CancellationResult::Finished(ending) => {
                        self.release_cleanup_blocker(ending.had_cleanup_blocker);
                        self.release_active_permit(ending.permit);
                        Cancellation {
                            reply: ending.response,
                            send_cancel: None,
                            cleanup_pending: false,
                        }
                    },
                    CancellationResult::PendingCleanup {
                        response,
                        send_cancel,
                        register_blocker,
                    } => {
                        proof {
                            lemma_replace_job(before.jobs, id, job);
                            assert(before.jobs.insert(id, before.jobs[id]) =~= before.jobs);
                        }
                        if register_blocker {
                            self.cleanup_gate = self.cleanup_gate + 1;
                        }
                        let _ = insert_job(&mut self.jobs, id, job);
                        Cancellation { reply: response, send_cancel, cleanup_pending: true }
                    },
                }
            },
        }
    }

    /// Ends a job because the extension has reported back on it, and returns what its caller is
    /// to be given.
    pub fn finish_with_cleanup(
        &mut self,
        id: u128,
        outcome: Option<SearchOutcome>,
        require_cleanup_wait: bool,
    ) -> (result: Option<SearchOutcome>)
        requires
            old(self)@.wf(),
        ensures
            final(self)@.wf(),
            ({
                let ends = old(self)@.jobs.contains_key(id) && old(self)@.jobs[id].can_finish(
                    outcome is Some,
                    require_cleanup_wait,
                );
                &&& ends ==> {
                    &&& final(self)@ == old(self)@.with_jobs(old(self)@.jobs.remove(id))
                    &&& result == if old(self)@.jobs[id].responded {
                        None
                    } else {
                        outcome
                    }
                }
                &&& !ends ==> final(self)@ == old(self)@ && result is None
            }),
    {
        let ghost before = self@;
        match remove_job(&mut self.jobs, id) {
            None => {
                assert(before.jobs.remove(id) =~= before.jobs);
                None
            },
            Some(mut job) => {
                proof {
                    lemma_drop_job(before.jobs, id);
                }
                match job.finish_after_cleanup(outcome, require_cleanup_wait) {
                    None => {
                        let _ = insert_job(&mut self.jobs, id, job);
                        assert(before.jobs.remove(id).insert(id, before.jobs[id]) =~= before.jobs);
                        None
                    },
                    Some(ending) => {
                        self.release_cleanup_blocker(ending.had_cleanup_blocker);
                        self.release_active_permit(ending.permit);
                        ending.response
                    },
                }
            },
        }
    }

    pub fn new(config: Arc<Config>) -> (result: Self)
        requires
            config.executor.runnable(),
        ensures
            result@ == SchedulerView::empty(*config),
            result@.wf(),
    {
        let result = JobScheduler {
            config,
            jobs: empty_table(),
            queue: VecDeque::new(),
            stage: DispatchStage::Idle,
            cleanup_gate: 0,
            cleanup_owner: None,
            active_jobs: 0,
        };
        proof {
            assert(result@.jobs =~= Map::<u128, PendingJob>::empty());
            assert(blockers(result@.jobs) =~= Set::<u128>::empty());
            assert(slot_holders(result@.jobs) =~= Set::<u128>::empty());
            assert(result@.queue =~= Seq::<u128>::empty());
        }
        result
    }

    /// Accepts a job under a fresh random id, as long as the extension is connected and the queue
    /// has room.
    pub fn enqueue(&mut self, connected: bool, command: SearchCommand) -> (result: Result<
        u128,
        ErrorDetail,
    >)
        requires
            old(self)@.wf(),
        ensures
            result is Ok == (connected && old(self)@.queue.len()
                < old(self)@.config.executor.max_queue_size),
            match result {
                Ok(id) => {
                    &&& is_random_id(id)
                    &&& connected
                    &&& old(self)@.has_room()
                    &&& final(self)@ == old(self)@.enqueued(id, command)
                    &&& !old(self)@.jobs.contains_key(id) ==> final(self)@.wf()
                },
                Err(error) => {
                    &&& final(self)@ == old(self)@
                    &&& if !connected {
                        error.says(ErrorCode::BrowserUnavailable, "Chrome 扩展尚未连接"@, true)
                    } else {
                        &&& !old(self)@.has_room()
                        &&& error.says(ErrorCode::QueueFull, "搜索任务队列已满"@, true)
                    }
                },
            },
    {
        let id: u128 = new_id();
        match self.enqueue_as(id, connected, command) {
            Ok(()) => Ok(id),
            Err(error) => Err(error),
        }
    }

    /// Accepts a job under the given id, as long as the extension is connected and the queue has
    /// room.
    pub fn enqueue_as(&mut self, id: u128, connected: bool, command: SearchCommand) -> (result:
        Result<(), ErrorDetail>)
        requires
            old(self)@.wf(),
        ensures
            result is Ok == (connected && old(self)@.has_room()),
            result is Ok == (connected && old(self)@.queue.len()
                < old(self)@.config.executor.max_queue_size),
            match result {
                Ok(_) => {
                    &&& final(self)@ == old(self)@.enqueued(id, command)
                    &&& !old(self)@.jobs.contains_key(id) ==> final(self)@.wf()
                },
                Err(error) => {
                    &&& final(self)@ == old(self)@
                    &&& if !connected {
                        error.says(ErrorCode::BrowserUnavailable, "Chrome 扩展尚未连接"@, true)
                    } else {
                        error.says(ErrorCode::QueueFull, "搜索任务队列已满"@, true)
                    }
                },
            },
    {
        let ghost before = self@;
        if !connected {
            return Err(ErrorDetail::browser_unavailable("Chrome 扩展尚未连接".to_owned()));
        }
        if self.queue.len() >= self.config.executor.max_queue_size {
            return Err(
                ErrorDetail::new(ErrorCode::QueueFull, "搜索任务队列已满".to_owned(), true),
            );
        }
        let job = PendingJob::new(id, command);
        let ghost added = job;
        let _ = insert_job(&mut self.jobs, id, job);
        self.queue.push_back(id);
        proof {
            if !before.jobs.contains_key(id) {
                lemma_add_job(before.jobs, id, added);
                assert(self@.queue.last() == id);
                assert forall|other: u128| #[trigger]
                    self@.jobs.contains_key(other) && self@.jobs[other].phase
                        == DispatchPhase::Queued implies self@.queue.contains(other) || self@.stage
                    == DispatchStage::AwaitingSlot(other) || self@.stage
                    == DispatchStage::AwaitingCleanup(other) by {
                    if other != id {
                        assert(before.jobs.contains_key(other));
                        if before.queue.contains(other) {
                            let i = before.queue.index_of(other);
                            assert(self@.queue[i] == other);
                        }
                    }
                }
            }
        }
        Ok(())
    }

    /// Makes one step towards the next search: takes the first job of the queue, then a browser
    /// slot, then waits until no cleanup is pending.
    pub fn dispatch_next(&mut self) -> (result: DispatchStep)
        requires
            old(self)@.wf(),
        ensures
            final(self)@.wf(),
            final(self)@ == old(self)@.advanced(),
            match result {
                DispatchStep::Wait => old(self)@.stalled(),
                DispatchStep::Continue => !old(self)@.stalled() && old(self)@.next_search() is None,
                DispatchStep::Search { id, command } => {
                    &&& old(self)@.next_search() == Some(id)
                    &&& command@ == old(self)@.jobs[id].command@
                },
            },
    {
        let ghost before = self@;
        match self.stage {
            DispatchStage::Idle => {
                match self.queue.pop_front() {
                    None => DispatchStep::Wait,
                    Some(id) => {
                        match remove_job(&mut self.jobs, id) {
                            None => {
                                proof {
                                    assert(before.jobs.remove(id) =~= before.jobs);
                                    assert(self@.queue =~= before.queue.drop_first());
                                    lemma_queue_step(before, id, self@);
                                }
                                DispatchStep::Continue
                            },
                            Some(job) => {
                                let _ = insert_job(&mut self.jobs, id, job);
                                self.stage = DispatchStage::AwaitingSlot(id);
                                proof {
                                    assert(before.jobs.remove(id).insert(id, before.jobs[id])
                                        =~= before.jobs);
                                    assert(self@.queue =~= before.queue.drop_first());
                                    lemma_queue_step(before, id, self@);
                                }
                                DispatchStep::Continue
                            },
                        }
                    },
                }
            },
            DispatchStage::AwaitingSlot(id) => {
                if self.active_jobs < self.config.executor.max_concurrency {
                    self.active_jobs = self.active_jobs + 1;
                    self.stage = DispatchStage::AwaitingCleanup(id);
                    DispatchStep::Continue
                } else {
                    DispatchStep::Wait
                }
            },
            DispatchStage::AwaitingCleanup(id) => {
                if self.cleanup_gate != 0 {
                    return DispatchStep::Wait;
                }
                self.stage = DispatchStage::Idle;
                match remove_job(&mut self.jobs, id) {
                    None => {
                        assert(before.jobs.remove(id) =~= before.jobs);
                        self.active_jobs = self.active_jobs - 1;
                        DispatchStep::Continue
                    },
                    Some(mut job) => {
                        proof {
                            lemma_drop_job(before.jobs, id);
                        }
                        let prepared = job.prepare_dispatch();
                        let command = job.command.clone();
                        proof {
                            lemma_replace_job(before.jobs, id, job);
                            if !prepared {
                                assert(before.jobs.insert(id, before.jobs[id]) =~= before.jobs);
                            }
                        }
                        let _ = insert_job(&mut self.jobs, id, job);
                        if !prepared {
                            self.active_jobs = self.active_jobs - 1;
                            return DispatchStep::Continue;
                        }
                        DispatchStep::Search { id, command }
                    },
                }
            },
        }
    }

    /// Records whether the search message of a job was accepted for sending.
    pub fn finish_dispatch(&mut self, id: u128, sent: Result<(), ErrorDetail>) -> (result:
        DispatchEnd)
        requires
            old(self)@.wf(),
            old(self)@.may_be_sending(id),
        ensures
            final(self)@.wf(),
            final(self)@ == if sent is Ok {
                old(self)@.dispatch_accepted(id)
            } else {
                old(self)@.dispatch_refused(id)
            },
            result == (DispatchEnd {
                reply: match sent {
                    Err(error) => if old(self)@.awaits_answer(id) {
                        Some(Err(error))
                    } else {
                        None
                    },
                    Ok(_) => None,
                },
                send_cancel: if sent is Ok && old(self)@.jobs.contains_key(id) {
                    old(self)@.jobs[id].pending_cancel_reason
                } else {
                    None
                },
            }),
    {
        let ghost before = self@;
        match remove_job(&mut self.jobs, id) {
            None => {
                assert(before.jobs.remove(id) =~= before.jobs);
                DispatchEnd { reply: None, send_cancel: None }
            },
            Some(mut job) => {
                proof {
                    lemma_drop_job(before.jobs, id);
                }
                match job.finish_dispatch(sent) {
                    DispatchCompletion::Sent | DispatchCompletion::Skipped => {
                        proof {
                            lemma_replace_job(before.jobs, id, job);
                        }
                        let _ = insert_job(&mut self.jobs, id, job);
                        DispatchEnd { reply: None, send_cancel: None }
                    },
                    DispatchCompletion::SendCancel(reason) => {
                        proof {
                            lemma_replace_job(before.jobs, id, job);
                        }
                        let _ = insert_job(&mut self.jobs, id, job);
                        DispatchEnd { reply: None, send_cancel: reason }
                    },
                    DispatchCompletion::Finished(ending) => {
                        self.release_cleanup_blocker(ending.had_cleanup_blocker);
                        self.release_active_permit(ending.permit);
                        DispatchEnd { reply: ending.response, send_cancel: None }
                    },
                }
            },
        }
    }

    /// Ends a job with the results that the extension found.
    pub fn complete(&mut self, id: u128, results: Vec<SearchResult>) -> (reply: Option<
        SearchOutcome,
    >)
        requires
            old(self)@.wf(),
        ensures
            final(self)@.wf(),
            final(self)@ == old(self)@.job_ended(id),
            reply is Some == (old(self)@.ends(id) && old(self)@.awaits_answer(id)),
            reply is Some ==> {
                &&& reply->0 matches Ok(list)
                &&& list@ == kept_results(results@, old(self)@.jobs[id].command.limit as nat)
            },
    {
        let ghost before = self@;
        match remove_job(&mut self.jobs, id) {
            None => {
                assert(before.jobs.remove(id) =~= before.jobs);
                None
            },
            Some(job) => {
                let limit = job.command.limit;
                let _ = insert_job(&mut self.jobs, id, job);
                assert(before.jobs.remove(id).insert(id, before.jobs[id]) =~= before.jobs);
                let kept = keep_results(results, limit as usize);
                self.finish_with_cleanup(id, Some(Ok(kept)), false)
            },
        }
    }

    /// Ends a job with the error that the extension ran into.
    pub fn extension_error(&mut self, id: u128, error: ErrorDetail) -> (reply: Option<
        SearchOutcome,
    >)
        requires
            old(self)@.wf(),
        ensures
            final(self)@.wf(),
            final(self)@ == old(self)@.job_ended(id),
            reply == if old(self)@.ends(id) && old(self)@.awaits_answer(id) {
                Some(Err::<Vec<SearchResult>, ErrorDetail>(error))
            } else {
                None
            },
    {
        self.finish_with_cleanup(id, Some(Err(error)), false)
    }

    /// Ends a cancelled job because the extension has cleaned up after it.
    pub fn cleanup_complete(&mut self, id: u128)
        requires
            old(self)@.wf(),
        ensures
            final(self)@.wf(),
            final(self)@ == old(self)@.job_cleaned_up(id),
    {
        let _ = self.finish_with_cleanup(id, None, true);
    }

    /// Cancels a job because the extension broke the protocol in a message about it.
    pub fn protocol_error(&mut self, id: u128, error: ErrorDetail) -> (reply: Option<SearchOutcome>)
        requires
            old(self)@.wf(),
        ensures
            final(self)@.wf(),
            final(self)@ == old(self)@.job_cancelled(id, None),
            reply == if old(self)@.awaits_answer(id) {
                Some(Err::<Vec<SearchResult>, ErrorDetail>(error))
            } else {
                None
            },
    {
        self.cancel_job(id, Err(error), None).reply
    }

    /// Cancels a job on request.
    pub fn cancel(&mut self, id: u128, reason: &str) -> (result: Cancellation)
        requires
            old(self)@.wf(),
        ensures
            final(self)@.wf(),
            exists|text: String| #[trigger]
                text@ == reason@ && final(self)@ == old(self)@.job_cancelled(id, Some(text)),
            result.reply is Some == old(self)@.awaits_answer(id),
            result.reply is Some ==> {
                &&& result.reply->0 matches Err(error)
                &&& error.says(ErrorCode::Cancelled, reason@, false)
            },
            optional_text(result.send_cancel) == if old(self)@.is_searching(id) {
                Some(reason@)
            } else {
                None
            },
            result.cleanup_pending == old(self)@.ends(id),
    {
        let text: String = reason.to_owned();
        self.cancel_job(
            id,
            Err(ErrorDetail::new(ErrorCode::Cancelled, reason.to_owned(), false)),
            Some(text),
        )
    }

    /// Cancels a job because its time is up.
    pub fn timeout_job(&mut self, id: u128) -> (result: Cancellation)
        requires
            old(self)@.wf(),
        ensures
            final(self)@.wf(),
            exists|text: String| #[trigger]
                text@ == "timeout"@ && final(self)@ == old(self)@.job_cancelled(id, Some(text)),
            result.reply is Some == old(self)@.awaits_answer(id),
            result.reply is Some ==> {
                &&& result.reply->0 matches Err(error)
                &&& error.says(ErrorCode::Timeout, "搜索任务超时"@, true)
            },
            optional_text(result.send_cancel) == if old(self)@.is_searching(id) {
                Some("timeout"@)
            } else {
                None
            },
            result.cleanup_pending == old(self)@.ends(id),
    {
        let text: String = "timeout".to_owned();
        self.cancel_job(id, Err(ErrorDetail::timeout("搜索任务超时".to_owned())), Some(text))
    }

    /// The browser instance that has to come back and clean up, if there is one.
    pub fn required_cleanup_instance(&self) -> (result: Option<String>)
        ensures
            optional_text(result) == self@.cleanup_owner,
    {
        self.cleanup_owner.clone()
    }

    /// Takes note that the extension is gone, and returns what the callers of its jobs are to be
    /// given. The order of the answers is left open.
    pub fn handle_disconnect(&mut self, browser_instance_id: &str) -> (replies: Vec<Reply>)
        requires
            old(self)@.wf(),
        ensures
            final(self)@.wf(),
            final(self)@ == old(self)@.disconnected(browser_instance_id@),
            reply_ids(replies@).no_duplicates(),
            forall|id: u128| #[trigger]
                reply_ids(replies@).contains(id) <==> old(self)@.awaits_answer(id),
            forall|i: int|
                0 <= i < replies@.len() ==> {
                    &&& (#[trigger] replies@[i]).outcome matches Err(error)
                    &&& error.says(ErrorCode::BrowserUnavailable, "Chrome 扩展连接已断开"@, true)
                },
    {
        let ghost before = self@;
        let ids = job_ids(&self.jobs);
        let mut cleanup_pending = false;
        let mut replies: Vec<Reply> = Vec::new();
        let mut i: usize = 0;
        proof {
            assert(before.with_jobs(before.jobs) == before);
            assert(jobs_after_disconnect(before.jobs, ids@.take(0).to_set()) =~= before.jobs);
        }
        while i < ids.len()
            invariant
                i <= ids@.len(),
                before.wf(),
                ids@.no_duplicates(),
                ids@.to_set() == before.jobs.dom(),
                self@.wf(),
                self@ == before.with_jobs(
                    jobs_after_disconnect(before.jobs, ids@.take(i as int).to_set()),
                ),
                cleanup_pending == exists|k: int|
                    0 <= k < i && before.jobs[#[trigger] ids@[k]].phase != DispatchPhase::Queued,
                reply_ids(replies@).no_duplicates(),
                forall|id: u128| #[trigger]
                    reply_ids(replies@).contains(id) <==> ids@.take(i as int).contains(id)
                        && !before.jobs[id].responded,
                forall|k: int|
                    0 <= k < replies@.len() ==> {
                        &&& (#[trigger] replies@[k]).outcome matches Err(error)
                        &&& error.says(
                            ErrorCode::BrowserUnavailable,
                            "Chrome 扩展连接已断开"@,
                            true,
                        )
                    },
            decreases ids@.len() - i,
        {
            let id = ids[i];
            let ghost done = ids@.take(i as int).to_set();
            let ghost sent = replies@;
            proof {
                assert(ids@.contains(id));
                assert(before.jobs.dom().contains(id));
                assert(!ids@.take(i as int).contains(id));
                assert(ids@.take(i + 1) =~= ids@.take(i as int).push(id));
                assert(ids@.take(i + 1).to_set() =~= done.insert(id)) by {
                    lemma_contains_push(ids@.take(i as int), id);
                }
            }
            let outcome: SearchOutcome = Err(
                ErrorDetail::browser_unavailable("Chrome 扩展连接已断开".to_owned()),
            );
            let cancelled = self.cancel_job(id, outcome, None);
            cleanup_pending = cleanup_pending || cancelled.cleanup_pending;
            proof {
                let next = jobs_after_disconnect(before.jobs, done.insert(id));
                let job = before.jobs[id];
                if job.responded {
                    assert(next =~= jobs_after_disconnect(before.jobs, done));
                } else if job.phase == DispatchPhase::Queued {
                    assert(next =~= jobs_after_disconnect(before.jobs, done).remove(id));
                } else {
                    assert(next =~= jobs_after_disconnect(before.jobs, done).insert(
                        id,
                        job.cancelled(None),
                    ));
                }
            }
            match cancelled.reply {
                Some(outcome) => {
                    replies.push(Reply { id, outcome });
                },
                None => {},
            }
            proof {
                if !before.jobs[id].responded {
                    assert(reply_ids(replies@) =~= reply_ids(sent).push(id));
                    lemma_contains_push(reply_ids(sent), id);
                    assert(!reply_ids(sent).contains(id));
                    assert forall|k: int, l: int|
                        0 <= k < l < reply_ids(replies@).len() implies reply_ids(replies@)[k]
                        != reply_ids(replies@)[l] by {
                        assert(reply_ids(sent).contains(reply_ids(sent)[k]));
                    }
                }
                lemma_contains_push(ids@.take(i as int), id);
                assert(ids@[i as int] == id);
            }
            i += 1;
        }
        proof {
            assert(ids@.take(ids@.len() as int) =~= ids@);
            if cleanup_pending {
                let k = choose|k: int|
                    0 <= k < i && before.jobs[#[trigger] ids@[k]].phase != DispatchPhase::Queued;
                assert(ids@.to_set().contains(ids@[k]));
                assert(before.jobs.contains_key(ids@[k]));
            } else {
                assert forall|id: u128| #[trigger] before.jobs.contains_key(id) implies !(
                before.jobs[id].phase != DispatchPhase::Queued) by {
                    assert(ids@.to_set().contains(id));
                    let k = ids@.index_of(id);
                    assert(ids@[k] == id);
                }
            }
            assert forall|id: u128| #[trigger]
                reply_ids(replies@).contains(id) <==> before.awaits_answer(id) by {
                assert(ids@.to_set().contains(id) == ids@.contains(id));
            }
        }
        self.cleanup_owner = if cleanup_pending {
            Some(browser_instance_id.to_owned())
        } else {
            None
        };
        replies
    }

    /// Takes note that an extension has connected. The instance that owed the cleanup is taken to
    /// have done it.
    pub fn handle_reconnect(&mut self, browser_instance_id: &str)
        requires
            old(self)@.wf(),
        ensures
            final(self)@.wf(),
            final(self)@ == old(self)@.reconnected(browser_instance_id@),
    {
        let ghost before = self@;
        let owner_matches = match &self.cleanup_owner {
            Some(owner) => same_text(owner.as_str(), browser_instance_id),
            None => false,
        };
        if !owner_matches {
            return;
        }
        let ids = job_ids(&self.jobs);
        let mut i: usize = 0;
        proof {
            assert(before.with_jobs(before.jobs) == before);
            assert(jobs_after_reconnect(before.jobs, ids@.take(0).to_set()) =~= before.jobs);
        }
        while i < ids.len()
            invariant
                i <= ids@.len(),
                before.wf(),
                ids@.no_duplicates(),
                ids@.to_set() == before.jobs.dom(),
                self@.wf(),
                self@ == before.with_jobs(
                    jobs_after_reconnect(before.jobs, ids@.take(i as int).to_set()),
                ),
            decreases ids@.len() - i,
        {
            let id = ids[i];
            let ghost done = ids@.take(i as int).to_set();
            proof {
                assert(ids@.contains(id));
                assert(before.jobs.dom().contains(id));
                assert(ids@.take(i + 1) =~= ids@.take(i as int).push(id));
                assert(ids@.take(i + 1).to_set() =~= done.insert(id)) by {
                    lemma_contains_push(ids@.take(i as int), id);
                }
                assert(!done.contains(id));
            }
            let _ = self.finish_with_cleanup(id, None, true);
            proof {
                let next = jobs_after_reconnect(before.jobs, done.insert(id));
                if before.jobs[id].cleanup_pending() {
                    assert(next =~= jobs_after_reconnect(before.jobs, done).remove(id));
                } else {
                    assert(next =~= jobs_after_reconnect(before.jobs, done));
                }
            }
            i += 1;
        }
        proof {
            assert(ids@.take(ids@.len() as int) =~= ids@);
        }
        self.cleanup_owner = None;
    }

    /// How many browser slots are taken.
    pub fn active_jobs(&self) -> (result: usize)
        ensures
            result == self@.active_jobs,
    {
        self.active_jobs
    }

    /// How many jobs wait in the queue.
    pub fn queued_jobs(&self) -> (result: usize)
        ensures
            result == self@.queue.len(),
    {
        self.queue.len()
    }

    /// How many browser slots there are.
    pub fn max_concurrency(&self) -> (result: usize)
        ensures
            result == self@.max_concurrency(),
    {
        self.config.executor.max_concurrency
    }
}

/// Keeps the results that have at least one field, up to `limit`.
pub fn keep_results(results: Vec<SearchResult>, limit: usize) -> (kept: Vec<SearchResult>)
    ensures
        kept@ == kept_results(results@, limit as nat),
{
    let mut kept: Vec<SearchResult> = Vec::new();
    let ghost filled = |result: SearchResult| result@.len() > 0;
    let ghost all = results@;
    proof {
        assert(all.take(0).filter(filled) =~= Seq::<SearchResult>::empty()) by {
            reveal(Seq::filter);
        }
    }
    for result in iter: results
        invariant
            iter.seq() == all,
            filled == (|result: SearchResult| result@.len() > 0),
            kept@ == kept_results(all.take(iter.index() as int), limit as nat),
    {
        proof {
            let i = iter.index() as int;
            assert(all.take(i + 1) =~= all.take(i).push(result));
            assert(all.take(i + 1).drop_last() =~= all.take(i));
            reveal(Seq::filter);
        }
        if !result.is_empty() && kept.len() < limit {
            kept.push(result);
        }
    }
    assert(all.take(all.len() as int) =~= all);
    kept
}

proof fn lemma_contains_push(s: Seq<u128>, last: u128)
    ensures
        forall|id: u128| #[trigger] s.push(last).contains(id) <==> s.contains(id) || id == last,
{
    assert forall|id: u128| #[trigger]
        s.push(last).contains(id) <==> s.contains(id) || id == last by {
        if s.contains(id) {
            let i = s.index_of(id);
            assert(s.push(last)[i] == id);
        }
        if id == last {
            assert(s.push(last)[s.len() as int] == id);
        }
        if s.push(last).contains(id) {
            let i = s.push(last).index_of(id);
            if i < s.len() {
                assert(s[i] == id);
            }
        }
    }
}

/// Taking the first id off the queue forgets no waiting job, as long as the dispatcher holds on
/// to it.
pub(crate) proof fn lemma_queue_step(before: SchedulerView, id: u128, after: SchedulerView)
    requires
        before.wf(),
        before.stage is Idle,
        before.queue.len() > 0,
        before.queue[0] == id,
        after == (SchedulerView {
            queue: before.queue.drop_first(),
            stage: if before.jobs.contains_key(id) {
                DispatchStage::AwaitingSlot(id)
            } else {
                DispatchStage::Idle
            },
            ..before
        }),
    ensures
        after.wf(),
{
    assert forall|other: u128| #[trigger]
        after.jobs.contains_key(other) && after.jobs[other].phase
            == DispatchPhase::Queued implies after.queue.contains(other) || after.stage
        == DispatchStage::AwaitingSlot(other) || after.stage == DispatchStage::AwaitingCleanup(
        other,
    ) by {
        assert(before.queue.contains(other));
        if other != id {
            let i = before.queue.index_of(other);
            assert(after.queue[i - 1] == other);
        }
    }
}

/// The cleanup count is zero exactly when no job owes its cleanup.
pub proof fn nothing_is_counted_iff_nothing_is_to_be_cleaned_up(state: SchedulerView)
    requires
        state.wf(),
    ensures
        state.cleanup_gate == 0 <==> forall|id: u128| #[trigger]
            state.jobs.contains_key(id) ==> !state.jobs[id].cleanup_pending(),
{
    state.jobs.dom().lemma_len_filter(|id: u128| state.jobs[id].cleanup_blocker_registered);
    if state.cleanup_gate == 0 {
        assert forall|id: u128| #[trigger]
            state.jobs.contains_key(id) implies !state.jobs[id].cleanup_pending() by {
            assert(!blockers(state.jobs).contains(id));
        }
    } else {
        let id = blockers(state.jobs).choose();
        assert(blockers(state.jobs).contains(id));
        assert(state.jobs.contains_key(id));
    }
}

/// No search is sent while a job owes its cleanup.
pub proof fn nothing_is_sent_before_the_cleanup(state: SchedulerView, id: u128)
    requires
        state.wf(),
        state.jobs.contains_key(id),
        state.jobs[id].cleanup_pending(),
    ensures
        state.next_search() is None,
{
    nothing_is_counted_iff_nothing_is_to_be_cleaned_up(state);
}

/// There are never more jobs with the browser than it has slots.
pub proof fn the_browser_is_never_overloaded(state: SchedulerView)
    requires
        state.wf(),
    ensures
        state.jobs.dom().filter(
            |id: u128| state.jobs[id].phase != DispatchPhase::Queued,
        ).len() <= state.max_concurrency(),
{
    assert(state.jobs.dom().filter(|id: u128| state.jobs[id].phase != DispatchPhase::Queued)
        =~= slot_holders(state.jobs)) by {
        assert forall|id: u128| state.jobs.contains_key(id) implies (state.jobs[id].phase
            != DispatchPhase::Queued) == state.jobs[id].permit by {}
    }
}

/// Jobs are served in turn: when a slot is free and nothing is to be cleaned up, three steps of an
/// idle dispatcher send the search of the first job in the queue.
pub proof fn the_first_job_in_the_queue_is_sent(state: SchedulerView)
    requires
        state.wf(),
        state.stage == DispatchStage::Idle,
        state.queue.len() > 0,
        state.jobs.contains_key(state.queue[0]),
        state.jobs[state.queue[0]].phase == DispatchPhase::Queued,
        state.active_jobs < state.max_concurrency(),
        state.cleanup_gate == 0,
    ensures
        !state.stalled(),
        !state.advanced().stalled(),
        !state.advanced().advanced().stalled(),
        state.advanced().advanced().next_search() == Some(state.queue[0]),
{
}

/// After a disconnect every caller has its answer, and nothing is left but jobs that owe their
/// cleanup.
pub proof fn a_disconnect_answers_everyone(state: SchedulerView, browser_instance_id: Seq<char>)
    requires
        state.wf(),
    ensures
        forall|id: u128| #[trigger]
            state.disconnected(browser_instance_id).jobs.contains_key(id) ==> state.disconnected(
                browser_instance_id,
            ).jobs[id].responded && state.disconnected(
                browser_instance_id,
            ).jobs[id].cleanup_pending(),
        state.disconnected(browser_instance_id).jobs.dom().len() > 0 ==> state.disconnected(
            browser_instance_id,
        ).cleanup_owner == Some(browser_instance_id),
{
    let after = state.disconnected(browser_instance_id);
    assert forall|id: u128| #[trigger] after.jobs.contains_key(id) implies after.jobs[id].responded
        && after.jobs[id].cleanup_pending() by {
        assert(state.jobs.contains_key(id));
    }
    if after.jobs.dom().len() > 0 {
        assert(after.jobs.dom().subset_of(state.jobs.dom()));
        let id = after.jobs.dom().choose();
        assert(after.jobs.contains_key(id));
        assert(state.jobs.contains_key(id));
    }
}

/// Until the instance that went away is back, another instance changes nothing; once it is back,
/// nothing is left to clean up and the slots are free again.
pub proof fn the_same_instance_comes_back(
    state: SchedulerView,
    browser_instance_id: Seq<char>,
    other: Seq<char>,
)
    requires
        state.wf(),
        other != browser_instance_id,
    ensures
        state.disconnected(browser_instance_id).reconnected(other) == state.disconnected(
            browser_instance_id,
        ),
        ({
            let back = state.disconnected(browser_instance_id).reconnected(browser_instance_id);
            &&& back.jobs == Map::<u128, PendingJob>::empty()
            &&& back.cleanup_gate == 0
            &&& back.active_jobs == reserved(state.stage)
            &&& back.cleanup_owner is None
        }),
{
    let away = state.disconnected(browser_instance_id);
    let back = away.reconnected(browser_instance_id);
    a_disconnect_answers_everyone(state, browser_instance_id);
    assert forall|id: u128| !back.jobs.contains_key(id) by {
        if away.jobs.contains_key(id) {
            assert(state.jobs.contains_key(id));
        }
    }
    assert(back.jobs =~= Map::<u128, PendingJob>::empty());
    assert(blockers(back.jobs) =~= Set::<u128>::empty());
    assert(slot_holders(back.jobs) =~= Set::<u128>::empty());
}

/// A search that is sent and completed answers its caller and gives back its slot.
pub proof fn completed_searches_leave_no_trace(state: SchedulerView, id: u128)
    requires
        state.wf(),
        state.next_search() == Some(id),
    ensures
        state.search_sent(id).is_searching(id),
        state.search_sent(id).ends(id),
        state.search_sent(id).active_jobs == state.active_jobs,
        state.search_sent(id).job_ended(id).jobs == state.jobs.remove(id),
        state.search_sent(id).job_ended(id).active_jobs == state.active_jobs - 1,
        state.search_sent(id).job_ended(id).cleanup_gate == state.cleanup_gate,
{
    let sent = state.search_sent(id);
    let job = state.jobs[id].dispatching().dispatched();
    lemma_drop_job(state.jobs, id);
    lemma_replace_job(state.jobs, id, job);
    assert(sent.jobs.remove(id) =~= state.jobs.remove(id));
}

/// A search that is cancelled blocks others and answers nobody twice, until the extension reports
/// its cleanup or, too late, its end. Then it leaves no trace.
pub proof fn cancelled_searches_leave_no_trace_once_reported(
    state: SchedulerView,
    id: u128,
    reason: Option<String>,
)
    requires
        state.wf(),
        state.is_searching(id),
    ensures
        !state.job_cancelled(id, reason).awaits_answer(id),
        state.job_cancelled(id, reason).cleanup_gate == state.cleanup_gate + 1,
        state.job_cancelled(id, reason).next_search() is None,
        state.job_cancelled(id, reason).job_cleaned_up(id) == state.with_jobs(
            state.jobs.remove(id),
        ),
        state.job_cancelled(id, reason).job_ended(id) == state.with_jobs(state.jobs.remove(id)),
{
    let job = state.jobs[id].cancelled(reason);
    let cancelled = state.job_cancelled(id, reason);
    lemma_drop_job(state.jobs, id);
    lemma_replace_job(state.jobs, id, job);
    assert(cancelled.jobs.remove(id) =~= state.jobs.remove(id));
}

/// Results that are handed on have fields, and are no more than were asked for.
pub proof fn kept_results_are_filled_and_few(results: Seq<SearchResult>, limit: nat, i: int)
    requires
        0 <= i < kept_results(results, limit).len(),
    ensures
        kept_results(results, limit).len() <= limit,
        kept_results(results, limit)[i]@.len() > 0,
        results.contains(kept_results(results, limit)[i]),
{
    let filled = |result: SearchResult| result@.len() > 0;
    results.lemma_filter_pred(filled, i);
    assert(results.filter(filled).contains(results.filter(filled)[i]));
    results.lemma_filter_contains_rev(filled, results.filter(filled)[i]);
}

} // verus!
