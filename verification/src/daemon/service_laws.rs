//! What is promised of jobs, the scheduler, the bridge and its messages, said of inputs and results
//! alone.
use vstd::prelude::*;

use crate::daemon::bridge::{
    cancel_attempted, is_cancel, is_pong, is_search, message_attempted, pong_attempted,
    search_attempted, HubView,
};
use crate::daemon::config::Config;
use crate::daemon::error::{ErrorCode, ErrorDetail};
use crate::daemon::jobs::{
    kept_results, lemma_drop_job, lemma_replace_job, reply_ids, DispatchStage, Reply,
    SchedulerView,
};
use crate::daemon::messages::{InboundEnvelope, OutboundMessage};
use crate::daemon::model::{CommandView, HelloPayload, SearchCommand, SearchResult};
use crate::daemon::pending_job::{
    CancellationResult, DispatchCompletion, JobEnding, PendingJob, SearchOutcome,
};
use crate::daemon::scheduler_runs::{is_run, run, runs_keep_the_scheduler_in_order, SchedulerEvent};
use crate::daemon::session::{hello_fault, is_notice, message_fault, request_of, Request};
use crate::daemon::state::{is_final_report, request_id_of, Received, StateView};

verus! {

/// A job is accepted exactly as long as fewer jobs wait than the queue has places, whatever else
/// goes on. It then waits behind all others, and nothing else changes.
pub proof fn jobs_are_accepted_while_places_are_free(
    state: SchedulerView,
    id: u128,
    command: SearchCommand,
    other: u128,
)
    ensures
        state.has_room() <==> state.queue.len() < state.config.executor.max_queue_size,
        ({
            let after = state.enqueued(id, command);
            &&& after.queue.len() == state.queue.len() + 1
            &&& after.queue[state.queue.len() as int] == id
            &&& forall|i: int|
                0 <= i < state.queue.len() ==> #[trigger] after.queue[i] == state.queue[i]
            &&& after.jobs.contains_key(id)
            &&& after.jobs[id].id == id
            &&& after.jobs[id].command == command
            &&& after.jobs[id].phase is Queued
            &&& !after.jobs[id].permit && !after.jobs[id].responded && !after.jobs[id].finalized
            &&& !after.jobs[id].cancel_requested && !after.jobs[id].awaiting_cleanup
            &&& !after.jobs[id].cleanup_blocker_registered
            &&& after.jobs[id].pending_cancel_reason is None
            &&& other != id ==> after.jobs.contains_key(other) == state.jobs.contains_key(other)
                && after.jobs[other] == state.jobs[other]
            &&& after.stage == state.stage
            &&& after.cleanup_gate == state.cleanup_gate
            &&& after.cleanup_owner == state.cleanup_owner
            &&& after.active_jobs == state.active_jobs
            &&& after.config == state.config
        }),
{
}

/// In every state that the scheduler can get into, another job is accepted exactly if fewer jobs
/// wait than the queue has places and the id is not in use.
pub proof fn the_queue_takes_jobs_in_every_state(
    config: Config,
    events: Seq<SchedulerEvent>,
    id: u128,
    command: SearchCommand,
)
    requires
        is_run(SchedulerView::empty(config), events),
    ensures
        ({
            let state = run(SchedulerView::empty(config), events);
            &&& state.has_room() <==> state.queue.len() < config.executor.max_queue_size
            &&& state.possible(SchedulerEvent::Enqueue { id, command }) <==> state.queue.len()
                < config.executor.max_queue_size && !state.jobs.contains_key(id)
        }),
{
    runs_keep_the_scheduler_in_order(config, events);
}

/// A scheduler starts without jobs.
pub proof fn schedulers_start_empty(config: Config, id: u128)
    ensures
        ({
            let state = SchedulerView::empty(config);
            &&& !state.jobs.contains_key(id)
            &&& state.queue.len() == 0
            &&& state.stage is Idle
            &&& state.cleanup_gate == 0
            &&& state.cleanup_owner is None
            &&& state.active_jobs == 0
            &&& state.config == config
        }),
{
}

/// An idle dispatcher takes the first job off the queue, and waits only for one.
pub proof fn an_idle_dispatcher_takes_the_first_job(state: SchedulerView)
    requires
        state.stage is Idle,
    ensures
        state.stalled() <==> state.queue.len() == 0,
        state.next_search() is None,
        state.queue.len() == 0 ==> state.advanced() == state,
        state.queue.len() > 0 ==> {
            let after = state.advanced();
            &&& after.queue.len() == state.queue.len() - 1
            &&& forall|i: int|
                0 <= i < after.queue.len() ==> #[trigger] after.queue[i] == state.queue[i + 1]
            &&& state.jobs.contains_key(state.queue[0]) ==> after.stage
                == DispatchStage::AwaitingSlot(state.queue[0])
            &&& !state.jobs.contains_key(state.queue[0]) ==> after.stage is Idle
            &&& after.jobs == state.jobs
            &&& after.active_jobs == state.active_jobs
            &&& after.cleanup_gate == state.cleanup_gate
            &&& after.cleanup_owner == state.cleanup_owner
            &&& after.config == state.config
        },
{
}

/// A dispatcher with a job takes a slot for it as soon as one is free.
pub proof fn a_dispatcher_takes_a_free_slot(state: SchedulerView, id: u128)
    requires
        state.wf(),
        state.stage == DispatchStage::AwaitingSlot(id),
    ensures
        state.stalled() <==> state.active_jobs >= state.config.executor.max_concurrency,
        state.next_search() is None,
        state.active_jobs >= state.config.executor.max_concurrency ==> state.advanced() == state,
        state.active_jobs < state.config.executor.max_concurrency ==> {
            let after = state.advanced();
            &&& after.stage == DispatchStage::AwaitingCleanup(id)
            &&& after.active_jobs == state.active_jobs + 1
            &&& after.jobs == state.jobs
            &&& after.queue == state.queue
            &&& after.cleanup_gate == state.cleanup_gate
            &&& after.cleanup_owner == state.cleanup_owner
            &&& after.config == state.config
        },
{
}

/// A dispatcher with a job and a slot sends the search as soon as nothing is to be cleaned up. A
/// job that is gone by then only gives the slot back.
pub proof fn a_dispatcher_sends_once_all_is_clean(state: SchedulerView, id: u128, other: u128)
    requires
        state.wf(),
        state.stage == DispatchStage::AwaitingCleanup(id),
        other != id,
    ensures
        state.stalled() <==> state.cleanup_gate > 0,
        state.cleanup_gate > 0 ==> state.advanced() == state && state.next_search() is None,
        state.cleanup_gate == 0 ==> state.advanced().stage is Idle && state.advanced().queue
            == state.queue && state.advanced().cleanup_owner == state.cleanup_owner
            && state.advanced().config == state.config,
        state.cleanup_gate == 0 && state.jobs.contains_key(id) && state.jobs[id].phase is Queued
            ==> {
            let after = state.advanced();
            &&& state.next_search() == Some(id)
            &&& after.jobs.contains_key(id)
            &&& after.jobs[id].phase is Dispatching
            &&& after.jobs[id].permit
            &&& after.jobs[id].id == id
            &&& after.jobs[id].command == state.jobs[id].command
            &&& after.jobs[id].responded == state.jobs[id].responded
            &&& after.jobs.contains_key(other) == state.jobs.contains_key(other)
            &&& after.jobs[other] == state.jobs[other]
            &&& after.active_jobs == state.active_jobs
            &&& after.cleanup_gate == 0
        },
        state.cleanup_gate == 0 && !state.jobs.contains_key(id) ==> {
            &&& state.next_search() is None
            &&& state.advanced().jobs == state.jobs
            &&& state.advanced().active_jobs == state.active_jobs - 1
        },
{
    if state.jobs.contains_key(id) {
        lemma_drop_job(state.jobs, id);
        lemma_replace_job(state.jobs, id, state.jobs[id].dispatching());
    }
}

/// What is asked of a job: whether its caller waits for an answer, whether the extension works on
/// it, whether a report of the extension ends it, and whether its message may be under way.
pub proof fn what_is_asked_of_jobs(state: SchedulerView, id: u128, job: PendingJob)
    ensures
        state.awaits_answer(id) <==> state.jobs.contains_key(id) && !state.jobs[id].responded,
        state.is_searching(id) <==> state.jobs.contains_key(id) && !state.jobs[id].responded
            && state.jobs[id].phase is Dispatched,
        state.ends(id) <==> state.jobs.contains_key(id) && !(state.jobs[id].phase is Queued),
        state.may_be_sending(id) <==> (state.jobs.contains_key(id)
            ==> state.jobs[id].phase is Dispatching),
        job.cleanup_pending() <==> job.cancel_requested || job.awaiting_cleanup,
        job.dispatchable() <==> !job.responded && !job.finalized && job.phase is Queued,
        state.max_concurrency() == state.config.executor.max_concurrency,
        state.max_queue_size() == state.config.executor.max_queue_size,
{
}

/// A scheduler that is in order has as many slots taken as jobs and the dispatcher hold, counts one
/// pending cleanup for each cancelled job, and keeps within its limits.
pub proof fn what_order_means(state: SchedulerView, id: u128)
    requires
        state.wf(),
    ensures
        state.active_jobs <= state.config.executor.max_concurrency,
        state.queue.len() <= state.config.executor.max_queue_size,
        state.active_jobs == state.jobs.dom().filter(|id: u128| state.jobs[id].permit).len() + (
        if state.stage is AwaitingCleanup {
            1nat
        } else {
            0nat
        }),
        state.cleanup_gate == state.jobs.dom().filter(
            |id: u128| state.jobs[id].cleanup_blocker_registered,
        ).len(),
        state.jobs.contains_key(id) ==> {
            let job = state.jobs[id];
            &&& job.id == id
            &&& !job.finalized
            &&& job.permit <==> !(job.phase is Queued)
            &&& job.responded <==> job.cancel_requested || job.awaiting_cleanup
            &&& job.responded <==> job.cleanup_blocker_registered
            &&& job.phase is Queued ==> !job.responded
        },
        state.jobs.contains_key(id) && state.jobs[id].phase is Queued ==> state.queue.contains(id)
            || state.stage == DispatchStage::AwaitingSlot(id) || state.stage
            == DispatchStage::AwaitingCleanup(id),
{
}

/// Cancelling a job whose caller waits: in the queue it is gone at once, and else it stays,
/// answered, until its cleanup. Any other cancellation changes nothing, and no other job is touched.
pub proof fn cancelling_touches_one_job(
    state: SchedulerView,
    id: u128,
    reason: Option<String>,
    other: u128,
)
    requires
        state.wf(),
        other != id,
    ensures
        ({
            let after = state.job_cancelled(id, reason);
            let waits = state.jobs.contains_key(id) && !state.jobs[id].responded;
            &&& !waits ==> after == state
            &&& after.jobs.contains_key(other) == state.jobs.contains_key(other)
            &&& state.jobs.contains_key(other) ==> after.jobs[other] == state.jobs[other]
            &&& after.queue == state.queue && after.stage == state.stage
            &&& after.cleanup_owner == state.cleanup_owner && after.config == state.config
            &&& waits && state.jobs[id].phase is Queued ==> {
                &&& !after.jobs.contains_key(id)
                &&& after.active_jobs == state.active_jobs
                &&& after.cleanup_gate == state.cleanup_gate
            }
            &&& waits && !(state.jobs[id].phase is Queued) ==> {
                let job = after.jobs[id];
                &&& after.jobs.contains_key(id)
                &&& job.responded
                &&& job.cancel_requested || job.awaiting_cleanup
                &&& job.command == state.jobs[id].command
                &&& job.phase == state.jobs[id].phase
                &&& job.permit == state.jobs[id].permit
                &&& job.phase is Dispatching ==> job.pending_cancel_reason == reason
                &&& after.active_jobs == state.active_jobs
                &&& after.cleanup_gate == state.cleanup_gate + 1
            }
        }),
{
    if state.jobs.contains_key(id) {
        lemma_drop_job(state.jobs, id);
        lemma_replace_job(state.jobs, id, state.jobs[id].cancelled(reason));
    }
}

/// A report that ends a job, a confirmed cleanup and a message that could not be sent take the job
/// away with its slot and its blocker. They change nothing where they do not apply, and touch no
/// other job.
pub proof fn reports_take_one_job_away(state: SchedulerView, id: u128, other: u128)
    requires
        state.wf(),
        other != id,
    ensures
        ({
            let known = state.jobs.contains_key(id);
            let ended = state.job_ended(id);
            let cleaned = state.job_cleaned_up(id);
            let refused = state.dispatch_refused(id);
            &&& known && !(state.jobs[id].phase is Queued) ==> is_without(state, id, ended)
            &&& !known || state.jobs[id].phase is Queued ==> ended == state
            &&& known && state.jobs[id].responded ==> is_without(state, id, cleaned)
            &&& !known || !state.jobs[id].responded ==> cleaned == state
            &&& known ==> is_without(state, id, refused)
            &&& !known ==> refused == state
            &&& forall|after: SchedulerView| #[trigger]
                is_without(state, id, after) ==> {
                    &&& !after.jobs.contains_key(id)
                    &&& after.jobs.contains_key(other) == state.jobs.contains_key(other)
                    &&& state.jobs.contains_key(other) ==> after.jobs[other] == state.jobs[other]
                    &&& after.queue == state.queue && after.stage == state.stage
                    &&& after.cleanup_owner == state.cleanup_owner && after.config == state.config
                    &&& after.active_jobs == state.active_jobs - (if state.jobs[id].permit {
                        1int
                    } else {
                        0int
                    })
                    &&& after.cleanup_gate == state.cleanup_gate - (if state.jobs[id].responded {
                        1int
                    } else {
                        0int
                    })
                }
        }),
{
    if state.jobs.contains_key(id) {
        lemma_drop_job(state.jobs, id);
    }
}

/// Whether `after` is `state` without a job, its slot and its blocker.
pub open spec fn is_without(state: SchedulerView, id: u128, after: SchedulerView) -> bool {
    &&& after.jobs == state.jobs.remove(id)
    &&& after.queue == state.queue && after.stage == state.stage
    &&& after.cleanup_owner == state.cleanup_owner && after.config == state.config
    &&& after.active_jobs == state.active_jobs - (if state.jobs[id].permit {
        1int
    } else {
        0int
    })
    &&& after.cleanup_gate == state.cleanup_gate - (if state.jobs[id].responded {
        1int
    } else {
        0int
    })
}

/// An accepted message makes the job one that the extension works on. One that was cancelled
/// meanwhile owes its cleanup.
pub proof fn accepted_messages_are_with_the_extension(state: SchedulerView, id: u128, other: u128)
    requires
        state.wf(),
        other != id,
    ensures
        ({
            let after = state.dispatch_accepted(id);
            &&& !state.jobs.contains_key(id) ==> after == state
            &&& state.jobs.contains_key(id) ==> {
                &&& after.jobs.contains_key(id)
                &&& after.jobs[id].phase is Dispatched
                &&& after.jobs[id].command == state.jobs[id].command
                &&& after.jobs[id].responded == state.jobs[id].responded
                &&& after.jobs[id].permit == state.jobs[id].permit
                &&& state.jobs[id].cancel_requested ==> after.jobs[id].awaiting_cleanup
                &&& after.jobs.contains_key(other) == state.jobs.contains_key(other)
                &&& state.jobs.contains_key(other) ==> after.jobs[other] == state.jobs[other]
                &&& after.active_jobs == state.active_jobs
                &&& after.cleanup_gate == state.cleanup_gate
            }
            &&& after.queue == state.queue && after.stage == state.stage
            &&& after.cleanup_owner == state.cleanup_owner && after.config == state.config
        }),
{
    if state.jobs.contains_key(id) {
        lemma_drop_job(state.jobs, id);
        lemma_replace_job(state.jobs, id, state.jobs[id].dispatched());
    }
}

/// When the extension goes away, jobs that only waited are gone, and all others stay with their
/// callers answered. When the instance that owes the cleanup comes back, those that owed theirs are
/// gone; any other instance changes nothing.
pub proof fn disconnects_and_reconnects_touch_jobs_so(
    state: SchedulerView,
    instance: Seq<char>,
    id: u128,
)
    requires
        state.wf(),
    ensures
        ({
            let away = state.disconnected(instance);
            &&& away.jobs.contains_key(id) <==> state.jobs.contains_key(id)
                && !(state.jobs[id].phase is Queued)
            &&& away.jobs.contains_key(id) ==> away.jobs[id].responded && away.jobs[id].command
                == state.jobs[id].command && away.jobs[id].phase == state.jobs[id].phase
            &&& away.jobs.contains_key(id) && state.jobs[id].responded ==> away.jobs[id]
                == state.jobs[id]
            &&& away.jobs.contains_key(id) ==> away.cleanup_owner == Some(instance)
            &&& away.cleanup_owner is None || away.cleanup_owner == Some(instance)
            &&& away.queue == state.queue && away.stage == state.stage && away.config
                == state.config
        }),
        ({
            let back = state.reconnected(instance);
            &&& state.cleanup_owner != Some(instance) ==> back == state
            &&& state.cleanup_owner == Some(instance) ==> {
                &&& back.cleanup_owner is None
                &&& back.jobs.contains_key(id) <==> state.jobs.contains_key(id)
                    && !state.jobs[id].cancel_requested && !state.jobs[id].awaiting_cleanup
                &&& back.jobs.contains_key(id) ==> back.jobs[id] == state.jobs[id]
                &&& back.queue == state.queue && back.stage == state.stage && back.config
                    == state.config
            }
        }),
{
}

/// The answers in a list are for the jobs that they name.
pub proof fn replies_are_for_the_jobs_they_name(replies: Seq<Reply>, i: int)
    ensures
        reply_ids(replies).len() == replies.len(),
        0 <= i < replies.len() ==> reply_ids(replies)[i] == replies[i].id,
{
}

/// Of the reported results those with fields are handed on, the first ones in their order: as many
/// as there are, up to the limit.
pub proof fn filled_results_are_handed_on(results: Seq<SearchResult>, limit: nat)
    ensures
        ({
            let filled = results.filter(|result: SearchResult| result@.len() > 0);
            let kept = kept_results(results, limit);
            &&& kept.len() == if filled.len() < limit {
                filled.len()
            } else {
                limit
            }
            &&& forall|i: int| 0 <= i < kept.len() ==> #[trigger] kept[i] == filled[i]
        }),
        results.len() <= limit && (forall|i: int|
            0 <= i < results.len() ==> (#[trigger] results[i])@.len() > 0) ==> kept_results(
            results,
            limit,
        ) == results,
{
    if forall|i: int| 0 <= i < results.len() ==> (#[trigger] results[i])@.len() > 0 {
        lemma_all_kept(results);
    }
}

proof fn lemma_all_kept(results: Seq<SearchResult>)
    requires
        forall|i: int| 0 <= i < results.len() ==> (#[trigger] results[i])@.len() > 0,
    ensures
        results.filter(|result: SearchResult| result@.len() > 0) == results,
    decreases results.len(),
{
    reveal(Seq::filter);
    if results.len() > 0 {
        let rest = results.drop_last();
        assert forall|i: int| 0 <= i < rest.len() implies (#[trigger] rest[i])@.len() > 0 by {
            assert(rest[i] == results[i]);
        }
        lemma_all_kept(rest);
        assert(results[results.len() - 1]@.len() > 0);
        assert(rest.push(results.last()) =~= results);
    } else {
        assert(results.filter(|result: SearchResult| result@.len() > 0) =~= results);
    }
}

/// A cancelled job answers its caller with the given outcome. An extension that works on it is told
/// the given reason: at once, or when the message that was being sent is accepted.
pub proof fn cancellations_carry_outcome_and_reason(
    job: PendingJob,
    outcome: SearchOutcome,
    reason: Option<String>,
)
    requires
        !job.finalized,
        !job.responded,
    ensures
        job.phase is Queued ==> job.cancellation(outcome, reason) == CancellationResult::Finished(
            JobEnding {
                response: Some(outcome),
                permit: job.permit,
                had_cleanup_blocker: false,
            },
        ),
        job.phase is Dispatched ==> job.cancellation(outcome, reason)
            == (CancellationResult::PendingCleanup {
            response: Some(outcome),
            send_cancel: reason,
            register_blocker: true,
        }),
        job.phase is Dispatching ==> {
            &&& job.cancellation(outcome, reason) == (CancellationResult::PendingCleanup {
                response: Some(outcome),
                send_cancel: None,
                register_blocker: true,
            })
            &&& job.after_cancellation(reason).completion(Ok(())) == DispatchCompletion::SendCancel(
                reason,
            )
        },
        job.after_cancellation(reason).responded,
        job.after_cancellation(reason).finalized <==> job.phase is Queued,
        job.after_cancellation(reason).command == job.command,
        job.after_cancellation(reason).phase == job.phase,
{
}

/// A job that was not cancelled is sent without further ado, and answers with the error where its
/// message cannot be sent.
pub proof fn dispatches_end_with_the_result_of_sending(job: PendingJob, error: ErrorDetail)
    requires
        !job.finalized,
    ensures
        !job.cancel_requested ==> job.completion(Ok(())) is Sent,
        job.completion(Err(error)) == DispatchCompletion::Finished(
            JobEnding {
                response: if job.responded {
                    None
                } else {
                    Some(Err(error))
                },
                permit: job.permit,
                had_cleanup_blocker: job.cleanup_blocker_registered,
            },
        ),
        job.after_dispatch(Ok(())).phase is Dispatched,
        job.after_dispatch(Ok(())).responded == job.responded,
        job.after_dispatch(Ok(())).command == job.command,
        job.after_dispatch(Err(error)).finalized,
{
}

/// A report of the extension ends a job that was sent, if the caller has its answer or is given one,
/// and if it was cancelled where only a cleanup is reported. The caller is given what was reported.
pub proof fn reports_end_jobs_that_were_sent(
    job: PendingJob,
    outcome: Option<SearchOutcome>,
    cleanup_only: bool,
)
    ensures
        job.report(outcome, cleanup_only) is Some <==> {
            &&& !job.finalized
            &&& !(job.phase is Queued)
            &&& cleanup_only ==> job.cancel_requested || job.awaiting_cleanup
            &&& job.responded || outcome is Some
        },
        job.report(outcome, cleanup_only) matches Some(ending) ==> {
            &&& !job.responded ==> ending.response == outcome
            &&& job.responded ==> ending.response is None
            &&& ending.permit == job.permit
            &&& ending.had_cleanup_blocker == job.cleanup_blocker_registered
        },
        job.report(outcome, cleanup_only) is Some ==> job.after_report(
            outcome is Some,
            cleanup_only,
        ).finalized,
        job.report(outcome, cleanup_only) is None ==> job.after_report(
            outcome is Some,
            cleanup_only,
        ) == job,
{
}

/// An extension is there to be used while its session is not about to go.
pub proof fn sessions_are_used_until_they_go(
    hub: HubView,
    session_id: u128,
    hello: HelloPayload,
    sent: Seq<OutboundMessage>,
    message: OutboundMessage,
)
    ensures
        hub.connected() <==> hub.connection is Some && !hub.connection->0.closing,
        hub.has_session(session_id) <==> hub.connection is Some && hub.connection->0.session_id
            == session_id,
        ({
            let after = hub.registered(session_id, hello, sent);
            &&& after.config == hub.config
            &&& after.connection matches Some(connection)
            &&& connection.session_id == session_id
            &&& connection.metadata.browser_instance_id == hello.browser_instance_id
            &&& connection.metadata.browser_name == hello.browser_name
            &&& connection.metadata.extension_version == hello.extension_version
            &&& connection.metadata.protocol_version == hello.protocol_version
            &&& connection.sent == sent
            &&& !connection.closing
        }),
        hub.connection is Some ==> {
            let before = hub.connection->0;
            let after = hub.with_sent(message);
            &&& after.config == hub.config
            &&& after.connection matches Some(connection)
            &&& connection.sent == before.sent.push(message)
            &&& connection.session_id == before.session_id
            &&& connection.metadata == before.metadata
            &&& connection.closing == before.closing
        },
{
}

/// An extension is turned away for the first of the reasons that hold, with its code, its message and
/// whether it can try again.
pub proof fn extensions_are_turned_away_for_the_first_reason(
    hub: HubView,
    hello: HelloPayload,
    required: Option<Seq<char>>,
)
    ensures
        ({
            let knows = hello.extension_token@ == hub.config.bridge.extension_token@;
            let speaks = hello.protocol_version == 1;
            let wanted = hub.config.bridge.browser_instance_id@.len() == 0
                || hub.config.bridge.browser_instance_id@ == hello.browser_instance_id@;
            let cleans = required is None || required->0 == hello.browser_instance_id@;
            let refusal = hub.refusal(hello, required);
            &&& !knows ==> refusal == Some((ErrorCode::Unauthorized, "扩展 token 无效"@, false))
            &&& knows && !speaks ==> refusal == Some(
                (ErrorCode::ProtocolError, "扩展协议版本不受支持"@, false),
            )
            &&& knows && speaks && !wanted ==> refusal == Some(
                (ErrorCode::InstanceConflict, "浏览器实例与配置不匹配"@, false),
            )
            &&& knows && speaks && wanted && !cleans ==> refusal == Some(
                (ErrorCode::InstanceConflict, "原 Chrome 扩展实例仍需完成任务清理"@, true),
            )
            &&& knows && speaks && wanted && cleans && hub.connection is Some ==> refusal == Some(
                (ErrorCode::InstanceConflict, "已有 Chrome 扩展实例连接"@, true),
            )
            &&& knows && speaks && wanted && cleans && hub.connection is None ==> refusal is None
        }),
{
}

/// What the extension is sent: the search of a job with its command, the reason to stop one, and the
/// nonce of a ping, or null where it has none.
pub proof fn messages_carry_what_they_are_for(
    message: OutboundMessage,
    id: u128,
    command: CommandView,
    why: Seq<char>,
    nonce: Option<String>,
)
    ensures
        is_search(message, id, command) <==> match message {
            OutboundMessage::Search { request_id, command: sent } => request_id == id && sent@
                == command,
            _ => false,
        },
        is_cancel(message, id, why) <==> match message {
            OutboundMessage::Cancel { request_id, reason } => request_id == id && reason@ == why,
            _ => false,
        },
        is_pong(message, nonce) <==> match message {
            OutboundMessage::Pong { nonce: text } => match nonce {
                Some(nonce) => text@ == nonce@,
                None => text@ == "null"@,
            },
            _ => false,
        },
{
}

/// A message is sent through a channel that takes it. Without an extension, or where the channel does
/// not take it, nothing is sent, and the error says which.
pub proof fn sending_ends_in_one_of_three_ways(
    before: HubView,
    message: OutboundMessage,
    result: Result<(), ErrorDetail>,
    after: HubView,
)
    requires
        message_attempted(before, message, result, after),
    ensures
        !before.connected() ==> {
            &&& after == before
            &&& result matches Err(error)
            &&& error.code is BrowserUnavailable && error.retryable && error.message@
                == "Chrome 扩展未连接"@
        },
        before.connected() && result is Ok ==> after == before.with_sent(message),
        before.connected() && result is Err ==> {
            &&& after == before
            &&& result->Err_0.code is BrowserUnavailable && result->Err_0.retryable
            &&& result->Err_0.message@ == "扩展连接写入队列不可用: "@ + "no available capacity"@
                || result->Err_0.message@ == "扩展连接写入队列不可用: "@ + "channel closed"@
        },
{
}

/// An attempt to send a search, a cancellation or a pong that succeeds has sent that very message.
pub proof fn successful_attempts_send_the_message(
    before: HubView,
    result: Result<(), ErrorDetail>,
    after: HubView,
    id: u128,
    command: CommandView,
    why: Seq<char>,
    nonce: Option<String>,
)
    requires
        before.connected(),
    ensures
        search_attempted(before, id, command, result, after) && result is Ok ==> exists|
            message: OutboundMessage,
        | #[trigger]
            before.with_sent(message) == after && is_search(message, id, command),
        cancel_attempted(before, id, why, result, after) && result is Ok ==> exists|
            message: OutboundMessage,
        | #[trigger]
            before.with_sent(message) == after && is_cancel(message, id, why),
        pong_attempted(before, nonce, result, after) && result is Ok ==> exists|
            message: OutboundMessage,
        | #[trigger]
            before.with_sent(message) == after && is_pong(message, nonce),
        search_attempted(before, id, command, result, after) && result is Err ==> after == before,
        cancel_attempted(before, id, why, result, after) && result is Err ==> after == before,
        pong_attempted(before, nonce, result, after) && result is Err ==> after == before,
{
    if search_attempted(before, id, command, result, after) && result is Ok {
        let wanted = |message: OutboundMessage| is_search(message, id, command);
        let message = choose|message: OutboundMessage| #[trigger]
            wanted(message) && after == before.with_sent(message);
        assert(before.with_sent(message) == after);
    }
    if cancel_attempted(before, id, why, result, after) && result is Ok {
        let wanted = |message: OutboundMessage| is_cancel(message, id, why);
        let message = choose|message: OutboundMessage| #[trigger]
            wanted(message) && after == before.with_sent(message);
        assert(before.with_sent(message) == after);
    }
    if pong_attempted(before, nonce, result, after) && result is Ok {
        let wanted = |message: OutboundMessage| is_pong(message, nonce);
        let message = choose|message: OutboundMessage| #[trigger]
            wanted(message) && after == before.with_sent(message);
        assert(before.with_sent(message) == after);
    }
}

/// The names under which messages are sent.
pub proof fn messages_are_sent_under_their_names(message: OutboundMessage)
    ensures
        message is Search ==> message.kind_text() == "search"@,
        message is Cancel ==> message.kind_text() == "cancel"@,
        message is Pong ==> message.kind_text() == "pong"@,
        message is PongData ==> message.kind_text() == "pong"@,
        message is Error ==> message.kind_text() == "error"@,
        message is Welcome ==> message.kind_text() == "welcome"@,
        message is Ping ==> message.kind_text() == "ping"@,
{
}

/// A hello is accepted exactly if it can be read, is the hello of this version and has a payload that
/// can be read.
pub proof fn hellos_are_accepted_iff_they_are_hellos(envelope: Result<InboundEnvelope, String>)
    ensures
        hello_fault(envelope) is None <==> {
            &&& envelope is Ok
            &&& envelope->Ok_0.version == 1
            &&& envelope->Ok_0.message_type@ == "hello"@
            &&& envelope->Ok_0.payload.hello is Ok
        },
{
}

proof fn lemma_message_names_differ()
    ensures
        "search_result"@.len() == 13,
        "error"@.len() == 5,
        "cleanup_complete"@.len() == 16,
        "accepted"@.len() == 8,
        "progress"@.len() == 8,
        "pong"@.len() == 4,
        "ping"@.len() == 4,
        "pong"@ != "ping"@,
{
    reveal_strlit("search_result");
    reveal_strlit("error");
    reveal_strlit("cleanup_complete");
    reveal_strlit("accepted");
    reveal_strlit("progress");
    reveal_strlit("pong");
    reveal_strlit("ping");
    assert("pong"@[1] != "ping"@[1]);
}

/// A message is accepted exactly if it can be read, is of this version, and is a notice, a ping, or
/// about a request with what it needs.
pub proof fn messages_are_accepted_iff_they_make_sense(envelope: Result<InboundEnvelope, String>)
    ensures
        message_fault(envelope) is None <==> {
            let message = envelope->Ok_0;
            let name = message.message_type@;
            &&& envelope is Ok
            &&& message.version == 1
            &&& {
                ||| name == "search_result"@ && message.request_id is Some
                    && message.payload.results is Ok
                ||| name == "error"@ && message.request_id is Some && message.payload.error is Ok
                ||| name == "cleanup_complete"@ && message.request_id is Some
                ||| name == "accepted"@
                ||| name == "progress"@
                ||| name == "pong"@
                ||| name == "ping"@
            }
        },
{
    lemma_message_names_differ();
}

/// What an accepted message asks for.
pub proof fn messages_ask_for_what_they_say(envelope: InboundEnvelope)
    requires
        message_fault(Ok(envelope)) is None,
    ensures
        ({
            let name = envelope.message_type@;
            let request = request_of(envelope);
            &&& name == "search_result"@ ==> request == (Request::Complete {
                id: envelope.request_id->0,
                results: envelope.payload.results->Ok_0.results,
            })
            &&& name == "error"@ ==> request == (Request::Fail {
                id: envelope.request_id->0,
                error: envelope.payload.error->Ok_0,
            })
            &&& name == "cleanup_complete"@ ==> request == (Request::CleanupComplete {
                id: envelope.request_id->0,
            })
            &&& name == "ping"@ ==> request == (Request::Answer { nonce: envelope.payload.nonce })
            &&& name == "accepted"@ || name == "progress"@ || name == "pong"@ ==> request is Notice
        }),
        is_notice(envelope.message_type@) <==> envelope.message_type@ == "accepted"@
            || envelope.message_type@ == "progress"@ || envelope.message_type@ == "pong"@,
{
    lemma_message_names_differ();
}

/// Doing what a message asks for changes the one job that it is about, and answers its caller, if it
/// waits, with what was reported.
pub proof fn messages_do_what_they_ask_for(
    state: StateView,
    request: Request,
    result: Result<Option<Reply>, ErrorDetail>,
    after: StateView,
)
    requires
        state.is_done(request, result, after),
    ensures
        request matches Request::Complete { id, results } ==> {
            let answered = state.scheduler.awaits_answer(id) && state.scheduler.ends(id);
            &&& after.bridge == state.bridge
            &&& after.scheduler == state.scheduler.job_ended(id)
            &&& result matches Ok(reply)
            &&& reply is Some <==> answered
            &&& reply matches Some(reply) ==> {
                &&& reply.id == id
                &&& reply.outcome matches Ok(list)
                &&& list@ == kept_results(
                    results@,
                    state.scheduler.jobs[id].command.limit as nat,
                )
            }
        },
        request matches Request::Fail { id, error } ==> {
            let answered = state.scheduler.awaits_answer(id) && state.scheduler.ends(id);
            &&& after.bridge == state.bridge
            &&& after.scheduler == state.scheduler.job_ended(id)
            &&& result matches Ok(reply)
            &&& reply is Some <==> answered
            &&& reply matches Some(reply) ==> reply.id == id && reply.outcome == Err::<
                Vec<SearchResult>,
                ErrorDetail,
            >(error)
        },
        request matches Request::CleanupComplete { id } ==> {
            &&& after.bridge == state.bridge
            &&& after.scheduler == state.scheduler.job_cleaned_up(id)
            &&& result matches Ok(reply)
            &&& reply is None
        },
        request is Notice ==> after.bridge == state.bridge && after.scheduler == state.scheduler && (
        result matches Ok(reply) && reply is None),
        request matches Request::Answer { nonce } ==> {
            &&& after.scheduler == state.scheduler
            &&& result is Ok ==> pong_attempted(state.bridge, nonce, Ok(()), after.bridge)
            &&& result matches Err(error) ==> pong_attempted(
                state.bridge,
                nonce,
                Err(error),
                after.bridge,
            )
        },
{
}

/// A refused message ends the job that it reports on, or has it cancelled where it is no last report,
/// and its caller, if it waits, is told the error, as is the extension.
pub proof fn refusals_settle_the_job(
    state: StateView,
    request_id: Option<u128>,
    final_report: bool,
    error: ErrorDetail,
    result: Received,
    after: StateView,
)
    requires
        state.is_refused(request_id, final_report, error, result, after),
    ensures
        request_id is None ==> after.scheduler == state.scheduler && result.reply is None,
        request_id matches Some(id) ==> {
            &&& final_report ==> after.scheduler == state.scheduler.job_ended(id)
            &&& !final_report ==> after.scheduler == state.scheduler.job_cancelled(id, None)
            &&& result.reply is Some <==> state.scheduler.awaits_answer(id) && (final_report
                ==> state.scheduler.ends(id))
            &&& result.reply matches Some(reply) ==> reply.id == id && reply.outcome == Err::<
                Vec<SearchResult>,
                ErrorDetail,
            >(error)
        },
        result.failure == Some(error),
        result.told matches Some(told) && message_attempted(
            state.bridge,
            OutboundMessage::Error { about: request_id, error },
            told,
            after.bridge,
        ),
{
}

/// A cancellation cancels the job with its reason, and tells an extension that works on it.
pub proof fn cancellations_tell_the_extension(
    state: StateView,
    id: u128,
    why: Seq<char>,
    told: Option<Result<(), ErrorDetail>>,
    after: StateView,
)
    requires
        state.is_cancelled(id, why, told, after),
    ensures
        exists|reason: String| #[trigger]
            reason@ == why && after.scheduler == state.scheduler.job_cancelled(id, Some(reason)),
        told is Some <==> state.scheduler.is_searching(id),
        told is None ==> after.bridge == state.bridge,
        told matches Some(result) ==> cancel_attempted(
            state.bridge,
            id,
            why,
            result,
            after.bridge,
        ),
{
}

/// Results and errors are the last reports about a job, and a message is about the job it names.
pub proof fn what_messages_are_about(envelope: InboundEnvelope, text: String)
    ensures
        is_final_report(Ok(envelope)) <==> envelope.message_type@ == "search_result"@
            || envelope.message_type@ == "error"@,
        !is_final_report(Err(text)),
        request_id_of(Ok(envelope)) == envelope.request_id,
        request_id_of(Err(text)) is None,
{
}

/// Sending a search is a step of the dispatcher, followed by what the channel said: an accepted
/// message leaves the job with the extension, a refused one takes it away.
pub proof fn sending_follows_the_step_of_the_dispatcher(state: SchedulerView, id: u128)
    requires
        state.wf(),
        state.next_search() == Some(id),
    ensures
        state.search_sent(id) == state.advanced().dispatch_accepted(id),
        state.search_failed(id) == state.advanced().dispatch_refused(id),
        state.search_sent(id).jobs.contains_key(id),
        state.search_sent(id).jobs[id].phase is Dispatched,
        state.search_sent(id).jobs[id].command == state.jobs[id].command,
        !state.search_sent(id).jobs[id].responded,
        !state.search_failed(id).jobs.contains_key(id),
        state.search_failed(id).active_jobs == state.active_jobs - 1,
        state.search_sent(id).active_jobs == state.active_jobs,
        state.search_sent(id).stage is Idle && state.search_failed(id).stage is Idle,
        state.search_sent(id).queue == state.queue && state.search_failed(id).queue == state.queue,
{
    let job = state.jobs[id];
    let sending = state.jobs.insert(id, job.dispatching());
    lemma_drop_job(state.jobs, id);
    lemma_replace_job(state.jobs, id, job.dispatching());
    lemma_replace_job(state.jobs, id, job.dispatching().dispatched());
    assert(sending.insert(id, job.dispatching().dispatched()) =~= state.jobs.insert(
        id,
        job.dispatching().dispatched(),
    ));
    assert(sending.remove(id) =~= state.jobs.remove(id));
}

/// What is wrong with a message is said of the first thing that is wrong.
pub proof fn refusals_of_messages_say_what_is_wrong(envelope: InboundEnvelope, text: String)
    ensures
        message_fault(Err(text)) == Some("消息 JSON 无效: "@ + text@),
        hello_fault(Err(text)) == Some("hello JSON 无效: "@ + text@),
        envelope.version != 1 ==> message_fault(Ok(envelope)) == Some("消息协议版本不受支持"@),
        envelope.version == 1 ==> {
            let name = envelope.message_type@;
            let known = envelope.request_id is Some;
            let fault = message_fault(Ok(envelope));
            &&& name == "search_result"@ && !known ==> fault == Some("缺少 requestId"@)
            &&& name == "search_result"@ && known ==> (envelope.payload.results matches Err(text)
                ==> fault == Some("search_result payload 无效: "@ + text@))
            &&& name == "error"@ && !known ==> fault == Some("error 缺少 requestId"@)
            &&& name == "error"@ && known ==> (envelope.payload.error matches Err(text) ==> fault
                == Some("error payload 无效: "@ + text@))
            &&& name == "cleanup_complete"@ && !known ==> fault == Some(
                "cleanup_complete 缺少 requestId"@,
            )
        },
{
    lemma_message_names_differ();
}

} // verus!
