//! What holds of the scheduler over any sequence of events.
use vstd::prelude::*;

use crate::daemon::config::Config;
use crate::daemon::jobs::{
    jobs_after_disconnect, jobs_after_reconnect, lemma_add_job, lemma_drop_job, lemma_queue_step,
    lemma_replace_job, nothing_is_sent_before_the_cleanup, blockers, slot_holders, DispatchStage,
    SchedulerView,
};
use crate::daemon::model::SearchCommand;
use crate::daemon::pending_job::{DispatchPhase, PendingJob};

verus! {

/// Something that changes the scheduler.
pub enum SchedulerEvent {
    /// A job is accepted.
    Enqueue { id: u128, command: SearchCommand },
    /// The dispatcher makes a step.
    Step,
    /// The message of a job is accepted for sending.
    DispatchAccepted { id: u128 },
    /// The message of a job cannot be sent.
    DispatchRefused { id: u128 },
    /// The extension reports the end of a job, with results or an error.
    End { id: u128 },
    /// The extension reports the cleanup of a job.
    CleanUp { id: u128 },
    /// A job is cancelled, on request, because its time is up or for a protocol error.
    Cancel { id: u128, reason: Option<String> },
    /// The extension goes away.
    Disconnect { browser_instance_id: Seq<char> },
    /// An extension comes back.
    Reconnect { browser_instance_id: Seq<char> },
}

impl SchedulerView {
    /// Whether an event can happen: a job is accepted where there is room, under an id that is not
    /// in use, and only a message that is being sent can be accepted or refused.
    pub open spec fn possible(self, event: SchedulerEvent) -> bool {
        match event {
            SchedulerEvent::Enqueue { id, command } => self.has_room() && !self.jobs.contains_key(
                id,
            ),
            SchedulerEvent::DispatchAccepted { id } => self.may_be_sending(id),
            SchedulerEvent::DispatchRefused { id } => self.may_be_sending(id),
            _ => true,
        }
    }

    /// The state after an event.
    pub open spec fn after(self, event: SchedulerEvent) -> SchedulerView {
        match event {
            SchedulerEvent::Enqueue { id, command } => self.enqueued(id, command),
            SchedulerEvent::Step => self.advanced(),
            SchedulerEvent::DispatchAccepted { id } => self.dispatch_accepted(id),
            SchedulerEvent::DispatchRefused { id } => self.dispatch_refused(id),
            SchedulerEvent::End { id } => self.job_ended(id),
            SchedulerEvent::CleanUp { id } => self.job_cleaned_up(id),
            SchedulerEvent::Cancel { id, reason } => self.job_cancelled(id, reason),
            SchedulerEvent::Disconnect { browser_instance_id } => self.disconnected(
                browser_instance_id,
            ),
            SchedulerEvent::Reconnect { browser_instance_id } => self.reconnected(
                browser_instance_id,
            ),
        }
    }

    /// Whether an event answers the caller of a job.
    pub open spec fn answers(self, event: SchedulerEvent, caller: u128) -> bool {
        self.awaits_answer(caller) && match event {
            SchedulerEvent::DispatchRefused { id } => id == caller,
            SchedulerEvent::End { id } => id == caller && self.ends(id),
            SchedulerEvent::Cancel { id, reason } => id == caller,
            SchedulerEvent::Disconnect { .. } => true,
            _ => false,
        }
    }
}

/// The state after a sequence of events.
pub open spec fn run(state: SchedulerView, events: Seq<SchedulerEvent>) -> SchedulerView
    decreases events.len(),
{
    if events.len() == 0 {
        state
    } else {
        run(state, events.drop_last()).after(events.last())
    }
}

/// Whether the events can happen one after the other.
pub open spec fn is_run(state: SchedulerView, events: Seq<SchedulerEvent>) -> bool
    decreases events.len(),
{
    events.len() > 0 ==> {
        &&& is_run(state, events.drop_last())
        &&& run(state, events.drop_last()).possible(events.last())
    }
}

/// The ids of the jobs that are accepted, in their order.
pub open spec fn accepted_ids(events: Seq<SchedulerEvent>) -> Seq<u128>
    decreases events.len(),
{
    if events.len() == 0 {
        Seq::empty()
    } else {
        let before = accepted_ids(events.drop_last());
        match events.last() {
            SchedulerEvent::Enqueue { id, command } => before.push(id),
            _ => before,
        }
    }
}

/// The ids of the jobs whose search messages go out, in their order.
pub open spec fn sent_ids(state: SchedulerView, events: Seq<SchedulerEvent>) -> Seq<u128>
    decreases events.len(),
{
    if events.len() == 0 {
        Seq::empty()
    } else {
        let before = sent_ids(state, events.drop_last());
        match (events.last(), run(state, events.drop_last()).next_search()) {
            (SchedulerEvent::Step, Some(id)) => before.push(id),
            _ => before,
        }
    }
}

/// How often the caller of a job is answered.
pub open spec fn answer_count(
    state: SchedulerView,
    events: Seq<SchedulerEvent>,
    caller: u128,
) -> nat
    decreases events.len(),
{
    if events.len() == 0 {
        0
    } else {
        let rest = events.drop_last();
        answer_count(state, rest, caller) + if run(state, rest).answers(events.last(), caller) {
            1nat
        } else {
            0nat
        }
    }
}

proof fn lemma_other_jobs(state: SchedulerView, jobs: Map<u128, PendingJob>)
    requires
        state.wf(),
        forall|id: u128| #[trigger]
            jobs.contains_key(id) ==> {
                &&& state.jobs.contains_key(id)
                &&& jobs[id].id == id
                &&& jobs[id].wf()
                &&& jobs[id].permit ==> state.jobs[id].permit
                &&& jobs[id].phase == DispatchPhase::Queued ==> state.jobs[id].phase
                    == DispatchPhase::Queued
            },
    ensures
        state.with_jobs(jobs).wf(),
{
    assert(jobs.dom().subset_of(state.jobs.dom()));
    vstd::set_lib::lemma_len_subset(jobs.dom(), state.jobs.dom());
    state.jobs.dom().lemma_len_filter(|id: u128| state.jobs[id].permit);
    assert(slot_holders(jobs).subset_of(slot_holders(state.jobs))) by {
        assert forall|id: u128| slot_holders(jobs).contains(id) implies slot_holders(
            state.jobs,
        ).contains(id) by {
            assert(jobs.contains_key(id));
        }
    }
    vstd::set_lib::lemma_len_subset(slot_holders(jobs), slot_holders(state.jobs));
}

proof fn lemma_step_keeps_order(state: SchedulerView)
    requires
        state.wf(),
    ensures
        state.advanced().wf(),
{
    if !state.stalled() {
        match state.stage {
            DispatchStage::Idle => {
                lemma_queue_step(state, state.queue[0], state.advanced());
            },
            DispatchStage::AwaitingSlot(id) => {},
            DispatchStage::AwaitingCleanup(id) => {
                if state.next_search() is Some {
                    lemma_drop_job(state.jobs, id);
                    lemma_replace_job(state.jobs, id, state.jobs[id].dispatching());
                }
            },
        }
    }
}

proof fn lemma_event_keeps_order(state: SchedulerView, event: SchedulerEvent)
    requires
        state.wf(),
        state.possible(event),
    ensures
        state.after(event).wf(),
{
    match event {
        SchedulerEvent::Enqueue { id, command } => {
            let after = state.enqueued(id, command);
            lemma_add_job(state.jobs, id, PendingJob::queued(id, command));
            assert(after.queue.last() == id);
            assert forall|other: u128| #[trigger]
                after.jobs.contains_key(other) && after.jobs[other].phase
                    == DispatchPhase::Queued implies after.queue.contains(other) || after.stage
                == DispatchStage::AwaitingSlot(other) || after.stage
                == DispatchStage::AwaitingCleanup(other) by {
                if other != id {
                    assert(state.jobs.contains_key(other));
                    if state.queue.contains(other) {
                        let i = state.queue.index_of(other);
                        assert(after.queue[i] == other);
                    }
                }
            }
        },
        SchedulerEvent::Step => {
            lemma_step_keeps_order(state);
        },
        SchedulerEvent::DispatchAccepted { id } => {
            if state.jobs.contains_key(id) {
                lemma_other_jobs(state, state.jobs.insert(id, state.jobs[id].dispatched()));
            }
        },
        SchedulerEvent::DispatchRefused { id } => {
            lemma_other_jobs(state, state.jobs.remove(id));
        },
        SchedulerEvent::End { id } => {
            lemma_other_jobs(state, state.jobs.remove(id));
        },
        SchedulerEvent::CleanUp { id } => {
            lemma_other_jobs(state, state.jobs.remove(id));
        },
        SchedulerEvent::Cancel { id, reason } => {
            if state.awaits_answer(id) {
                if state.jobs[id].phase == DispatchPhase::Queued {
                    lemma_other_jobs(state, state.jobs.remove(id));
                } else {
                    lemma_other_jobs(
                        state,
                        state.jobs.insert(id, state.jobs[id].cancelled(reason)),
                    );
                }
            }
        },
        SchedulerEvent::Disconnect { browser_instance_id } => {
            lemma_other_jobs(state, jobs_after_disconnect(state.jobs, state.jobs.dom()));
        },
        SchedulerEvent::Reconnect { browser_instance_id } => {
            lemma_other_jobs(state, jobs_after_reconnect(state.jobs, state.jobs.dom()));
        },
    }
}

proof fn lemma_empty_is_in_order(config: Config)
    ensures
        SchedulerView::empty(config).wf(),
{
    let jobs = Map::<u128, PendingJob>::empty();
    assert(blockers(jobs) =~= Set::<u128>::empty());
    assert(slot_holders(jobs) =~= Set::<u128>::empty());
}

/// Whatever happens, the scheduler stays in order.
pub proof fn runs_keep_the_scheduler_in_order(config: Config, events: Seq<SchedulerEvent>)
    requires
        is_run(SchedulerView::empty(config), events),
    ensures
        run(SchedulerView::empty(config), events).wf(),
        run(SchedulerView::empty(config), events).config == config,
    decreases events.len(),
{
    if events.len() == 0 {
        lemma_empty_is_in_order(config);
    } else {
        runs_keep_the_scheduler_in_order(config, events.drop_last());
        lemma_event_keeps_order(
            run(SchedulerView::empty(config), events.drop_last()),
            events.last(),
        );
    }
}

/// Whatever has happened, no more slots are taken than there are, and no search goes out as long as
/// some job owes its cleanup.
pub proof fn every_state_respects_slots_and_cleanups(
    config: Config,
    events: Seq<SchedulerEvent>,
    id: u128,
)
    requires
        is_run(SchedulerView::empty(config), events),
    ensures
        ({
            let state = run(SchedulerView::empty(config), events);
            &&& state.active_jobs <= config.executor.max_concurrency
            &&& state.jobs.contains_key(id) && state.jobs[id].cleanup_pending()
                ==> state.next_search() is None
        }),
{
    let state = run(SchedulerView::empty(config), events);
    runs_keep_the_scheduler_in_order(config, events);
    if state.jobs.contains_key(id) && state.jobs[id].cleanup_pending() {
        nothing_is_sent_before_the_cleanup(state, id);
    }
}

/// Searches go out in the order in which the jobs were accepted: `places` says which of the
/// accepted jobs each of them is for.
pub proof fn searches_go_out_in_turn(config: Config, events: Seq<SchedulerEvent>) -> (places: Seq<
    int,
>)
    ensures
        ({
            let sent = sent_ids(SchedulerView::empty(config), events);
            let accepted = accepted_ids(events);
            &&& places.len() == sent.len()
            &&& forall|k: int|
                0 <= k < places.len() ==> 0 <= #[trigger] places[k] < accepted.len() && sent[k]
                    == accepted[places[k]]
            &&& forall|k: int, l: int|
                0 <= k < l < places.len() ==> #[trigger] places[k] < #[trigger] places[l]
        }),
{
    lemma_turns(config, events)
}

/// How far the queue was taken off after a run: jobs up to `taken` have left it.
spec fn taken_off(state: SchedulerView, accepted: Seq<u128>, places: Seq<int>) -> bool {
    let taken = accepted.len() - state.queue.len();
    &&& 0 <= taken
    &&& state.queue == accepted.skip(taken)
    &&& match state.stage {
        DispatchStage::Idle => forall|k: int|
            0 <= k < places.len() ==> 0 <= #[trigger] places[k] < taken,
        DispatchStage::AwaitingSlot(id) => {
            &&& taken > 0
            &&& accepted[taken - 1] == id
            &&& forall|k: int| 0 <= k < places.len() ==> 0 <= #[trigger] places[k] < taken - 1
        },
        DispatchStage::AwaitingCleanup(id) => {
            &&& taken > 0
            &&& accepted[taken - 1] == id
            &&& forall|k: int| 0 <= k < places.len() ==> 0 <= #[trigger] places[k] < taken - 1
        },
    }
}

proof fn lemma_turns(config: Config, events: Seq<SchedulerEvent>) -> (places: Seq<int>)
    ensures
        ({
            let state = run(SchedulerView::empty(config), events);
            let sent = sent_ids(SchedulerView::empty(config), events);
            let accepted = accepted_ids(events);
            &&& taken_off(state, accepted, places)
            &&& places.len() == sent.len()
            &&& forall|k: int|
                0 <= k < places.len() ==> 0 <= #[trigger] places[k] < accepted.len() && sent[k]
                    == accepted[places[k]]
            &&& forall|k: int, l: int|
                0 <= k < l < places.len() ==> #[trigger] places[k] < #[trigger] places[l]
        }),
    decreases events.len(),
{
    let start = SchedulerView::empty(config);
    let accepted = accepted_ids(events);
    if events.len() == 0 {
        assert(accepted.skip(0) =~= Seq::<u128>::empty());
        Seq::empty()
    } else {
        let rest = events.drop_last();
        let before = run(start, rest);
        let state = run(start, events);
        let earlier = accepted_ids(rest);
        let places = lemma_turns(config, rest);
        let taken = earlier.len() - before.queue.len();
        match events.last() {
            SchedulerEvent::Enqueue { id, command } => {
                assert(accepted.skip(taken) =~= earlier.skip(taken).push(id));
                assert forall|k: int| 0 <= k < earlier.len() implies accepted[k] == earlier[k] by {}
                places
            },
            SchedulerEvent::Step => {
                if before.stalled() {
                    places
                } else {
                    match before.stage {
                        DispatchStage::Idle => {
                            assert(before.queue[0] == earlier[taken]);
                            assert(before.queue.drop_first() =~= earlier.skip(taken + 1));
                            places
                        },
                        DispatchStage::AwaitingSlot(id) => places,
                        DispatchStage::AwaitingCleanup(id) => {
                            if before.next_search() is Some {
                                places.push(taken - 1)
                            } else {
                                places
                            }
                        },
                    }
                }
            },
            _ => places,
        }
    }
}

/// As long as no id is used twice, no job's search goes out twice.
pub proof fn no_search_goes_out_twice(config: Config, events: Seq<SchedulerEvent>)
    requires
        accepted_ids(events).no_duplicates(),
    ensures
        sent_ids(SchedulerView::empty(config), events).no_duplicates(),
{
    let places = searches_go_out_in_turn(config, events);
    let sent = sent_ids(SchedulerView::empty(config), events);
    assert forall|k: int, l: int| 0 <= k < l < sent.len() implies sent[k] != sent[l] by {
        assert(places[k] < places[l]);
    }
}

/// A job that is gone, because it was cancelled in the queue or for any other reason, is not sent.
pub proof fn jobs_that_are_gone_are_not_sent(
    state: SchedulerView,
    events: Seq<SchedulerEvent>,
    id: u128,
)
    requires
        !state.jobs.contains_key(id),
        !accepted_ids(events).contains(id),
    ensures
        !sent_ids(state, events).contains(id),
        !run(state, events).jobs.contains_key(id),
    decreases events.len(),
{
    if events.len() > 0 {
        let rest = events.drop_last();
        let before = run(state, rest);
        let accepted = accepted_ids(rest);
        assert(!accepted.contains(id)) by {
            if accepted.contains(id) {
                let i = accepted.index_of(id);
                assert(accepted_ids(events)[i] == id);
            }
        }
        jobs_that_are_gone_are_not_sent(state, rest, id);
        match events.last() {
            SchedulerEvent::Enqueue { id: other, command } => {
                assert(accepted_ids(events)[accepted.len() as int] == other);
            },
            _ => {},
        }
        let sent = sent_ids(state, rest);
        if sent_ids(state, events).contains(id) {
            let i = sent_ids(state, events).index_of(id);
            if i < sent.len() {
                assert(sent[i] == id);
            }
        }
    }
}

/// A job that is cancelled while it waits in the queue is gone at once.
pub proof fn jobs_cancelled_in_the_queue_are_gone(
    state: SchedulerView,
    id: u128,
    reason: Option<String>,
)
    requires
        state.awaits_answer(id),
        state.jobs[id].phase == DispatchPhase::Queued,
    ensures
        !state.job_cancelled(id, reason).jobs.contains_key(id),
{
}

proof fn lemma_answers(config: Config, events: Seq<SchedulerEvent>, caller: u128)
    requires
        accepted_ids(events).no_duplicates(),
    ensures
        ({
            let start = SchedulerView::empty(config);
            let count = answer_count(start, events, caller);
            &&& count <= 1
            &&& count == 1 ==> !run(start, events).awaits_answer(caller)
            &&& !accepted_ids(events).contains(caller) ==> count == 0 && !run(
                start,
                events,
            ).jobs.contains_key(caller)
        }),
    decreases events.len(),
{
    let start = SchedulerView::empty(config);
    if events.len() > 0 {
        let rest = events.drop_last();
        let before = run(start, rest);
        let accepted = accepted_ids(rest);
        assert(accepted.no_duplicates()) by {
            assert forall|i: int, j: int| 0 <= i < j < accepted.len() implies accepted[i]
                != accepted[j] by {
                assert(accepted_ids(events)[i] != accepted_ids(events)[j]);
            }
        }
        lemma_answers(config, rest, caller);
        if accepted.contains(caller) {
            let i = accepted.index_of(caller);
            assert(accepted_ids(events)[i] == caller);
        }
        match events.last() {
            SchedulerEvent::Enqueue { id, command } => {
                assert(accepted_ids(events)[accepted.len() as int] == id);
                if id == caller && accepted.contains(caller) {
                    let i = accepted.index_of(caller);
                    assert(accepted_ids(events)[i] != accepted_ids(events)[accepted.len() as int]);
                }
            },
            _ => {},
        }
    }
}

/// As long as no id is used twice, no caller is answered twice.
pub proof fn callers_are_answered_once(
    config: Config,
    events: Seq<SchedulerEvent>,
    caller: u128,
)
    requires
        accepted_ids(events).no_duplicates(),
    ensures
        answer_count(SchedulerView::empty(config), events, caller) <= 1,
{
    lemma_answers(config, events, caller);
}

/// A job leaves the scheduler only with its caller answered, at its end or earlier.
pub proof fn nobody_is_forgotten(state: SchedulerView, event: SchedulerEvent, caller: u128)
    requires
        state.wf(),
        state.possible(event),
        state.awaits_answer(caller),
    ensures
        state.answers(event, caller) || state.after(event).awaits_answer(caller),
{
}

/// Before the dispatcher starts, the queue takes jobs until it is full, and holds them in their
/// order.
pub proof fn the_queue_takes_jobs_until_it_is_full(config: Config, events: Seq<SchedulerEvent>)
    requires
        is_run(SchedulerView::empty(config), events),
        forall|i: int| 0 <= i < events.len() ==> (#[trigger] events[i]) is Enqueue,
    ensures
        ({
            let state = run(SchedulerView::empty(config), events);
            &&& state.queue == accepted_ids(events)
            &&& state.queue.len() == events.len()
            &&& state.has_room() <==> events.len() < config.executor.max_queue_size
        }),
    decreases events.len(),
{
    if events.len() > 0 {
        let rest = events.drop_last();
        assert forall|i: int| 0 <= i < rest.len() implies (#[trigger] rest[i]) is Enqueue by {
            assert(rest[i] == events[i]);
        }
        the_queue_takes_jobs_until_it_is_full(config, rest);
        assert(events[events.len() - 1] is Enqueue);
    }
    runs_keep_the_scheduler_in_order(config, events);
}

} // verus!
