//! What holds of a job over any sequence of calls.
use vstd::prelude::*;

use crate::daemon::error::ErrorDetail;
use crate::daemon::model::SearchCommand;
use crate::daemon::pending_job::{
    CancellationResult, DispatchCompletion, JobEnding, PendingJob, SearchOutcome,
};

verus! {

/// A call that changes a job.
pub enum JobCall {
    PrepareDispatch,
    FinishDispatch(Result<(), ErrorDetail>),
    RequestCancellation(SearchOutcome, Option<String>),
    FinishAfterCleanup(Option<SearchOutcome>, bool),
}

/// The job after a call.
pub open spec fn after_call(job: PendingJob, call: JobCall) -> PendingJob {
    match call {
        JobCall::PrepareDispatch => if job.dispatchable() {
            job.dispatching()
        } else {
            job
        },
        JobCall::FinishDispatch(sent) => job.after_dispatch(sent),
        JobCall::RequestCancellation(_, reason) => job.after_cancellation(reason),
        JobCall::FinishAfterCleanup(outcome, wait) => job.after_report(outcome is Some, wait),
    }
}

/// How the job ends with a call, if it does.
pub open spec fn ending(job: PendingJob, call: JobCall) -> Option<JobEnding> {
    match call {
        JobCall::PrepareDispatch => None,
        JobCall::FinishDispatch(sent) => match job.completion(sent) {
            DispatchCompletion::Finished(ending) => Some(ending),
            _ => None,
        },
        JobCall::RequestCancellation(outcome, reason) => match job.cancellation(outcome, reason) {
            CancellationResult::Finished(ending) => Some(ending),
            _ => None,
        },
        JobCall::FinishAfterCleanup(outcome, wait) => job.report(outcome, wait),
    }
}

/// Whether what a call returns carries a response for the caller.
pub open spec fn responds(job: PendingJob, call: JobCall) -> bool {
    match ending(job, call) {
        Some(ending) => ending.response is Some,
        None => match call {
            JobCall::RequestCancellation(outcome, reason) => match job.cancellation(
                outcome,
                reason,
            ) {
                CancellationResult::PendingCleanup { response, .. } => response is Some,
                _ => false,
            },
            _ => false,
        },
    }
}

/// Whether what a call returns gives back the browser slot.
pub open spec fn gives_back_the_slot(job: PendingJob, call: JobCall) -> bool {
    ending(job, call) matches Some(ending) && ending.permit
}

/// Whether what a call returns registers a blocker.
pub open spec fn registers_a_blocker(job: PendingJob, call: JobCall) -> bool {
    match call {
        JobCall::RequestCancellation(outcome, reason) => match job.cancellation(outcome, reason) {
            CancellationResult::PendingCleanup { register_blocker, .. } => register_blocker,
            _ => false,
        },
        _ => false,
    }
}

/// The job after a sequence of calls.
pub open spec fn after_calls(job: PendingJob, calls: Seq<JobCall>) -> PendingJob
    decreases calls.len(),
{
    if calls.len() == 0 {
        job
    } else {
        after_call(after_calls(job, calls.drop_last()), calls.last())
    }
}

/// How many of the calls are of the given sort, each seen with the job as it finds it.
pub open spec fn count(
    job: PendingJob,
    calls: Seq<JobCall>,
    sort: spec_fn(PendingJob, JobCall) -> bool,
) -> nat
    decreases calls.len(),
{
    if calls.len() == 0 {
        0
    } else {
        let rest = calls.drop_last();
        count(job, rest, sort) + if sort(after_calls(job, rest), calls.last()) {
            1nat
        } else {
            0nat
        }
    }
}

/// How many responses the calls return.
pub open spec fn responses(job: PendingJob, calls: Seq<JobCall>) -> nat {
    count(job, calls, |job: PendingJob, call: JobCall| responds(job, call))
}

/// How often the calls give back a browser slot.
pub open spec fn slots_given_back(job: PendingJob, calls: Seq<JobCall>) -> nat {
    count(job, calls, |job: PendingJob, call: JobCall| gives_back_the_slot(job, call))
}

/// How many blockers the calls register.
pub open spec fn blockers_registered(job: PendingJob, calls: Seq<JobCall>) -> nat {
    count(job, calls, |job: PendingJob, call: JobCall| registers_a_blocker(job, call))
}

/// How often the calls end the job.
pub open spec fn endings(job: PendingJob, calls: Seq<JobCall>) -> nat {
    count(job, calls, |job: PendingJob, call: JobCall| ending(job, call) is Some)
}

proof fn lemma_calls(id: u128, command: SearchCommand, calls: Seq<JobCall>)
    ensures
        ({
            let start = PendingJob::queued(id, command);
            let job = after_calls(start, calls);
            &&& responses(start, calls) == if job.responded {
                1nat
            } else {
                0nat
            }
            &&& endings(start, calls) == if job.finalized {
                1nat
            } else {
                0nat
            }
            &&& slots_given_back(start, calls) <= endings(start, calls)
            &&& blockers_registered(start, calls) <= 1
            &&& blockers_registered(start, calls) == 1 ==> job.responded
            &&& !job.finalized ==> (blockers_registered(start, calls) == 1)
                == job.cleanup_blocker_registered
        }),
    decreases calls.len(),
{
    if calls.len() > 0 {
        lemma_calls(id, command, calls.drop_last());
    }
}

/// Whatever calls are made on a job, at most one returns a response, at most one gives back its
/// slot, at most one registers a blocker, and at most one ends it.
pub proof fn jobs_answer_and_end_once(id: u128, command: SearchCommand, calls: Seq<JobCall>)
    ensures
        responses(PendingJob::queued(id, command), calls) <= 1,
        slots_given_back(PendingJob::queued(id, command), calls) <= 1,
        blockers_registered(PendingJob::queued(id, command), calls) <= 1,
        endings(PendingJob::queued(id, command), calls) <= 1,
{
    lemma_calls(id, command, calls);
}

/// The call that ends a job reports a blocker exactly if one was registered, and by then the caller
/// has its answer.
pub proof fn endings_report_the_blocker(
    id: u128,
    command: SearchCommand,
    calls: Seq<JobCall>,
    last: JobCall,
)
    requires
        ending(after_calls(PendingJob::queued(id, command), calls), last) is Some,
    ensures
        ending(
            after_calls(PendingJob::queued(id, command), calls),
            last,
        )->0.had_cleanup_blocker == (blockers_registered(PendingJob::queued(id, command), calls)
            == 1),
        responses(PendingJob::queued(id, command), calls.push(last)) == 1,
        endings(PendingJob::queued(id, command), calls) == 0,
{
    lemma_calls(id, command, calls);
    lemma_calls(id, command, calls.push(last));
    assert(calls.push(last).drop_last() =~= calls);
}

/// After the call that ended a job nothing has an effect.
pub proof fn ended_jobs_stay_as_they_are(
    id: u128,
    command: SearchCommand,
    calls: Seq<JobCall>,
    next: JobCall,
    outcome: SearchOutcome,
    report: Option<SearchOutcome>,
    sent: Result<(), ErrorDetail>,
    reason: Option<String>,
    wait: bool,
)
    requires
        endings(PendingJob::queued(id, command), calls) == 1,
    ensures
        ({
            let job = after_calls(PendingJob::queued(id, command), calls);
            &&& after_call(job, next) == job
            &&& !job.dispatchable()
            &&& job.completion(sent) is Skipped
            &&& job.cancellation(outcome, reason) is AlreadyHandled
            &&& job.report(report, wait) is None
        }),
{
    lemma_calls(id, command, calls);
}

} // verus!
