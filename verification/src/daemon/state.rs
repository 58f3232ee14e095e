//! The daemon as a whole: the scheduler, the bridge, and what an event means for both.
use std::sync::Arc;

use tokio::sync::mpsc::Sender;
use vstd::prelude::*;

use crate::daemon::bridge::{
    cancel_attempted, message_attempted, pong_attempted, search_attempted, BridgeHub, HubView,
};
use crate::daemon::config::Config;
use crate::daemon::error::{ErrorCode, ErrorDetail};
use crate::daemon::jobs::{
    a_disconnect_answers_everyone, kept_results, reply_ids, Cancellation, DispatchStep,
    JobScheduler, Reply, SchedulerView,
};
use crate::daemon::messages::{accepted, InboundEnvelope, OutboundMessage};
use crate::daemon::model::{HelloPayload, SearchCommand, StatusResponse};
use crate::daemon::pending_job::SearchOutcome;
use crate::daemon::session::{message_fault, read_message, request_of, Request};
use crate::text::same_text;
use crate::unique_id::is_random_id;

verus! {

/// Everything that the daemon keeps.
pub struct AppState {
    pub config: Arc<Config>,
    pub bridge: BridgeHub,
    pub scheduler: JobScheduler,
}

/// The state of an [`AppState`].
pub struct StateView {
    pub config: Config,
    pub bridge: HubView,
    pub scheduler: SchedulerView,
}

impl View for AppState {
    type V = StateView;

    open spec fn view(&self) -> StateView {
        StateView { config: *self.config, bridge: self.bridge@, scheduler: self.scheduler@ }
    }
}

/// What a step of the dispatcher has led to.
pub struct Dispatch {
    /// Another step can follow at once.
    pub progress: bool,
    /// What a caller is to be given now.
    pub reply: Option<Reply>,
}

/// What a cancellation has led to.
pub struct Cancelled {
    /// What the caller is to be given now.
    pub reply: Option<Reply>,
    /// How the attempt to tell the extension ended, if there was one.
    pub told: Option<Result<(), ErrorDetail>>,
}

/// What a message of the extension has led to.
pub struct Received {
    /// What a caller is to be given now.
    pub reply: Option<Reply>,
    /// Why the message was refused, if it was.
    pub failure: Option<ErrorDetail>,
    /// How the attempt to tell the extension about the refusal ended, if there was one.
    pub told: Option<Result<(), ErrorDetail>>,
}

/// Trusted: `Arc::clone` gives another pointer to the same value.
#[verifier::external_body]
fn share(config: &Arc<Config>) -> (result: Arc<Config>)
    ensures
        result == *config,
{
    Arc::clone(config)
}

/// The answer for the caller of a job, where there is an outcome.
fn reply_to(id: u128, outcome: Option<SearchOutcome>) -> (result: Option<Reply>)
    ensures
        result == match outcome {
            Some(outcome) => Some(Reply { id, outcome }),
            None => None,
        },
{
    match outcome {
        Some(outcome) => Some(Reply { id, outcome }),
        None => None,
    }
}

/// Whether a message of this type is the last one about a job.
pub open spec fn is_final_report(envelope: Result<InboundEnvelope, String>) -> bool {
    envelope matches Ok(envelope) && (envelope.message_type@ == "search_result"@
        || envelope.message_type@ == "error"@)
}

/// The job that a message speaks of.
pub open spec fn request_id_of(envelope: Result<InboundEnvelope, String>) -> Option<u128> {
    match envelope {
        Ok(envelope) => envelope.request_id,
        Err(_) => None,
    }
}

impl SchedulerView {
    /// The state after a message about a job was refused: a last report ends the job, any other
    /// message has it cancelled.
    pub open spec fn report_refused(
        self,
        request_id: Option<u128>,
        final_report: bool,
    ) -> SchedulerView {
        match request_id {
            Some(id) => if final_report {
                self.job_ended(id)
            } else {
                self.job_cancelled(id, None)
            },
            None => self,
        }
    }

    /// Whether the caller of a job is answered because a message about it was refused.
    pub open spec fn refusal_answers(self, request_id: Option<u128>, final_report: bool) -> bool {
        match request_id {
            Some(id) => self.awaits_answer(id) && (final_report ==> self.ends(id)),
            None => false,
        }
    }
}

impl StateView {
    /// How a cancellation of a job changes the state: an extension that works on the job is told
    /// why it has to stop.
    pub open spec fn is_cancelled(
        self,
        id: u128,
        why: Seq<char>,
        told: Option<Result<(), ErrorDetail>>,
        after: StateView,
    ) -> bool {
        &&& exists|reason: String| #[trigger]
            reason@ == why && after.scheduler == self.scheduler.job_cancelled(id, Some(reason))
        &&& if self.scheduler.is_searching(id) {
            &&& told matches Some(result)
            &&& cancel_attempted(self.bridge, id, why, result, after.bridge)
        } else {
            told is None && after.bridge == self.bridge
        }
    }

    /// How doing what a message asks for changes the state and what it results in: an answer for a
    /// caller, or an error.
    pub open spec fn is_done(
        self,
        request: Request,
        result: Result<Option<Reply>, ErrorDetail>,
        after: StateView,
    ) -> bool {
        match request {
            Request::Complete { id, results } => {
                &&& after.bridge == self.bridge
                &&& after.scheduler == self.scheduler.job_ended(id)
                &&& result matches Ok(reply)
                &&& reply is Some == (self.scheduler.ends(id) && self.scheduler.awaits_answer(id))
                &&& reply matches Some(reply) ==> {
                    &&& reply.id == id
                    &&& reply.outcome matches Ok(list)
                    &&& list@ == kept_results(
                        results@,
                        self.scheduler.jobs[id].command.limit as nat,
                    )
                }
            },
            Request::Fail { id, error } => {
                &&& after.bridge == self.bridge
                &&& after.scheduler == self.scheduler.job_ended(id)
                &&& result == Ok::<Option<Reply>, ErrorDetail>(
                    if self.scheduler.ends(id) && self.scheduler.awaits_answer(id) {
                        Some(Reply { id, outcome: Err(error) })
                    } else {
                        None
                    },
                )
            },
            Request::CleanupComplete { id } => {
                &&& after.bridge == self.bridge
                &&& after.scheduler == self.scheduler.job_cleaned_up(id)
                &&& result == Ok::<Option<Reply>, ErrorDetail>(None)
            },
            Request::Notice => {
                &&& after == self
                &&& result == Ok::<Option<Reply>, ErrorDetail>(None)
            },
            Request::Answer { nonce } => {
                &&& after.scheduler == self.scheduler
                &&& pong_attempted(
                    self.bridge,
                    nonce,
                    match result {
                        Ok(_) => Ok(()),
                        Err(error) => Err(error),
                    },
                    after.bridge,
                )
                &&& result matches Ok(reply) ==> reply is None
            },
        }
    }

    /// How the refusal of a message changes the state and what it results in.
    pub open spec fn is_refused(
        self,
        request_id: Option<u128>,
        final_report: bool,
        error: ErrorDetail,
        result: Received,
        after: StateView,
    ) -> bool {
        &&& after.scheduler == self.scheduler.report_refused(request_id, final_report)
        &&& result.reply == if self.scheduler.refusal_answers(request_id, final_report) {
            Some(Reply { id: request_id->0, outcome: Err(error) })
        } else {
            None
        }
        &&& result.failure == Some(error)
        &&& result.told matches Some(told)
        &&& message_attempted(
            self.bridge,
            OutboundMessage::Error { about: request_id, error },
            told,
            after.bridge,
        )
    }
}

impl AppState {
    pub fn new(config: Config) -> (result: Self)
        requires
            config.executor.runnable(),
        ensures
            result@ == (StateView {
                config,
                bridge: HubView { config, connection: None },
                scheduler: SchedulerView::empty(config),
            }),
            result@.scheduler.wf(),
    {
        let config = Arc::new(config);
        let bridge = BridgeHub::new(share(&config));
        let scheduler = JobScheduler::new(share(&config));
        AppState { config, bridge, scheduler }
    }

    /// Accepts a search under a fresh random id, as long as the extension is connected and the
    /// queue has room.
    pub fn enqueue(&mut self, command: SearchCommand) -> (result: Result<u128, ErrorDetail>)
        requires
            old(self)@.scheduler.wf(),
        ensures
            final(self).config == old(self).config,
            final(self)@.bridge == old(self)@.bridge,
            result is Ok == (old(self)@.bridge.connected() && old(self)@.scheduler.has_room()),
            result is Ok == (old(self)@.bridge.connected() && old(self)@.scheduler.queue.len()
                < old(self)@.scheduler.config.executor.max_queue_size),
            match result {
                Ok(id) => {
                    &&& is_random_id(id)
                    &&& final(self)@.scheduler == old(self)@.scheduler.enqueued(id, command)
                    &&& !old(self)@.scheduler.jobs.contains_key(id) ==> final(self)@.scheduler.wf()
                },
                Err(error) => {
                    &&& final(self)@ == old(self)@
                    &&& if !old(self)@.bridge.connected() {
                        error.says(ErrorCode::BrowserUnavailable, "Chrome 扩展尚未连接"@, true)
                    } else {
                        error.says(ErrorCode::QueueFull, "搜索任务队列已满"@, true)
                    }
                },
            },
    {
        let connected = self.bridge.is_connected();
        self.scheduler.enqueue(connected, command)
    }

    /// Makes one step towards the next search, and sends its message when it is due.
    pub fn dispatch(&mut self) -> (result: Dispatch)
        requires
            old(self)@.scheduler.wf(),
        ensures
            final(self).config == old(self).config,
            final(self)@.scheduler.wf(),
            result.progress == !old(self)@.scheduler.stalled(),
            match old(self)@.scheduler.next_search() {
                None => {
                    &&& final(self)@.scheduler == old(self)@.scheduler.advanced()
                    &&& final(self)@.bridge == old(self)@.bridge
                    &&& result.reply is None
                },
                Some(id) => {
                    let sent = match result.reply {
                        Some(reply) => match reply.outcome {
                            Err(error) => Err(error),
                            Ok(_) => Ok(()),
                        },
                        None => Ok(()),
                    };
                    &&& search_attempted(
                        old(self)@.bridge,
                        id,
                        old(self)@.scheduler.jobs[id].command@,
                        sent,
                        final(self)@.bridge,
                    )
                    &&& match result.reply {
                        None => final(self)@.scheduler == old(self)@.scheduler.search_sent(id),
                        Some(reply) => {
                            &&& reply.id == id
                            &&& reply.outcome is Err
                            &&& final(self)@.scheduler == old(self)@.scheduler.search_failed(id)
                        },
                    }
                },
            },
    {
        let ghost before = self@.scheduler;
        match self.scheduler.dispatch_next() {
            DispatchStep::Wait => Dispatch { progress: false, reply: None },
            DispatchStep::Continue => Dispatch { progress: true, reply: None },
            DispatchStep::Search { id, command } => {
                let sent = self.bridge.send_search(id, &command);
                let end = self.scheduler.finish_dispatch(id, sent);
                proof {
                    let job = before.jobs[id];
                    assert(before.jobs.insert(id, job.dispatching()).insert(
                        id,
                        job.dispatching().dispatched(),
                    ) =~= before.jobs.insert(id, job.dispatching().dispatched()));
                    assert(before.jobs.insert(id, job.dispatching()).remove(id)
                        =~= before.jobs.remove(id));
                }
                match end.send_cancel {
                    Some(reason) => {
                        let _ = self.bridge.send_cancel(id, reason.as_str());
                    },
                    None => {},
                }
                Dispatch { progress: true, reply: reply_to(id, end.reply) }
            },
        }
    }

    /// Tells the extension to stop a search where a cancellation asks for it.
    fn follow_up(&mut self, id: u128, cancellation: Cancellation) -> (result: Cancelled)
        ensures
            final(self).config == old(self).config,
            final(self)@.scheduler == old(self)@.scheduler,
            result.reply == match cancellation.reply {
                Some(outcome) => Some(Reply { id, outcome }),
                None => None,
            },
            match cancellation.send_cancel {
                Some(reason) => {
                    &&& result.told matches Some(told)
                    &&& cancel_attempted(
                        old(self)@.bridge,
                        id,
                        reason@,
                        told,
                        final(self)@.bridge,
                    )
                },
                None => result.told is None && final(self)@.bridge == old(self)@.bridge,
            },
    {
        let told = match cancellation.send_cancel {
            Some(reason) => Some(self.bridge.send_cancel(id, reason.as_str())),
            None => None,
        };
        Cancelled { reply: reply_to(id, cancellation.reply), told }
    }

    /// Cancels a search on request, and tells the extension if it works on it.
    pub fn cancel(&mut self, id: u128, reason: &str) -> (result: Cancelled)
        requires
            old(self)@.scheduler.wf(),
        ensures
            final(self).config == old(self).config,
            final(self)@.scheduler.wf(),
            old(self)@.is_cancelled(id, reason@, result.told, final(self)@),
            result.reply is Some == old(self)@.scheduler.awaits_answer(id),
            result.reply matches Some(reply) ==> {
                &&& reply.id == id
                &&& reply.outcome matches Err(error)
                &&& error.says(ErrorCode::Cancelled, reason@, false)
            },
    {
        let cancellation = self.scheduler.cancel(id, reason);
        self.follow_up(id, cancellation)
    }

    /// Cancels a search because its time is up.
    pub fn timeout_job(&mut self, id: u128) -> (result: Cancelled)
        requires
            old(self)@.scheduler.wf(),
        ensures
            final(self).config == old(self).config,
            final(self)@.scheduler.wf(),
            old(self)@.is_cancelled(id, "timeout"@, result.told, final(self)@),
            result.reply is Some == old(self)@.scheduler.awaits_answer(id),
            result.reply matches Some(reply) ==> {
                &&& reply.id == id
                &&& reply.outcome matches Err(error)
                &&& error.says(ErrorCode::Timeout, "搜索任务超时"@, true)
            },
    {
        let cancellation = self.scheduler.timeout_job(id);
        self.follow_up(id, cancellation)
    }

    /// Cancels a search because its caller does not wait any longer.
    pub fn give_up(&mut self, id: u128) -> (result: Cancelled)
        requires
            old(self)@.scheduler.wf(),
        ensures
            final(self).config == old(self).config,
            final(self)@.scheduler.wf(),
            old(self)@.is_cancelled(id, "HTTP 请求等待超时"@, result.told, final(self)@),
            result.reply is Some == old(self)@.scheduler.awaits_answer(id),
            result.reply matches Some(reply) ==> {
                &&& reply.id == id
                &&& reply.outcome matches Err(error)
                &&& error.says(ErrorCode::Cancelled, "HTTP 请求等待超时"@, false)
            },
    {
        self.cancel(id, "HTTP 请求等待超时")
    }

    /// Lets an extension in, or says why not. One that owed a cleanup has done it by coming back.
    pub fn connect(&mut self, hello: HelloPayload, sender: Sender<OutboundMessage>) -> (result:
        Result<u128, ErrorDetail>)
        requires
            old(self)@.scheduler.wf(),
        ensures
            final(self).config == old(self).config,
            final(self)@.scheduler.wf(),
            match old(self)@.bridge.refusal(hello, old(self)@.scheduler.cleanup_owner) {
                Some((code, message, retryable)) => {
                    &&& final(self)@ == old(self)@
                    &&& result matches Err(error)
                    &&& error.says(code, message, retryable)
                },
                None => {
                    &&& result matches Ok(session_id)
                    &&& is_random_id(session_id)
                    &&& final(self)@.bridge == old(self)@.bridge.registered(
                        session_id,
                        hello,
                        accepted(sender),
                    )
                    &&& final(self)@.scheduler == old(self)@.scheduler.reconnected(
                        hello.browser_instance_id@,
                    )
                },
            },
    {
        let required = self.scheduler.required_cleanup_instance();
        let instance = hello.browser_instance_id.clone();
        let registered = match &required {
            Some(required) => self.bridge.register(hello, sender, Some(required.as_str())),
            None => self.bridge.register(hello, sender, None),
        };
        match registered {
            Ok(session_id) => {
                self.scheduler.handle_reconnect(instance.as_str());
                Ok(session_id)
            },
            Err(error) => Err(error),
        }
    }

    /// The message with which an extension is let in.
    pub fn welcome(&self, session_id: u128) -> (result: OutboundMessage)
        ensures
            result == (OutboundMessage::Welcome {
                session_id,
                ping_interval_seconds: self.config.bridge.ping_interval_seconds,
                min_operation_interval_ms: self.config.executor.min_operation_interval,
            }),
    {
        OutboundMessage::Welcome {
            session_id,
            ping_interval_seconds: self.config.bridge.ping_interval_seconds,
            min_operation_interval_ms: self.config.executor.min_operation_interval,
        }
    }

    /// Ends the session of an extension, and returns what the callers of its jobs are to be given.
    /// The order of the answers is left open.
    pub fn disconnect_session(&mut self, session_id: u128, browser_instance_id: &str) -> (replies:
        Vec<Reply>)
        requires
            old(self)@.scheduler.wf(),
        ensures
            final(self).config == old(self).config,
            final(self)@.scheduler.wf(),
            ({
                let ends = old(self)@.bridge.has_session(session_id)
                    && old(self)@.bridge.connected();
                &&& !ends ==> final(self)@ == old(self)@ && replies@.len() == 0
                &&& ends ==> {
                    &&& final(self)@.bridge == (HubView {
                        connection: None,
                        ..old(self)@.bridge
                    })
                    &&& final(self)@.scheduler == old(self)@.scheduler.disconnected(
                        browser_instance_id@,
                    )
                    &&& reply_ids(replies@).no_duplicates()
                    &&& forall|id: u128| #[trigger]
                        reply_ids(replies@).contains(id)
                            <==> old(self)@.scheduler.awaits_answer(id)
                    &&& forall|i: int|
                        0 <= i < replies@.len() ==> {
                            &&& (#[trigger] replies@[i]).outcome matches Err(error)
                            &&& error.says(
                                ErrorCode::BrowserUnavailable,
                                "Chrome 扩展连接已断开"@,
                                true,
                            )
                        }
                }
            }),
    {
        if !self.bridge.begin_disconnect(session_id) {
            return Vec::new();
        }
        let replies = self.scheduler.handle_disconnect(browser_instance_id);
        let _ = self.bridge.disconnect(session_id);
        replies
    }

    /// Does what a message of the extension asks for, or says why not.
    pub fn handle_message(&mut self, envelope: Result<InboundEnvelope, String>) -> (result: Result<
        Option<Reply>,
        ErrorDetail,
    >)
        requires
            old(self)@.scheduler.wf(),
        ensures
            final(self).config == old(self).config,
            final(self)@.scheduler.wf(),
            match message_fault(envelope) {
                Some(message) => {
                    &&& final(self)@ == old(self)@
                    &&& result matches Err(error)
                    &&& error.says(ErrorCode::ProtocolError, message, false)
                },
                None => old(self)@.is_done(request_of(envelope->Ok_0), result, final(self)@),
            },
    {
        match read_message(envelope) {
            Err(error) => Err(error),
            Ok(Request::Complete { id, results }) => {
                let outcome = self.scheduler.complete(id, results);
                Ok(reply_to(id, outcome))
            },
            Ok(Request::Fail { id, error }) => {
                let outcome = self.scheduler.extension_error(id, error);
                Ok(reply_to(id, outcome))
            },
            Ok(Request::CleanupComplete { id }) => {
                self.scheduler.cleanup_complete(id);
                Ok(None)
            },
            Ok(Request::Notice) => Ok(None),
            Ok(Request::Answer { nonce }) => {
                match self.bridge.send_pong(nonce) {
                    Ok(()) => Ok(None),
                    Err(error) => Err(error),
                }
            },
        }
    }

    /// Settles the job that a refused message speaks of, and tells the extension why the message
    /// was refused.
    pub fn refuse_message(
        &mut self,
        request_id: Option<u128>,
        final_report: bool,
        error: ErrorDetail,
    ) -> (result: Received)
        requires
            old(self)@.scheduler.wf(),
        ensures
            final(self).config == old(self).config,
            final(self)@.scheduler.wf(),
            old(self)@.is_refused(request_id, final_report, error, result, final(self)@),
    {
        let reply = match request_id {
            Some(id) => {
                let outcome = if final_report {
                    self.scheduler.extension_error(id, error.clone())
                } else {
                    self.scheduler.protocol_error(id, error.clone())
                };
                reply_to(id, outcome)
            },
            None => None,
        };
        let told = self.bridge.send_json(
            OutboundMessage::Error { about: request_id, error: error.clone() },
        );
        Received { reply, failure: Some(error), told: Some(told) }
    }

    /// Takes in a message of the extension.
    pub fn receive(&mut self, envelope: Result<InboundEnvelope, String>) -> (result: Received)
        requires
            old(self)@.scheduler.wf(),
        ensures
            final(self).config == old(self).config,
            final(self)@.scheduler.wf(),
            match message_fault(envelope) {
                Some(message) => {
                    &&& result.failure matches Some(error)
                    &&& error.says(ErrorCode::ProtocolError, message, false)
                    &&& old(self)@.is_refused(
                        request_id_of(envelope),
                        is_final_report(envelope),
                        error,
                        result,
                        final(self)@,
                    )
                },
                None => match result.failure {
                    None => {
                        &&& result.told is None
                        &&& old(self)@.is_done(
                            request_of(envelope->Ok_0),
                            Ok(result.reply),
                            final(self)@,
                        )
                    },
                    Some(error) => {
                        &&& old(self)@.is_done(
                            request_of(envelope->Ok_0),
                            Err(error),
                            old(self)@,
                        )
                        &&& old(self)@.is_refused(
                            request_id_of(envelope),
                            is_final_report(envelope),
                            error,
                            result,
                            final(self)@,
                        )
                    },
                },
            },
    {
        let request_id = match &envelope {
            Ok(envelope) => envelope.request_id,
            Err(_) => None,
        };
        let final_report = match &envelope {
            Ok(envelope) => same_text(envelope.message_type.as_str(), "search_result")
                || same_text(envelope.message_type.as_str(), "error"),
            Err(_) => false,
        };
        match self.handle_message(envelope) {
            Ok(reply) => Received { reply, failure: None, told: None },
            Err(error) => self.refuse_message(request_id, final_report, error),
        }
    }

    /// How busy the daemon is and which extension serves it.
    pub fn status(&self) -> (result: StatusResponse)
        ensures
            result.extension_connected == self@.bridge.connected(),
            result.browser_instance_id == if self@.bridge.connected() {
                Some(self@.bridge.connection->0.metadata.browser_instance_id)
            } else {
                None
            },
            result.extension_version == if self@.bridge.connected() {
                Some(self@.bridge.connection->0.metadata.extension_version)
            } else {
                None
            },
            result.active_jobs == self@.scheduler.active_jobs,
            result.queued_jobs == self@.scheduler.queue.len(),
            result.max_concurrency == self@.scheduler.max_concurrency(),
    {
        let active_jobs = self.scheduler.active_jobs();
        let queued_jobs = self.scheduler.queued_jobs();
        let max_concurrency = self.scheduler.max_concurrency();
        match self.bridge.metadata() {
            Some(metadata) => StatusResponse {
                extension_connected: true,
                browser_instance_id: Some(metadata.browser_instance_id),
                extension_version: Some(metadata.extension_version),
                active_jobs,
                queued_jobs,
                max_concurrency,
            },
            None => StatusResponse {
                extension_connected: false,
                browser_instance_id: None,
                extension_version: None,
                active_jobs,
                queued_jobs,
                max_concurrency,
            },
        }
    }
}

/// What is said about a job that does not exist changes nothing and answers nobody.
pub proof fn unknown_jobs_change_nothing(
    state: SchedulerView,
    id: u128,
    reason: Option<String>,
    final_report: bool,
)
    requires
        !state.jobs.contains_key(id),
    ensures
        state.job_ended(id) == state,
        state.job_cleaned_up(id) == state,
        state.job_cancelled(id, reason) == state,
        state.report_refused(Some(id), final_report) == state,
        !state.refusal_answers(Some(id), final_report),
{
}

/// After an extension went away with searches to clean up, no other instance is let in.
pub proof fn only_the_owner_of_the_cleanup_is_let_in(
    state: StateView,
    browser_instance_id: Seq<char>,
    hello: HelloPayload,
)
    requires
        state.scheduler.wf(),
        state.scheduler.disconnected(browser_instance_id).jobs.dom().len() > 0,
        hello.browser_instance_id@ != browser_instance_id,
    ensures
        state.bridge.refusal(
            hello,
            state.scheduler.disconnected(browser_instance_id).cleanup_owner,
        ) is Some,
{
    a_disconnect_answers_everyone(state.scheduler, browser_instance_id);
}

} // verus!
