use std::sync::Arc;

use browser_search::daemon::config::Config;
use browser_search::daemon::error::{ErrorCode, ErrorDetail};
use browser_search::daemon::jobs::{keep_results, DispatchStep, JobScheduler};
use browser_search::daemon::pending_job::{
    CancellationResult, DispatchCompletion, DispatchPhase, PendingJob,
};
use browser_search::daemon::model::{SearchCommand, SearchKind, SearchRequest, SearchResult};

fn scheduler(max_concurrency: usize, max_queue_size: usize) -> JobScheduler {
    let mut config = Config::default();
    config.executor.max_concurrency = max_concurrency;
    config.executor.max_queue_size = max_queue_size;
    JobScheduler::new(Arc::new(config))
}

fn command(query: &str, limit: u32) -> SearchCommand {
    let config = Config::default();
    let request = SearchRequest {
        query: query.to_owned(),
        start: 0,
        limit,
        timeout_ms: None,
    };
    let request = request.normalized(&config).unwrap();
    SearchCommand::new(SearchKind::Web, request, &config).unwrap()
}

fn result(title: &str) -> SearchResult {
    let mut result = SearchResult::new();
    result.insert("title".to_owned(), title.to_owned());
    result
}

/// Runs the dispatcher until it has to wait, and accepts every message. Returns the queries sent.
fn run(scheduler: &mut JobScheduler) -> Vec<String> {
    let mut sent = Vec::new();
    loop {
        match scheduler.dispatch_next() {
            DispatchStep::Wait => return sent,
            DispatchStep::Continue => {}
            DispatchStep::Search { id, command } => {
                sent.push(command.query);
                let end = scheduler.finish_dispatch(id, Ok(()));
                assert!(end.reply.is_none());
            }
        }
    }
}

#[test]
fn jobs_are_served_in_turn_and_within_the_slots() {
    let mut scheduler = scheduler(2, 8);
    let first = scheduler.enqueue(true, command("one", 5)).unwrap();
    scheduler.enqueue(true, command("two", 5)).unwrap();
    scheduler.enqueue(true, command("three", 5)).unwrap();
    assert_eq!(scheduler.queued_jobs(), 3);
    assert_eq!(run(&mut scheduler), ["one", "two"]);
    assert_eq!(scheduler.active_jobs(), 2);
    assert_eq!(scheduler.max_concurrency(), 2);
    assert!(scheduler.complete(first, Vec::new()).unwrap().is_ok());
    assert_eq!(run(&mut scheduler), ["three"]);
    assert_eq!(scheduler.active_jobs(), 2);
}

#[test]
fn a_missing_extension_and_a_full_queue_are_reported() {
    let mut scheduler = scheduler(1, 1);
    let error = scheduler.enqueue(false, command("x", 5)).unwrap_err();
    assert_eq!(error.code, ErrorCode::BrowserUnavailable);
    assert_eq!(error.message, "Chrome 扩展尚未连接");
    assert!(error.retryable);
    scheduler.enqueue(true, command("x", 5)).unwrap();
    let error = scheduler.enqueue(true, command("y", 5)).unwrap_err();
    assert_eq!(error.code, ErrorCode::QueueFull);
    assert_eq!(error.message, "搜索任务队列已满");
    assert!(error.retryable);
    assert_eq!(scheduler.queued_jobs(), 1);
}

#[test]
fn ids_are_random_uuids() {
    let mut scheduler = scheduler(1, 8);
    let a = scheduler.enqueue(true, command("x", 5)).unwrap();
    let b = scheduler.enqueue(true, command("x", 5)).unwrap();
    assert_ne!(a, b);
    assert_eq!(uuid::Uuid::from_u128(a).get_version_num(), 4);
}

#[test]
fn results_are_filtered_and_cut_to_the_limit() {
    let mut scheduler = scheduler(1, 8);
    let id = scheduler.enqueue(true, command("x", 2)).unwrap();
    assert_eq!(run(&mut scheduler), ["x"]);
    let found = vec![SearchResult::new(), result("a"), result("b"), result("c")];
    let results = scheduler.complete(id, found).unwrap().unwrap();
    let titles: Vec<&str> = results
        .iter()
        .map(|result| result.get("title").unwrap().as_str())
        .collect();
    assert_eq!(titles, ["a", "b"]);
    assert!(scheduler.complete(id, Vec::new()).is_none());
}

#[test]
fn only_filled_results_are_kept() {
    let kept = keep_results(vec![result("a"), SearchResult::new(), result("b")], 5);
    assert_eq!(kept.len(), 2);
    assert_eq!(kept[1].get("title").unwrap(), "b");
    assert!(keep_results(vec![result("a")], 0).is_empty());
}

#[test]
fn errors_of_the_extension_are_handed_on() {
    let mut scheduler = scheduler(1, 8);
    let id = scheduler.enqueue(true, command("x", 2)).unwrap();
    let error = ErrorDetail::new(ErrorCode::NavigationFailed, "gone".to_owned(), true);
    assert!(scheduler.extension_error(id, error.clone()).is_none());
    run(&mut scheduler);
    let reply = scheduler.extension_error(id, error).unwrap().unwrap_err();
    assert_eq!(reply.code, ErrorCode::NavigationFailed);
    assert_eq!(scheduler.active_jobs(), 0);
}

#[test]
fn a_failed_dispatch_answers_the_caller_and_frees_the_slot() {
    let mut scheduler = scheduler(1, 8);
    let id = scheduler.enqueue(true, command("x", 2)).unwrap();
    assert!(matches!(scheduler.dispatch_next(), DispatchStep::Continue));
    assert!(matches!(scheduler.dispatch_next(), DispatchStep::Continue));
    assert!(matches!(
        scheduler.dispatch_next(),
        DispatchStep::Search { .. }
    ));
    assert_eq!(scheduler.active_jobs(), 1);
    let error = ErrorDetail::browser_unavailable("lost".to_owned());
    let end = scheduler.finish_dispatch(id, Err(error));
    assert_eq!(end.reply.unwrap().unwrap_err().message, "lost");
    assert!(end.send_cancel.is_none());
    assert_eq!(scheduler.active_jobs(), 0);
}

#[test]
fn a_queued_job_is_gone_once_cancelled() {
    let mut scheduler = scheduler(1, 8);
    let id = scheduler.enqueue(true, command("x", 2)).unwrap();
    let cancelled = scheduler.cancel(id, "not needed");
    let error = cancelled.reply.unwrap().unwrap_err();
    assert_eq!(error.code, ErrorCode::Cancelled);
    assert_eq!(error.message, "not needed");
    assert!(!error.retryable);
    assert!(cancelled.send_cancel.is_none());
    assert!(!cancelled.cleanup_pending);
    assert!(run(&mut scheduler).is_empty());
    assert_eq!(scheduler.active_jobs(), 0);
}

#[test]
fn cancelled_searches_hold_up_others_until_the_cleanup() {
    let mut scheduler = scheduler(2, 8);
    let first = scheduler.enqueue(true, command("one", 2)).unwrap();
    assert_eq!(run(&mut scheduler), ["one"]);
    let cancelled = scheduler.timeout_job(first);
    let error = cancelled.reply.unwrap().unwrap_err();
    assert_eq!(error.code, ErrorCode::Timeout);
    assert_eq!(error.message, "搜索任务超时");
    assert_eq!(cancelled.send_cancel.as_deref(), Some("timeout"));
    assert!(cancelled.cleanup_pending);
    let again = scheduler.cancel(first, "again");
    assert!(again.reply.is_none());
    assert!(again.send_cancel.is_none());
    assert!(again.cleanup_pending);

    scheduler.enqueue(true, command("two", 2)).unwrap();
    assert!(run(&mut scheduler).is_empty());
    assert_eq!(scheduler.active_jobs(), 2);
    scheduler.cleanup_complete(first);
    assert_eq!(run(&mut scheduler), ["two"]);
    assert_eq!(scheduler.active_jobs(), 1);
}

#[test]
fn a_cancellation_during_the_dispatch_is_sent_afterwards() {
    let mut scheduler = scheduler(1, 8);
    let id = scheduler.enqueue(true, command("x", 2)).unwrap();
    scheduler.dispatch_next();
    scheduler.dispatch_next();
    assert!(matches!(
        scheduler.dispatch_next(),
        DispatchStep::Search { .. }
    ));
    let cancelled = scheduler.cancel(id, "too late");
    assert!(cancelled.reply.is_some());
    assert!(cancelled.send_cancel.is_none());
    let end = scheduler.finish_dispatch(id, Ok(()));
    assert_eq!(end.send_cancel.as_deref(), Some("too late"));
    assert!(end.reply.is_none());
    assert!(scheduler.complete(id, vec![result("late")]).is_none());
    assert_eq!(scheduler.active_jobs(), 0);
}

#[test]
fn protocol_errors_cancel_without_a_message() {
    let mut scheduler = scheduler(1, 8);
    let id = scheduler.enqueue(true, command("x", 2)).unwrap();
    run(&mut scheduler);
    let error = ErrorDetail::new(ErrorCode::ProtocolError, "nonsense".to_owned(), false);
    let reply = scheduler.protocol_error(id, error).unwrap().unwrap_err();
    assert_eq!(reply.message, "nonsense");
    assert_eq!(scheduler.active_jobs(), 1);
    scheduler.cleanup_complete(id);
    assert_eq!(scheduler.active_jobs(), 0);
}

#[test]
fn a_cleanup_that_nobody_waits_for_is_ignored() {
    let mut scheduler = scheduler(1, 8);
    let id = scheduler.enqueue(true, command("x", 2)).unwrap();
    run(&mut scheduler);
    scheduler.cleanup_complete(id);
    scheduler.cleanup_complete(id + 1);
    assert_eq!(scheduler.active_jobs(), 1);
    assert!(scheduler.complete(id, Vec::new()).is_some());
}

#[test]
fn the_instance_that_went_away_has_to_come_back() {
    let mut scheduler = scheduler(1, 8);
    let searching = scheduler.enqueue(true, command("one", 2)).unwrap();
    let waiting = scheduler.enqueue(true, command("two", 2)).unwrap();
    assert_eq!(run(&mut scheduler), ["one"]);
    let mut replies = scheduler.handle_disconnect("chrome-1");
    replies.sort_by_key(|reply| reply.id);
    let mut expected = [searching, waiting];
    expected.sort();
    let ids: Vec<u128> = replies.iter().map(|reply| reply.id).collect();
    assert_eq!(ids, expected);
    for reply in replies {
        let error = reply.outcome.unwrap_err();
        assert_eq!(error.code, ErrorCode::BrowserUnavailable);
        assert_eq!(error.message, "Chrome 扩展连接已断开");
        assert!(error.retryable);
    }
    assert_eq!(
        scheduler.required_cleanup_instance().as_deref(),
        Some("chrome-1")
    );
    assert!(run(&mut scheduler).is_empty());
    scheduler.handle_reconnect("chrome-2");
    assert_eq!(
        scheduler.required_cleanup_instance().as_deref(),
        Some("chrome-1")
    );
    scheduler.handle_reconnect("chrome-1");
    assert_eq!(scheduler.required_cleanup_instance(), None);
    assert!(run(&mut scheduler).is_empty());
    assert_eq!(scheduler.active_jobs(), 0);
}

#[test]
fn nobody_has_to_come_back_when_nothing_was_sent() {
    let mut scheduler = scheduler(1, 8);
    scheduler.enqueue(true, command("one", 2)).unwrap();
    assert_eq!(scheduler.handle_disconnect("chrome-1").len(), 1);
    assert_eq!(scheduler.required_cleanup_instance(), None);
    assert!(scheduler.handle_disconnect("chrome-1").is_empty());
}

#[test]
fn a_job_answers_and_ends_once() {
    let error = || ErrorDetail::timeout("late".to_owned());
    let mut job = PendingJob::new(7, command("x", 2));
    assert!(job.prepare_dispatch());
    assert!(!job.prepare_dispatch());
    match job.request_cancellation(Err(error()), Some("stop".to_owned())) {
        CancellationResult::PendingCleanup {
            response,
            send_cancel,
            register_blocker,
        } => {
            assert!(response.is_some());
            assert!(send_cancel.is_none());
            assert!(register_blocker);
        }
        _ => panic!("a pending cleanup is expected"),
    }
    match job.request_cancellation(Err(error()), None) {
        CancellationResult::PendingCleanup {
            response,
            register_blocker,
            ..
        } => {
            assert!(response.is_none());
            assert!(!register_blocker);
        }
        _ => panic!("a pending cleanup is expected"),
    }
    match job.finish_dispatch(Ok(())) {
        DispatchCompletion::SendCancel(reason) => assert_eq!(reason.as_deref(), Some("stop")),
        _ => panic!("a cancel message is expected"),
    }
    assert_eq!(job.phase, DispatchPhase::Dispatched);
    let ending = job.finish_after_cleanup(None, true).unwrap();
    assert!(ending.response.is_none());
    assert!(ending.permit);
    assert!(ending.had_cleanup_blocker);

    assert!(!job.prepare_dispatch());
    assert!(matches!(
        job.finish_dispatch(Err(error())),
        DispatchCompletion::Skipped
    ));
    assert!(matches!(
        job.request_cancellation(Err(error()), None),
        CancellationResult::AlreadyHandled
    ));
    assert!(job.finish_after_cleanup(Some(Err(error())), false).is_none());
}
