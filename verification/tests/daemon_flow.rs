use browser_search::daemon::api::{
    health, plan_search, require_bearer, search_answer, SearchPlan, Waited,
};
use browser_search::daemon::config::Config;
use browser_search::daemon::error::{ErrorCode, ErrorDetail};
use browser_search::daemon::messages::{
    InboundEnvelope, InboundPayload, OutboundMessage, PROTOCOL_VERSION,
};
use browser_search::daemon::model::{
    HelloPayload, SearchKind, SearchRequest, SearchResult, SearchResultPayload,
};
use browser_search::daemon::secrets::{constant_time_eq, same_secret};
use browser_search::daemon::AppState;
use tokio::sync::mpsc::{channel, Receiver};

fn test_config() -> Config {
    let mut config = Config::default();
    config.server.api_token = "api-token".into();
    config.bridge.extension_token = "extension-token".into();
    config
}

fn hello(browser_instance_id: &str) -> HelloPayload {
    HelloPayload {
        extension_token: "extension-token".to_owned(),
        browser_instance_id: browser_instance_id.to_owned(),
        browser_name: "Chrome".to_owned(),
        extension_version: "0.1.0".to_owned(),
        protocol_version: 1,
    }
}

fn request(query: &str, limit: u32) -> SearchRequest {
    SearchRequest {
        query: query.to_owned(),
        start: 0,
        limit,
        timeout_ms: None,
    }
}

fn plan(state: &AppState, kind: &str, query: &str, limit: u32) -> SearchPlan {
    match plan_search(kind, Ok(request(query, limit)), &state.config) {
        Ok(plan) => plan,
        Err(error) => panic!("no plan: {}", error.detail.message),
    }
}

fn enqueue(state: &mut AppState, kind: &str, query: &str) -> u128 {
    let plan = plan(state, kind, query, 10);
    state.enqueue(plan.command).unwrap()
}

fn run(state: &mut AppState) {
    loop {
        let step = state.dispatch();
        assert!(step.reply.is_none());
        if !step.progress {
            return;
        }
    }
}

fn envelope(message_type: &str, request_id: Option<u128>) -> InboundEnvelope {
    InboundEnvelope {
        version: PROTOCOL_VERSION,
        message_type: message_type.to_owned(),
        request_id,
        payload: InboundPayload {
            hello: Err("no hello".to_owned()),
            results: Err("no results".to_owned()),
            error: Err("no error".to_owned()),
            nonce: None,
        },
    }
}

fn next_search(receiver: &mut Receiver<OutboundMessage>) -> Option<u128> {
    match receiver.try_recv() {
        Ok(OutboundMessage::Search { request_id, .. }) => Some(request_id),
        _ => None,
    }
}

#[test]
fn protected_routes_require_bearer_token() {
    let config = test_config();
    let error = require_bearer(None, &config).unwrap_err();
    assert_eq!(error.status, 401);
    assert_eq!(error.detail.code, ErrorCode::Unauthorized);
    assert_eq!(error.detail.message, "缺少或提供了无效的 Bearer token");
    for value in ["", "api-token", "Bearer", "Bearer api-tokem", "bearer api-token"] {
        assert!(require_bearer(Some(value), &config).is_err());
    }
    assert!(require_bearer(Some("Bearer api-token"), &config).is_ok());
}

#[test]
fn search_reports_missing_extension() {
    let mut state = AppState::new(test_config());
    let plan = plan(&state, "news", "Tokyo", 10);
    assert_eq!(plan.wait_ms, 31_000);
    let error = state.enqueue(plan.command).unwrap_err();
    let answer = search_answer(SearchKind::News, Waited::Answered(Err(error)));
    match answer {
        Err(error) => assert_eq!(error.status, 503),
        Ok(_) => panic!("an error is expected"),
    }
}

#[test]
fn http_search_round_trips_through_extension_bridge() {
    let mut config = test_config();
    config.bridge.browser_instance_id = "test-browser".into();
    let mut state = AppState::new(config);
    let (sender, mut receiver) = channel(128);
    let session = state.connect(hello("test-browser"), sender).unwrap();
    assert_eq!(state.welcome(session).message_type(), "welcome");

    let plan = plan(&state, "news", "Tokyo", 5);
    let kind = plan.kind;
    let id = state.enqueue(plan.command).unwrap();
    run(&mut state);
    match receiver.try_recv() {
        Ok(OutboundMessage::Search {
            request_id,
            command,
        }) => {
            assert_eq!(request_id, id);
            assert_eq!(command.kind.as_str(), "news");
            assert_eq!(command.query, "Tokyo");
            assert_eq!(
                command.extraction.root_selectors[0],
                "[data-news-cluster-id]"
            );
            assert_eq!(
                command.extraction.fields.get("title").unwrap().selectors[0],
                "a > div > div:nth-of-type(2) > div:nth-of-type(2)"
            );
        }
        _ => panic!("a search message is expected"),
    }

    let mut result = SearchResult::new();
    for (name, value) in [
        ("url", "https://example.com/tokyo"),
        ("title", "Tokyo"),
        ("description", "News from Tokyo"),
        ("source", "Example News"),
        ("time", "2 hours ago"),
    ] {
        result.insert(name.to_owned(), value.to_owned());
    }
    let mut message = envelope("search_result", Some(id));
    message.payload.results = Ok(SearchResultPayload {
        results: vec![result],
    });
    let received = state.receive(Ok(message));
    assert!(received.failure.is_none());
    let reply = received.reply.unwrap();
    assert_eq!(reply.id, id);
    let response = match search_answer(kind, Waited::Answered(reply.outcome)) {
        Ok(response) => response,
        Err(_) => panic!("results are expected"),
    };
    let lists: Vec<indexmap::IndexMap<String, String>> = response
        .ordered()
        .into_iter()
        .map(|fields| fields.into_iter().collect())
        .collect();
    assert_eq!(
        serde_json::to_string(&lists).unwrap(),
        r#"[{"title":"Tokyo","description":"News from Tokyo","url":"https://example.com/tokyo","source":"Example News","time":"2 hours ago"}]"#
    );
}

#[test]
fn cleanup_confirmation_and_reconnect_owner_are_enforced() {
    let mut config = test_config();
    config.executor.max_concurrency = 1;
    config.executor.min_operation_interval = 80;
    let mut state = AppState::new(config);
    let (sender, mut receiver) = channel(128);
    let session = state.connect(hello("test-browser"), sender).unwrap();
    match state.welcome(session) {
        OutboundMessage::Welcome {
            session_id,
            ping_interval_seconds,
            min_operation_interval_ms,
        } => {
            assert_eq!(session_id, session);
            assert_eq!(ping_interval_seconds, 20);
            assert_eq!(min_operation_interval_ms, 80);
        }
        _ => panic!("a welcome is expected"),
    }

    let cancelled_id = enqueue(&mut state, "web", "cancelled");
    run(&mut state);
    assert_eq!(next_search(&mut receiver), Some(cancelled_id));
    let cancelled = state.cancel(cancelled_id, "test cancellation");
    let answer = search_answer(
        SearchKind::Web,
        Waited::Answered(cancelled.reply.unwrap().outcome),
    );
    assert!(matches!(answer, Err(error) if error.status == 409));
    assert!(matches!(cancelled.told, Some(Ok(()))));
    assert_eq!(state.status().active_jobs, 1);
    match receiver.try_recv() {
        Ok(OutboundMessage::Cancel { request_id, reason }) => {
            assert_eq!(request_id, cancelled_id);
            assert_eq!(reason, "test cancellation");
        }
        _ => panic!("a cancel message is expected"),
    }

    let after_cancel = enqueue(&mut state, "web", "after-cancel");
    run(&mut state);
    assert!(receiver.try_recv().is_err());
    let received = state.receive(Ok(envelope("cleanup_complete", Some(cancelled_id))));
    assert!(received.reply.is_none());
    run(&mut state);
    assert_eq!(next_search(&mut receiver), Some(after_cancel));
    let mut result = SearchResult::new();
    result.insert("title".to_owned(), "after".to_owned());
    result.insert("url".to_owned(), "https://after.example".to_owned());
    let mut message = envelope("search_result", Some(after_cancel));
    message.payload.results = Ok(SearchResultPayload {
        results: vec![result],
    });
    let reply = state.receive(Ok(message)).reply.unwrap();
    assert_eq!(reply.id, after_cancel);
    match search_answer(SearchKind::Web, Waited::Answered(reply.outcome)) {
        Ok(response) => assert_eq!(
            response.ordered(),
            vec![vec![
                ("title".to_owned(), "after".to_owned()),
                ("url".to_owned(), "https://after.example".to_owned()),
            ]]
        ),
        Err(_) => panic!("results are expected"),
    }

    let disconnected = enqueue(&mut state, "web", "disconnected");
    run(&mut state);
    assert_eq!(next_search(&mut receiver), Some(disconnected));
    let replies = state.disconnect_session(session, "test-browser");
    assert_eq!(replies.len(), 1);
    for reply in replies {
        assert_eq!(reply.id, disconnected);
        let answer = search_answer(SearchKind::Web, Waited::Answered(reply.outcome));
        assert!(matches!(answer, Err(error) if error.status == 503));
    }
    assert!(state
        .disconnect_session(session, "test-browser")
        .is_empty());
    assert_eq!(state.status().active_jobs, 1);
    assert!(!state.status().extension_connected);

    let (sender, _other) = channel(128);
    let conflict = state.connect(hello("other-browser"), sender).unwrap_err();
    assert_eq!(conflict.code, ErrorCode::InstanceConflict);
    assert!(conflict.message.contains("完成任务清理"));

    let (sender, _again) = channel(128);
    assert!(state.connect(hello("test-browser"), sender).is_ok());
    assert_eq!(state.status().active_jobs, 0);
    let status = state.status();
    assert!(status.extension_connected);
    assert_eq!(status.browser_instance_id.as_deref(), Some("test-browser"));
    assert_eq!(status.extension_version.as_deref(), Some("0.1.0"));
    assert_eq!(status.max_concurrency, 1);
    assert_eq!(status.queued_jobs, 0);
}

#[test]
fn a_search_that_cannot_be_sent_is_answered_at_once() {
    let mut state = AppState::new(test_config());
    let (sender, receiver) = channel(1);
    state.connect(hello("a"), sender).unwrap();
    let id = enqueue(&mut state, "web", "lost");
    drop(receiver);
    let mut reply = None;
    for _ in 0..3 {
        let step = state.dispatch();
        assert!(step.progress);
        reply = step.reply;
    }
    let reply = reply.unwrap();
    assert_eq!(reply.id, id);
    let error = reply.outcome.unwrap_err();
    assert_eq!(error.code, ErrorCode::BrowserUnavailable);
    assert_eq!(error.message, "扩展连接写入队列不可用: channel closed");
    assert_eq!(state.status().active_jobs, 0);
}

#[test]
fn searches_time_out_and_callers_give_up() {
    let mut state = AppState::new(test_config());
    let (sender, mut receiver) = channel(8);
    state.connect(hello("a"), sender).unwrap();
    let id = enqueue(&mut state, "web", "slow");
    let given_up = state.give_up(id);
    let error = given_up.reply.unwrap().outcome.unwrap_err();
    assert_eq!(error.code, ErrorCode::Cancelled);
    assert_eq!(error.message, "HTTP 请求等待超时");
    assert!(given_up.told.is_none());

    let id = enqueue(&mut state, "web", "slow");
    run(&mut state);
    assert_eq!(next_search(&mut receiver), Some(id));
    let timed_out = state.timeout_job(id);
    assert_eq!(
        timed_out.reply.unwrap().outcome.unwrap_err().message,
        "搜索任务超时"
    );
    match receiver.try_recv() {
        Ok(OutboundMessage::Cancel { reason, .. }) => assert_eq!(reason, "timeout"),
        _ => panic!("a cancel message is expected"),
    }
    assert!(state.timeout_job(id).reply.is_none());
}

#[test]
fn refused_messages_settle_their_jobs() {
    let mut state = AppState::new(test_config());
    let (sender, mut receiver) = channel(8);
    state.connect(hello("a"), sender).unwrap();
    let id = enqueue(&mut state, "web", "first");
    run(&mut state);
    assert_eq!(next_search(&mut receiver), Some(id));
    let received = state.receive(Ok(envelope("search_result", Some(id))));
    assert_eq!(
        received.failure.unwrap().message,
        "search_result payload 无效: no results"
    );
    let reply = received.reply.unwrap();
    assert_eq!(reply.outcome.unwrap_err().code, ErrorCode::ProtocolError);
    assert_eq!(state.status().active_jobs, 0);
    match receiver.try_recv() {
        Ok(OutboundMessage::Error { about, error }) => {
            assert_eq!(about, Some(id));
            assert_eq!(error.message, "search_result payload 无效: no results");
        }
        _ => panic!("an error message is expected"),
    }

    let id = enqueue(&mut state, "web", "second");
    run(&mut state);
    assert_eq!(next_search(&mut receiver), Some(id));
    let received = state.receive(Ok(envelope("nonsense", Some(id))));
    assert_eq!(received.reply.unwrap().id, id);
    assert_eq!(state.status().active_jobs, 1);

    let received = state.receive(Err("broken".to_owned()));
    assert!(received.reply.is_none());
    assert_eq!(received.failure.unwrap().message, "消息 JSON 无效: broken");
}

#[test]
fn failures_of_the_extension_reach_the_caller() {
    let mut state = AppState::new(test_config());
    let (sender, _receiver) = channel(8);
    state.connect(hello("a"), sender).unwrap();
    let id = enqueue(&mut state, "web", "x");
    run(&mut state);
    let mut message = envelope("error", Some(id));
    message.payload.error = Ok(ErrorDetail::new(
        ErrorCode::ExtractionFailed,
        "empty page".to_owned(),
        false,
    ));
    let reply = state.receive(Ok(message)).reply.unwrap();
    assert_eq!(reply.outcome.unwrap_err().message, "empty page");
}

#[test]
fn pings_are_answered_as_far_as_possible() {
    let mut state = AppState::new(test_config());
    let (sender, mut receiver) = channel(1);
    state.connect(hello("a"), sender).unwrap();
    let mut ping = envelope("ping", None);
    ping.payload.nonce = Some("\"abc\"".to_owned());
    let received = state.receive(Ok(ping));
    assert!(received.failure.is_none());
    assert!(received.told.is_none());
    match receiver.try_recv() {
        Ok(OutboundMessage::Pong { nonce }) => assert_eq!(nonce, "\"abc\""),
        _ => panic!("a pong is expected"),
    }
    assert!(state.receive(Ok(envelope("ping", None))).failure.is_none());
    match receiver.try_recv() {
        Ok(OutboundMessage::Pong { nonce }) => assert_eq!(nonce, "null"),
        _ => panic!("a pong is expected"),
    }
    drop(receiver);
    let received = state.receive(Ok(envelope("ping", None)));
    assert_eq!(
        received.failure.unwrap().message,
        "扩展连接写入队列不可用: channel closed"
    );
    assert!(matches!(received.told, Some(Err(_))));
}

#[test]
fn faulty_search_requests_are_answered() {
    let config = test_config();
    let refusal = |kind: &str, payload: Result<SearchRequest, String>| {
        match plan_search(kind, payload, &config) {
            Ok(_) => panic!("the request is accepted"),
            Err(error) => (error.status, error.detail.message),
        }
    };
    assert_eq!(
        refusal("maps", Err("broken".to_owned())),
        (
            400,
            "搜索类型必须是 web、news、images、videos 或 forums".to_owned()
        )
    );
    assert_eq!(
        refusal("web", Err("broken".to_owned())),
        (400, "请求 JSON 无效: broken".to_owned())
    );
    assert_eq!(
        refusal("web", Ok(request(" ", 10))),
        (400, "query 不能为空".to_owned())
    );
    let mut config = test_config();
    config.search.common.base_url = "/nowhere".to_owned();
    match plan_search("web", Ok(request("x", 10)), &config) {
        Ok(_) => panic!("the request is accepted"),
        Err(error) => {
            assert_eq!(error.status, 500);
            assert_eq!(
                error.detail.message,
                "搜索 base_url 无效: relative URL without a base"
            );
        }
    }
}

#[test]
fn waits_without_an_answer_are_answered() {
    match search_answer(SearchKind::Web, Waited::Closed) {
        Ok(_) => panic!("an error is expected"),
        Err(error) => {
            assert_eq!(error.status, 500);
            assert_eq!(error.detail.message, "搜索任务响应通道意外关闭");
            assert!(error.detail.retryable);
        }
    }
    match search_answer(SearchKind::Web, Waited::TimedOut) {
        Ok(_) => panic!("an error is expected"),
        Err(error) => {
            assert_eq!(error.status, 504);
            assert_eq!(error.detail.message, "HTTP 请求等待搜索结果超时");
        }
    }
}

#[test]
fn health_checks_are_answered() {
    let response = health("1.2.3");
    assert_eq!(response.status, "ok");
    assert_eq!(response.version, "1.2.3");
}

#[test]
fn secrets_are_compared_whole() {
    assert!(constant_time_eq(b"", b""));
    assert!(constant_time_eq(b"abc", b"abc"));
    assert!(!constant_time_eq(b"abc", b"abd"));
    assert!(!constant_time_eq(b"bbc", b"abc"));
    assert!(!constant_time_eq(b"abc", b"ab"));
    assert!(same_secret("密钥", "密钥"));
    assert!(!same_secret("密钥", "密匙"));
}
