use std::sync::Arc;

use browser_search::daemon::bridge::{send_outcome, BridgeHub};
use browser_search::daemon::config::Config;
use browser_search::daemon::error::{ErrorCode, ErrorDetail};
use browser_search::daemon::messages::{
    InboundEnvelope, InboundPayload, OutboundMessage, PROTOCOL_VERSION,
};
use browser_search::daemon::model::{HelloPayload, SearchResultPayload};
use browser_search::daemon::session::{
    first_hello, frame_step, parse_hello, read_message, FirstMessage, Frame, FrameStep, Request,
};
use tokio::sync::mpsc;

fn hello(browser_instance_id: &str) -> HelloPayload {
    HelloPayload {
        extension_token: "extension-token".into(),
        browser_instance_id: browser_instance_id.into(),
        browser_name: "Chrome".into(),
        extension_version: "0.1.0".into(),
        protocol_version: PROTOCOL_VERSION,
    }
}

fn hub(browser_instance_id: &str) -> BridgeHub {
    let mut config = Config::default();
    config.bridge.extension_token = "extension-token".into();
    config.bridge.browser_instance_id = browser_instance_id.into();
    BridgeHub::new(Arc::new(config))
}

fn envelope(message_type: &str, request_id: Option<u128>) -> InboundEnvelope {
    InboundEnvelope {
        version: PROTOCOL_VERSION,
        message_type: message_type.to_owned(),
        request_id,
        payload: InboundPayload {
            hello: Err("no hello".to_owned()),
            results: Err("no results".to_owned()),
            error: Err("no error".to_owned()),
            nonce: None,
        },
    }
}

fn fault(message: Result<InboundEnvelope, String>) -> String {
    let error = match read_message(message) {
        Ok(_) => panic!("the message is accepted"),
        Err(error) => error,
    };
    assert_eq!(error.code, ErrorCode::ProtocolError);
    assert!(!error.retryable);
    error.message
}

#[test]
fn configured_browser_instance_is_enforced() {
    let mut hub = hub("allowed-browser");
    let (sender, _receiver) = mpsc::channel(1);

    let error = hub
        .register(hello("other-browser"), sender, None)
        .unwrap_err();

    assert_eq!(error.code, ErrorCode::InstanceConflict);
    assert!(!error.retryable);
    assert!(!hub.is_connected());
}

#[test]
fn empty_browser_instance_accepts_extension() {
    let mut hub = hub("");
    let (sender, _receiver) = mpsc::channel(1);

    hub.register(hello("any-browser"), sender, None).unwrap();

    assert_eq!(hub.metadata().unwrap().browser_instance_id, "any-browser");
}

#[test]
fn pending_cleanup_requires_the_same_browser_instance() {
    let mut hub = hub("");
    let (sender, _receiver) = mpsc::channel(1);

    let error = hub
        .register(hello("other-browser"), sender, Some("cleanup-owner"))
        .unwrap_err();

    assert_eq!(error.code, ErrorCode::InstanceConflict);
    assert!(error.retryable);
    assert!(!hub.is_connected());
}

#[test]
fn full_outgoing_queue_is_rejected_without_waiting() {
    let mut hub = hub("");
    let (sender, _receiver) = mpsc::channel(1);

    hub.register(hello("any-browser"), sender, None).unwrap();
    let message = |sequence: &str| OutboundMessage::Pong {
        nonce: sequence.to_owned(),
    };
    hub.send_json(message("1")).unwrap();

    let result = hub.send_json(message("2")).unwrap_err();

    assert_eq!(result.code, ErrorCode::BrowserUnavailable);
    assert!(result.message.contains("写入队列不可用"));
    assert_eq!(
        result.message,
        "扩展连接写入队列不可用: no available capacity"
    );
}

#[test]
fn a_closed_channel_is_reported() {
    let mut hub = hub("");
    let (sender, receiver) = mpsc::channel(1);
    hub.register(hello("any-browser"), sender, None).unwrap();
    drop(receiver);
    let error = hub.send_cancel(7, "x").unwrap_err();
    assert_eq!(error.message, "扩展连接写入队列不可用: channel closed");
    assert!(error.retryable);
}

#[test]
fn refused_extensions_are_told_why() {
    let mut hub = hub("chrome-1");
    let (sender, _receiver) = mpsc::channel(1);
    let mut wrong_token = hello("chrome-1");
    wrong_token.extension_token.push('x');
    wrong_token.protocol_version = 9;
    let error = hub
        .register(wrong_token, sender.clone(), None)
        .unwrap_err();
    assert_eq!(error.code, ErrorCode::Unauthorized);
    assert_eq!(error.message, "扩展 token 无效");

    let mut wrong_version = hello("chrome-2");
    wrong_version.protocol_version = 2;
    let error = hub
        .register(wrong_version, sender.clone(), None)
        .unwrap_err();
    assert_eq!(error.code, ErrorCode::ProtocolError);
    assert_eq!(error.message, "扩展协议版本不受支持");

    let error = hub
        .register(hello("chrome-2"), sender.clone(), Some("chrome-1"))
        .unwrap_err();
    assert_eq!(error.message, "浏览器实例与配置不匹配");

    hub.register(hello("chrome-1"), sender.clone(), Some("chrome-1"))
        .unwrap();
    let error = hub
        .register(hello("chrome-1"), sender, None)
        .unwrap_err();
    assert_eq!(error.code, ErrorCode::InstanceConflict);
    assert_eq!(error.message, "已有 Chrome 扩展实例连接");
    assert!(error.retryable);
}

#[test]
fn a_closing_session_takes_no_messages_and_keeps_its_place() {
    let mut hub = hub("");
    let (sender, mut receiver) = mpsc::channel(4);
    let session = hub.register(hello("a"), sender.clone(), None).unwrap();
    assert!(hub.is_connected());
    hub.send_cancel(7, "stop").unwrap();
    match receiver.try_recv() {
        Ok(OutboundMessage::Cancel { request_id, reason }) => {
            assert_eq!(request_id, 7);
            assert_eq!(reason, "stop");
        }
        _ => panic!("a cancel message is expected"),
    }
    assert!(!hub.begin_disconnect(session ^ 1));
    assert!(hub.begin_disconnect(session));
    assert!(!hub.begin_disconnect(session));
    assert!(!hub.is_connected());
    assert!(hub.metadata().is_none());
    let error = hub.send_cancel(7, "stop").unwrap_err();
    assert_eq!(error.code, ErrorCode::BrowserUnavailable);
    assert_eq!(error.message, "Chrome 扩展未连接");
    assert!(hub.register(hello("b"), sender.clone(), None).is_err());
    assert!(!hub.disconnect(session ^ 1));
    assert!(hub.disconnect(session));
    assert!(!hub.disconnect(session));
    assert!(hub.register(hello("b"), sender, None).is_ok());
}

#[test]
fn what_the_channel_says_is_handed_on() {
    assert!(send_outcome(Ok(())).is_ok());
    let error = send_outcome(Err("full".to_owned())).unwrap_err();
    assert_eq!(error.message, "扩展连接写入队列不可用: full");
    assert_eq!(error.code, ErrorCode::BrowserUnavailable);
}

#[test]
fn messages_carry_their_types() {
    let cases = [
        (
            OutboundMessage::Cancel {
                request_id: 1,
                reason: String::new(),
            },
            "cancel",
        ),
        (
            OutboundMessage::Pong {
                nonce: String::new(),
            },
            "pong",
        ),
        (OutboundMessage::PongData { data: Vec::new() }, "pong"),
        (
            OutboundMessage::Error {
                about: None,
                error: ErrorDetail::timeout(String::new()),
            },
            "error",
        ),
        (
            OutboundMessage::Welcome {
                session_id: 1,
                ping_interval_seconds: 20,
                min_operation_interval_ms: 4000,
            },
            "welcome",
        ),
        (OutboundMessage::Ping { id: 1 }, "ping"),
    ];
    for (message, name) in cases {
        assert_eq!(message.message_type(), name);
    }
}

#[test]
fn a_session_starts_with_a_hello() {
    let mut message = envelope("hello", None);
    message.payload.hello = Ok(hello("chrome-1"));
    let parsed = parse_hello(Ok(message)).unwrap();
    assert_eq!(parsed.browser_instance_id, "chrome-1");

    let text = |result: Result<HelloPayload, ErrorDetail>| {
        let error = result.unwrap_err();
        assert_eq!(error.code, ErrorCode::ProtocolError);
        assert!(!error.retryable);
        error.message
    };
    assert_eq!(
        text(parse_hello(Err("broken".to_owned()))),
        "hello JSON 无效: broken"
    );
    assert_eq!(
        text(parse_hello(Ok(envelope("ping", None)))),
        "第一条消息必须是协议版本 1 的 hello"
    );
    let mut old = envelope("hello", None);
    old.version = 0;
    assert_eq!(
        text(parse_hello(Ok(old))),
        "第一条消息必须是协议版本 1 的 hello"
    );
    assert_eq!(
        text(first_hello(FirstMessage::Text(Ok(envelope("hello", None))))),
        "hello payload 无效: no hello"
    );
    assert_eq!(
        text(first_hello(FirstMessage::Other)),
        "连接后必须先发送 hello"
    );
}

#[test]
fn faulty_messages_are_refused() {
    assert_eq!(fault(Err("broken".to_owned())), "消息 JSON 无效: broken");
    let mut old = envelope("ping", None);
    old.version = 2;
    assert_eq!(fault(Ok(old)), "消息协议版本不受支持");
    assert_eq!(fault(Ok(envelope("search_result", None))), "缺少 requestId");
    assert_eq!(
        fault(Ok(envelope("search_result", Some(1)))),
        "search_result payload 无效: no results"
    );
    assert_eq!(fault(Ok(envelope("error", None))), "error 缺少 requestId");
    assert_eq!(
        fault(Ok(envelope("error", Some(1)))),
        "error payload 无效: no error"
    );
    assert_eq!(
        fault(Ok(envelope("cleanup_complete", None))),
        "cleanup_complete 缺少 requestId"
    );
    assert_eq!(fault(Ok(envelope("hello", None))), "不支持的消息类型: hello");
}

#[test]
fn messages_ask_for_what_their_types_say() {
    for name in ["accepted", "progress", "pong"] {
        assert!(matches!(
            read_message(Ok(envelope(name, None))),
            Ok(Request::Notice)
        ));
    }
    assert!(matches!(
        read_message(Ok(envelope("cleanup_complete", Some(3)))),
        Ok(Request::CleanupComplete { id: 3 })
    ));
    match read_message(Ok(envelope("ping", None))) {
        Ok(Request::Answer { nonce }) => assert_eq!(nonce, None),
        _ => panic!("an answer is expected"),
    }
    let mut results = envelope("search_result", Some(4));
    results.payload.results = Ok(SearchResultPayload {
        results: Vec::new(),
    });
    assert!(matches!(
        read_message(Ok(results)),
        Ok(Request::Complete { id: 4, .. })
    ));
    let mut failure = envelope("error", Some(5));
    failure.payload.error = Ok(ErrorDetail::timeout("slow".to_owned()));
    match read_message(Ok(failure)) {
        Ok(Request::Fail { id, error }) => {
            assert_eq!(id, 5);
            assert_eq!(error.message, "slow");
        }
        _ => panic!("a failure is expected"),
    }
}

#[test]
fn frames_lead_to_their_steps() {
    match frame_step(Frame::Text(Err("broken".to_owned()))) {
        FrameStep::Receive(Err(text)) => assert_eq!(text, "broken"),
        _ => panic!("a message is expected"),
    }
    match frame_step(Frame::Ping(vec![1, 2])) {
        FrameStep::Answer(OutboundMessage::PongData { data }) => assert_eq!(data, [1, 2]),
        _ => panic!("an answer is expected"),
    }
    for frame in [Frame::Close, Frame::Broken, Frame::End] {
        assert!(matches!(frame_step(frame), FrameStep::End));
    }
    for frame in [Frame::Binary, Frame::Pong] {
        assert!(matches!(frame_step(frame), FrameStep::Ignore));
    }
}
