//! What the extension says: how a session starts, and what each message means.
use vstd::prelude::*;

use crate::daemon::error::{ErrorCode, ErrorDetail};
use crate::daemon::messages::{InboundEnvelope, OutboundMessage, PROTOCOL_VERSION};
use crate::daemon::model::{HelloPayload, SearchResult};
use crate::text::{decimal, decimal_text, joined, same_text};

verus! {

/// The first thing that comes over a new connection.
pub enum FirstMessage {
    /// A text, read as a message, or why it cannot be read.
    Text(Result<InboundEnvelope, String>),
    /// Anything else: another frame, the end of the connection, or nothing in time.
    Other,
}

/// What a message asks for.
pub enum Request {
    Complete { id: u128, results: Vec<SearchResult> },
    Fail { id: u128, error: ErrorDetail },
    CleanupComplete { id: u128 },
    /// Nothing is to be done.
    Notice,
    /// A ping is to be answered with its nonce, or with null where it has none.
    Answer { nonce: Option<String> },
}

/// What is wrong with a hello, if anything is.
pub open spec fn hello_fault(envelope: Result<InboundEnvelope, String>) -> Option<Seq<char>> {
    match envelope {
        Err(text) => Some("hello JSON 无效: "@ + text@),
        Ok(envelope) => if envelope.version != PROTOCOL_VERSION || envelope.message_type@
            != "hello"@ {
            Some(
                "第一条消息必须是协议版本 "@ + decimal(PROTOCOL_VERSION as nat) + " 的 hello"@,
            )
        } else {
            match envelope.payload.hello {
                Err(text) => Some("hello payload 无效: "@ + text@),
                Ok(_) => None,
            }
        },
    }
}

fn protocol_fault(message: String) -> (result: ErrorDetail)
    ensures
        result == (ErrorDetail { code: ErrorCode::ProtocolError, message, retryable: false }),
{
    ErrorDetail::new(ErrorCode::ProtocolError, message, false)
}

/// Reads a message as the hello of an extension.
pub fn parse_hello(envelope: Result<InboundEnvelope, String>) -> (result: Result<
    HelloPayload,
    ErrorDetail,
>)
    ensures
        match hello_fault(envelope) {
            Some(message) => {
                &&& result matches Err(error)
                &&& error.says(ErrorCode::ProtocolError, message, false)
            },
            None => result == Ok::<HelloPayload, ErrorDetail>(envelope->Ok_0.payload.hello->Ok_0),
        },
{
    let envelope = match envelope {
        Ok(envelope) => envelope,
        Err(text) => {
            return Err(protocol_fault(joined("hello JSON 无效: ", text.as_str())));
        },
    };
    if envelope.version != PROTOCOL_VERSION || !same_text(envelope.message_type.as_str(), "hello") {
        let start = joined(
            "第一条消息必须是协议版本 ",
            decimal_text(PROTOCOL_VERSION as u64).as_str(),
        );
        return Err(protocol_fault(joined(start.as_str(), " 的 hello")));
    }
    match envelope.payload.hello {
        Ok(hello) => Ok(hello),
        Err(text) => Err(protocol_fault(joined("hello payload 无效: ", text.as_str()))),
    }
}

/// Reads the first thing that comes over a new connection, which has to be a hello.
pub fn first_hello(first: FirstMessage) -> (result: Result<HelloPayload, ErrorDetail>)
    ensures
        match first {
            FirstMessage::Text(envelope) => match hello_fault(envelope) {
                Some(message) => {
                    &&& result matches Err(error)
                    &&& error.says(ErrorCode::ProtocolError, message, false)
                },
                None => result == Ok::<HelloPayload, ErrorDetail>(
                    envelope->Ok_0.payload.hello->Ok_0,
                ),
            },
            FirstMessage::Other => {
                &&& result matches Err(error)
                &&& error.says(ErrorCode::ProtocolError, "连接后必须先发送 hello"@, false)
            },
        },
{
    match first {
        FirstMessage::Text(envelope) => parse_hello(envelope),
        FirstMessage::Other => Err(protocol_fault("连接后必须先发送 hello".to_owned())),
    }
}

/// Whether messages of this type need no action.
pub open spec fn is_notice(message_type: Seq<char>) -> bool {
    message_type == "accepted"@ || message_type == "progress"@ || message_type == "pong"@
}

/// What is wrong with a message of an accepted extension, if anything is.
pub open spec fn message_fault(envelope: Result<InboundEnvelope, String>) -> Option<Seq<char>> {
    match envelope {
        Err(text) => Some("消息 JSON 无效: "@ + text@),
        Ok(envelope) => if envelope.version != PROTOCOL_VERSION {
            Some("消息协议版本不受支持"@)
        } else if envelope.message_type@ == "search_result"@ {
            if envelope.request_id is None {
                Some("缺少 requestId"@)
            } else {
                match envelope.payload.results {
                    Err(text) => Some("search_result payload 无效: "@ + text@),
                    Ok(_) => None,
                }
            }
        } else if envelope.message_type@ == "error"@ {
            if envelope.request_id is None {
                Some("error 缺少 requestId"@)
            } else {
                match envelope.payload.error {
                    Err(text) => Some("error payload 无效: "@ + text@),
                    Ok(_) => None,
                }
            }
        } else if envelope.message_type@ == "cleanup_complete"@ {
            if envelope.request_id is None {
                Some("cleanup_complete 缺少 requestId"@)
            } else {
                None
            }
        } else if is_notice(envelope.message_type@) || envelope.message_type@ == "ping"@ {
            None
        } else {
            Some("不支持的消息类型: "@ + envelope.message_type@)
        },
    }
}

/// What a faultless message asks for.
pub open spec fn request_of(envelope: InboundEnvelope) -> Request {
    if envelope.message_type@ == "search_result"@ {
        Request::Complete {
            id: envelope.request_id->0,
            results: envelope.payload.results->Ok_0.results,
        }
    } else if envelope.message_type@ == "error"@ {
        Request::Fail { id: envelope.request_id->0, error: envelope.payload.error->Ok_0 }
    } else if envelope.message_type@ == "cleanup_complete"@ {
        Request::CleanupComplete { id: envelope.request_id->0 }
    } else if envelope.message_type@ == "ping"@ {
        Request::Answer { nonce: envelope.payload.nonce }
    } else {
        Request::Notice
    }
}

/// Finds out what a message asks for, or what is wrong with it.
pub fn read_message(envelope: Result<InboundEnvelope, String>) -> (result: Result<
    Request,
    ErrorDetail,
>)
    ensures
        match message_fault(envelope) {
            Some(message) => {
                &&& result matches Err(error)
                &&& error.says(ErrorCode::ProtocolError, message, false)
            },
            None => result == Ok::<Request, ErrorDetail>(request_of(envelope->Ok_0)),
        },
{
    let envelope = match envelope {
        Ok(envelope) => envelope,
        Err(text) => {
            return Err(protocol_fault(joined("消息 JSON 无效: ", text.as_str())));
        },
    };
    if envelope.version != PROTOCOL_VERSION {
        return Err(protocol_fault("消息协议版本不受支持".to_owned()));
    }
    proof {
        reveal_strlit("search_result");
        reveal_strlit("error");
        reveal_strlit("cleanup_complete");
        reveal_strlit("accepted");
        reveal_strlit("progress");
        reveal_strlit("pong");
        reveal_strlit("ping");
        assert("pong"@[1] != "ping"@[1]);
    }
    let message_type = envelope.message_type.as_str();
    if same_text(message_type, "search_result") {
        let id = match envelope.request_id {
            Some(id) => id,
            None => {
                return Err(protocol_fault("缺少 requestId".to_owned()));
            },
        };
        match envelope.payload.results {
            Ok(payload) => Ok(Request::Complete { id, results: payload.results }),
            Err(text) => Err(protocol_fault(joined("search_result payload 无效: ", text.as_str()))),
        }
    } else if same_text(message_type, "error") {
        let id = match envelope.request_id {
            Some(id) => id,
            None => {
                return Err(protocol_fault("error 缺少 requestId".to_owned()));
            },
        };
        match envelope.payload.error {
            Ok(error) => Ok(Request::Fail { id, error }),
            Err(text) => Err(protocol_fault(joined("error payload 无效: ", text.as_str()))),
        }
    } else if same_text(message_type, "cleanup_complete") {
        match envelope.request_id {
            Some(id) => Ok(Request::CleanupComplete { id }),
            None => Err(protocol_fault("cleanup_complete 缺少 requestId".to_owned())),
        }
    } else if same_text(message_type, "accepted") || same_text(message_type, "progress")
        || same_text(message_type, "pong") {
        Ok(Request::Notice)
    } else if same_text(message_type, "ping") {
        Ok(Request::Answer { nonce: envelope.payload.nonce })
    } else {
        Err(protocol_fault(joined("不支持的消息类型: ", message_type)))
    }
}

/// Something that comes over an accepted connection.
pub enum Frame {
    /// A text, read as a message, or why it cannot be read.
    Text(Result<InboundEnvelope, String>),
    Binary,
    Ping(Vec<u8>),
    Pong,
    Close,
    /// The connection is broken.
    Broken,
    /// Nothing more will come.
    End,
}

/// What a frame leads to.
pub enum FrameStep {
    /// The message is to be taken in.
    Receive(Result<InboundEnvelope, String>),
    /// The extension is to be answered.
    Answer(OutboundMessage),
    /// The session is over.
    End,
    Ignore,
}

/// Decides what a frame leads to.
pub fn frame_step(frame: Frame) -> (step: FrameStep)
    ensures
        step == match frame {
            Frame::Text(envelope) => FrameStep::Receive(envelope),
            Frame::Ping(data) => FrameStep::Answer(OutboundMessage::PongData { data }),
            Frame::Close => FrameStep::End,
            Frame::Broken => FrameStep::End,
            Frame::End => FrameStep::End,
            Frame::Binary => FrameStep::Ignore,
            Frame::Pong => FrameStep::Ignore,
        },
{
    match frame {
        Frame::Text(envelope) => FrameStep::Receive(envelope),
        Frame::Ping(data) => FrameStep::Answer(OutboundMessage::PongData { data }),
        Frame::Close | Frame::Broken | Frame::End => FrameStep::End,
        Frame::Binary | Frame::Pong => FrameStep::Ignore,
    }
}

} // verus!
