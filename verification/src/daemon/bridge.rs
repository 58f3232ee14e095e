//! The bridge to the browser extension: who may connect, and what is sent to whom.
use std::sync::Arc;

use tokio::sync::mpsc::Sender;
use vstd::prelude::*;

use crate::daemon::config::Config;
use crate::daemon::error::{ErrorCode, ErrorDetail};
use crate::daemon::messages::{accepted, try_send, OutboundMessage, PROTOCOL_VERSION};
use crate::daemon::model::{BridgeMetadata, CommandView, HelloPayload, SearchCommand};
use crate::daemon::secrets::same_secret;
use crate::text::{joined, same_text};
use crate::unique_id::{is_random_id, new_id};

verus! {

/// A connected extension.
struct BridgeConnection {
    session_id: u128,
    metadata: BridgeMetadata,
    sender: Sender<OutboundMessage>,
    closing: bool,
}

/// Keeps the one extension that serves the daemon.
pub struct BridgeHub {
    config: Arc<Config>,
    connection: Option<BridgeConnection>,
}

/// The state of a connection.
pub struct ConnectionView {
    pub session_id: u128,
    pub metadata: BridgeMetadata,
    /// The messages that were accepted for the extension.
    pub sent: Seq<OutboundMessage>,
    /// The connection is about to go.
    pub closing: bool,
}

/// The state of a [`BridgeHub`].
pub struct HubView {
    pub config: Config,
    pub connection: Option<ConnectionView>,
}

impl HubView {
    /// Whether an extension is there to be used.
    pub open spec fn connected(self) -> bool {
        self.connection matches Some(connection) && !connection.closing
    }

    /// This state after a message was accepted for the extension.
    pub open spec fn with_sent(self, message: OutboundMessage) -> HubView {
        HubView {
            connection: match self.connection {
                Some(connection) => Some(
                    ConnectionView { sent: connection.sent.push(message), ..connection },
                ),
                None => None,
            },
            ..self
        }
    }

    /// Why an extension is turned away, if it is: the code, the message and whether it can try
    /// again.
    pub open spec fn refusal(
        self,
        hello: HelloPayload,
        required_cleanup_instance: Option<Seq<char>>,
    ) -> Option<(ErrorCode, Seq<char>, bool)> {
        if hello.extension_token@ != self.config.bridge.extension_token@ {
            Some((ErrorCode::Unauthorized, "扩展 token 无效"@, false))
        } else if hello.protocol_version != PROTOCOL_VERSION {
            Some((ErrorCode::ProtocolError, "扩展协议版本不受支持"@, false))
        } else if self.config.bridge.browser_instance_id@.len() > 0
            && self.config.bridge.browser_instance_id@ != hello.browser_instance_id@ {
            Some((ErrorCode::InstanceConflict, "浏览器实例与配置不匹配"@, false))
        } else if required_cleanup_instance matches Some(instance) && instance
            != hello.browser_instance_id@ {
            Some((ErrorCode::InstanceConflict, "原 Chrome 扩展实例仍需完成任务清理"@, true))
        } else if self.connection is Some {
            Some((ErrorCode::InstanceConflict, "已有 Chrome 扩展实例连接"@, true))
        } else {
            None
        }
    }

    /// This state with a new session for an extension.
    pub open spec fn registered(
        self,
        session_id: u128,
        hello: HelloPayload,
        sent: Seq<OutboundMessage>,
    ) -> HubView {
        HubView {
            connection: Some(
                ConnectionView {
                    session_id,
                    metadata: BridgeMetadata {
                        browser_instance_id: hello.browser_instance_id,
                        browser_name: hello.browser_name,
                        extension_version: hello.extension_version,
                        protocol_version: hello.protocol_version,
                    },
                    sent,
                    closing: false,
                },
            ),
            ..self
        }
    }

    /// Whether the session is the current one.
    pub open spec fn has_session(self, session_id: u128) -> bool {
        self.connection matches Some(connection) && connection.session_id == session_id
    }
}

/// Whether `error` says that a message could not be handed to the channel.
pub open spec fn is_channel_fault(error: ErrorDetail) -> bool {
    ||| error.says(
        ErrorCode::BrowserUnavailable,
        "扩展连接写入队列不可用: "@ + "no available capacity"@,
        true,
    )
    ||| error.says(
        ErrorCode::BrowserUnavailable,
        "扩展连接写入队列不可用: "@ + "channel closed"@,
        true,
    )
}

/// Whether `message` asks the extension to run a search.
pub open spec fn is_search(message: OutboundMessage, id: u128, command: CommandView) -> bool {
    message matches OutboundMessage::Search { request_id, command: sent } && request_id == id
        && sent@ == command
}

/// Whether `message` answers a ping: with its nonce, or with null where it has none.
pub open spec fn is_pong(message: OutboundMessage, nonce: Option<String>) -> bool {
    message matches OutboundMessage::Pong { nonce: text } && text@ == match nonce {
        Some(nonce) => nonce@,
        None => "null"@,
    }
}

/// Whether `message` asks the extension to stop a search.
pub open spec fn is_cancel(message: OutboundMessage, id: u128, why: Seq<char>) -> bool {
    message matches OutboundMessage::Cancel { request_id, reason } && request_id == id && reason@
        == why
}

/// How an attempt to send a message that is like `wanted` ends: without an extension it fails, and
/// else the message was either accepted or refused by the channel.
pub open spec fn attempted(
    before: HubView,
    wanted: spec_fn(OutboundMessage) -> bool,
    result: Result<(), ErrorDetail>,
    after: HubView,
) -> bool {
    if before.connected() {
        match result {
            Ok(_) => exists|message: OutboundMessage| #[trigger]
                wanted(message) && after == before.with_sent(message),
            Err(error) => after == before && is_channel_fault(error),
        }
    } else {
        &&& after == before
        &&& result matches Err(error)
        &&& error.says(ErrorCode::BrowserUnavailable, "Chrome 扩展未连接"@, true)
    }
}

/// How an attempt to send the given message ends.
pub open spec fn message_attempted(
    before: HubView,
    message: OutboundMessage,
    result: Result<(), ErrorDetail>,
    after: HubView,
) -> bool {
    if before.connected() {
        match result {
            Ok(_) => after == before.with_sent(message),
            Err(error) => after == before && is_channel_fault(error),
        }
    } else {
        &&& after == before
        &&& result matches Err(error)
        &&& error.says(ErrorCode::BrowserUnavailable, "Chrome 扩展未连接"@, true)
    }
}

/// How an attempt to ask for a search ends.
pub open spec fn search_attempted(
    before: HubView,
    id: u128,
    command: CommandView,
    result: Result<(), ErrorDetail>,
    after: HubView,
) -> bool {
    attempted(before, |message: OutboundMessage| is_search(message, id, command), result, after)
}

/// How an attempt to stop a search ends.
pub open spec fn cancel_attempted(
    before: HubView,
    id: u128,
    why: Seq<char>,
    result: Result<(), ErrorDetail>,
    after: HubView,
) -> bool {
    attempted(before, |message: OutboundMessage| is_cancel(message, id, why), result, after)
}

/// How an attempt to answer a ping ends.
pub open spec fn pong_attempted(
    before: HubView,
    nonce: Option<String>,
    result: Result<(), ErrorDetail>,
    after: HubView,
) -> bool {
    attempted(before, |message: OutboundMessage| is_pong(message, nonce), result, after)
}

/// What the sender of a message is told, from what the channel said.
pub fn send_outcome(result: Result<(), String>) -> (outcome: Result<(), ErrorDetail>)
    ensures
        match result {
            Ok(_) => outcome is Ok,
            Err(text) => {
                &&& outcome matches Err(error)
                &&& error.says(
                    ErrorCode::BrowserUnavailable,
                    "扩展连接写入队列不可用: "@ + text@,
                    true,
                )
            },
        },
{
    match result {
        Ok(()) => Ok(()),
        Err(text) => Err(
            ErrorDetail::browser_unavailable(joined("扩展连接写入队列不可用: ", text.as_str())),
        ),
    }
}

impl BridgeConnection {
    spec fn state(self) -> ConnectionView {
        ConnectionView {
            session_id: self.session_id,
            metadata: self.metadata,
            sent: accepted(self.sender),
            closing: self.closing,
        }
    }
}

impl View for BridgeHub {
    type V = HubView;

    closed spec fn view(&self) -> HubView {
        HubView {
            config: *self.config,
            connection: match self.connection {
                Some(connection) => Some(connection.state()),
                None => None,
            },
        }
    }
}

impl BridgeHub {
    pub fn new(config: Arc<Config>) -> (result: Self)
        ensures
            result@ == (HubView { config: *config, connection: None }),
    {
        BridgeHub { config, connection: None }
    }

    /// Accepts an extension under a fresh random session id, or says why not.
    pub fn register(
        &mut self,
        hello: HelloPayload,
        sender: Sender<OutboundMessage>,
        required_cleanup_instance: Option<&str>,
    ) -> (result: Result<u128, ErrorDetail>)
        ensures
            ({
                let required = match required_cleanup_instance {
                    Some(instance) => Some(instance@),
                    None => None,
                };
                match old(self)@.refusal(hello, required) {
                    Some((code, message, retryable)) => {
                        &&& final(self)@ == old(self)@
                        &&& result matches Err(error)
                        &&& error.says(code, message, retryable)
                    },
                    None => {
                        &&& result matches Ok(session_id)
                        &&& is_random_id(session_id)
                        &&& final(self)@ == old(self)@.registered(
                            session_id,
                            hello,
                            accepted(sender),
                        )
                    },
                }
            }),
    {
        let session_id = new_id();
        match self.register_as(session_id, hello, sender, required_cleanup_instance) {
            Ok(()) => Ok(session_id),
            Err(error) => Err(error),
        }
    }

    /// Accepts an extension under the given session id, or says why not.
    pub fn register_as(
        &mut self,
        session_id: u128,
        hello: HelloPayload,
        sender: Sender<OutboundMessage>,
        required_cleanup_instance: Option<&str>,
    ) -> (result: Result<(), ErrorDetail>)
        ensures
            ({
                let required = match required_cleanup_instance {
                    Some(instance) => Some(instance@),
                    None => None,
                };
                match old(self)@.refusal(hello, required) {
                    Some((code, message, retryable)) => {
                        &&& final(self)@ == old(self)@
                        &&& result matches Err(error)
                        &&& error.says(code, message, retryable)
                    },
                    None => {
                        &&& result is Ok
                        &&& final(self)@ == old(self)@.registered(
                            session_id,
                            hello,
                            accepted(sender),
                        )
                    },
                }
            }),
    {
        let config = &self.config.bridge;
        if !same_secret(hello.extension_token.as_str(), config.extension_token.as_str()) {
            return Err(
                ErrorDetail::new(ErrorCode::Unauthorized, "扩展 token 无效".to_owned(), false),
            );
        }
        if hello.protocol_version != PROTOCOL_VERSION {
            return Err(
                ErrorDetail::new(
                    ErrorCode::ProtocolError,
                    "扩展协议版本不受支持".to_owned(),
                    false,
                ),
            );
        }
        let instance = hello.browser_instance_id.as_str();
        if !config.browser_instance_id.as_str().is_empty() && !same_text(
            config.browser_instance_id.as_str(),
            instance,
        ) {
            return Err(
                ErrorDetail::new(
                    ErrorCode::InstanceConflict,
                    "浏览器实例与配置不匹配".to_owned(),
                    false,
                ),
            );
        }
        match required_cleanup_instance {
            Some(required) => {
                if !same_text(required, instance) {
                    return Err(
                        ErrorDetail::new(
                            ErrorCode::InstanceConflict,
                            "原 Chrome 扩展实例仍需完成任务清理".to_owned(),
                            true,
                        ),
                    );
                }
            },
            None => {},
        }
        if self.connection.is_some() {
            return Err(
                ErrorDetail::new(
                    ErrorCode::InstanceConflict,
                    "已有 Chrome 扩展实例连接".to_owned(),
                    true,
                ),
            );
        }
        self.connection = Some(
            BridgeConnection {
                session_id,
                metadata: BridgeMetadata {
                    browser_instance_id: hello.browser_instance_id,
                    browser_name: hello.browser_name,
                    extension_version: hello.extension_version,
                    protocol_version: hello.protocol_version,
                },
                sender,
                closing: false,
            },
        );
        Ok(())
    }

    /// Marks the session as about to go. Tells whether it was the current one and was not marked
    /// yet.
    pub fn begin_disconnect(&mut self, session_id: u128) -> (result: bool)
        ensures
            result == (old(self)@.has_session(session_id) && old(self)@.connected()),
            final(self)@ == if result {
                HubView {
                    connection: Some(
                        ConnectionView { closing: true, ..old(self)@.connection->0 },
                    ),
                    ..old(self)@
                }
            } else {
                old(self)@
            },
    {
        match self.connection.as_mut() {
            None => false,
            Some(active) => {
                if active.session_id != session_id || active.closing {
                    false
                } else {
                    active.closing = true;
                    true
                }
            },
        }
    }

    /// Removes the session. Tells whether it was the current one.
    pub fn disconnect(&mut self, session_id: u128) -> (result: bool)
        ensures
            result == old(self)@.has_session(session_id),
            final(self)@ == if result {
                HubView { connection: None, ..old(self)@ }
            } else {
                old(self)@
            },
    {
        let matches = match &self.connection {
            Some(active) => active.session_id == session_id,
            None => false,
        };
        if matches {
            self.connection = None;
        }
        matches
    }

    pub fn is_connected(&self) -> (result: bool)
        ensures
            result == self@.connected(),
    {
        match &self.connection {
            Some(connection) => !connection.closing,
            None => false,
        }
    }

    /// What is known of the extension that serves the daemon.
    pub fn metadata(&self) -> (result: Option<BridgeMetadata>)
        ensures
            result == if self@.connected() {
                Some(self@.connection->0.metadata)
            } else {
                None
            },
    {
        match &self.connection {
            Some(connection) => if connection.closing {
                None
            } else {
                Some(connection.metadata.clone())
            },
            None => None,
        }
    }

    /// Hands a message to the extension, without waiting.
    pub fn send_json(&mut self, message: OutboundMessage) -> (result: Result<(), ErrorDetail>)
        ensures
            message_attempted(old(self)@, message, result, final(self)@),
    {
        match self.connection.as_mut() {
            Some(connection) => {
                if connection.closing {
                    Err(ErrorDetail::browser_unavailable("Chrome 扩展未连接".to_owned()))
                } else {
                    send_outcome(try_send(&mut connection.sender, message))
                }
            },
            None => Err(ErrorDetail::browser_unavailable("Chrome 扩展未连接".to_owned())),
        }
    }

    /// Asks the extension to run a search.
    pub fn send_search(&mut self, request_id: u128, command: &SearchCommand) -> (result: Result<
        (),
        ErrorDetail,
    >)
        ensures
            search_attempted(old(self)@, request_id, command@, result, final(self)@),
    {
        let message = OutboundMessage::Search { request_id, command: command.clone() };
        let ghost wanted = |message: OutboundMessage| is_search(message, request_id, command@);
        assert(wanted(message));
        self.send_json(message)
    }

    /// Answers a ping of the extension.
    pub fn send_pong(&mut self, nonce: Option<String>) -> (result: Result<(), ErrorDetail>)
        ensures
            pong_attempted(old(self)@, nonce, result, final(self)@),
    {
        let ghost wanted = |message: OutboundMessage| is_pong(message, nonce);
        let text: String = match nonce {
            Some(nonce) => nonce,
            None => "null".to_owned(),
        };
        let message = OutboundMessage::Pong { nonce: text };
        assert(wanted(message));
        self.send_json(message)
    }

    /// Asks the extension to stop a search.
    pub fn send_cancel(&mut self, request_id: u128, reason: &str) -> (result: Result<
        (),
        ErrorDetail,
    >)
        ensures
            cancel_attempted(old(self)@, request_id, reason@, result, final(self)@),
    {
        let message = OutboundMessage::Cancel { request_id, reason: reason.to_owned() };
        let ghost wanted = |message: OutboundMessage| is_cancel(message, request_id, reason@);
        assert(wanted(message));
        self.send_json(message)
    }
}

/// An extension is accepted exactly if it knows the token, speaks the protocol, is the instance
/// that is configured and the one that owes a cleanup, where there are such, and no other is
/// connected.
pub proof fn who_may_connect(hub: HubView, hello: HelloPayload, required: Option<Seq<char>>)
    ensures
        hub.refusal(hello, required) is None <==> {
            &&& hello.extension_token@ == hub.config.bridge.extension_token@
            &&& hello.protocol_version == PROTOCOL_VERSION
            &&& hub.config.bridge.browser_instance_id@.len() == 0 || hub.config.bridge.browser_instance_id@
                == hello.browser_instance_id@
            &&& required is None || required == Some(hello.browser_instance_id@)
            &&& hub.connection is None
        },
{
}

/// While one extension is there, closing or not, no other is accepted.
pub proof fn there_is_one_extension_at_a_time(
    hub: HubView,
    session_id: u128,
    first: HelloPayload,
    second: HelloPayload,
    required: Option<Seq<char>>,
    sent: Seq<OutboundMessage>,
)
    ensures
        hub.registered(session_id, first, sent).refusal(second, required) is Some,
        hub.registered(session_id, first, sent).connected(),
{
}

} // verus!
