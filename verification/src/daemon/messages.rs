//! The messages of the bridge protocol, and the channel on which those for the extension leave.
use tokio::sync::mpsc::Sender;
use vstd::prelude::*;

use crate::daemon::error::ErrorDetail;
use crate::daemon::model::{HelloPayload, SearchCommand, SearchResultPayload};

verus! {

/// The version of the protocol that both sides of the bridge speak.
pub const PROTOCOL_VERSION: u32 = 1;

/// A message for the extension.
pub enum OutboundMessage {
    /// A search is to be run.
    Search { request_id: u128, command: SearchCommand },
    /// A search is to be stopped.
    Cancel { request_id: u128, reason: String },
    /// The answer to a ping message. The nonce is JSON text.
    Pong { nonce: String },
    /// The answer to a ping frame.
    PongData { data: Vec<u8> },
    /// Something that the extension said, maybe about a request, was refused.
    Error { about: Option<u128>, error: ErrorDetail },
    /// The extension is accepted.
    Welcome { session_id: u128, ping_interval_seconds: u64, min_operation_interval_ms: u32 },
    /// The extension is to answer with the id.
    Ping { id: u128 },
}

impl OutboundMessage {
    /// The name that stands under `type` in the message.
    pub open spec fn kind_text(self) -> Seq<char> {
        match self {
            OutboundMessage::Search { .. } => "search"@,
            OutboundMessage::Cancel { .. } => "cancel"@,
            OutboundMessage::Pong { .. } => "pong"@,
            OutboundMessage::PongData { .. } => "pong"@,
            OutboundMessage::Error { .. } => "error"@,
            OutboundMessage::Welcome { .. } => "welcome"@,
            OutboundMessage::Ping { .. } => "ping"@,
        }
    }

    pub fn message_type(&self) -> (result: &'static str)
        ensures
            result@ == self.kind_text(),
    {
        match self {
            OutboundMessage::Search { .. } => "search",
            OutboundMessage::Cancel { .. } => "cancel",
            OutboundMessage::Pong { .. } => "pong",
            OutboundMessage::PongData { .. } => "pong",
            OutboundMessage::Error { .. } => "error",
            OutboundMessage::Welcome { .. } => "welcome",
            OutboundMessage::Ping { .. } => "ping",
        }
    }
}

/// A message from the extension.
pub struct InboundEnvelope {
    pub version: u32,
    pub message_type: String,
    pub request_id: Option<u128>,
    pub payload: InboundPayload,
}

/// The payload of a message, read in each of the ways that a message type can call for. Where it
/// cannot be read in one of them, the reason stands in its place.
pub struct InboundPayload {
    pub hello: Result<HelloPayload, String>,
    pub results: Result<SearchResultPayload, String>,
    pub error: Result<ErrorDetail, String>,
    /// What stands under `nonce`, as JSON text, if anything does.
    pub nonce: Option<String>,
}

/// Trusted: a `tokio::sync::mpsc::Sender`, of which only what it was given is spoken.
#[verifier::external_type_specification]
#[verifier::external_body]
#[verifier::reject_recursive_types(T)]
pub struct ExSender<T>(Sender<T>);

/// The messages that a channel has accepted through this sender so far, in their order.
pub uninterp spec fn accepted(sender: Sender<OutboundMessage>) -> Seq<OutboundMessage>;

/// Trusted: `Sender::try_send` either hands the message to the channel or, where the channel is
/// full or closed, does nothing and says so. Which of these happens depends on the receiver.
#[verifier::external_body]
pub(crate) fn try_send(sender: &mut Sender<OutboundMessage>, message: OutboundMessage) -> (result:
    Result<(), String>)
    ensures
        accepted(*final(sender)) == match result {
            Ok(_) => accepted(*old(sender)).push(message),
            Err(_) => accepted(*old(sender)),
        },
        result matches Err(text) ==> text@ == "no available capacity"@ || text@
            == "channel closed"@,
{
    sender.try_send(message).map_err(|error| error.to_string())
}

} // verus!
