//! The handshake that stands before the dispatch loop, and the
//! capabilities that the server declares in it.
use vstd::prelude::*;
use vstd::string::StringExecFns;

use crate::protocol::{kind_of, classify, Envelope, MessageKind};
use crate::server::ServerError;
use crate::text::str_eq;

verus! {

/// How a client is to send changes of a document.
#[derive(Debug, Clone, Copy, PartialEq, Eq)]
pub enum TextDocumentSyncKind {
    /// Not at all.
    Off,
    /// Each change carries the whole text.
    Full,
    /// Each change carries what changed.
    Incremental,
}

/// How documents are kept in step with the client.
#[derive(Debug, Clone, Copy, PartialEq, Eq)]
pub struct TextDocumentSyncOptions {
    pub open_close: Option<bool>,
    pub change: Option<TextDocumentSyncKind>,
}

/// What the server declares that it can do. A member that is `None` is not
/// declared.
#[derive(Debug, Clone, Copy, PartialEq, Eq)]
pub struct ServerCapabilities {
    pub text_document_sync: Option<TextDocumentSyncOptions>,
    pub definition_provider: Option<bool>,
    pub declaration_provider: Option<bool>,
}

/// The capabilities of this server: documents are opened and closed and
/// sent in full on each change, and definitions and declarations are
/// answered.
pub open spec fn declared_capabilities() -> ServerCapabilities {
    ServerCapabilities {
        text_document_sync: Some(
            TextDocumentSyncOptions {
                open_close: Some(true),
                change: Some(TextDocumentSyncKind::Full),
            },
        ),
        definition_provider: Some(true),
        declaration_provider: Some(true),
    }
}

/// Makes the capabilities that the server declares.
pub fn create_server_capabilities() -> (r: ServerCapabilities)
    ensures
        r == declared_capabilities(),
{
    let options = TextDocumentSyncOptions {
        open_close: Some(true),
        change: Some(TextDocumentSyncKind::Full),
    };
    ServerCapabilities {
        text_document_sync: Some(options),
        definition_provider: Some(true),
        declaration_provider: Some(true),
    }
}

/// Where the handshake is.
#[derive(Debug, Clone, Copy, PartialEq, Eq)]
pub enum Handshake {
    /// The `initialize` request is awaited.
    AwaitingInitialize,
    /// The `initialized` notification is awaited.
    AwaitingInitialized,
    /// The handshake is over; the dispatch loop may start.
    Done,
}

/// What is to be done after a message of the handshake.
#[derive(Debug, Clone, Copy, PartialEq, Eq)]
pub enum HandshakeAction {
    /// The request `id` is answered with the capabilities.
    SendCapabilities { id: u64, capabilities: ServerCapabilities },
    /// Nothing is sent.
    Proceed,
}

/// The message `e` is the one that the handshake awaits in `state`.
pub open spec fn is_awaited(state: Handshake, e: Envelope) -> bool {
    match state {
        Handshake::AwaitingInitialize => kind_of(e) == Some(MessageKind::Request)
            && e.method->0@ == "initialize"@,
        Handshake::AwaitingInitialized => kind_of(e) == Some(MessageKind::Notification)
            && e.method->0@ == "initialized"@,
        Handshake::Done => false,
    }
}

/// The state after the awaited message, and what is done then.
pub open spec fn handshake_step(state: Handshake, e: Envelope) -> (Handshake, HandshakeAction) {
    match state {
        Handshake::AwaitingInitialize => (
            Handshake::AwaitingInitialized,
            HandshakeAction::SendCapabilities {
                id: e.id->0,
                capabilities: declared_capabilities(),
            },
        ),
        _ => (Handshake::Done, HandshakeAction::Proceed),
    }
}

/// What the handshake expected, for the message of an error.
fn expected(state: Handshake) -> (r: &'static str)
    ensures
        r@ == expected_text(state),
{
    match state {
        Handshake::AwaitingInitialize => "Expected initialize message but got ",
        Handshake::AwaitingInitialized => "Expected initialized message but got ",
        Handshake::Done => "Expected no message but got ",
    }
}

/// How the message of an error starts in `state`.
pub open spec fn expected_text(state: Handshake) -> Seq<char> {
    match state {
        Handshake::AwaitingInitialize => "Expected initialize message but got "@,
        Handshake::AwaitingInitialized => "Expected initialized message but got "@,
        Handshake::Done => "Expected no message but got "@,
    }
}

/// How the message of an error names the message `e` that came.
pub open spec fn got_text(e: Envelope) -> Seq<char> {
    match e.method {
        Some(m) => m@,
        None => "a message without a method"@,
    }
}

/// Takes the next message of the handshake. The first message must be the
/// request `initialize`, which is answered with the capabilities of the
/// server; the second must be the notification `initialized`. Any other
/// message is a protocol error, and so is any message once the handshake
/// is over.
pub fn initialize(state: Handshake, e: &Envelope) -> (r: Result<
    (Handshake, HandshakeAction),
    ServerError,
>)
    ensures
        match r {
            Ok(step) => is_awaited(state, *e) && step == handshake_step(state, *e),
            Err(ServerError::ProtocolError(m)) => !is_awaited(state, *e) && m@ == expected_text(
                state,
            ) + got_text(*e),
        },
{
    let kind = classify(e);
    match state {
        Handshake::AwaitingInitialize => {
            if let (Some(MessageKind::Request), Some(id), Some(method)) = (kind, e.id, &e.method) {
                if str_eq(method.as_str(), "initialize") {
                    let capabilities = create_server_capabilities();
                    return Ok(
                        (
                            Handshake::AwaitingInitialized,
                            HandshakeAction::SendCapabilities { id, capabilities },
                        ),
                    );
                }
            }
        },
        Handshake::AwaitingInitialized => {
            if let (Some(MessageKind::Notification), Some(method)) = (kind, &e.method) {
                if str_eq(method.as_str(), "initialized") {
                    return Ok((Handshake::Done, HandshakeAction::Proceed));
                }
            }
        },
        Handshake::Done => {},
    }
    let got = match &e.method {
        Some(method) => method.as_str(),
        None => "a message without a method",
    };
    Err(ServerError::ProtocolError(String::from_str(expected(state)).concat(got)))
}

} // verus!
