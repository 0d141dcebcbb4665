//! The decisions of the server once it is initialized: what each request
//! and notification does to its state, and what is sent back.
use vstd::prelude::*;
use vstd::string::StringExecFns;

use crate::protocol::{code_number, ErrorCodes, ProtocolError, ResponseError};
use crate::text::{decimal_chars, decimal_string, str_eq};

verus! {

/// An error that ends the server.
#[derive(Debug, Clone, PartialEq, Eq)]
pub enum ServerError {
    ProtocolError(String),
}

impl ServerError {
    /// The server error for an error of the transport.
    pub fn from_protocol(err: ProtocolError) -> (r: ServerError)
        ensures
            r == ServerError::ProtocolError(err.0),
    {
        ServerError::ProtocolError(err.0)
    }

    /// The server error for a message that is not the JSON it should be;
    /// `reason` says what the decoder found.
    pub fn from_json(reason: &str) -> (r: ServerError)
        ensures
            r matches ServerError::ProtocolError(m) && m@ == "Invalid json message: "@ + reason@,
    {
        ServerError::ProtocolError(String::from_str("Invalid json message: ").concat(reason))
    }
}

/// Where the server is between its initialization and its end.
#[derive(Debug, Clone, Copy, PartialEq, Eq)]
pub enum State {
    Initialized,
    ShuttingDown,
}

/// The state of the dispatch loop.
#[derive(Debug, Clone, Copy, PartialEq, Eq)]
pub struct ServerContext {
    pub state: State,
    /// Set when the client asked the server to exit.
    pub exit_code: Option<i32>,
}

/// What is to be done about a request.
#[derive(Debug, Clone, PartialEq, Eq)]
pub enum RequestAction {
    /// Nothing is sent back.
    NoReply,
    /// The request succeeded with the result `null`.
    SendNull,
    /// The request failed.
    SendError(ResponseError),
    /// The analysis is asked for the definition at the position in the
    /// parameters, and its answer is sent back.
    GotoDefinition,
}

/// What is to be done about a notification.
#[derive(Debug, Clone, Copy, PartialEq, Eq)]
pub enum NotificationAction {
    /// The loop ends.
    Exit,
    /// The opened text is checked.
    DidOpen,
    /// The changed text is checked.
    DidChange,
    /// The notification is known and needs nothing.
    Ignored,
    /// The notification is not known; it is passed over.
    Unknown,
}

/// The exit code for a client that asks the server to exit: 0 after a
/// shutdown, 1 without one.
pub open spec fn exit_code_in(state: State) -> i32 {
    if state == State::ShuttingDown {
        0
    } else {
        1
    }
}

/// The message of the error for a request that the server does not
/// implement.
pub open spec fn unimplemented_message(id: u64, method: Seq<char>) -> Seq<char> {
    "Unimplemented request: id = "@ + decimal_chars(id as nat) + " method = "@ + method
}

/// The state after the request `method`, and what is done about it.
pub open spec fn request_effect(before: ServerContext, method: Seq<char>) -> ServerContext {
    if method == "exit"@ {
        ServerContext { state: before.state, exit_code: Some(exit_code_in(before.state)) }
    } else if method == "shutdown"@ {
        ServerContext { state: State::ShuttingDown, exit_code: before.exit_code }
    } else {
        before
    }
}

/// `action` is what is done about the request `method` with the id `id`.
pub open spec fn is_request_action(action: RequestAction, id: u64, method: Seq<char>) -> bool {
    if method == "exit"@ {
        action is NoReply
    } else if method == "initialize"@ {
        action matches RequestAction::SendError(e) && e.code == code_number(
            ErrorCodes::ServerNotInitialized,
        ) && e.message@ == "Unexpected initialize message"@
    } else if method == "shutdown"@ {
        action is SendNull
    } else if method == "textDocument/definition"@ {
        action is GotoDefinition
    } else {
        action matches RequestAction::SendError(e) && e.code == code_number(
            ErrorCodes::InternalError,
        ) && e.message@ == unimplemented_message(id, method)
    }
}

/// What is done about the notification `method`.
pub open spec fn notification_action(method: Seq<char>) -> NotificationAction {
    if method == "exit"@ {
        NotificationAction::Exit
    } else if method == "textDocument/didOpen"@ {
        NotificationAction::DidOpen
    } else if method == "textDocument/didChange"@ {
        NotificationAction::DidChange
    } else if method == "workspace/didChangeConfiguration"@ || method == "textDocument/willSave"@
        || method == "textDocument/didSave"@ {
        NotificationAction::Ignored
    } else {
        NotificationAction::Unknown
    }
}

/// The state after the notification `method`.
pub open spec fn notification_effect(before: ServerContext, method: Seq<char>) -> ServerContext {
    if method == "exit"@ {
        ServerContext { state: before.state, exit_code: Some(exit_code_in(before.state)) }
    } else {
        before
    }
}

impl ServerContext {
    /// The state of a server that was just initialized.
    pub fn new() -> (r: ServerContext)
        ensures
            r == (ServerContext { state: State::Initialized, exit_code: None }),
    {
        ServerContext { state: State::Initialized, exit_code: None }
    }
}

/// The error for a request that the server does not implement.
pub fn unimplemented_request(id: u64, method_name: &str) -> (r: ResponseError)
    ensures
        r.code == code_number(ErrorCodes::InternalError),
        r.message@ == unimplemented_message(id, method_name@),
{
    let msg = String::from_str("Unimplemented request: id = ").concat(
        decimal_string(id).as_str(),
    ).concat(" method = ").concat(method_name);
    ResponseError::new(ErrorCodes::InternalError, msg)
}

/// The error for an `initialize` request to a server that is initialized.
pub fn initialize_request() -> (r: ResponseError)
    ensures
        r.code == code_number(ErrorCodes::ServerNotInitialized),
        r.message@ == "Unexpected initialize message"@,
{
    ResponseError::new(
        ErrorCodes::ServerNotInitialized,
        String::from_str("Unexpected initialize message"),
    )
}

/// The error for a request whose parameters are not what its method
/// takes; `reason` says what the decoder found.
pub fn invalid_request(reason: String) -> (r: ResponseError)
    ensures
        r.code == code_number(ErrorCodes::InvalidRequest),
        r.message == reason,
{
    ResponseError::new(ErrorCodes::InvalidRequest, reason)
}

/// Starts the shutdown.
pub fn shutdown_request(ctx: &mut ServerContext)
    ensures
        final(ctx).state == State::ShuttingDown,
        final(ctx).exit_code == old(ctx).exit_code,
{
    ctx.state = State::ShuttingDown;
}

/// Sets the exit code: 0 after a shutdown, 1 without one.
pub fn exit_notification(ctx: &mut ServerContext)
    ensures
        final(ctx).state == old(ctx).state,
        final(ctx).exit_code == Some(exit_code_in(old(ctx).state)),
{
    match ctx.state {
        State::ShuttingDown => {
            ctx.exit_code = Some(0);
        },
        State::Initialized => {
            ctx.exit_code = Some(1);
        },
    }
}

/// Decides what a request does. `exit` is taken as the notification of
/// that name; `initialize` is refused, the server being initialized;
/// `shutdown` starts the shutdown; `textDocument/definition` goes to the
/// analysis; any other method is refused as not implemented.
pub fn handle_request(ctx: &mut ServerContext, id: u64, method: &str) -> (r: RequestAction)
    ensures
        *final(ctx) == request_effect(*old(ctx), method@),
        is_request_action(r, id, method@),
{
    if str_eq(method, "exit") {
        exit_notification(ctx);
        RequestAction::NoReply
    } else if str_eq(method, "initialize") {
        proof {
            reveal_strlit("initialize");
            reveal_strlit("shutdown");
            assert("initialize"@.len() != "shutdown"@.len());
        }
        RequestAction::SendError(initialize_request())
    } else if str_eq(method, "shutdown") {
        shutdown_request(ctx);
        RequestAction::SendNull
    } else if str_eq(method, "textDocument/definition") {
        RequestAction::GotoDefinition
    } else {
        RequestAction::SendError(unimplemented_request(id, method))
    }
}

/// Decides what a notification does. `exit` sets the exit code and ends
/// the loop; an opened or changed document is checked; notifications about
/// the configuration and about saving are accepted and need nothing; any
/// other is passed over.
pub fn handle_notification(ctx: &mut ServerContext, method: &str) -> (r: NotificationAction)
    ensures
        *final(ctx) == notification_effect(*old(ctx), method@),
        r == notification_action(method@),
{
    if str_eq(method, "exit") {
        exit_notification(ctx);
        NotificationAction::Exit
    } else if str_eq(method, "textDocument/didOpen") {
        NotificationAction::DidOpen
    } else if str_eq(method, "textDocument/didChange") {
        NotificationAction::DidChange
    } else if str_eq(method, "workspace/didChangeConfiguration") || str_eq(
        method,
        "textDocument/willSave",
    ) || str_eq(method, "textDocument/didSave") {
        NotificationAction::Ignored
    } else {
        NotificationAction::Unknown
    }
}

/// The texts of the first `n` changes, one after the other.
pub open spec fn texts_upto(changes: Seq<String>, n: int) -> Seq<char>
    decreases n,
{
    if n <= 0 {
        Seq::empty()
    } else {
        texts_upto(changes, n - 1) + changes[n - 1]@
    }
}

/// The text of a document after a change notification: the texts of its
/// changes, one after the other.
pub fn did_change_text_document(changes: &Vec<String>) -> (r: String)
    ensures
        r@ == texts_upto(changes@, changes@.len() as int),
{
    let mut text = String::new();
    let mut i: usize = 0;
    while i < changes.len()
        invariant
            i <= changes@.len(),
            text@ == texts_upto(changes@, i as int),
        decreases changes@.len() - i,
    {
        text.append(changes[i].as_str());
        i += 1;
    }
    text
}

/// What is known of a directory: its last name, where it has one, and
/// whether its parent holds a file `.gclient`.
#[derive(Debug, Clone, PartialEq, Eq)]
pub struct DirProbe {
    pub file_name: Option<String>,
    pub parent_has_gclient: bool,
}

/// The directory is the `src` of a Chromium checkout: it is named `src`,
/// and a file `.gclient` lies beside it.
pub open spec fn is_src_dir(probe: DirProbe) -> bool {
    probe.file_name matches Some(name) && name@ == "src"@ && probe.parent_has_gclient
}

/// Tells whether the directory is the `src` of a Chromium checkout.
pub fn is_chromium_src_dir(probe: &DirProbe) -> (r: bool)
    ensures
        r == is_src_dir(*probe),
{
    match &probe.file_name {
        Some(name) => str_eq(name.as_str(), "src") && probe.parent_has_gclient,
        None => false,
    }
}

/// The index of the first of `dirs`, from index `k` on, that is the `src`
/// of a Chromium checkout; 0 when none is.
pub open spec fn first_src_dir(dirs: Seq<DirProbe>, k: int) -> int
    decreases dirs.len() - k,
{
    if k < 0 || k >= dirs.len() {
        0
    } else if is_src_dir(dirs[k]) {
        k
    } else {
        first_src_dir(dirs, k + 1)
    }
}

/// Picks the workspace root among a directory and its ancestors, the
/// directory first and each parent after its child: the first that is the
/// `src` of a Chromium checkout, else the directory itself. Gives the
/// index of the pick.
pub fn find_chromium_src_dir(ancestors: &Vec<DirProbe>) -> (r: usize)
    ensures
        r == first_src_dir(ancestors@, 0),
        ancestors@.len() > 0 ==> r < ancestors@.len(),
{
    let mut i: usize = 0;
    while i < ancestors.len()
        invariant
            i <= ancestors@.len(),
            first_src_dir(ancestors@, 0) == first_src_dir(ancestors@, i as int),
        decreases ancestors@.len() - i,
    {
        if is_chromium_src_dir(&ancestors[i]) {
            return i;
        }
        i += 1;
    }
    0
}

/// Picks the path of the workspace root that the client gave: the path of
/// its root URI where that is a file URI, else its root path, else the
/// empty path.
pub fn get_root_path(root_uri_path: Option<String>, root_path: Option<String>) -> (r: String)
    ensures
        r@ == match (root_uri_path, root_path) {
            (Some(path), _) => path@,
            (None, Some(path)) => path@,
            (None, None) => Seq::<char>::empty(),
        },
{
    match root_uri_path {
        Some(path) => path,
        None => match root_path {
            Some(path) => path,
            None => String::new(),
        },
    }
}

} // verus!
