//! Messages exchanged with the app-server: how they are framed, which are kept for
//! a later reader, and which one answers a request.

use vstd::prelude::*;
use crate::error;
use crate::error::{ErrorModel, MuxError};
use crate::json;
use crate::json::{Json, JsonModel};
use crate::path::UnixPath;
use crate::scan;
use crate::scan::trim;
use crate::smart_naming::title;
use crate::smart_naming::title::protocol;
use crate::text;

verus! {

/// Most bytes of one message, its line end among them.
pub const MAX_APP_SERVER_MESSAGE_BYTES: usize = 16 * 1024 * 1024;

/// Most messages kept for a later reader.
pub const MAX_PENDING_MESSAGES: usize = 64;

/// Arguments with which Codex serves a client over its standard streams.
pub open spec fn app_server_words() -> Seq<Seq<char>> {
    seq!["app-server"@, "--listen"@, "stdio://"@]
}

/// A program and what it is started with.
#[derive(Debug)]
pub struct AppServerCommand {
    pub program: UnixPath,
    pub arguments: Vec<String>,
}

/// The command that has the launcher serve a client over its standard streams.
pub fn app_server_command(launcher: &UnixPath) -> (r: AppServerCommand)
    ensures
        r.program@ == launcher@,
        text::texts(r.arguments@) == app_server_words(),
{
    AppServerCommand {
        program: launcher.clone(),
        arguments: text::list3("app-server", "--listen", "stdio://"),
    }
}

// ---------------------------------------------------------------------------
// Frames
// ---------------------------------------------------------------------------

/// A received message, with its error member as text.
#[derive(Debug)]
pub struct Message {
    pub value: Json,
    pub error: Option<String>,
}

#[verifier::ext_equal]
pub struct MessageModel {
    pub value: JsonModel,
    pub error: Option<Seq<char>>,
}

impl View for Message {
    type V = MessageModel;

    open spec fn view(&self) -> MessageModel {
        MessageModel { value: self.value@, error: text::option_view(self.error) }
    }
}

pub open spec fn messages_view(list: Seq<Message>) -> Seq<MessageModel> {
    Seq::new(list.len(), |i: int| list[i]@)
}

/// The message of a value: its error member is shown as text.
pub open spec fn message_of(value: JsonModel) -> MessageModel {
    MessageModel {
        value,
        error: match json::find_member(value, "error"@) {
            Some(e) => Some(json::shown_text(e)),
            None => None,
        },
    }
}

/// One read of the app-server's output, up to a line end.
#[derive(Debug)]
pub enum FrameRead {
    /// Nothing was left.
    Closed,
    /// The read failed.
    Failed(String),
    /// The bytes read; no more than the largest message and one byte.
    Line(Vec<u8>),
}

/// What a read line holds.
pub open spec fn frame(line: Seq<u8>) -> Result<MessageModel, Seq<char>> {
    if line.len() > MAX_APP_SERVER_MESSAGE_BYTES {
        Err("app-server message exceeded 16777216 bytes"@)
    } else if line.len() == 0 || line.last() != 0x0a {
        Err("app-server output ended mid-message"@)
    } else {
        match json::parsed(line) {
            Ok(value) => Ok(message_of(value)),
            Err(e) => Err("app-server returned invalid JSON: "@ + e),
        }
    }
}

/// A decoded frame as contracts speak of it.
pub open spec fn frame_view(r: Result<Message, String>) -> Result<MessageModel, Seq<char>> {
    match r {
        Ok(message) => Ok(message@),
        Err(e) => Err(e@),
    }
}

/// The next message of the app-server, `None` at the end of its output.
pub fn read_app_server_message(read: &FrameRead) -> (r: Option<Result<Message, String>>)
    ensures
        match *read {
            FrameRead::Closed => r is None,
            FrameRead::Failed(e) => r is Some && frame_view(r->0) == Err::<MessageModel, Seq<char>>(
                "could not read app-server output: "@ + e@,
            ),
            FrameRead::Line(line) => if line@.len() == 0 {
                r is None
            } else {
                r is Some && frame_view(r->0) == frame(line@)
            },
        },
{
    match read {
        FrameRead::Closed => None,
        FrameRead::Failed(e) => {
            let mut s = "could not read app-server output: ".to_owned();
            s.append(e);
            Some(Err(s))
        },
        FrameRead::Line(line) => {
            let len: usize = line.len();
            if len == 0 {
                return None;
            }
            if len > MAX_APP_SERVER_MESSAGE_BYTES {
                return Some(Err("app-server message exceeded 16777216 bytes".to_owned()));
            }
            if line[len - 1] != 0x0a {
                return Some(Err("app-server output ended mid-message".to_owned()));
            }
            match json::read_json_showing(line, "error") {
                Ok((value, error)) => Some(Ok(Message { value, error })),
                Err(e) => {
                    let mut s = "app-server returned invalid JSON: ".to_owned();
                    s.append(&e);
                    Some(Err(s))
                },
            }
        },
    }
}

/// Whether the reader goes on after a frame: a refused frame ends the transport.
pub fn frame_is_fatal(read: &Result<Message, String>) -> (r: bool)
    ensures
        r == (*read is Err),
{
    match read {
        Ok(_) => false,
        Err(_) => true,
    }
}

// ---------------------------------------------------------------------------
// Requests
// ---------------------------------------------------------------------------

/// A numbered request.
pub open spec fn request_model(id: u64, method: Seq<char>, params: JsonModel) -> JsonModel {
    json::with_member(
        json::with_member(
            json::with_member(json::no_members(), "id"@, json::number_model(id)),
            "method"@,
            JsonModel::Text(method),
        ),
        "params"@,
        params,
    )
}

pub fn request_message(id: u64, method: &str, params: Json) -> (r: Json)
    ensures
        r@ == request_model(id, method@, params@),
{
    let r = json::put_member(json::empty_object(), "id", json::number(id));
    let r = json::put_member(r, "method", json::text(method));
    json::put_member(r, "params", params)
}

/// What the client says of itself.
pub open spec fn initialize_model(version: Seq<char>) -> JsonModel {
    json::with_member(
        json::with_member(
            json::no_members(),
            "capabilities"@,
            json::with_member(json::no_members(), "experimentalApi"@, JsonModel::Bool(true)),
        ),
        "clientInfo"@,
        json::with_member(
            json::with_member(
                json::with_member(json::no_members(), "name"@, JsonModel::Text("codex-mux"@)),
                "title"@,
                JsonModel::Text("codex-mux smart naming"@),
            ),
            "version"@,
            JsonModel::Text(version),
        ),
    )
}

pub fn initialize_params(version: &str) -> (r: Json)
    ensures
        r@ == initialize_model(version@),
{
    let capabilities = json::put_member(json::empty_object(), "experimentalApi", Json::Bool(true));
    let client = json::put_member(json::empty_object(), "name", json::text("codex-mux"));
    let client = json::put_member(client, "title", json::text("codex-mux smart naming"));
    let client = json::put_member(client, "version", json::text(version));
    let r = json::put_member(json::empty_object(), "capabilities", capabilities);
    json::put_member(r, "clientInfo", client)
}

/// The notification that ends the handshake.
pub fn initialized_message() -> (r: Json)
    ensures
        r@ == json::with_member(
            json::no_members(),
            "method"@,
            JsonModel::Text("initialized"@),
        ),
{
    json::put_member(json::empty_object(), "method", json::text("initialized"))
}

// ---------------------------------------------------------------------------
// Replies
// ---------------------------------------------------------------------------

/// A message that a later reader may want: a reply, or the end of a turn.
pub open spec fn is_retained(value: JsonModel) -> bool {
    ||| {
        &&& json::find_member(value, "id"@) is Some
        &&& json::find_member(value, "method"@) is None
        &&& json::find_member(value, "result"@) is Some || json::find_member(
            value,
            "error"@,
        ) is Some
    }
    ||| json::is_text(json::member(value, "method"@), "turn/completed"@)
}

pub fn should_retain(message: &Json) -> (r: bool)
    ensures
        r == is_retained(message@),
{
    let response = message.get("id").is_some() && message.get("method").is_none() && (message.get(
        "result",
    ).is_some() || message.get("error").is_some());
    response || message.text_is("method", "turn/completed")
}

/// Keeps a message for a later reader.
pub fn retain_pending(pending: &mut Vec<Message>, message: Message) -> (r: Result<(), MuxError>)
    ensures
        old(pending)@.len() == MAX_PENDING_MESSAGES ==> final(pending)@ == old(pending)@
            && error::outcome(r) == Err::<(), ErrorModel>(
            title::protocol_error("app-server pending message queue exceeded its bound"@),
        ),
        old(pending)@.len() != MAX_PENDING_MESSAGES ==> final(pending)@ == old(pending)@.push(
            message,
        ) && r is Ok,
{
    if pending.len() == MAX_PENDING_MESSAGES {
        return Err(protocol("app-server pending message queue exceeded its bound"));
    }
    pending.push(message);
    Ok(())
}

/// What a reply says: its result, or the refusal.
pub open spec fn reply_result(message: MessageModel) -> Result<JsonModel, ErrorModel> {
    match message.error {
        Some(e) => Err(title::protocol_error("app-server rejected request: "@ + e)),
        None => match json::find_member(message.value, "result"@) {
            Some(value) => Ok(value),
            None => Err(title::protocol_error("app-server response omitted result"@)),
        },
    }
}

/// A JSON outcome as contracts speak of it.
pub open spec fn json_outcome(r: Result<Json, MuxError>) -> Result<JsonModel, ErrorModel> {
    match r {
        Ok(value) => Ok(value@),
        Err(e) => Err(e@),
    }
}

pub fn response_result(response: &Message) -> (r: Result<Json, MuxError>)
    ensures
        json_outcome(r) == reply_result(response@),
{
    if let Some(e) = &response.error {
        let mut s = "app-server rejected request: ".to_owned();
        s.append(e);
        return Err(protocol(&s));
    }
    match response.value.get("result") {
        Some(value) => Ok(value.clone()),
        None => Err(protocol("app-server response omitted result")),
    }
}

/// The parameters of a notification.
pub open spec fn notification_params(value: JsonModel) -> Result<JsonModel, ErrorModel> {
    match json::find_member(value, "params"@) {
        Some(params) => Ok(params),
        None => Err(title::protocol_error("notification omitted params"@)),
    }
}

pub fn params_of(message: &Json) -> (r: Result<Json, MuxError>)
    ensures
        json_outcome(r) == notification_params(message@),
{
    match message.get("params") {
        Some(params) => Ok(params.clone()),
        None => Err(protocol("notification omitted params")),
    }
}

/// The message that a reader waits for.
#[derive(Debug)]
pub enum Wanted {
    /// The reply to a numbered request.
    Reply(u64),
    /// A notification about a thread.
    Notification { method: String, thread_id: String },
}

/// The thread that a message is about.
pub open spec fn thread_of(value: JsonModel) -> Option<Seq<char>> {
    json::text_of(json::member(json::member(value, "params"@), "threadId"@))
}

/// A message is the one waited for.
pub open spec fn answers(wanted: Wanted, value: JsonModel) -> bool {
    match wanted {
        Wanted::Reply(id) => json::is_number(json::member(value, "id"@), id),
        Wanted::Notification { method, thread_id } => json::is_text(
            json::member(value, "method"@),
            method@,
        ) && thread_of(value) == Some(thread_id@),
    }
}

/// Whether a message is about a thread.
fn is_about(message: &Json, thread_id: &str) -> (r: bool)
    ensures
        r == (thread_of(message@) == Some(thread_id@)),
{
    match message.get("params") {
        Some(params) => params.text_is("threadId", thread_id),
        None => false,
    }
}

pub fn is_wanted(wanted: &Wanted, message: &Json) -> (r: bool)
    ensures
        r == answers(*wanted, message@),
{
    match wanted {
        Wanted::Reply(id) => message.number_is("id", *id),
        Wanted::Notification { method, thread_id } => message.text_is("method", method) && is_about(
            message,
            thread_id,
        ),
    }
}

/// The place of the first kept message that is waited for.
pub open spec fn first_answer(pending: Seq<MessageModel>, wanted: Wanted, i: int) -> int
    decreases pending.len() - i,
{
    if i < 0 || i >= pending.len() || answers(wanted, pending[i].value) {
        i
    } else {
        first_answer(pending, wanted, i + 1)
    }
}

/// Takes the first kept message that is waited for.
pub fn take_pending(pending: &mut Vec<Message>, wanted: &Wanted) -> (r: Option<Message>)
    ensures
        ({
            let before = messages_view(old(pending)@);
            let i = first_answer(before, *wanted, 0);
            if i < before.len() {
                r is Some && r->0@ == before[i] && messages_view(final(pending)@)
                    == before.remove(i)
            } else {
                r is None && final(pending)@ == old(pending)@
            }
        }),
{
    let ghost before = messages_view(pending@);
    let mut i: usize = 0;
    while i < pending.len()
        invariant
            i <= pending.len(),
            pending@ == old(pending)@,
            before == messages_view(pending@),
            first_answer(before, *wanted, 0) == first_answer(before, *wanted, i as int),
        decreases pending.len() - i,
    {
        assert(before[i as int] == pending@[i as int]@);
        if is_wanted(wanted, &pending[i].value) {
            let found = pending.remove(i);
            assert(messages_view(pending@) =~= before.remove(i as int));
            return Some(found);
        }
        i += 1;
    }
    None
}

/// The kept messages that are not about a thread.
pub open spec fn without_thread(
    pending: Seq<MessageModel>,
    thread_id: Seq<char>,
) -> Seq<MessageModel>
    decreases pending.len(),
{
    if pending.len() == 0 {
        Seq::empty()
    } else {
        let before = without_thread(pending.drop_last(), thread_id);
        if thread_of(pending.last().value) == Some(thread_id) {
            before
        } else {
            before.push(pending.last())
        }
    }
}

/// Drops the kept messages about a thread that is done.
pub fn forget_thread(pending: &mut Vec<Message>, thread_id: &str)
    ensures
        messages_view(final(pending)@) == without_thread(
            messages_view(old(pending)@),
            thread_id@,
        ),
    decreases old(pending)@.len(),
{
    let ghost before = messages_view(pending@);
    match pending.pop() {
        None => {
            assert(messages_view(pending@) =~= Seq::<MessageModel>::empty());
        },
        Some(last) => {
            proof {
                assert(messages_view(pending@) =~= before.drop_last());
            }
            forget_thread(pending, thread_id);
            if !is_about(&last.value, thread_id) {
                let ghost kept = messages_view(pending@);
                pending.push(last);
                assert(messages_view(pending@) =~= kept.push(last@));
            }
        },
    }
}

// ---------------------------------------------------------------------------
// Waiting for a message
// ---------------------------------------------------------------------------

/// What one wait brought.
#[derive(Debug)]
pub enum Arrival {
    /// The caller gave up.
    Cancelled,
    Message(Message),
    /// The reader met a frame that it cannot read.
    Fatal(String),
    /// Nothing came in time; whether the deadline has passed.
    Timeout { expired: bool },
    /// The output is closed; what the app-server wrote to its error stream.
    Disconnected { stderr: Vec<u8> },
}

/// What follows a wait.
#[derive(Debug)]
pub enum Waited {
    /// Wait again.
    Again,
    /// The message waited for.
    Found(Message),
    /// Give up; whether the transport is unusable from now on.
    Failed { error: MuxError, unhealthy: bool },
}

/// What a closed transport reports: the error stream, where it says anything.
pub open spec fn closed_detail(stderr: Seq<u8>) -> Seq<char> {
    let said = scan::trimmed(text::lossy_text(stderr));
    if said.len() == 0 {
        "app-server output closed unexpectedly"@
    } else {
        said
    }
}

pub open spec fn failed_as(w: Waited, e: ErrorModel, unhealthy: bool) -> bool {
    w matches Waited::Failed { error, unhealthy: u } && error@ == e && u == unhealthy
}

/// Decides on one arrival. A message that is not waited for is kept where a later
/// reader may want it.
pub fn on_arrival(pending: &mut Vec<Message>, wanted: &Wanted, arrival: Arrival) -> (r: Waited)
    ensures
        old(pending)@.len() <= MAX_PENDING_MESSAGES ==> final(pending)@.len()
            <= MAX_PENDING_MESSAGES,
        match arrival {
            Arrival::Cancelled => final(pending)@ == old(pending)@ && failed_as(
                r,
                ErrorModel::Cancelled,
                false,
            ),
            Arrival::Message(message) => if answers(*wanted, message@.value) {
                final(pending)@ == old(pending)@ && r == Waited::Found(message)
            } else if !is_retained(message@.value) {
                final(pending)@ == old(pending)@ && r is Again
            } else if old(pending)@.len() == MAX_PENDING_MESSAGES {
                final(pending)@ == old(pending)@ && failed_as(
                    r,
                    title::protocol_error("app-server pending message queue exceeded its bound"@),
                    false,
                )
            } else {
                final(pending)@ == old(pending)@.push(message) && r is Again
            },
            Arrival::Fatal(detail) => final(pending)@ == old(pending)@ && failed_as(
                r,
                title::protocol_error(detail@),
                false,
            ),
            Arrival::Timeout { expired } => final(pending)@ == old(pending)@ && if expired {
                failed_as(r, title::protocol_error("app-server readiness timed out"@), true)
            } else {
                r is Again
            },
            Arrival::Disconnected { stderr } => final(pending)@ == old(pending)@ && failed_as(
                r,
                title::protocol_error(closed_detail(stderr@)),
                true,
            ),
        },
{
    match arrival {
        Arrival::Cancelled => Waited::Failed { error: MuxError::Cancelled, unhealthy: false },
        Arrival::Message(message) => {
            if is_wanted(wanted, &message.value) {
                return Waited::Found(message);
            }
            if should_retain(&message.value) {
                match retain_pending(pending, message) {
                    Ok(_) => Waited::Again,
                    Err(error) => Waited::Failed { error, unhealthy: false },
                }
            } else {
                Waited::Again
            }
        },
        Arrival::Fatal(detail) => Waited::Failed { error: protocol(&detail), unhealthy: false },
        Arrival::Timeout { expired } => {
            if expired {
                Waited::Failed {
                    error: protocol("app-server readiness timed out"),
                    unhealthy: true,
                }
            } else {
                Waited::Again
            }
        },
        Arrival::Disconnected { stderr } => {
            let detail = trim(&text::utf8_lossy(&stderr));
            let error = if detail.unicode_len() == 0 {
                protocol("app-server output closed unexpectedly")
            } else {
                protocol(&detail)
            };
            Waited::Failed { error, unhealthy: true }
        },
    }
}

} // verus!
