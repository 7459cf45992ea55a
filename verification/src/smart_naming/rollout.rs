//! Rollout files: the records in which Codex keeps its conversations.

use vstd::prelude::*;
use crate::error::{ErrorModel, MuxError};
use crate::error;
use crate::json;
use crate::json::{Json, JsonModel};
use crate::path;
use crate::path::UnixPath;
use crate::scan::{ends_with, starts_with};
use crate::smart_naming::thread;
use crate::smart_naming::thread::looks_like_thread_id;
use crate::smart_naming::title;
use crate::smart_naming::title::protocol;
use crate::smart_naming::transcript;
use crate::smart_naming::transcript::RecentTranscript;
use crate::text;
use crate::text::{put, read_utf8, slice_bytes, slice_text, text_equal, to_chars};

verus! {

/// Most bytes of a rollout that are searched for its identity.
pub const MAX_ROLLOUT_IDENTITY_BYTES: usize = 1024 * 1024;

/// Most bytes of a rollout that are read for its transcript.
pub const MAX_ROLLOUT_TRANSCRIPT_BYTES: u64 = 16 * 1024 * 1024;

// ---------------------------------------------------------------------------
// The file name
// ---------------------------------------------------------------------------

/// The thread in the name of a rollout file: `rollout-`, anything, the thread
/// identity, `.jsonl`.
pub open spec fn name_thread(name: Seq<char>) -> Option<Seq<char>> {
    let head = "rollout-"@;
    let tail = ".jsonl"@;
    if head.is_prefix_of(name) && tail.is_suffix_of(name.skip(head.len() as int)) {
        let stem = name.subrange(head.len() as int, name.len() - tail.len());
        if stem.len() >= 36 && thread::is_thread_id(stem.skip(stem.len() - 36)) {
            Some(stem.skip(stem.len() - 36))
        } else {
            None
        }
    } else {
        None
    }
}

/// The thread that a path to a rollout file names.
pub open spec fn path_thread(p: Seq<u8>) -> Option<Seq<char>> {
    match path::file_name(p) {
        Some(name) => match text::utf8_decoded(name) {
            Some(t) => name_thread(t),
            None => None,
        },
        None => None,
    }
}

/// A rollout named after a thread names that thread.
pub proof fn a_rollout_name_gives_its_thread(between: Seq<char>, id: Seq<char>)
    requires
        thread::is_thread_id(id),
    ensures
        name_thread("rollout-"@ + between + id + ".jsonl"@) == Some(id),
{
    let head = "rollout-"@;
    let tail = ".jsonl"@;
    let name = head + between + id + tail;
    assert(name.subrange(0, head.len() as int) =~= head);
    let rest = name.skip(head.len() as int);
    assert(rest.subrange(rest.len() - tail.len(), rest.len() as int) =~= tail);
    let stem = name.subrange(head.len() as int, name.len() - tail.len());
    assert(stem =~= between + id);
    assert(stem.skip(stem.len() - 36) =~= id);
}

fn thread_of_name(name: &str) -> (r: Option<String>)
    ensures
        text::option_view(r) == name_thread(name@),
{
    if !starts_with(name, "rollout-") {
        return None;
    }
    let v = to_chars(name);
    proof {
        reveal_strlit("rollout-");
        reveal_strlit(".jsonl");
    }
    let len: usize = v.len();
    let rest = slice_text(&v, 8, len);
    assert(rest@ =~= name@.skip(8));
    if !ends_with(&rest, ".jsonl") {
        return None;
    }
    if len < 50 {
        return None;
    }
    let id = slice_text(&v, len - 42, len - 6);
    let ghost stem = name@.subrange(8, len - 6);
    assert(id@ =~= stem.skip(stem.len() - 36));
    if looks_like_thread_id(&id) {
        Some(id)
    } else {
        None
    }
}

/// The thread that a path to a rollout file names.
pub fn rollout_thread_id(location: &UnixPath) -> (r: Option<String>)
    ensures
        text::option_view(r) == path_thread(location@),
{
    match location.file_name() {
        Some(name) => match read_utf8(&name) {
            Some(t) => thread_of_name(&t),
            None => None,
        },
        None => None,
    }
}

// ---------------------------------------------------------------------------
// Who may have written it
// ---------------------------------------------------------------------------

/// What the file system says of an opened entry.
#[derive(Clone, Copy, Debug, PartialEq, Eq, Structural)]
pub struct EntryFacts {
    pub is_file: bool,
    pub is_directory: bool,
    pub owner: u32,
    pub links: u64,
    pub mode: u32,
    pub size: u64,
}

/// Nobody but the owner may write.
pub open spec fn only_owner_writes(mode: u32) -> bool {
    mode & 0o022 == 0
}

pub open spec fn is_private_directory(facts: EntryFacts, user: u32) -> bool {
    facts.is_directory && facts.owner == user && only_owner_writes(facts.mode)
}

pub open spec fn is_private_file(facts: EntryFacts, user: u32) -> bool {
    facts.is_file && facts.owner == user && facts.links == 1 && only_owner_writes(facts.mode)
}

/// A directory of rollouts is private to its user.
pub open spec fn directory_check(facts: EntryFacts, user: u32) -> Result<(), ErrorModel> {
    if is_private_directory(facts, user) {
        Ok(())
    } else {
        Err(title::protocol_error("rollout directory is not private and owned"@))
    }
}

/// A rollout is private to its user.
pub open spec fn file_check(facts: EntryFacts, user: u32) -> Result<(), ErrorModel> {
    if is_private_file(facts, user) {
        Ok(())
    } else {
        Err(title::protocol_error("rollout is not a private owned single-link regular file"@))
    }
}

pub fn validate_rollout_directory(facts: EntryFacts, user: u32) -> (r: Result<(), MuxError>)
    ensures
        error::outcome(r) == directory_check(facts, user),
{
    if !facts.is_directory || facts.owner != user || facts.mode & 0o022 != 0 {
        return Err(protocol("rollout directory is not private and owned"));
    }
    Ok(())
}

pub fn validate_rollout_file(facts: EntryFacts, user: u32) -> (r: Result<(), MuxError>)
    ensures
        error::outcome(r) == file_check(facts, user),
{
    if !facts.is_file || facts.owner != user || facts.links != 1 || facts.mode & 0o022 != 0 {
        return Err(protocol("rollout is not a private owned single-link regular file"));
    }
    Ok(())
}

// ---------------------------------------------------------------------------
// Lines
// ---------------------------------------------------------------------------

/// Where the line that starts at a place ends: after its line feed, or at the end.
pub open spec fn line_end(bytes: Seq<u8>, i: int) -> int
    decreases bytes.len() - i,
{
    if i < 0 || i >= bytes.len() {
        bytes.len() as int
    } else if bytes[i] == 0x0a {
        i + 1
    } else {
        line_end(bytes, i + 1)
    }
}

pub proof fn line_end_range(bytes: Seq<u8>, i: int)
    requires
        0 <= i <= bytes.len(),
    ensures
        i <= line_end(bytes, i) <= bytes.len(),
        i < bytes.len() ==> i < line_end(bytes, i),
    decreases bytes.len() - i,
{
    if i < bytes.len() && bytes[i] != 0x0a {
        line_end_range(bytes, i + 1);
    }
}

fn end_of_line(bytes: &[u8], from: usize) -> (r: usize)
    requires
        from <= bytes@.len(),
    ensures
        r == line_end(bytes@, from as int),
        from <= r <= bytes@.len(),
        from < bytes@.len() ==> from < r,
{
    let len: usize = bytes.len();
    let mut i: usize = from;
    while i < len
        invariant
            from <= i <= len == bytes@.len(),
            line_end(bytes@, from as int) == line_end(bytes@, i as int),
        decreases len - i,
    {
        if bytes[i] == 0x0a {
            return i + 1;
        }
        i += 1;
    }
    i
}

// ---------------------------------------------------------------------------
// Identity
// ---------------------------------------------------------------------------

/// The record that tells which session a rollout belongs to.
pub open spec fn is_session_record(value: JsonModel) -> bool {
    json::is_text(json::member(value, "type"@), "session_meta"@)
}

/// The session of such a record.
pub open spec fn session_of(value: JsonModel) -> Option<Seq<char>> {
    json::text_of(json::member(json::member(value, "payload"@), "id"@))
}

/// The session was started by another session.
pub open spec fn is_subagent(value: JsonModel) -> bool {
    json::find_member(
        json::member(json::member(value, "payload"@), "source"@),
        "subagent"@,
    ) is Some
}

/// What the start of a rollout says of its session.
#[verifier::ext_equal]
pub enum StartModel {
    /// There is no session record.
    Unknown,
    /// More bytes came before the session record than are searched.
    TooLong,
    /// The session record, and where its line ends.
    Session { record: JsonModel, end: int },
}

/// The first session record from a place on.
pub open spec fn session_record(bytes: Seq<u8>, i: int) -> StartModel
    decreases bytes.len() - i,
    via session_record_decreases
{
    if i < 0 || i >= bytes.len() {
        StartModel::Unknown
    } else {
        let end = line_end(bytes, i);
        if end > MAX_ROLLOUT_IDENTITY_BYTES {
            StartModel::TooLong
        } else {
            match json::parsed(bytes.subrange(i, end)) {
                Ok(value) => if is_session_record(value) {
                    StartModel::Session { record: value, end }
                } else {
                    session_record(bytes, end)
                },
                Err(_) => session_record(bytes, end),
            }
        }
    }
}

#[via_fn]
proof fn session_record_decreases(bytes: Seq<u8>, i: int) {
    if 0 <= i < bytes.len() {
        line_end_range(bytes, i);
    }
}

/// Whether the start of a rollout belongs to a session.
pub open spec fn identity(bytes: Seq<u8>, expected: Seq<char>) -> Result<bool, ErrorModel> {
    match session_record(bytes, 0) {
        StartModel::Unknown => Ok(false),
        StartModel::TooLong => Err(
            title::protocol_error("rollout identity exceeded its byte limit"@),
        ),
        StartModel::Session { record, .. } => Ok(session_of(record) == Some(expected)),
    }
}

/// Whether the start of a rollout belongs to a session that no other one started.
pub open spec fn root_identity(bytes: Seq<u8>, expected: Seq<char>) -> Result<bool, ErrorModel> {
    match session_record(bytes, 0) {
        StartModel::Session { record, .. } => Ok(
            session_of(record) == Some(expected) && !is_subagent(record),
        ),
        _ => identity(bytes, expected),
    }
}

/// The start of a rollout.
enum Start {
    Unknown,
    TooLong,
    Session { record: Json, end: usize },
}

fn read_start(bytes: &[u8]) -> (r: Start)
    ensures
        match r {
            Start::Unknown => session_record(bytes@, 0) == StartModel::Unknown,
            Start::TooLong => session_record(bytes@, 0) == StartModel::TooLong,
            Start::Session { record, end } => session_record(bytes@, 0) == (
            StartModel::Session { record: record@, end: end as int }),
        },
{
    let len: usize = bytes.len();
    let mut i: usize = 0;
    while i < len
        invariant
            i <= len == bytes@.len(),
            session_record(bytes@, 0) == session_record(bytes@, i as int),
        decreases len - i,
    {
        let end: usize = end_of_line(bytes, i);
        if end > MAX_ROLLOUT_IDENTITY_BYTES {
            return Start::TooLong;
        }
        let line = slice_bytes(bytes, i, end);
        if let Ok(value) = json::read_json(&line) {
            if value.text_is("type", "session_meta") {
                return Start::Session { record: value, end };
            }
        }
        i = end;
    }
    Start::Unknown
}

fn session_is(record: &Json, expected: &str) -> (r: bool)
    ensures
        r == (session_of(record@) == Some(expected@)),
{
    match record.get("payload") {
        Some(payload) => payload.text_is("id", expected),
        None => false,
    }
}

fn started_by_another(record: &Json) -> (r: bool)
    ensures
        r == is_subagent(record@),
{
    match record.get("payload") {
        Some(payload) => match payload.get("source") {
            Some(source) => source.get("subagent").is_some(),
            None => false,
        },
        None => false,
    }
}

/// Whether the start of a rollout belongs to a session: its first session record
/// says so. The bytes are those from the start of the file, one more than are
/// searched at most.
pub fn rollout_identity_matches(bytes: &[u8], expected: &str) -> (r: Result<bool, MuxError>)
    ensures
        error::outcome(r) == identity(bytes@, expected@),
{
    match read_start(bytes) {
        Start::Unknown => Ok(false),
        Start::TooLong => Err(protocol("rollout identity exceeded its byte limit")),
        Start::Session { record, .. } => Ok(session_is(&record, expected)),
    }
}

/// Whether the start of a rollout belongs to a session that no other one started.
pub fn rollout_is_root_identity(bytes: &[u8], expected: &str) -> (r: Result<bool, MuxError>)
    ensures
        error::outcome(r) == root_identity(bytes@, expected@),
{
    match read_start(bytes) {
        Start::Unknown => Ok(false),
        Start::TooLong => Err(protocol("rollout identity exceeded its byte limit")),
        Start::Session { record, .. } => Ok(
            session_is(&record, expected) && !started_by_another(&record),
        ),
    }
}

/// Where the search for a session record ends, from a place on.
pub open spec fn searched_to(bytes: Seq<u8>, i: int) -> int
    decreases bytes.len() - i,
    via searched_to_decreases
{
    if i < 0 || i >= bytes.len() {
        bytes.len() as int
    } else {
        let end = line_end(bytes, i);
        if end > MAX_ROLLOUT_IDENTITY_BYTES {
            end
        } else {
            match json::parsed(bytes.subrange(i, end)) {
                Ok(value) => if is_session_record(value) {
                    end
                } else {
                    searched_to(bytes, end)
                },
                Err(_) => searched_to(bytes, end),
            }
        }
    }
}

#[via_fn]
proof fn searched_to_decreases(bytes: Seq<u8>, i: int) {
    if 0 <= i < bytes.len() {
        line_end_range(bytes, i);
    }
}

/// How many bytes the search for a session record reads.
pub fn searched_bytes(bytes: &[u8]) -> (r: usize)
    ensures
        r == searched_to(bytes@, 0),
{
    let len: usize = bytes.len();
    let mut i: usize = 0;
    while i < len
        invariant
            i <= len == bytes@.len(),
            searched_to(bytes@, 0) == searched_to(bytes@, i as int),
        decreases len - i,
    {
        let end: usize = end_of_line(bytes, i);
        if end > MAX_ROLLOUT_IDENTITY_BYTES {
            return end;
        }
        let line = slice_bytes(bytes, i, end);
        if let Ok(value) = json::read_json(&line) {
            if value.text_is("type", "session_meta") {
                return end;
            }
        }
        i = end;
    }
    len
}

/// A root identity is an identity.
pub proof fn a_root_session_is_that_session(bytes: Seq<u8>, expected: Seq<char>)
    requires
        root_identity(bytes, expected) == Ok::<bool, ErrorModel>(true),
    ensures
        identity(bytes, expected) == Ok::<bool, ErrorModel>(true),
{
}

// ---------------------------------------------------------------------------
// Transcript
// ---------------------------------------------------------------------------

/// What has been read of a conversation.
#[verifier::ext_equal]
pub struct ReadModel {
    pub messages: Seq<Seq<char>>,
    /// Items that were counted already.
    pub seen: Set<Seq<char>>,
    /// What the assistant said in the line before, in the older form.
    pub paired: Option<Seq<char>>,
}

pub open spec fn nothing_read() -> ReadModel {
    ReadModel { messages: Seq::empty(), seen: Set::empty(), paired: None }
}

/// What the content of a message says where it has exactly one part.
pub open spec fn single_said(content: JsonModel) -> Option<Seq<char>> {
    match content {
        JsonModel::Text(t) => Some(t),
        JsonModel::Array(parts) => if parts.len() == 1 {
            json::text_of(json::member(parts[0], "text"@))
        } else {
            None
        },
        _ => None,
    }
}

pub open spec fn content_pushed(
    messages: Seq<Seq<char>>,
    role: Seq<char>,
    content: JsonModel,
) -> Seq<Seq<char>> {
    match transcript::content_said(content) {
        Some(said) => transcript::pushed(messages, role, said),
        None => messages,
    }
}

/// A completed item, each counted once.
pub open spec fn after_item(state: ReadModel, item: JsonModel) -> ReadModel {
    let id = json::text_of(json::member(item, "id"@));
    let kind = json::text_of(json::member(item, "type"@));
    let done = ReadModel { paired: None, ..state };
    if id is Some && state.seen.contains(id->0) {
        done
    } else {
        let seen = if id is Some {
            state.seen.insert(id->0)
        } else {
            state.seen
        };
        let content = json::member(item, "content"@);
        let messages = if kind == Some("UserMessage"@) {
            content_pushed(state.messages, "User"@, content)
        } else if kind == Some("AgentMessage"@) {
            content_pushed(state.messages, "Assistant"@, content)
        } else {
            state.messages
        };
        ReadModel { messages, seen, paired: None }
    }
}

/// An event in the older form.
pub open spec fn after_event(state: ReadModel, payload: JsonModel) -> ReadModel {
    let kind = json::text_of(json::member(payload, "type"@));
    let said = json::text_of(json::member(payload, "message"@));
    let done = ReadModel { paired: None, ..state };
    if said is None {
        done
    } else if kind == Some("user_message"@) {
        ReadModel {
            messages: transcript::pushed(state.messages, "User"@, said->0),
            ..done
        }
    } else if kind == Some("agent_message"@) {
        ReadModel {
            messages: transcript::pushed(state.messages, "Assistant"@, said->0),
            seen: state.seen,
            paired: said,
        }
    } else {
        done
    }
}

/// A response of the assistant. One without an identity that repeats the event in
/// the line before is not counted again.
pub open spec fn after_response(state: ReadModel, payload: JsonModel) -> ReadModel {
    let id = json::text_of(json::member(payload, "id"@));
    let content = json::member(payload, "content"@);
    let done = ReadModel { paired: None, ..state };
    if id is Some {
        if state.seen.contains(id->0) {
            done
        } else {
            ReadModel {
                messages: content_pushed(state.messages, "Assistant"@, content),
                seen: state.seen.insert(id->0),
                paired: None,
            }
        }
    } else if single_said(content) is Some && single_said(content) == state.paired {
        done
    } else {
        ReadModel { messages: content_pushed(state.messages, "Assistant"@, content), ..done }
    }
}

/// What has been read after one more record.
pub open spec fn after_record(state: ReadModel, value: JsonModel) -> ReadModel {
    let kind = json::member(value, "type"@);
    let payload = json::member(value, "payload"@);
    let payload_kind = json::member(payload, "type"@);
    if json::is_text(kind, "event_msg"@) && json::is_text(payload_kind, "item_completed"@) {
        after_item(state, json::member(payload, "item"@))
    } else if json::is_text(kind, "event_msg"@) {
        after_event(state, payload)
    } else if json::is_text(kind, "response_item"@) && json::is_text(payload_kind, "message"@)
        && json::is_text(json::member(payload, "role"@), "assistant"@) {
        after_response(state, payload)
    } else {
        ReadModel { paired: None, ..state }
    }
}

/// What has been read after the lines from a place on. A line that is no JSON only
/// parts the lines around it.
pub open spec fn after_lines(state: ReadModel, bytes: Seq<u8>, i: int) -> ReadModel
    decreases bytes.len() - i,
    via after_lines_decreases
{
    if i < 0 || i >= bytes.len() {
        state
    } else {
        let end = line_end(bytes, i);
        let next = match json::parsed(bytes.subrange(i, end)) {
            Ok(value) => after_record(state, value),
            Err(_) => ReadModel { paired: None, ..state },
        };
        after_lines(next, bytes, end)
    }
}

#[via_fn]
proof fn after_lines_decreases(state: ReadModel, bytes: Seq<u8>, i: int) {
    if 0 <= i < bytes.len() {
        line_end_range(bytes, i);
    }
}

/// The transcript in a part of a rollout. Where the part does not begin at the start
/// of the file, the rest of its first line is passed over.
pub open spec fn transcript_text(bytes: Seq<u8>, from_middle: bool) -> Seq<char> {
    let start = if from_middle {
        line_end(bytes, 0)
    } else {
        0
    };
    transcript::concatenated(after_lines(nothing_read(), bytes, start).messages)
}

/// Where the part of a rollout begins that holds the transcript.
pub open spec fn start_of(size: u64) -> u64 {
    if size > MAX_ROLLOUT_TRANSCRIPT_BYTES {
        (size - MAX_ROLLOUT_TRANSCRIPT_BYTES) as u64
    } else {
        0
    }
}

/// Where reading starts in a file of a size, so that no more than the bound is read.
pub fn transcript_start(size: u64) -> (r: u64)
    ensures
        r == start_of(size),
{
    if size > MAX_ROLLOUT_TRANSCRIPT_BYTES {
        size - MAX_ROLLOUT_TRANSCRIPT_BYTES
    } else {
        0
    }
}

struct Reading {
    transcript: RecentTranscript,
    seen: Vec<String>,
    paired: Option<String>,
}

spec fn reading_view(r: Reading) -> ReadModel {
    ReadModel {
        messages: r.transcript.held(),
        seen: text::texts(r.seen@).to_set(),
        paired: text::option_view(r.paired),
    }
}

/// Counts an identity; whether it is new.
fn count(seen: &mut Vec<String>, id: &str) -> (r: bool)
    ensures
        r == !text::texts(old(seen)@).to_set().contains(id@),
        text::texts(final(seen)@).to_set() == text::texts(old(seen)@).to_set().insert(id@),
{
    let ghost before = text::texts(seen@);
    if text::holds_text(seen, id) {
        assert(before.to_set() =~= before.to_set().insert(id@));
        return false;
    }
    put(seen, id);
    assert(text::texts(seen@).to_set() =~= before.to_set().insert(id@)) by {
        let after = before.push(id@);
        assert forall|x: Seq<char>| after.contains(x) <==> before.contains(x) || x == id@ by {
            if after.contains(x) {
                let k = choose|k: int| 0 <= k < after.len() && after[k] == x;
                if k < before.len() {
                    assert(before[k] == x);
                }
            }
            if before.contains(x) {
                let k = choose|k: int| 0 <= k < before.len() && before[k] == x;
                assert(after[k] == x);
            }
            assert(after[before.len() as int] == id@);
        }
    }
    true
}

fn on_item(state: &mut Reading, item: &Json)
    ensures
        reading_view(*final(state)) == after_item(reading_view(*old(state)), item@),
{
    state.paired = None;
    if let Some(id) = item.text_at("id") {
        if !count(&mut state.seen, id) {
            return ;
        }
    }
    let Some(content) = item.get("content") else {
        proof {
            assert(json::member(item@, "content"@) == JsonModel::Null);
        }
        return ;
    };
    if item.text_is("type", "UserMessage") {
        state.transcript.push_content("User", content);
    } else if item.text_is("type", "AgentMessage") {
        proof {
            reveal_strlit("UserMessage");
            reveal_strlit("AgentMessage");
        }
        state.transcript.push_content("Assistant", content);
    }
}

fn on_event(state: &mut Reading, payload: &Json)
    ensures
        reading_view(*final(state)) == after_event(reading_view(*old(state)), payload@),
{
    state.paired = None;
    let Some(said) = payload.text_at("message") else {
        return ;
    };
    if payload.text_is("type", "user_message") {
        state.transcript.push("User", said);
    } else if payload.text_is("type", "agent_message") {
        state.transcript.push("Assistant", said);
        state.paired = Some(said.to_owned());
    }
}

/// The text of a content that has exactly one part.
fn rollout_single_text(content: &Json) -> (r: Option<&str>)
    ensures
        match r {
            Some(t) => single_said(content@) == Some(t@),
            None => single_said(content@) is None,
        },
{
    if let Some(t) = content.as_text() {
        return Some(t);
    }
    match content.as_array() {
        Some(parts) => {
            if parts.len() == 1 {
                assert(json::list_view(parts@)[0] == parts@[0]@);
                parts[0].text_at("text")
            } else {
                None
            }
        },
        None => None,
    }
}

fn on_response(state: &mut Reading, payload: &Json)
    ensures
        reading_view(*final(state)) == after_response(reading_view(*old(state)), payload@),
{
    let paired = state.paired.take();
    let nothing = Json::Null;
    let content: &Json = match payload.get("content") {
        Some(found) => found,
        None => &nothing,
    };
    if let Some(id) = payload.text_at("id") {
        if count(&mut state.seen, id) {
            state.transcript.push_content("Assistant", content);
        } else {
            assert(reading_view(*state).seen =~= reading_view(*old(state)).seen);
        }
        return ;
    }
    if let Some(said) = rollout_single_text(content) {
        if let Some(before) = &paired {
            if text_equal(said, before) {
                return ;
            }
        }
    }
    state.transcript.push_content("Assistant", content);
}

fn on_record(state: &mut Reading, value: &Json)
    ensures
        reading_view(*final(state)) == after_record(reading_view(*old(state)), value@),
{
    let nothing = Json::Null;
    let payload: &Json = match value.get("payload") {
        Some(found) => found,
        None => &nothing,
    };
    if value.text_is("type", "event_msg") {
        if payload.text_is("type", "item_completed") {
            let item: &Json = match payload.get("item") {
                Some(found) => found,
                None => &nothing,
            };
            on_item(state, item);
        } else {
            on_event(state, payload);
        }
    } else if value.text_is("type", "response_item") && payload.text_is("type", "message")
        && payload.text_is("role", "assistant") {
        on_response(state, payload);
    } else {
        state.paired = None;
    }
}

/// The transcript in a part of a rollout.
pub fn read_rollout_transcript(bytes: &[u8], from_middle: bool) -> (r: String)
    ensures
        r@ == transcript_text(bytes@, from_middle),
        transcript::size(r@) <= transcript::MAX_CONVERSATION_BYTES,
{
    let len: usize = bytes.len();
    let mut i: usize = if from_middle {
        end_of_line(bytes, 0)
    } else {
        0
    };
    let ghost start = i as int;
    let mut state = Reading {
        transcript: RecentTranscript::new(),
        seen: text::no_texts(),
        paired: None,
    };
    proof {
        assert(text::texts(state.seen@).to_set() =~= Set::<Seq<char>>::empty());
        assert(reading_view(state) =~= nothing_read());
    }
    while i < len
        invariant
            start <= i <= len == bytes@.len(),
            after_lines(nothing_read(), bytes@, start) == after_lines(
                reading_view(state),
                bytes@,
                i as int,
            ),
        decreases len - i,
    {
        let end: usize = end_of_line(bytes, i);
        let line = slice_bytes(bytes, i, end);
        match json::read_json(&line) {
            Ok(value) => on_record(&mut state, &value),
            Err(_) => {
                state.paired = None;
            },
        }
        i = end;
    }
    state.transcript.render()
}

} // verus!
