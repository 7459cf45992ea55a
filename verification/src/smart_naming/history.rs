//! Pages of the app-server: listed threads, turns and items.

use vstd::prelude::*;
use crate::error;
use crate::error::{ErrorModel, MuxError};
use crate::json;
use crate::json::{Json, JsonModel};
use crate::scan::starts_with;
use crate::smart_naming::thread;
use crate::smart_naming::thread::looks_like_thread_id;
use crate::smart_naming::title;
use crate::smart_naming::title::protocol;
use crate::smart_naming::transcript;
use crate::smart_naming::transcript::{parts_text, RecentTranscript};
use crate::text;
use crate::text::{put, text_equal};

verus! {

/// Most entries of a page.
pub const PAGE_SIZE: usize = 100;

/// Most pages of threads that are listed.
pub const MAX_THREAD_LIST_PAGES: usize = 20;

/// Most pages of turns, and of items, that are listed.
pub const MAX_THREAD_TURNS_PAGES: usize = 100;

/// Most requests for one conversation.
pub const MAX_HISTORY_REQUESTS: usize = 64;

/// Most turns of one conversation.
pub const MAX_HISTORY_ENTRIES: usize = 6400;

/// Most bytes of the identity of a turn.
pub const MAX_HISTORY_ID_BYTES: usize = 128;

/// Most bytes of a page cursor.
pub const MAX_CURSOR_BYTES: usize = 4096;

// ---------------------------------------------------------------------------
// Budgets and cursors
// ---------------------------------------------------------------------------

/// Takes one request out of a budget.
pub fn take_history_request(remaining: &mut usize) -> (r: Result<(), MuxError>)
    ensures
        *old(remaining) == 0 ==> *final(remaining) == 0 && error::outcome(r) == Err::<
            (),
            ErrorModel,
        >(title::protocol_error("conversation history exceeded its request budget"@)),
        *old(remaining) > 0 ==> r is Ok && *final(remaining) == *old(remaining) - 1,
{
    if *remaining == 0 {
        return Err(protocol("conversation history exceeded its request budget"));
    }
    *remaining -= 1;
    Ok(())
}

/// Where a list goes on: null at its end, else a short text.
pub open spec fn cursor_of(value: JsonModel) -> Result<Option<Seq<char>>, ErrorModel> {
    match value {
        JsonModel::Null => Ok(None),
        JsonModel::Text(t) => if 0 < transcript::size(t) <= MAX_CURSOR_BYTES {
            Ok(Some(t))
        } else {
            Err(title::protocol_error("app-server returned an invalid pagination cursor"@))
        },
        _ => Err(title::protocol_error("app-server returned an invalid pagination cursor"@)),
    }
}

pub open spec fn text_outcome(r: Result<Option<String>, MuxError>) -> Result<
    Option<Seq<char>>,
    ErrorModel,
> {
    match r {
        Ok(found) => Ok(text::option_view(found)),
        Err(e) => Err(e@),
    }
}

pub fn bounded_cursor(value: &Json) -> (r: Result<Option<String>, MuxError>)
    ensures
        text_outcome(r) == cursor_of(value@),
{
    match value {
        Json::Null => Ok(None),
        Json::Text(t) => {
            let len: usize = t.as_str().as_bytes().len();
            if len == 0 || len > MAX_CURSOR_BYTES {
                return Err(protocol("app-server returned an invalid pagination cursor"));
            }
            Ok(Some(t.clone()))
        },
        _ => Err(protocol("app-server returned an invalid pagination cursor")),
    }
}

/// The cursor of a page.
fn page_cursor(reply: &Json) -> (r: Result<Option<String>, MuxError>)
    ensures
        text_outcome(r) == cursor_of(json::member(reply@, "nextCursor"@)),
{
    match reply.get("nextCursor") {
        Some(value) => bounded_cursor(value),
        None => Ok(None),
    }
}

/// The cursor of a page, where no page before had it.
pub open spec fn fresh_cursor(
    reply: JsonModel,
    seen: Seq<Seq<char>>,
    repeated: Seq<char>,
) -> Result<Option<Seq<char>>, ErrorModel> {
    match cursor_of(json::member(reply, "nextCursor"@)) {
        Ok(Some(c)) => if seen.contains(c) {
            Err(title::protocol_error(repeated))
        } else {
            Ok(Some(c))
        },
        other => other,
    }
}

fn next_cursor(reply: &Json, seen: &Vec<String>, repeated: &str) -> (r: Result<
    Option<String>,
    MuxError,
>)
    ensures
        text_outcome(r) == fresh_cursor(reply@, text::texts(seen@), repeated@),
{
    match page_cursor(reply) {
        Ok(Some(c)) => {
            if text::holds_text(seen, &c) {
                return Err(protocol(repeated));
            }
            Ok(Some(c))
        },
        other => other,
    }
}

/// An optional text as JSON.
pub open spec fn optional_text(t: Option<Seq<char>>) -> JsonModel {
    match t {
        Some(t) => JsonModel::Text(t),
        None => JsonModel::Null,
    }
}

fn optional_json(t: &Option<String>) -> (r: Json)
    ensures
        r@ == optional_text(text::option_view(*t)),
{
    match t {
        Some(t) => json::text(t),
        None => Json::Null,
    }
}

// ---------------------------------------------------------------------------
// Threads
// ---------------------------------------------------------------------------

/// A request for a page of threads.
pub open spec fn list_params(cursor: Option<Seq<char>>, state_db_only: bool) -> JsonModel {
    json::with_member(
        json::with_member(
            json::with_member(
                json::with_member(
                    json::with_member(json::no_members(), "cursor"@, optional_text(cursor)),
                    "limit"@,
                    json::number_model(100),
                ),
                "sortDirection"@,
                JsonModel::Text("desc"@),
            ),
            "sortKey"@,
            JsonModel::Text("updated_at"@),
        ),
        "useStateDbOnly"@,
        JsonModel::Bool(state_db_only),
    )
}

pub fn thread_list_params(cursor: &Option<String>, state_db_only: bool) -> (r: Json)
    ensures
        r@ == list_params(text::option_view(*cursor), state_db_only),
{
    let r = json::put_member(json::empty_object(), "cursor", optional_json(cursor));
    let r = json::put_member(r, "limit", json::number(100));
    let r = json::put_member(r, "sortDirection", json::text("desc"));
    let r = json::put_member(r, "sortKey", json::text("updated_at"));
    json::put_member(r, "useStateDbOnly", Json::Bool(state_db_only))
}

/// The thread that a hint stands for, after some listed threads.
pub open spec fn listed(
    threads: Seq<JsonModel>,
    hint: Seq<char>,
    matched: Option<Seq<char>>,
) -> Result<Option<Seq<char>>, ErrorModel>
    decreases threads.len(),
{
    if threads.len() == 0 {
        Ok(matched)
    } else {
        match listed(threads.drop_last(), hint, matched) {
            Err(e) => Err(e),
            Ok(before) => match json::text_of(json::member(threads.last(), "id"@)) {
                None => Ok(before),
                Some(id) => if !thread::is_thread_id(id) || !hint.is_prefix_of(id) {
                    Ok(before)
                } else if before is Some && before->0 != id {
                    Err(title::protocol_error("truncated pane title matches multiple threads"@))
                } else {
                    Ok(Some(id))
                },
            },
        }
    }
}

/// What a page of threads amounts to: the thread found so far, and where to go on.
pub open spec fn thread_page(
    reply: JsonModel,
    hint: Seq<char>,
    matched: Option<Seq<char>>,
    seen: Seq<Seq<char>>,
) -> Result<(Option<Seq<char>>, Option<Seq<char>>), ErrorModel> {
    match json::member(reply, "data"@) {
        JsonModel::Array(threads) => if threads.len() > PAGE_SIZE {
            Err(title::protocol_error("thread/list exceeded its requested page size"@))
        } else {
            match listed(threads, hint, matched) {
                Err(e) => Err(e),
                Ok(found) => match fresh_cursor(
                    reply,
                    seen,
                    "thread/list repeated its pagination cursor"@,
                ) {
                    Err(e) => Err(e),
                    Ok(next) => Ok((found, next)),
                },
            }
        },
        _ => Err(title::protocol_error("thread/list did not return thread data"@)),
    }
}

fn read_listed(threads: &Vec<Json>, hint: &str, matched: Option<String>) -> (r: Result<
    Option<String>,
    MuxError,
>)
    ensures
        text_outcome(r) == listed(
            json::list_view(threads@),
            hint@,
            text::option_view(matched),
        ),
{
    let ghost all = json::list_view(threads@);
    let ghost given = text::option_view(matched);
    let mut found = matched;
    let mut i: usize = 0;
    assert(all.take(0) =~= Seq::<JsonModel>::empty());
    while i < threads.len()
        invariant
            i <= threads.len(),
            all == json::list_view(threads@),
            listed(all.take(i as int), hint@, given) == Ok::<Option<Seq<char>>, ErrorModel>(
                text::option_view(found),
            ),
        decreases threads.len() - i,
    {
        proof {
            assert(all.take(i + 1).drop_last() =~= all.take(i as int));
            assert(all.take(i + 1).last() == threads@[i as int]@);
        }
        if let Some(id) = threads[i].text_at("id") {
            if looks_like_thread_id(id) && starts_with(id, hint) {
                if let Some(existing) = &found {
                    if !text_equal(existing, id) {
                        proof {
                            listed_error_stays(all, hint@, given, i + 1);
                        }
                        return Err(protocol("truncated pane title matches multiple threads"));
                    }
                }
                found = Some(id.to_owned());
            }
        }
        i += 1;
    }
    assert(all.take(all.len() as int) =~= all);
    Ok(found)
}

proof fn listed_error_stays(
    threads: Seq<JsonModel>,
    hint: Seq<char>,
    matched: Option<Seq<char>>,
    i: int,
)
    requires
        0 <= i <= threads.len(),
        listed(threads.take(i), hint, matched) is Err,
    ensures
        listed(threads, hint, matched) == listed(threads.take(i), hint, matched),
    decreases threads.len() - i,
{
    if i < threads.len() {
        assert(threads.take(i + 1).drop_last() =~= threads.take(i));
        listed_error_stays(threads, hint, matched, i + 1);
    } else {
        assert(threads.take(i) =~= threads);
    }
}

/// Reads a page of threads.
pub fn read_thread_page(
    reply: &Json,
    hint: &str,
    matched: Option<String>,
    seen: &Vec<String>,
) -> (r: Result<(Option<String>, Option<String>), MuxError>)
    ensures
        match r {
            Ok((found, next)) => thread_page(
                reply@,
                hint@,
                text::option_view(matched),
                text::texts(seen@),
            ) == Ok::<(Option<Seq<char>>, Option<Seq<char>>), ErrorModel>(
                (text::option_view(found), text::option_view(next)),
            ),
            Err(e) => thread_page(
                reply@,
                hint@,
                text::option_view(matched),
                text::texts(seen@),
            ) == Err::<(Option<Seq<char>>, Option<Seq<char>>), ErrorModel>(e@),
        },
{
    let Some(threads) = reply.array_at("data") else {
        return Err(protocol("thread/list did not return thread data"));
    };
    if threads.len() > PAGE_SIZE {
        return Err(protocol("thread/list exceeded its requested page size"));
    }
    let found = match read_listed(threads, hint, matched) {
        Ok(found) => found,
        Err(e) => return Err(e),
    };
    match next_cursor(reply, seen, "thread/list repeated its pagination cursor") {
        Ok(next) => Ok((found, next)),
        Err(e) => Err(e),
    }
}

/// What a listed thread is found to be: a full identity that begins with the hint, or
/// what was found before.
pub proof fn listed_threads_fit(
    threads: Seq<JsonModel>,
    hint: Seq<char>,
    matched: Option<Seq<char>>,
)
    requires
        listed(threads, hint, matched) is Ok,
    ensures
        listed(threads, hint, matched)->Ok_0 == matched || (listed(
            threads,
            hint,
            matched,
        )->Ok_0 is Some && thread::is_thread_id(listed(threads, hint, matched)->Ok_0->0)
            && hint.is_prefix_of(listed(threads, hint, matched)->Ok_0->0)),
        matched is Some ==> listed(threads, hint, matched)->Ok_0 == matched,
    decreases threads.len(),
{
    if threads.len() > 0 {
        listed_threads_fit(threads.drop_last(), hint, matched);
    }
}

// ---------------------------------------------------------------------------
// Turns
// ---------------------------------------------------------------------------

/// A request for a page of turns.
pub open spec fn turns_params(id: Seq<char>, cursor: Option<Seq<char>>) -> JsonModel {
    json::with_member(
        json::with_member(
            json::with_member(
                json::with_member(
                    json::with_member(json::no_members(), "cursor"@, optional_text(cursor)),
                    "itemsView"@,
                    JsonModel::Text("notLoaded"@),
                ),
                "limit"@,
                json::number_model(100),
            ),
            "sortDirection"@,
            JsonModel::Text("desc"@),
        ),
        "threadId"@,
        JsonModel::Text(id),
    )
}

pub fn turn_list_params(id: &str, cursor: &Option<String>) -> (r: Json)
    ensures
        r@ == turns_params(id@, text::option_view(*cursor)),
{
    let r = json::put_member(json::empty_object(), "cursor", optional_json(cursor));
    let r = json::put_member(r, "itemsView", json::text("notLoaded"));
    let r = json::put_member(r, "limit", json::number(100));
    let r = json::put_member(r, "sortDirection", json::text("desc"));
    json::put_member(r, "threadId", json::text(id))
}

/// An identity that is neither empty nor too long.
pub open spec fn is_history_id(id: Seq<char>) -> bool {
    0 < transcript::size(id) <= MAX_HISTORY_ID_BYTES
}

fn check_history_id(id: &str) -> (r: bool)
    ensures
        r == is_history_id(id@),
{
    let len: usize = id.as_bytes().len();
    0 < len && len <= MAX_HISTORY_ID_BYTES
}

/// The completed turns, after some listed ones.
pub open spec fn completed(turns: Seq<JsonModel>, before: Seq<Seq<char>>) -> Result<
    Seq<Seq<char>>,
    ErrorModel,
>
    decreases turns.len(),
{
    if turns.len() == 0 {
        Ok(before)
    } else {
        match completed(turns.drop_last(), before) {
            Err(e) => Err(e),
            Ok(found) => {
                let id = json::text_of(json::member(turns.last(), "id"@));
                if !json::is_text(json::member(turns.last(), "status"@), "completed"@) || id is None {
                    Ok(found)
                } else if !is_history_id(id->0) {
                    Err(title::protocol_error("thread/turns/list returned an invalid turn id"@))
                } else if found.contains(id->0) {
                    Ok(found)
                } else if found.len() >= MAX_HISTORY_ENTRIES {
                    Err(title::protocol_error("conversation history exceeded its entry budget"@))
                } else {
                    Ok(found.push(id->0))
                }
            },
        }
    }
}

proof fn completed_error_stays(turns: Seq<JsonModel>, before: Seq<Seq<char>>, i: int)
    requires
        0 <= i <= turns.len(),
        completed(turns.take(i), before) is Err,
    ensures
        completed(turns, before) == completed(turns.take(i), before),
    decreases turns.len() - i,
{
    if i < turns.len() {
        assert(turns.take(i + 1).drop_last() =~= turns.take(i));
        completed_error_stays(turns, before, i + 1);
    } else {
        assert(turns.take(i) =~= turns);
    }
}

/// What a page of turns amounts to: the completed turns so far, and where to go on.
pub open spec fn turn_page(
    reply: JsonModel,
    before: Seq<Seq<char>>,
    seen: Seq<Seq<char>>,
) -> Result<(Seq<Seq<char>>, Option<Seq<char>>), ErrorModel> {
    match json::member(reply, "data"@) {
        JsonModel::Array(turns) => if turns.len() > PAGE_SIZE {
            Err(title::protocol_error("thread/turns/list exceeded its requested page size"@))
        } else {
            match completed(turns, before) {
                Err(e) => Err(e),
                Ok(found) => match fresh_cursor(
                    reply,
                    seen,
                    "thread/turns/list repeated its pagination cursor"@,
                ) {
                    Err(e) => Err(e),
                    Ok(next) => Ok((found, next)),
                },
            }
        },
        _ => Err(title::protocol_error("thread/turns/list did not return turn data"@)),
    }
}

/// Adds the completed turns of a page.
fn add_completed(turns: &Vec<Json>, found: &mut Vec<String>) -> (r: Result<(), MuxError>)
    ensures
        match r {
            Ok(_) => completed(json::list_view(turns@), text::texts(old(found)@)) == Ok::<
                Seq<Seq<char>>,
                ErrorModel,
            >(text::texts(final(found)@)),
            Err(e) => completed(json::list_view(turns@), text::texts(old(found)@)) == Err::<
                Seq<Seq<char>>,
                ErrorModel,
            >(e@),
        },
{
    let ghost all = json::list_view(turns@);
    let ghost before = text::texts(found@);
    let mut i: usize = 0;
    assert(all.take(0) =~= Seq::<JsonModel>::empty());
    while i < turns.len()
        invariant
            i <= turns.len(),
            all == json::list_view(turns@),
            completed(all.take(i as int), before) == Ok::<Seq<Seq<char>>, ErrorModel>(
                text::texts(found@),
            ),
        decreases turns.len() - i,
    {
        proof {
            assert(all.take(i + 1).drop_last() =~= all.take(i as int));
            assert(all.take(i + 1).last() == turns@[i as int]@);
        }
        if turns[i].text_is("status", "completed") {
            if let Some(id) = turns[i].text_at("id") {
                if !check_history_id(id) {
                    proof {
                        completed_error_stays(all, before, i + 1);
                    }
                    return Err(protocol("thread/turns/list returned an invalid turn id"));
                }
                if !text::holds_text(found, id) {
                    if found.len() >= MAX_HISTORY_ENTRIES {
                        proof {
                            completed_error_stays(all, before, i + 1);
                        }
                        return Err(protocol("conversation history exceeded its entry budget"));
                    }
                    put(found, id);
                }
            }
        }
        i += 1;
    }
    assert(all.take(all.len() as int) =~= all);
    Ok(())
}

/// Reads a page of turns into the completed ones; gives where to go on.
pub fn read_turn_page(reply: &Json, found: &mut Vec<String>, seen: &Vec<String>) -> (r: Result<
    Option<String>,
    MuxError,
>)
    ensures
        match r {
            Ok(next) => turn_page(reply@, text::texts(old(found)@), text::texts(seen@)) == Ok::<
                (Seq<Seq<char>>, Option<Seq<char>>),
                ErrorModel,
            >((text::texts(final(found)@), text::option_view(next))),
            Err(e) => turn_page(reply@, text::texts(old(found)@), text::texts(seen@)) == Err::<
                (Seq<Seq<char>>, Option<Seq<char>>),
                ErrorModel,
            >(e@),
        },
{
    let Some(turns) = reply.array_at("data") else {
        return Err(protocol("thread/turns/list did not return turn data"));
    };
    if turns.len() > PAGE_SIZE {
        return Err(protocol("thread/turns/list exceeded its requested page size"));
    }
    if let Err(e) = add_completed(turns, found) {
        return Err(e);
    }
    next_cursor(reply, seen, "thread/turns/list repeated its pagination cursor")
}

// ---------------------------------------------------------------------------
// Items
// ---------------------------------------------------------------------------

/// A request for a page of items.
pub open spec fn items_params(id: Seq<char>, cursor: Option<Seq<char>>) -> JsonModel {
    json::with_member(
        json::with_member(
            json::with_member(
                json::with_member(json::no_members(), "cursor"@, optional_text(cursor)),
                "limit"@,
                json::number_model(100),
            ),
            "sortDirection"@,
            JsonModel::Text("desc"@),
        ),
        "threadId"@,
        JsonModel::Text(id),
    )
}

pub fn item_list_params(id: &str, cursor: &Option<String>) -> (r: Json)
    ensures
        r@ == items_params(id@, text::option_view(*cursor)),
{
    let r = json::put_member(json::empty_object(), "cursor", optional_json(cursor));
    let r = json::put_member(r, "limit", json::number(100));
    let r = json::put_member(r, "sortDirection", json::text("desc"));
    json::put_member(r, "threadId", json::text(id))
}

/// Who says what in an item, where it is a message with a text.
pub open spec fn item_said(item: JsonModel) -> Option<(Seq<char>, Seq<char>)> {
    let kind = json::text_of(json::member(item, "type"@));
    if kind == Some("userMessage"@) {
        match json::member(item, "content"@) {
            JsonModel::Array(parts) => if transcript::parts_said(parts).len() == 0 {
                None
            } else {
                Some(("User"@, transcript::parts_said(parts)))
            },
            _ => None,
        }
    } else if kind == Some("agentMessage"@) {
        match json::text_of(json::member(item, "text"@)) {
            Some(t) => Some(("Assistant"@, t)),
            None => None,
        }
    } else {
        None
    }
}

/// The messages, newest first, after some listed items: those of completed turns.
pub open spec fn items_read(
    items: Seq<JsonModel>,
    turns: Seq<Seq<char>>,
    before: Seq<Seq<char>>,
) -> Result<Seq<Seq<char>>, ErrorModel>
    decreases items.len(),
{
    if items.len() == 0 {
        Ok(before)
    } else {
        match items_read(items.drop_last(), turns, before) {
            Err(e) => Err(e),
            Ok(messages) => match json::text_of(json::member(items.last(), "turnId"@)) {
                None => Ok(messages),
                Some(id) => if !is_history_id(id) {
                    Err(title::protocol_error("thread/items/list returned an invalid turn id"@))
                } else if !turns.contains(id) {
                    Ok(messages)
                } else {
                    match item_said(json::member(items.last(), "item"@)) {
                        Some((role, said)) => Ok(
                            transcript::pushed_older(messages, role, said),
                        ),
                        None => Ok(messages),
                    }
                },
            },
        }
    }
}

proof fn items_error_stays(
    items: Seq<JsonModel>,
    turns: Seq<Seq<char>>,
    before: Seq<Seq<char>>,
    i: int,
)
    requires
        0 <= i <= items.len(),
        items_read(items.take(i), turns, before) is Err,
    ensures
        items_read(items, turns, before) == items_read(items.take(i), turns, before),
    decreases items.len() - i,
{
    if i < items.len() {
        assert(items.take(i + 1).drop_last() =~= items.take(i));
        items_error_stays(items, turns, before, i + 1);
    } else {
        assert(items.take(i) =~= items);
    }
}

/// What a page of items amounts to: the messages so far, and where to go on.
pub open spec fn item_page(
    reply: JsonModel,
    turns: Seq<Seq<char>>,
    before: Seq<Seq<char>>,
    seen: Seq<Seq<char>>,
) -> Result<(Seq<Seq<char>>, Option<Seq<char>>), ErrorModel> {
    match json::member(reply, "data"@) {
        JsonModel::Array(items) => if items.len() > PAGE_SIZE {
            Err(title::protocol_error("thread/items/list exceeded its requested page size"@))
        } else {
            match items_read(items, turns, before) {
                Err(e) => Err(e),
                Ok(messages) => match fresh_cursor(
                    reply,
                    seen,
                    "thread/items/list repeated its pagination cursor"@,
                ) {
                    Err(e) => Err(e),
                    Ok(next) => Ok((messages, next)),
                },
            }
        },
        _ => Err(title::protocol_error("thread/items/list did not return item data"@)),
    }
}

/// Adds what an item says.
fn add_item(item: &Json, messages: &mut RecentTranscript)
    ensures
        final(messages).held() == match item_said(item@) {
            Some((role, said)) => transcript::pushed_older(old(messages).held(), role, said),
            None => old(messages).held(),
        },
{
    if item.text_is("type", "userMessage") {
        if let Some(parts) = item.array_at("content") {
            let said = parts_text(parts);
            if said.unicode_len() > 0 {
                messages.push_newest_first("User", &said);
            }
        }
    } else if item.text_is("type", "agentMessage") {
        proof {
            reveal_strlit("userMessage");
            reveal_strlit("agentMessage");
        }
        if let Some(said) = item.text_at("text") {
            messages.push_newest_first("Assistant", said);
        }
    }
}

fn add_items(items: &Vec<Json>, turns: &Vec<String>, messages: &mut RecentTranscript) -> (r: Result<
    (),
    MuxError,
>)
    ensures
        match r {
            Ok(_) => items_read(
                json::list_view(items@),
                text::texts(turns@),
                old(messages).held(),
            ) == Ok::<Seq<Seq<char>>, ErrorModel>(final(messages).held()),
            Err(e) => items_read(
                json::list_view(items@),
                text::texts(turns@),
                old(messages).held(),
            ) == Err::<Seq<Seq<char>>, ErrorModel>(e@),
        },
{
    let ghost all = json::list_view(items@);
    let ghost before = messages.held();
    let nothing = Json::Null;
    let mut i: usize = 0;
    assert(all.take(0) =~= Seq::<JsonModel>::empty());
    while i < items.len()
        invariant
            i <= items.len(),
            all == json::list_view(items@),
            nothing@ == JsonModel::Null,
            items_read(all.take(i as int), text::texts(turns@), before) == Ok::<
                Seq<Seq<char>>,
                ErrorModel,
            >(messages.held()),
        decreases items.len() - i,
    {
        proof {
            assert(all.take(i + 1).drop_last() =~= all.take(i as int));
            assert(all.take(i + 1).last() == items@[i as int]@);
        }
        if let Some(id) = items[i].text_at("turnId") {
            if !check_history_id(id) {
                proof {
                    items_error_stays(all, text::texts(turns@), before, i + 1);
                }
                return Err(protocol("thread/items/list returned an invalid turn id"));
            }
            if text::holds_text(turns, id) {
                let item: &Json = match items[i].get("item") {
                    Some(found) => found,
                    None => &nothing,
                };
                add_item(item, messages);
            }
        }
        i += 1;
    }
    assert(all.take(all.len() as int) =~= all);
    Ok(())
}

/// Reads a page of items into the messages; gives where to go on.
pub fn read_item_page(
    reply: &Json,
    turns: &Vec<String>,
    messages: &mut RecentTranscript,
    seen: &Vec<String>,
) -> (r: Result<Option<String>, MuxError>)
    ensures
        match r {
            Ok(next) => item_page(
                reply@,
                text::texts(turns@),
                old(messages).held(),
                text::texts(seen@),
            ) == Ok::<(Seq<Seq<char>>, Option<Seq<char>>), ErrorModel>(
                (final(messages).held(), text::option_view(next)),
            ),
            Err(e) => item_page(
                reply@,
                text::texts(turns@),
                old(messages).held(),
                text::texts(seen@),
            ) == Err::<(Seq<Seq<char>>, Option<Seq<char>>), ErrorModel>(e@),
        },
{
    let Some(items) = reply.array_at("data") else {
        return Err(protocol("thread/items/list did not return item data"));
    };
    if items.len() > PAGE_SIZE {
        return Err(protocol("thread/items/list exceeded its requested page size"));
    }
    if let Err(e) = add_items(items, turns, messages) {
        return Err(e);
    }
    next_cursor(reply, seen, "thread/items/list repeated its pagination cursor")
}

} // verus!
