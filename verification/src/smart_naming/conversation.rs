//! Reading a conversation from the app-server and asking for its name.

use vstd::prelude::*;
use crate::error::{ErrorModel, MuxError};
use crate::json;
use crate::json::{Json, JsonModel};
use crate::scan;
use crate::scan::blank;
use crate::smart_naming::diagnostics::NamingDiagnostics;
use crate::smart_naming::history;
use crate::smart_naming::history::{
    item_list_params, read_item_page, read_thread_page, read_turn_page, take_history_request,
    thread_list_params, turn_list_params, MAX_HISTORY_REQUESTS, MAX_THREAD_LIST_PAGES,
    MAX_THREAD_TURNS_PAGES,
};
use crate::smart_naming::lane::ConversationNamer;
use crate::smart_naming::messages;
use crate::smart_naming::rollout_replay;
use crate::smart_naming::rollout_store::{RolloutFiles, RolloutStore};
use crate::smart_naming::target::NamingTarget;
use crate::smart_naming::thread;
use crate::smart_naming::thread::looks_like_thread_id;
use crate::smart_naming::session_log::LoggedSession;
use crate::smart_naming::title;
use crate::smart_naming::title::{protocol, validate_name, MAX_NAME_CHARS, NAMING_MODEL};
use crate::smart_naming::transcript;
use crate::smart_naming::transcript::RecentTranscript;
use crate::text;
use crate::text::{clone_option_text, put};

verus! {

/// A completed, bounded conversation that is ready for naming.
#[derive(Debug)]
pub struct NamingConversation {
    /// Stable source thread.
    pub thread_id: String,
    /// Bounded plain transcript of user and assistant.
    pub transcript: String,
}

/// The request side of an app-server.
pub trait AppServerSession {
    /// Sends one request and gives its result.
    fn request(&mut self, method: &str, params: &Json) -> Result<Json, MuxError>;

    /// Waits for a notification about a thread and gives its parameters.
    fn wait_for(&mut self, method: &str, thread_id: &str) -> Result<Json, MuxError>;

    /// The title in the structured output of the naming model, `None` where the output
    /// has another form.
    fn read_title(&mut self, output: &str) -> Option<String>;

    /// Logs a reason code.
    fn log(&mut self, diagnostics: &NamingDiagnostics, code: &'static str);

    /// Whether the transport can serve another request.
    fn is_healthy(&mut self) -> bool {
        true
    }
}

/// A call of the app-server with its answer.
#[verifier::ext_equal]
pub enum Call {
    Request { method: Seq<char>, params: JsonModel, reply: Result<JsonModel, ErrorModel> },
    Wait { method: Seq<char>, thread: Seq<char>, reply: Result<JsonModel, ErrorModel> },
    Title { output: Seq<char>, read: Option<Seq<char>> },
}

/// The answer to a request, where a call is that request.
pub open spec fn answer(call: Call, wanted: Seq<char>, sent: JsonModel) -> Option<
    Result<JsonModel, ErrorModel>,
> {
    match call {
        Call::Request { method, params, reply } => if method == wanted && params == sent {
            Some(reply)
        } else {
            None
        },
        _ => None,
    }
}

// ---------------------------------------------------------------------------
// Finding a thread
// ---------------------------------------------------------------------------

/// Why a thread was not found.
#[derive(Debug)]
pub enum ThreadLookupError {
    /// The caller gave up.
    Cancelled,
    /// The app-server did not answer.
    Transport(MuxError),
    /// What it answered cannot be trusted.
    Evidence(MuxError),
}

#[verifier::ext_equal]
pub enum LookupModel {
    Cancelled,
    Transport(ErrorModel),
    Evidence(ErrorModel),
}

impl View for ThreadLookupError {
    type V = LookupModel;

    open spec fn view(&self) -> LookupModel {
        match self {
            ThreadLookupError::Cancelled => LookupModel::Cancelled,
            ThreadLookupError::Transport(e) => LookupModel::Transport(e@),
            ThreadLookupError::Evidence(e) => LookupModel::Evidence(e@),
        }
    }
}

pub open spec fn lookup_outcome(r: Result<Option<String>, ThreadLookupError>) -> Result<
    Option<Seq<char>>,
    LookupModel,
> {
    match r {
        Ok(found) => Ok(text::option_view(found)),
        Err(e) => Err(e@),
    }
}

/// What a search through the listed threads amounts to, given its calls; `None` where
/// these are not the calls of that search.
pub open spec fn find_run(
    calls: Seq<Call>,
    hint: Seq<char>,
    state_db_only: bool,
    matched: Option<Seq<char>>,
    cursor: Option<Seq<char>>,
    seen: Seq<Seq<char>>,
    pages: nat,
) -> Option<Result<Option<Seq<char>>, LookupModel>>
    decreases pages,
{
    if pages == 0 {
        if calls.len() == 0 {
            Some(
                Err(
                    LookupModel::Evidence(
                        title::protocol_error(
                            "thread/list exceeded the bounded pagination limit"@,
                        ),
                    ),
                ),
            )
        } else {
            None
        }
    } else if calls.len() == 0 {
        None
    } else {
        match answer(calls[0], "thread/list"@, history::list_params(cursor, state_db_only)) {
            None => None,
            Some(Err(ErrorModel::Cancelled)) => if calls.len() == 1 {
                Some(Err(LookupModel::Cancelled))
            } else {
                None
            },
            Some(Err(e)) => if calls.len() == 1 {
                Some(Err(LookupModel::Transport(e)))
            } else {
                None
            },
            Some(Ok(reply)) => match history::thread_page(reply, hint, matched, seen) {
                Err(e) => if calls.len() == 1 {
                    Some(Err(LookupModel::Evidence(e)))
                } else {
                    None
                },
                Ok((found, None)) => if calls.len() == 1 {
                    Some(Ok(found))
                } else {
                    None
                },
                Ok((found, Some(next))) => find_run(
                    calls.skip(1),
                    hint,
                    state_db_only,
                    found,
                    Some(next),
                    seen.push(next),
                    (pages - 1) as nat,
                ),
            },
        }
    }
}

/// A thread that a search finds is what was known before, or a full identity that
/// begins with the hint; and what was known before is never replaced.
pub proof fn found_threads_fit(
    calls: Seq<Call>,
    hint: Seq<char>,
    state_db_only: bool,
    matched: Option<Seq<char>>,
    cursor: Option<Seq<char>>,
    seen: Seq<Seq<char>>,
    pages: nat,
)
    ensures
        find_run(calls, hint, state_db_only, matched, cursor, seen, pages) matches Some(Ok(found))
            ==> (matched is Some ==> found == matched) && (found is Some && found != matched
            ==> thread::is_thread_id(found->0) && hint.is_prefix_of(found->0)),
    decreases pages,
{
    if pages > 0 && calls.len() > 0 {
        if let Some(Ok(reply)) = answer(
            calls[0],
            "thread/list"@,
            history::list_params(cursor, state_db_only),
        ) {
            if let Ok((found, next)) = history::thread_page(reply, hint, matched, seen) {
                let threads = json::member(reply, "data"@)->Array_0;
                history::listed_threads_fit(threads, hint, matched);
                if let Some(c) = next {
                    found_threads_fit(
                        calls.skip(1),
                        hint,
                        state_db_only,
                        found,
                        next,
                        seen.push(c),
                        (pages - 1) as nat,
                    );
                }
            }
        }
    }
}

// ---------------------------------------------------------------------------
// Reading a conversation
// ---------------------------------------------------------------------------

/// What reading the items of a conversation amounts to, given its calls.
pub open spec fn items_run(
    calls: Seq<Call>,
    id: Seq<char>,
    turns: Seq<Seq<char>>,
    messages: Seq<Seq<char>>,
    cursor: Option<Seq<char>>,
    seen: Seq<Seq<char>>,
    budget: nat,
    pages: nat,
) -> Option<Result<Seq<char>, ErrorModel>>
    decreases pages,
{
    let refused = |e: ErrorModel, n: nat|
        if calls.len() == n {
            Some(Err::<Seq<char>, ErrorModel>(e))
        } else {
            None
        };
    if pages == 0 {
        refused(
            title::protocol_error("thread/items/list exceeded the bounded pagination limit"@),
            0,
        )
    } else if budget == 0 {
        refused(
            title::protocol_error("conversation history exceeded its request budget"@),
            0,
        )
    } else if calls.len() == 0 {
        None
    } else {
        match answer(calls[0], "thread/items/list"@, history::items_params(id, cursor)) {
            None => None,
            Some(Err(e)) => refused(e, 1),
            Some(Ok(reply)) => match history::item_page(reply, turns, messages, seen) {
                Err(e) => refused(e, 1),
                Ok((after, next)) => if next is None || transcript::total(after)
                    >= transcript::MAX_CONVERSATION_BYTES {
                    if calls.len() == 1 {
                        Some(Ok(transcript::concatenated(after.reverse())))
                    } else {
                        None
                    }
                } else {
                    items_run(
                        calls.skip(1),
                        id,
                        turns,
                        after,
                        next,
                        seen.push(next->0),
                        (budget - 1) as nat,
                        (pages - 1) as nat,
                    )
                },
            },
        }
    }
}

/// What reading the turns of a conversation, then its items, amounts to, given its
/// calls: the transcript.
pub open spec fn turns_run(
    calls: Seq<Call>,
    id: Seq<char>,
    turns: Seq<Seq<char>>,
    cursor: Option<Seq<char>>,
    seen: Seq<Seq<char>>,
    budget: nat,
    pages: nat,
) -> Option<Result<Seq<char>, ErrorModel>>
    decreases pages,
{
    let refused = |e: ErrorModel, n: nat|
        if calls.len() == n {
            Some(Err::<Seq<char>, ErrorModel>(e))
        } else {
            None
        };
    if pages == 0 {
        refused(
            title::protocol_error("thread/turns/list exceeded the bounded pagination limit"@),
            0,
        )
    } else if budget == 0 {
        refused(
            title::protocol_error("conversation history exceeded its request budget"@),
            0,
        )
    } else if calls.len() == 0 {
        None
    } else {
        match answer(calls[0], "thread/turns/list"@, history::turns_params(id, cursor)) {
            None => None,
            Some(Err(e)) => refused(e, 1),
            Some(Ok(reply)) => match history::turn_page(reply, turns, seen) {
                Err(e) => refused(e, 1),
                Ok((after, None)) => items_run(
                    calls.skip(1),
                    id,
                    after,
                    Seq::empty(),
                    None,
                    Seq::empty(),
                    (budget - 1) as nat,
                    MAX_THREAD_TURNS_PAGES as nat,
                ),
                Ok((after, Some(next))) => turns_run(
                    calls.skip(1),
                    id,
                    after,
                    Some(next),
                    seen.push(next),
                    (budget - 1) as nat,
                    (pages - 1) as nat,
                ),
            },
        }
    }
}

/// What reading a conversation amounts to, given its calls.
pub open spec fn read_run(calls: Seq<Call>, id: Seq<char>) -> Option<
    Result<Seq<char>, ErrorModel>,
> {
    turns_run(
        calls,
        id,
        Seq::empty(),
        None,
        Seq::empty(),
        MAX_HISTORY_REQUESTS as nat,
        MAX_THREAD_TURNS_PAGES as nat,
    )
}

proof fn items_run_is_short(
    calls: Seq<Call>,
    id: Seq<char>,
    turns: Seq<Seq<char>>,
    messages: Seq<Seq<char>>,
    cursor: Option<Seq<char>>,
    seen: Seq<Seq<char>>,
    budget: nat,
    pages: nat,
)
    requires
        items_run(calls, id, turns, messages, cursor, seen, budget, pages) is Some,
    ensures
        calls.len() <= budget,
    decreases pages,
{
    if pages > 0 && budget > 0 && calls.len() > 0 {
        if let Some(Ok(reply)) = answer(
            calls[0],
            "thread/items/list"@,
            history::items_params(id, cursor),
        ) {
            if let Ok((after, next)) = history::item_page(reply, turns, messages, seen) {
                if next is Some && transcript::total(after) < transcript::MAX_CONVERSATION_BYTES {
                    items_run_is_short(
                        calls.skip(1),
                        id,
                        turns,
                        after,
                        next,
                        seen.push(next->0),
                        (budget - 1) as nat,
                        (pages - 1) as nat,
                    );
                }
            }
        }
    }
}

proof fn turns_run_is_short(
    calls: Seq<Call>,
    id: Seq<char>,
    turns: Seq<Seq<char>>,
    cursor: Option<Seq<char>>,
    seen: Seq<Seq<char>>,
    budget: nat,
    pages: nat,
)
    requires
        turns_run(calls, id, turns, cursor, seen, budget, pages) is Some,
    ensures
        calls.len() <= budget,
    decreases pages,
{
    if pages > 0 && budget > 0 && calls.len() > 0 {
        if let Some(Ok(reply)) = answer(
            calls[0],
            "thread/turns/list"@,
            history::turns_params(id, cursor),
        ) {
            if let Ok((after, next)) = history::turn_page(reply, turns, seen) {
                if next is None {
                    items_run_is_short(
                        calls.skip(1),
                        id,
                        after,
                        Seq::empty(),
                        None,
                        Seq::empty(),
                        (budget - 1) as nat,
                        MAX_THREAD_TURNS_PAGES as nat,
                    );
                } else {
                    turns_run_is_short(
                        calls.skip(1),
                        id,
                        after,
                        next,
                        seen.push(next->0),
                        (budget - 1) as nat,
                        (pages - 1) as nat,
                    );
                }
            }
        }
    }
}

/// However a conversation is answered, it takes no more requests than its budget.
pub proof fn reading_keeps_its_request_budget(calls: Seq<Call>, id: Seq<char>)
    requires
        read_run(calls, id) is Some,
    ensures
        calls.len() <= MAX_HISTORY_REQUESTS,
{
    turns_run_is_short(
        calls,
        id,
        Seq::empty(),
        None,
        Seq::empty(),
        MAX_HISTORY_REQUESTS as nat,
        MAX_THREAD_TURNS_PAGES as nat,
    );
}

// ---------------------------------------------------------------------------
// Asking for a name
// ---------------------------------------------------------------------------

/// The request for an ephemeral thread of the naming model.
pub open spec fn start_model() -> JsonModel {
    json::with_member(
        json::with_member(
            json::with_member(
                json::with_member(
                    json::with_member(
                        json::no_members(),
                        "approvalPolicy"@,
                        JsonModel::Text("never"@),
                    ),
                    "baseInstructions"@,
                    JsonModel::Text(
                        "Return only a concise descriptive tmux session title. No quotes, markup, punctuation suffix, or explanation."@,
                    ),
                ),
                "ephemeral"@,
                JsonModel::Bool(true),
            ),
            "model"@,
            JsonModel::Text(NAMING_MODEL@),
        ),
        "sandbox"@,
        JsonModel::Text("read-only"@),
    )
}

fn start_params() -> (r: Json)
    ensures
        r@ == start_model(),
{
    let r = json::put_member(json::empty_object(), "approvalPolicy", json::text("never"));
    let r = json::put_member(
        r,
        "baseInstructions",
        json::text(
            "Return only a concise descriptive tmux session title. No quotes, markup, punctuation suffix, or explanation.",
        ),
    );
    let r = json::put_member(r, "ephemeral", Json::Bool(true));
    let r = json::put_member(r, "model", json::text(NAMING_MODEL));
    json::put_member(r, "sandbox", json::text("read-only"))
}

/// The form of the answer: an object with a short title and nothing else.
pub open spec fn schema_model() -> JsonModel {
    json::with_member(
        json::with_member(
            json::with_member(
                json::with_member(
                    json::no_members(),
                    "additionalProperties"@,
                    JsonModel::Bool(false),
                ),
                "properties"@,
                json::with_member(
                    json::no_members(),
                    "title"@,
                    json::with_member(
                        json::with_member(
                            json::no_members(),
                            "maxLength"@,
                            json::number_model(48),
                        ),
                        "type"@,
                        JsonModel::Text("string"@),
                    ),
                ),
            ),
            "required"@,
            JsonModel::Array(seq![JsonModel::Text("title"@)]),
        ),
        "type"@,
        JsonModel::Text("object"@),
    )
}

fn schema() -> (r: Json)
    ensures
        r@ == schema_model(),
{
    let title = json::put_member(
        json::empty_object(),
        "maxLength",
        json::number(MAX_NAME_CHARS as u64),
    );
    let title = json::put_member(title, "type", json::text("string"));
    let properties = json::put_member(json::empty_object(), "title", title);
    let r = json::put_member(json::empty_object(), "additionalProperties", Json::Bool(false));
    let r = json::put_member(r, "properties", properties);
    let r = json::put_member(r, "required", json::singleton(json::text("title")));
    json::put_member(r, "type", json::text("object"))
}

/// The request to name a transcript.
pub open spec fn turn_model(id: Seq<char>, said: Seq<char>) -> JsonModel {
    json::with_member(
        json::with_member(
            json::with_member(
                json::with_member(
                    json::no_members(),
                    "input"@,
                    JsonModel::Array(
                        seq![
                            json::with_member(
                                json::with_member(
                                    json::no_members(),
                                    "text"@,
                                    JsonModel::Text(said),
                                ),
                                "type"@,
                                JsonModel::Text("text"@),
                            ),
                        ],
                    ),
                ),
                "model"@,
                JsonModel::Text(NAMING_MODEL@),
            ),
            "outputSchema"@,
            schema_model(),
        ),
        "threadId"@,
        JsonModel::Text(id),
    )
}

fn turn_params(id: &str, said: &str) -> (r: Json)
    ensures
        r@ == turn_model(id@, said@),
{
    let input = json::put_member(json::empty_object(), "text", json::text(said));
    let input = json::put_member(input, "type", json::text("text"));
    let r = json::put_member(json::empty_object(), "input", json::singleton(input));
    let r = json::put_member(r, "model", json::text(NAMING_MODEL));
    let r = json::put_member(r, "outputSchema", schema());
    json::put_member(r, "threadId", json::text(id))
}

/// The text of an item, where it is a message of the model with a text.
pub open spec fn agent_text(item: JsonModel) -> Option<Seq<char>> {
    if json::is_text(json::member(item, "type"@), "agentMessage"@) {
        json::text_of(json::member(item, "text"@))
    } else {
        None
    }
}

/// The last message of the model among some items.
pub open spec fn last_agent_text(items: Seq<JsonModel>) -> Option<Seq<char>>
    decreases items.len(),
{
    if items.len() == 0 {
        None
    } else if agent_text(items.last()) is Some {
        agent_text(items.last())
    } else {
        last_agent_text(items.drop_last())
    }
}

/// What the naming model said in a completed turn.
pub open spec fn naming_output(completed: JsonModel) -> Option<Seq<char>> {
    match json::member(json::member(completed, "turn"@), "items"@) {
        JsonModel::Array(items) => last_agent_text(items),
        _ => None,
    }
}

/// What the naming model said in a completed turn.
pub fn completed_output(completed: &Json) -> (r: Option<String>)
    ensures
        text::option_view(r) == naming_output(completed@),
{
    let Some(turn) = completed.get("turn") else {
        return None;
    };
    let Some(items) = turn.array_at("items") else {
        return None;
    };
    let ghost all = json::list_view(items@);
    let mut n: usize = items.len();
    assert(all.take(n as int) =~= all);
    while n > 0
        invariant
            n <= items.len(),
            all == json::list_view(items@),
            last_agent_text(all) == last_agent_text(all.take(n as int)),
        decreases n,
    {
        let item = &items[n - 1];
        proof {
            assert(all.take(n as int).last() == item@);
            assert(all.take(n as int).drop_last() =~= all.take(n - 1));
        }
        if item.text_is("type", "agentMessage") {
            if let Some(t) = item.text_at("text") {
                return Some(t.to_owned());
            }
        }
        n -= 1;
    }
    None
}

/// What asking for a name amounts to, given its calls.
pub open spec fn name_run(calls: Seq<Call>, said: Seq<char>) -> Option<
    Result<Seq<char>, ErrorModel>,
> {
    let refused = |e: ErrorModel, n: nat|
        if calls.len() == n {
            Some(Err::<Seq<char>, ErrorModel>(e))
        } else {
            None
        };
    if scan::is_blank(said) {
        refused(
            title::protocol_error("conversation has no completed user or assistant text"@),
            0,
        )
    } else if calls.len() == 0 {
        None
    } else {
        match answer(calls[0], "thread/start"@, start_model()) {
            None => None,
            Some(Err(e)) => refused(e, 1),
            Some(Ok(started)) => match json::text_of(
                json::member(json::member(started, "thread"@), "id"@),
            ) {
                None => refused(
                    title::protocol_error("thread/start omitted the naming thread id"@),
                    1,
                ),
                Some(id) => if calls.len() == 1 {
                    None
                } else {
                    match answer(calls[1], "turn/start"@, turn_model(id, said)) {
                        None => None,
                        Some(Err(e)) => refused(e, 2),
                        Some(Ok(_)) => if calls.len() == 2 {
                            None
                        } else {
                            match calls[2] {
                                Call::Wait { method, thread, reply } => if method
                                    != "turn/completed"@ || thread != id {
                                    None
                                } else {
                                    match reply {
                                        Err(e) => refused(e, 3),
                                        Ok(completed) => match naming_output(completed) {
                                            None => refused(
                                                title::protocol_error(
                                                    "Luna completed without a title"@,
                                                ),
                                                3,
                                            ),
                                            Some(output) => if calls.len() != 4 {
                                                None
                                            } else {
                                                match calls[3] {
                                                    Call::Title {
                                                        output: given,
                                                        read,
                                                    } => if given != output {
                                                        None
                                                    } else {
                                                        match read {
                                                            None => refused(
                                                                title::protocol_error(
                                                                    "Luna returned malformed structured output"@,
                                                                ),
                                                                4,
                                                            ),
                                                            Some(t) => if title::is_valid_title(
                                                                scan::trimmed(t),
                                                            ) {
                                                                Some(Ok(scan::trimmed(t)))
                                                            } else {
                                                                refused(
                                                                    title::protocol_error(
                                                                        "Luna returned an invalid title"@,
                                                                    ),
                                                                    4,
                                                                )
                                                            },
                                                        }
                                                    },
                                                    _ => None,
                                                }
                                            },
                                        },
                                    }
                                },
                                _ => None,
                            }
                        },
                    }
                },
            },
        }
    }
}

/// Every name that is given is a valid title.
pub proof fn given_names_are_valid(calls: Seq<Call>, said: Seq<char>)
    ensures
        name_run(calls, said) matches Some(Ok(name)) ==> title::is_valid_title(name),
{
}

pub open spec fn name_outcome(r: Result<String, MuxError>) -> Result<Seq<char>, ErrorModel> {
    match r {
        Ok(t) => Ok(t@),
        Err(e) => Err(e@),
    }
}

pub open spec fn conversation_outcome(r: Result<NamingConversation, MuxError>) -> Result<
    Seq<char>,
    ErrorModel,
> {
    match r {
        Ok(conversation) => Ok(conversation.transcript@),
        Err(e) => Err(e@),
    }
}

// ---------------------------------------------------------------------------
// The namer
// ---------------------------------------------------------------------------

/// Reads completed turns and asks an ephemeral thread for a short title.
pub struct AppServerNamer<S, F> {
    /// The session, with its calls and the reason codes that were logged so far.
    pub session: LoggedSession<S>,
    pub diagnostics: Option<NamingDiagnostics>,
    pub rollouts: Option<RolloutStore<F>>,
}

/// What the local rollouts said of a shortened identity, where there are any.
pub open spec fn local_identity<F>(
    before: Option<RolloutStore<F>>,
    after: Option<RolloutStore<F>>,
    hint: Seq<char>,
) -> Option<Result<Option<Seq<char>>, ErrorModel>> {
    match (before, after) {
        (Some(then), Some(now)) => match rollout_replay::prefix_at(
            now.files.events(),
            then.files.events().len() as int,
            then.root@,
            hint,
        ) {
            Some((answer, _)) => Some(answer),
            None => None,
        },
        _ => None,
    }
}

/// What the local rollouts said in a thread, where there are any.
pub open spec fn local_conversation<F>(
    before: Option<RolloutStore<F>>,
    after: Option<RolloutStore<F>>,
    id: Seq<char>,
) -> Option<Result<Seq<char>, ErrorModel>> {
    match (before, after) {
        (Some(then), Some(now)) => match rollout_replay::thread_at(
            now.files.events(),
            then.files.events().len() as int,
            then.root@,
            id,
        ) {
            Some((answer, _)) => Some(answer),
            None => None,
        },
        _ => None,
    }
}

/// What an app-server that does not answer leaves: what the rollouts say.
pub open spec fn without_server(known: Option<Seq<char>>, e: ErrorModel) -> Result<
    Seq<char>,
    ErrorModel,
> {
    match known {
        Some(id) => Ok(id),
        None => Err(e),
    }
}

/// What the resolution of a shortened identity comes to, with the reason codes that it
/// logs, where its calls search the state database up to a place and the archive behind
/// it; `None` where these are not its calls.
pub open spec fn resolution(
    calls: Seq<Call>,
    place: int,
    hint: Seq<char>,
    local: Option<Result<Option<Seq<char>>, ErrorModel>>,
) -> Option<(Result<Seq<char>, ErrorModel>, Seq<Seq<char>>)> {
    if thread::is_thread_id(hint) {
        if calls.len() == 0 {
            Some((Ok(hint), Seq::empty()))
        } else {
            None
        }
    } else {
        match local {
            Some(Err(e)) => if calls.len() == 0 {
                Some((Err(e), seq!["thread_rollout_ambiguous"@]))
            } else {
                None
            },
            Some(Ok(Some(id))) => match resolution_by_server(calls, place, hint, Some(id)) {
                None => None,
                Some((outcome, codes)) => Some(
                    (outcome, seq!["thread_rollout_resolved"@] + codes),
                ),
            },
            _ => resolution_by_server(calls, place, hint, None),
        }
    }
}

/// What the app-server makes of a shortened identity that the rollouts know or do not
/// know.
pub open spec fn resolution_by_server(
    calls: Seq<Call>,
    place: int,
    hint: Seq<char>,
    known: Option<Seq<char>>,
) -> Option<(Result<Seq<char>, ErrorModel>, Seq<Seq<char>>)> {
    let pages = MAX_THREAD_LIST_PAGES as nat;
    if place < 0 || place > calls.len() {
        None
    } else {
        match find_run(calls.take(place), hint, true, known, None, Seq::empty(), pages) {
            None => None,
            Some(Err(refusal)) => if place == calls.len() {
                Some((refused_lookup(refusal, known), Seq::empty()))
            } else {
                None
            },
            Some(Ok(found)) => {
                let searched = if found is None {
                    seq!["thread_state_db_miss"@, "thread_archive_cross_check"@]
                } else {
                    seq!["thread_archive_cross_check"@]
                };
                match find_run(calls.skip(place), hint, false, found, None, Seq::empty(), pages) {
                    None => None,
                    Some(Err(refusal)) => Some((refused_lookup(refusal, known), searched)),
                    Some(Ok(Some(id))) => Some((Ok(id), searched)),
                    Some(Ok(None)) => Some(
                        (
                            Err(
                                title::protocol_error(
                                    "truncated pane title did not match one unique Codex thread"@,
                                ),
                            ),
                            searched.push("thread_resolve_not_found"@),
                        ),
                    ),
                }
            },
        }
    }
}

/// What a refused search comes to: only a silent app-server leaves it to the rollouts.
pub open spec fn refused_lookup(refusal: LookupModel, known: Option<Seq<char>>) -> Result<
    Seq<char>,
    ErrorModel,
> {
    match refusal {
        LookupModel::Cancelled => Err(ErrorModel::Cancelled),
        LookupModel::Evidence(e) => Err(e),
        LookupModel::Transport(e) => without_server(known, e),
    }
}

/// What reading a thread comes to, with the reason codes that it logs: what the
/// app-server said, else what the rollouts say.
pub open spec fn reading(
    first: Result<Seq<char>, ErrorModel>,
    second: Option<Result<Seq<char>, ErrorModel>>,
) -> (Result<Seq<char>, ErrorModel>, Seq<Seq<char>>) {
    match first {
        Ok(said) => (Ok(said), seq!["thread_turns_read"@]),
        Err(ErrorModel::Cancelled) => (Err(ErrorModel::Cancelled), Seq::empty()),
        Err(e) => match second {
            Some(Ok(said)) => (Ok(said), seq!["thread_rollout_read"@]),
            Some(Err(ErrorModel::Cancelled)) => (Err(ErrorModel::Cancelled), Seq::empty()),
            _ => (Err(e), Seq::empty()),
        },
    }
}

/// The reason codes that reach the log.
pub open spec fn kept_codes(
    diagnostics: Option<NamingDiagnostics>,
    before: Seq<Seq<char>>,
    codes: Seq<Seq<char>>,
) -> Seq<Seq<char>> {
    if diagnostics is Some {
        before + codes
    } else {
        before
    }
}

/// What a namer has done so far.
pub struct NamerState<F> {
    pub calls: Seq<Call>,
    pub codes: Seq<Seq<char>>,
    pub rollouts: Option<RolloutStore<F>>,
    pub diagnostics: Option<NamingDiagnostics>,
}

/// A namer resolved a shortened identity: what it asked, what the rollouts and the
/// app-server answered, and what it logged all belong to the outcome.
pub open spec fn resolves<F>(
    before: NamerState<F>,
    after: NamerState<F>,
    hint: Seq<char>,
    r: Result<Seq<char>, ErrorModel>,
) -> bool {
    &&& after.diagnostics == before.diagnostics
    &&& exists|place: int|
        #![trigger resolution(
            fresh(after.calls, before.calls),
            place,
            hint,
            local_identity(before.rollouts, after.rollouts, hint),
        )]
        resolution(
            fresh(after.calls, before.calls),
            place,
            hint,
            local_identity(before.rollouts, after.rollouts, hint),
        ) matches Some((outcome, codes)) && outcome == r && after.codes == kept_codes(
            before.diagnostics,
            before.codes,
            codes,
        )
}

/// A namer read a thread: the same for its conversation.
pub open spec fn reads<F>(
    before: NamerState<F>,
    after: NamerState<F>,
    id: Seq<char>,
    r: Result<Seq<char>, ErrorModel>,
) -> bool {
    &&& after.diagnostics == before.diagnostics
    &&& read_run(fresh(after.calls, before.calls), id) matches Some(first) && ({
        let (outcome, codes) = reading(
            first,
            local_conversation(before.rollouts, after.rollouts, id),
        );
        &&& r == outcome
        &&& after.codes == kept_codes(before.diagnostics, before.codes, codes)
    })
}

/// A namer resolved the identity that a target shows, then read its thread.
pub open spec fn reads_target<F>(
    before: NamerState<F>,
    after: NamerState<F>,
    hint: Seq<char>,
    r: Result<(Seq<char>, Seq<char>), ErrorModel>,
) -> bool {
    exists|middle: NamerState<F>, id: Result<Seq<char>, ErrorModel>| #[trigger]
        resolves(before, middle, hint, id) && match id {
            Err(e) => after == middle && r == Err::<(Seq<char>, Seq<char>), ErrorModel>(e),
            Ok(id) => match r {
                Err(e) => reads(middle, after, id, Err(e)),
                Ok((thread, said)) => thread == id && reads(middle, after, id, Ok(said)),
            },
        }
}

/// A conversation with its thread, or the error in its place.
pub open spec fn read_outcome(r: Result<NamingConversation, MuxError>) -> Result<
    (Seq<char>, Seq<char>),
    ErrorModel,
> {
    match r {
        Ok(conversation) => Ok((conversation.thread_id@, conversation.transcript@)),
        Err(e) => Err(e@),
    }
}

/// The calls after an earlier state.
pub open spec fn fresh(now: Seq<Call>, before: Seq<Call>) -> Seq<Call> {
    now.skip(before.len() as int)
}

proof fn fresh_after_one(now: Seq<Call>, before: Seq<Call>, call: Call)
    requires
        before.push(call).is_prefix_of(now),
    ensures
        before.is_prefix_of(now),
        fresh(now, before).len() > 0,
        fresh(now, before)[0] == call,
        fresh(now, before).skip(1) == fresh(now, before.push(call)),
{
    let n = before.len() as int;
    assert(now.subrange(0, n + 1) == before.push(call));
    assert(now[n] == now.subrange(0, n + 1)[n]);
    assert(now.subrange(0, n) =~= before) by {
        assert forall|i: int| 0 <= i < n implies now[i] == before[i] by {
            assert(now.subrange(0, n + 1)[i] == before.push(call)[i]);
        }
    }
    assert(now.skip(n).skip(1) =~= now.skip(n + 1));
}

impl<S: AppServerSession, F: RolloutFiles> AppServerNamer<S, F> {
    pub open spec fn state(&self) -> NamerState<F> {
        NamerState {
            calls: self.session.calls(),
            codes: self.session.codes(),
            rollouts: self.rollouts,
            diagnostics: self.diagnostics,
        }
    }

    /// Wraps an initialised session.
    pub fn new(session: S) -> (r: Self)
        ensures
            r.session.wrapped() == session,
            r.diagnostics is None,
            r.rollouts is None,
            r.session.calls() == Seq::<Call>::empty(),
            r.session.codes() == Seq::<Seq<char>>::empty(),
    {
        AppServerNamer {
            session: LoggedSession::new(session),
            diagnostics: None,
            rollouts: None,
        }
    }

    /// Wraps a session, with a log of reason codes.
    pub fn with_diagnostics(session: S, diagnostics: NamingDiagnostics) -> (r: Self)
        ensures
            r.session.wrapped() == session,
            r.diagnostics == Some(diagnostics),
            r.rollouts is None,
            r.session.calls() == Seq::<Call>::empty(),
            r.session.codes() == Seq::<Seq<char>>::empty(),
    {
        AppServerNamer {
            session: LoggedSession::new(session),
            diagnostics: Some(diagnostics),
            rollouts: None,
        }
    }

    /// Adds the local rollouts, for identities and as a second source.
    pub fn with_rollouts(self, rollouts: RolloutStore<F>) -> (r: Self)
        ensures
            r.session == self.session,
            r.diagnostics == self.diagnostics,
            r.rollouts == Some(rollouts),
    {
        AppServerNamer {
            session: self.session,
            diagnostics: self.diagnostics,
            rollouts: Some(rollouts),
        }
    }

    fn log(&mut self, code: &'static str)
        ensures
            final(self).diagnostics == old(self).diagnostics,
            final(self).rollouts == old(self).rollouts,
            final(self).session.calls() == old(self).session.calls(),
            final(self).session.codes() == kept_codes(
                old(self).diagnostics,
                old(self).session.codes(),
                seq![code@],
            ),
    {
        if let Some(diagnostics) = &self.diagnostics {
            self.session.log(diagnostics, code);
        }
    }

    fn request(&mut self, method: &str, params: Json) -> (r: Result<Json, MuxError>)
        ensures
            final(self).diagnostics == old(self).diagnostics,
            final(self).rollouts == old(self).rollouts,
            final(self).session.codes() == old(self).session.codes(),
            final(self).session.calls() == old(self).session.calls().push(
                Call::Request {
                    method: method@,
                    params: params@,
                    reply: messages::json_outcome(r),
                },
            ),
    {
        self.session.request(method, &params)
    }

    /// Finds the one thread of a shortened identity in one source.
    fn find_pages(
        &mut self,
        hint: &str,
        state_db_only: bool,
        matched: Option<String>,
        cursor: Option<String>,
        seen: &mut Vec<String>,
        pages: usize,
    ) -> (r: Result<Option<String>, ThreadLookupError>)
        ensures
            final(self).diagnostics == old(self).diagnostics,
            final(self).rollouts == old(self).rollouts,
            final(self).session.codes() == old(self).session.codes(),
            old(self).session.calls().is_prefix_of(final(self).session.calls()),
            find_run(
                fresh(final(self).session.calls(), old(self).session.calls()),
                hint@,
                state_db_only,
                text::option_view(matched),
                text::option_view(cursor),
                text::texts(old(seen)@),
                pages as nat,
            ) == Some(lookup_outcome(r)),
        decreases pages,
    {
        let ghost before = self.session.calls();
        if pages == 0 {
            proof {
                assert(before.subrange(0, before.len() as int) =~= before);
                assert(fresh(before, before) =~= Seq::<Call>::empty());
            }
            return Err(
                ThreadLookupError::Evidence(
                    protocol("thread/list exceeded the bounded pagination limit"),
                ),
            );
        }
        let params = thread_list_params(&cursor, state_db_only);
        let reply = self.request("thread/list", params);
        let ghost call = self.session.calls().last();
        proof {
            let now = self.session.calls();
            assert(now == before.push(call));
            assert(now.subrange(0, now.len() as int) =~= now);
            fresh_after_one(now, before, call);
            assert(fresh(now, now) =~= Seq::<Call>::empty());
            assert(fresh(now, before).len() == 1);
        }
        let reply = match reply {
            Ok(reply) => reply,
            Err(MuxError::Cancelled) => return Err(ThreadLookupError::Cancelled),
            Err(e) => return Err(ThreadLookupError::Transport(e)),
        };
        let ghost given = text::option_view(matched);
        match read_thread_page(&reply, hint, matched, seen) {
            Err(e) => Err(ThreadLookupError::Evidence(e)),
            Ok((found, None)) => Ok(found),
            Ok((found, Some(next))) => {
                put(seen, &next);
                let r = self.find_pages(hint, state_db_only, found, Some(next), seen, pages - 1);
                proof {
                    fresh_after_one(self.session.calls(), before, call);
                }
                r
            },
        }
    }

    /// Finds the one thread of a shortened identity in one source of the app-server.
    pub fn find_thread_id(
        &mut self,
        hint: &str,
        state_db_only: bool,
        matched: Option<String>,
    ) -> (r: Result<Option<String>, ThreadLookupError>)
        ensures
            final(self).diagnostics == old(self).diagnostics,
            final(self).rollouts == old(self).rollouts,
            final(self).session.codes() == old(self).session.codes(),
            old(self).session.calls().is_prefix_of(final(self).session.calls()),
            find_run(
                fresh(final(self).session.calls(), old(self).session.calls()),
                hint@,
                state_db_only,
                text::option_view(matched),
                None,
                Seq::empty(),
                MAX_THREAD_LIST_PAGES as nat,
            ) == Some(lookup_outcome(r)),
    {
        let mut seen = text::no_texts();
        self.find_pages(hint, state_db_only, matched, None, &mut seen, MAX_THREAD_LIST_PAGES)
    }

    /// The full identity of the thread that a target shows.
    pub fn resolve_thread_id(&mut self, target: &NamingTarget) -> (r: Result<String, MuxError>)
        ensures
            old(self).session.calls().is_prefix_of(final(self).session.calls()),
            thread::is_thread_id(target@.thread_hint) ==> r is Ok && r->Ok_0@
                == target@.thread_hint && final(self).session.calls() == old(self).session.calls(),
            r matches Ok(id) ==> thread::is_thread_id(id@) && target@.thread_hint.is_prefix_of(
                id@,
            ),
            resolves(
                old(self).state(),
                final(self).state(),
                target@.thread_hint,
                name_outcome(r),
            ),
    {
        let ghost start = self.session.calls();
        let ghost hint = target@.thread_hint;
        proof {
            assert(start.subrange(0, start.len() as int) =~= start);
            let h = target@.thread_hint;
            assert(h.subrange(0, h.len() as int) =~= h);
        }
        if looks_like_thread_id(&target.thread_hint) {
            proof {
                assert(fresh(start, start) =~= Seq::<Call>::empty());
                let local = local_identity(self.rollouts, self.rollouts, hint);
                assert(resolution(fresh(start, start), 0, hint, local) is Some);
                assert(self.session.codes() =~= kept_codes(
                    self.diagnostics,
                    self.session.codes(),
                    Seq::empty(),
                ));
            }
            return Ok(target.thread_hint.clone());
        }
        let mut answered: Option<Result<Option<String>, MuxError>> = None;
        if let Some(rollouts) = &mut self.rollouts {
            answered = Some(rollouts.resolve_prefix(&target.thread_hint));
        }
        let ghost local = local_identity(old(self).rollouts, self.rollouts, hint);
        proof {
            assert(fresh(start, start) =~= Seq::<Call>::empty());
            if old(self).rollouts is Some {
                let then = old(self).rollouts->0;
                let now = self.rollouts->0;
                assert(rollout_replay::agrees(now.files.events(), now.files.events()));
                assert(rollout_replay::prefix_at(
                    now.files.events(),
                    then.files.events().len() as int,
                    then.root@,
                    hint,
                ) is Some);
            }
        }
        match answered {
            Some(Err(e)) => {
                self.log("thread_rollout_ambiguous");
                proof {
                    assert(resolution(fresh(self.session.calls(), start), 0, hint, local) is Some);
                }
                Err(e)
            },
            Some(Ok(Some(id))) => {
                self.log("thread_rollout_resolved");
                let ghost logged = self.session.codes();
                let r = self.resolve_by_server(&target.thread_hint, Some(id));
                proof {
                    let calls = fresh(self.session.calls(), start);
                    let place = choose|place: int|
                        #![trigger resolution_by_server(calls, place, hint, local->0->Ok_0)]
                        resolution_by_server(calls, place, hint, local->0->Ok_0) matches Some(
                            (outcome, codes),
                        ) && outcome == name_outcome(r) && self.session.codes() == kept_codes(
                            self.diagnostics,
                            logged,
                            codes,
                        );
                    let (_, codes) = resolution(calls, place, hint, local)->0;
                    assert(self.session.codes() =~= kept_codes(self.diagnostics, old(self).session.codes(), codes));
                }
                r
            },
            _ => {
                let r = self.resolve_by_server(&target.thread_hint, None);
                proof {
                    let calls = fresh(self.session.calls(), start);
                    let place = choose|place: int|
                        #![trigger resolution_by_server(calls, place, hint, None)]
                        resolution_by_server(calls, place, hint, None) matches Some(
                            (outcome, codes),
                        ) && outcome == name_outcome(r) && self.session.codes() == kept_codes(
                            self.diagnostics,
                            old(self).session.codes(),
                            codes,
                        );
                    assert(resolution(calls, place, hint, local) is Some);
                }
                r
            },
        }
    }

    /// Finds the one thread of a shortened identity in the app-server: in its state
    /// database, then in its archive.
    fn resolve_by_server(&mut self, hint: &str, known: Option<String>) -> (r: Result<
        String,
        MuxError,
    >)
        requires
            known matches Some(id) ==> thread::is_thread_id(id@) && hint@.is_prefix_of(id@),
        ensures
            final(self).diagnostics == old(self).diagnostics,
            final(self).rollouts == old(self).rollouts,
            old(self).session.calls().is_prefix_of(final(self).session.calls()),
            r matches Ok(id) ==> thread::is_thread_id(id@) && hint@.is_prefix_of(id@),
            exists|place: int|
                #![trigger resolution_by_server(
                    fresh(final(self).session.calls(), old(self).session.calls()),
                    place,
                    hint@,
                    text::option_view(known),
                )]
                resolution_by_server(
                    fresh(final(self).session.calls(), old(self).session.calls()),
                    place,
                    hint@,
                    text::option_view(known),
                ) matches Some((outcome, codes)) && outcome == name_outcome(r)
                    && final(self).session.codes() == kept_codes(
                    old(self).diagnostics,
                    old(self).session.codes(),
                    codes,
                ),
    {
        let ghost start = self.session.calls();
        let ghost given = text::option_view(known);
        let in_state = self.find_thread_id(hint, true, clone_option_text(&known));
        let ghost middle = self.session.calls();
        let ghost place = (middle.len() - start.len()) as int;
        proof {
            let calls = fresh(middle, start);
            assert(calls.take(place) =~= calls);
            assert(self.session.codes() =~= kept_codes(self.diagnostics, old(self).session.codes(), Seq::empty()));
            found_threads_fit(
                calls,
                hint@,
                true,
                given,
                None,
                Seq::empty(),
                MAX_THREAD_LIST_PAGES as nat,
            );
            if in_state is Err {
                assert(resolution_by_server(calls, place, hint@, given) is Some);
            }
        }
        let found = match in_state {
            Ok(found) => found,
            Err(refusal) => return settle(refusal, known),
        };
        let ghost first = text::option_view(found);
        if found.is_none() {
            self.log("thread_state_db_miss");
        }
        self.log("thread_archive_cross_check");
        let ghost searched = if first is None {
            seq!["thread_state_db_miss"@, "thread_archive_cross_check"@]
        } else {
            seq!["thread_archive_cross_check"@]
        };
        assert(self.session.codes() =~= kept_codes(self.diagnostics, old(self).session.codes(), searched));
        let archived = self.find_thread_id(hint, false, found);
        proof {
            let calls = fresh(self.session.calls(), start);
            prefixes_chain(start, middle, self.session.calls());
            runs_split(start, middle, self.session.calls());
            found_threads_fit(
                fresh(self.session.calls(), middle),
                hint@,
                false,
                first,
                None,
                Seq::empty(),
                MAX_THREAD_LIST_PAGES as nat,
            );
            assert(resolution_by_server(calls, place, hint@, given) is Some);
        }
        match archived {
            Ok(Some(id)) => Ok(id),
            Ok(None) => {
                self.log("thread_resolve_not_found");
                proof {
                    assert(self.session.codes() =~= kept_codes(
                        self.diagnostics,
                        old(self).session.codes(),
                        searched.push("thread_resolve_not_found"@),
                    ));
                }
                Err(protocol("truncated pane title did not match one unique Codex thread"))
            },
            Err(refusal) => settle(refusal, known),
        }
    }

    fn read_items(
        &mut self,
        id: &str,
        turns: &Vec<String>,
        transcript: &mut RecentTranscript,
        cursor: Option<String>,
        seen: &mut Vec<String>,
        budget: usize,
        pages: usize,
    ) -> (r: Result<NamingConversation, MuxError>)
        ensures
            final(self).diagnostics == old(self).diagnostics,
            final(self).rollouts == old(self).rollouts,
            final(self).session.codes() == old(self).session.codes(),
            old(self).session.calls().is_prefix_of(final(self).session.calls()),
            items_run(
                fresh(final(self).session.calls(), old(self).session.calls()),
                id@,
                text::texts(turns@),
                old(transcript).held(),
                text::option_view(cursor),
                text::texts(old(seen)@),
                budget as nat,
                pages as nat,
            ) == Some(conversation_outcome(r)),
            r matches Ok(conversation) ==> conversation.thread_id@ == id@,
            r matches Ok(conversation) ==> transcript::size(conversation.transcript@)
                <= transcript::MAX_CONVERSATION_BYTES,
        decreases pages,
    {
        let ghost before = self.session.calls();
        proof {
            assert(before.subrange(0, before.len() as int) =~= before);
            assert(fresh(before, before) =~= Seq::<Call>::empty());
        }
        if pages == 0 {
            return Err(protocol("thread/items/list exceeded the bounded pagination limit"));
        }
        let mut left: usize = budget;
        if let Err(e) = take_history_request(&mut left) {
            return Err(e);
        }
        let params = item_list_params(id, &cursor);
        let reply = self.request("thread/items/list", params);
        let ghost call = self.session.calls().last();
        proof {
            let now = self.session.calls();
            assert(now == before.push(call));
            assert(now.subrange(0, now.len() as int) =~= now);
            fresh_after_one(now, before, call);
            assert(fresh(now, now) =~= Seq::<Call>::empty());
            assert(fresh(now, before).len() == 1);
        }
        let reply = match reply {
            Ok(reply) => reply,
            Err(e) => return Err(e),
        };
        let next = match read_item_page(&reply, turns, transcript, seen) {
            Ok(next) => next,
            Err(e) => return Err(e),
        };
        let full = transcript.len() >= transcript::MAX_CONVERSATION_BYTES;
        if full || next.is_none() {
            return Ok(
                NamingConversation {
                    thread_id: id.to_owned(),
                    transcript: transcript.render_reversed(),
                },
            );
        }
        if let Some(next) = &next {
            put(seen, next);
        }
        let r = self.read_items(id, turns, transcript, next, seen, left, pages - 1);
        proof {
            fresh_after_one(self.session.calls(), before, call);
        }
        r
    }

    fn read_turns(
        &mut self,
        id: &str,
        turns: &mut Vec<String>,
        cursor: Option<String>,
        seen: &mut Vec<String>,
        budget: usize,
        pages: usize,
    ) -> (r: Result<NamingConversation, MuxError>)
        ensures
            final(self).diagnostics == old(self).diagnostics,
            final(self).rollouts == old(self).rollouts,
            final(self).session.codes() == old(self).session.codes(),
            old(self).session.calls().is_prefix_of(final(self).session.calls()),
            turns_run(
                fresh(final(self).session.calls(), old(self).session.calls()),
                id@,
                text::texts(old(turns)@),
                text::option_view(cursor),
                text::texts(old(seen)@),
                budget as nat,
                pages as nat,
            ) == Some(conversation_outcome(r)),
            r matches Ok(conversation) ==> conversation.thread_id@ == id@,
            r matches Ok(conversation) ==> transcript::size(conversation.transcript@)
                <= transcript::MAX_CONVERSATION_BYTES,
        decreases pages,
    {
        let ghost before = self.session.calls();
        proof {
            assert(before.subrange(0, before.len() as int) =~= before);
            assert(fresh(before, before) =~= Seq::<Call>::empty());
        }
        if pages == 0 {
            return Err(protocol("thread/turns/list exceeded the bounded pagination limit"));
        }
        let mut left: usize = budget;
        if let Err(e) = take_history_request(&mut left) {
            return Err(e);
        }
        let params = turn_list_params(id, &cursor);
        let reply = self.request("thread/turns/list", params);
        let ghost call = self.session.calls().last();
        proof {
            let now = self.session.calls();
            assert(now == before.push(call));
            assert(now.subrange(0, now.len() as int) =~= now);
            fresh_after_one(now, before, call);
            assert(fresh(now, now) =~= Seq::<Call>::empty());
            assert(fresh(now, before).len() == 1);
        }
        let reply = match reply {
            Ok(reply) => reply,
            Err(e) => return Err(e),
        };
        let next = match read_turn_page(&reply, turns, seen) {
            Ok(next) => next,
            Err(e) => return Err(e),
        };
        match next {
            None => {
                let mut transcript = RecentTranscript::new();
                let mut pages_seen = text::no_texts();
                let r = self.read_items(
                    id,
                    turns,
                    &mut transcript,
                    None,
                    &mut pages_seen,
                    left,
                    MAX_THREAD_TURNS_PAGES,
                );
                proof {
                    fresh_after_one(self.session.calls(), before, call);
                }
                r
            },
            Some(next) => {
                put(seen, &next);
                let r = self.read_turns(id, turns, Some(next), seen, left, pages - 1);
                proof {
                    fresh_after_one(self.session.calls(), before, call);
                }
                r
            },
        }
    }

    /// Reads the completed turns of a thread.
    pub fn read_completed(&mut self, thread_id: &str) -> (r: Result<NamingConversation, MuxError>)
        ensures
            final(self).diagnostics == old(self).diagnostics,
            final(self).rollouts == old(self).rollouts,
            final(self).session.codes() == old(self).session.codes(),
            old(self).session.calls().is_prefix_of(final(self).session.calls()),
            read_run(fresh(final(self).session.calls(), old(self).session.calls()), thread_id@) == Some(
                conversation_outcome(r),
            ),
            r matches Ok(conversation) ==> conversation.thread_id@ == thread_id@,
            r matches Ok(conversation) ==> transcript::size(conversation.transcript@)
                <= transcript::MAX_CONVERSATION_BYTES,
    {
        let mut turns = text::no_texts();
        let mut seen = text::no_texts();
        self.read_turns(
            thread_id,
            &mut turns,
            None,
            &mut seen,
            MAX_HISTORY_REQUESTS,
            MAX_THREAD_TURNS_PAGES,
        )
    }

    /// Reads a thread from the app-server, or from its rollout where that fails.
    pub fn read_with_fallback(&mut self, thread_id: &str) -> (r: Result<
        NamingConversation,
        MuxError,
    >)
        ensures
            old(self).session.calls().is_prefix_of(final(self).session.calls()),
            reads(old(self).state(), final(self).state(), thread_id@, conversation_outcome(r)),
            r matches Ok(conversation) ==> conversation.thread_id@ == thread_id@,
    {
        match self.read_completed(thread_id) {
            Ok(conversation) => {
                self.log("thread_turns_read");
                Ok(conversation)
            },
            Err(MuxError::Cancelled) => {
                assert(self.session.codes() =~= kept_codes(
                    self.diagnostics,
                    old(self).session.codes(),
                    Seq::empty(),
                ));
                Err(MuxError::Cancelled)
            },
            Err(primary) => {
                assert(self.session.codes() =~= kept_codes(
                    self.diagnostics,
                    old(self).session.codes(),
                    Seq::empty(),
                ));
                let mut second: Option<Result<NamingConversation, MuxError>> = None;
                if let Some(rollouts) = &mut self.rollouts {
                    second = Some(rollouts.read_completed(thread_id));
                }
                proof {
                    if old(self).rollouts is Some {
                        let then = old(self).rollouts->0;
                        let now = self.rollouts->0;
                        assert(rollout_replay::agrees(now.files.events(), now.files.events()));
                        assert(rollout_replay::thread_at(
                            now.files.events(),
                            then.files.events().len() as int,
                            then.root@,
                            thread_id@,
                        ) is Some);
                    }
                }
                match second {
                    Some(Ok(conversation)) => {
                        self.log("thread_rollout_read");
                        Ok(conversation)
                    },
                    Some(Err(MuxError::Cancelled)) => Err(MuxError::Cancelled),
                    _ => Err(primary),
                }
            },
        }
    }

    /// Asks for a title and accepts only a valid one.
    pub fn generate_name(&mut self, conversation: &NamingConversation) -> (r: Result<
        String,
        MuxError,
    >)
        ensures
            old(self).session.calls().is_prefix_of(final(self).session.calls()),
            name_run(fresh(final(self).session.calls(), old(self).session.calls()), conversation.transcript@)
                == Some(name_outcome(r)),
            r matches Ok(name) ==> title::is_valid_title(name@),
    {
        let ghost before = self.session.calls();
        proof {
            assert(before.subrange(0, before.len() as int) =~= before);
            assert(fresh(before, before) =~= Seq::<Call>::empty());
        }
        if blank(&conversation.transcript) {
            return Err(protocol("conversation has no completed user or assistant text"));
        }
        let started = self.request("thread/start", start_params());
        let ghost one = self.session.calls().last();
        proof {
            assert(self.session.calls() =~= before + seq![one]);
            appended(before, seq![one]);
        }
        let started = match started {
            Ok(started) => started,
            Err(e) => return Err(e),
        };
        let id: String = match started.get("thread") {
            Some(t) => match t.text_at("id") {
                Some(id) => id.to_owned(),
                None => return Err(protocol("thread/start omitted the naming thread id")),
            },
            None => return Err(protocol("thread/start omitted the naming thread id")),
        };
        let turn = self.request("turn/start", turn_params(&id, &conversation.transcript));
        let ghost two = self.session.calls().last();
        proof {
            assert(self.session.calls() =~= before + seq![one, two]);
            appended(before, seq![one, two]);
        }
        if let Err(e) = turn {
            return Err(e);
        }
        let completed = self.session.wait_for("turn/completed", &id);
        let ghost three = Call::Wait {
            method: "turn/completed"@,
            thread: id@,
            reply: messages::json_outcome(completed),
        };
        proof {
            assert(self.session.calls() =~= before + seq![one, two, three]);
            appended(before, seq![one, two, three]);
        }
        let completed = match completed {
            Ok(completed) => completed,
            Err(e) => return Err(e),
        };
        let Some(output) = completed_output(&completed) else {
            return Err(protocol("Luna completed without a title"));
        };
        let read = self.session.read_title(&output);
        let ghost four = Call::Title { output: output@, read: text::option_view(read) };
        proof {
            assert(self.session.calls() =~= before + seq![one, two, three, four]);
            appended(before, seq![one, two, three, four]);
        }
        match read {
            None => Err(protocol("Luna returned malformed structured output")),
            Some(t) => validate_name(&t),
        }
    }
}

/// What a refused search comes to.
fn settle(refusal: ThreadLookupError, known: Option<String>) -> (r: Result<String, MuxError>)
    ensures
        name_outcome(r) == refused_lookup(refusal@, text::option_view(known)),
{
    match refusal {
        ThreadLookupError::Cancelled => Err(MuxError::Cancelled),
        ThreadLookupError::Evidence(e) => Err(e),
        ThreadLookupError::Transport(e) => match known {
            Some(id) => Ok(id),
            None => Err(e),
        },
    }
}

proof fn runs_split(a: Seq<Call>, b: Seq<Call>, c: Seq<Call>)
    requires
        a.is_prefix_of(b),
        b.is_prefix_of(c),
    ensures
        fresh(c, a).take(b.len() - a.len()) == fresh(b, a),
        fresh(c, a).skip(b.len() - a.len()) == fresh(c, b),
{
    assert forall|i: int| 0 <= i < b.len() implies b[i] == c[i] by {
        assert(b == c.subrange(0, b.len() as int));
    }
    assert(fresh(c, a).take(b.len() - a.len()) =~= fresh(b, a));
    assert(fresh(c, a).skip(b.len() - a.len()) =~= fresh(c, b));
}

proof fn appended(before: Seq<Call>, calls: Seq<Call>)
    ensures
        before.is_prefix_of(before + calls),
        fresh(before + calls, before) == calls,
{
    assert((before + calls).subrange(0, before.len() as int) =~= before);
    assert((before + calls).skip(before.len() as int) =~= calls);
}

proof fn prefixes_chain(a: Seq<Call>, b: Seq<Call>, c: Seq<Call>)
    requires
        a.is_prefix_of(b),
        b.is_prefix_of(c),
    ensures
        a.is_prefix_of(c),
{
    assert(c.subrange(0, a.len() as int) =~= a) by {
        assert(b == c.subrange(0, b.len() as int));
        assert(a == b.subrange(0, a.len() as int));
    }
}

impl<S: AppServerSession, F: RolloutFiles> ConversationNamer for AppServerNamer<S, F> {
    fn resolve(&mut self, target: &NamingTarget) -> (r: Result<String, MuxError>)
        ensures
            resolves(
                old(self).state(),
                final(self).state(),
                target@.thread_hint,
                name_outcome(r),
            ),
    {
        self.resolve_thread_id(target)
    }

    fn read(&mut self, target: &NamingTarget) -> (r: Result<NamingConversation, MuxError>)
        ensures
            reads_target(
                old(self).state(),
                final(self).state(),
                target@.thread_hint,
                read_outcome(r),
            ),
    {
        let resolved = self.resolve_thread_id(target);
        assert(resolves(
            old(self).state(),
            self.state(),
            target@.thread_hint,
            name_outcome(resolved),
        ));
        match resolved {
            Ok(id) => self.read_with_fallback(&id),
            Err(e) => Err(e),
        }
    }

    fn name(&mut self, conversation: &NamingConversation) -> (r: Result<String, MuxError>)
        ensures
            name_run(fresh(final(self).session.calls(), old(self).session.calls()), conversation.transcript@)
                == Some(name_outcome(r)),
    {
        self.generate_name(conversation)
    }

    fn is_healthy(&mut self) -> bool {
        self.session.is_healthy()
    }
}

} // verus!
