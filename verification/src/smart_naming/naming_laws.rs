//! What holds of a whole conversation with the app-server: what is asked for, where what
//! is read comes from, and what is sent to be named.

use vstd::prelude::*;
use crate::error::ErrorModel;
use crate::json;
use crate::json::JsonModel;
use crate::scan;
use crate::smart_naming::conversation;
use crate::smart_naming::conversation::Call;
use crate::smart_naming::history;
use crate::smart_naming::history_laws;
use crate::smart_naming::transcript;

verus! {

// ---------------------------------------------------------------------------
// Asking for a name
// ---------------------------------------------------------------------------

/// A call is a request by a name.
pub open spec fn asks(call: Call, wanted: Seq<char>) -> bool {
    call matches Call::Request { method, .. } && method == wanted
}

/// What a request sends.
pub open spec fn sent(call: Call) -> JsonModel {
    match call {
        Call::Request { params, .. } => params,
        _ => JsonModel::Null,
    }
}

/// What a call was answered.
pub open spec fn answered(call: Call) -> Result<JsonModel, ErrorModel> {
    match call {
        Call::Request { reply, .. } => reply,
        Call::Wait { reply, .. } => reply,
        Call::Title { .. } => Ok(JsonModel::Null),
    }
}

/// The identity of the thread that a reply tells.
pub open spec fn told_thread(reply: JsonModel) -> JsonModel {
    json::member(json::member(reply, "thread"@), "id"@)
}

/// The request to name a transcript holds that transcript as its one input, and is for the
/// thread that it names; so requests for two transcripts differ, and so do those for two
/// threads.
pub proof fn the_transcript_is_what_is_named(id: Seq<char>, said: Seq<char>)
    ensures
        ({
            let params = conversation::turn_model(id, said);
            &&& json::member(params, "threadId"@) == JsonModel::Text(id)
            &&& json::member(params, "model"@) == JsonModel::Text("gpt-5.6-luna"@)
            &&& json::member(params, "input"@) is Array
            &&& json::member(params, "input"@)->Array_0.len() == 1
            &&& json::member(json::member(params, "input"@)->Array_0[0], "text"@)
                == JsonModel::Text(said)
            &&& json::member(json::member(params, "input"@)->Array_0[0], "type"@)
                == JsonModel::Text("text"@)
        }),
        forall|other: Seq<char>, words: Seq<char>|
            #![trigger conversation::turn_model(other, words)]
            conversation::turn_model(other, words) == conversation::turn_model(id, said) ==> other
                == id && words == said,
{
    naming_keys_differ();
    turn_members(id, said);
    assert forall|other: Seq<char>, words: Seq<char>|
        #![trigger conversation::turn_model(other, words)]
        conversation::turn_model(other, words) == conversation::turn_model(id, said) implies other
        == id && words == said by {
        turn_members(other, words);
        assert(JsonModel::Text(other) == JsonModel::Text(id));
        assert(JsonModel::Text(words) == JsonModel::Text(said));
    }
}

proof fn turn_members(id: Seq<char>, said: Seq<char>)
    ensures
        ({
            let params = conversation::turn_model(id, said);
            &&& json::member(params, "threadId"@) == JsonModel::Text(id)
            &&& json::member(params, "model"@) == JsonModel::Text("gpt-5.6-luna"@)
            &&& json::member(params, "outputSchema"@) == conversation::schema_model()
            &&& json::member(params, "input"@) is Array
            &&& json::member(params, "input"@)->Array_0.len() == 1
            &&& json::member(json::member(params, "input"@)->Array_0[0], "text"@)
                == JsonModel::Text(said)
            &&& json::member(json::member(params, "input"@)->Array_0[0], "type"@)
                == JsonModel::Text("text"@)
        }),
{
    naming_keys_differ();
    let params = conversation::turn_model(id, said);
    json::the_first_member_counts(params->keys, params->values, 0);
    json::the_first_member_counts(params->keys, params->values, 1);
    json::the_first_member_counts(params->keys, params->values, 2);
    json::the_first_member_counts(params->keys, params->values, 3);
    let input = params->values[0]->Array_0[0];
    json::the_first_member_counts(input->keys, input->values, 0);
    json::the_first_member_counts(input->keys, input->values, 1);
}

proof fn naming_keys_differ()
    ensures
        "input"@ != "model"@,
        "input"@ != "outputSchema"@,
        "input"@ != "threadId"@,
        "model"@ != "outputSchema"@,
        "model"@ != "threadId"@,
        "outputSchema"@ != "threadId"@,
        "text"@ != "type"@,
        "approvalPolicy"@ != "baseInstructions"@,
        "approvalPolicy"@ != "ephemeral"@,
        "approvalPolicy"@ != "model"@,
        "approvalPolicy"@ != "sandbox"@,
        "baseInstructions"@ != "ephemeral"@,
        "baseInstructions"@ != "model"@,
        "baseInstructions"@ != "sandbox"@,
        "ephemeral"@ != "model"@,
        "ephemeral"@ != "sandbox"@,
        "model"@ != "sandbox"@,
        "additionalProperties"@ != "properties"@,
        "additionalProperties"@ != "required"@,
        "additionalProperties"@ != "type"@,
        "properties"@ != "required"@,
        "properties"@ != "type"@,
        "required"@ != "type"@,
        "maxLength"@ != "type"@,
{
    reveal_strlit("input");
    reveal_strlit("model");
    reveal_strlit("outputSchema");
    reveal_strlit("threadId");
    reveal_strlit("text");
    reveal_strlit("type");
    reveal_strlit("approvalPolicy");
    reveal_strlit("baseInstructions");
    reveal_strlit("ephemeral");
    reveal_strlit("sandbox");
    reveal_strlit("additionalProperties");
    reveal_strlit("properties");
    reveal_strlit("required");
    reveal_strlit("maxLength");
    assert("input"@[0] == 'i' && "model"@[0] == 'm');
    assert("outputSchema"@.len() == 12 && "threadId"@.len() == 8);
    assert("input"@.len() == 5 && "model"@.len() == 5);
    assert("text"@[1] == 'e' && "type"@[1] == 'y');
    assert("approvalPolicy"@.len() == 14 && "baseInstructions"@.len() == 16);
    assert("ephemeral"@.len() == 9 && "sandbox"@.len() == 7);
    assert("additionalProperties"@.len() == 20 && "properties"@.len() == 10);
    assert("required"@.len() == 8 && "type"@.len() == 4 && "maxLength"@.len() == 9);
}

/// The thread that names is thrown away afterwards, can change nothing and asks nobody.
pub proof fn the_naming_thread_changes_nothing()
    ensures
        json::member(conversation::start_model(), "approvalPolicy"@) == JsonModel::Text("never"@),
        json::member(conversation::start_model(), "ephemeral"@) == JsonModel::Bool(true),
        json::member(conversation::start_model(), "model"@) == JsonModel::Text("gpt-5.6-luna"@),
        json::member(conversation::start_model(), "sandbox"@) == JsonModel::Text("read-only"@),
        json::member(conversation::start_model(), "baseInstructions"@) is Text,
{
    naming_keys_differ();
    let params = conversation::start_model();
    json::the_first_member_counts(params->keys, params->values, 0);
    json::the_first_member_counts(params->keys, params->values, 1);
    json::the_first_member_counts(params->keys, params->values, 2);
    json::the_first_member_counts(params->keys, params->values, 3);
    json::the_first_member_counts(params->keys, params->values, 4);
}

/// The answer that is asked for is an object with a title of at most as many characters as
/// a name may have, and nothing else.
pub proof fn the_answer_is_one_short_title(id: Seq<char>, said: Seq<char>)
    ensures
        ({
            let form = json::member(conversation::turn_model(id, said), "outputSchema"@);
            let title = json::member(json::member(form, "properties"@), "title"@);
            &&& json::member(form, "type"@) == JsonModel::Text("object"@)
            &&& json::member(form, "additionalProperties"@) == JsonModel::Bool(false)
            &&& json::member(form, "required"@) is Array
            &&& json::member(form, "required"@)->Array_0 == seq![JsonModel::Text("title"@)]
            &&& json::member(title, "type"@) == JsonModel::Text("string"@)
            &&& history_laws::says_number(json::member(title, "maxLength"@), 48)
        }),
{
    naming_keys_differ();
    turn_members(id, said);
    let form = conversation::schema_model();
    json::the_first_member_counts(form->keys, form->values, 0);
    json::the_first_member_counts(form->keys, form->values, 1);
    json::the_first_member_counts(form->keys, form->values, 2);
    json::the_first_member_counts(form->keys, form->values, 3);
    let properties = form->values[1];
    json::the_first_member_counts(properties->keys, properties->values, 0);
    let title = properties->values[0];
    json::the_first_member_counts(title->keys, title->values, 0);
    json::the_first_member_counts(title->keys, title->values, 1);
}

/// However asking for a name goes, it first starts a thread; whatever else it does is in
/// the thread that was started: there the transcript is what is to be named, and its end is
/// waited for.
pub proof fn a_name_is_asked_for_the_transcript(calls: Seq<Call>, said: Seq<char>)
    requires
        conversation::name_run(calls, said) is Some,
    ensures
        calls.len() <= 4,
        calls.len() == 0 <==> scan::is_blank(said),
        calls.len() > 0 ==> asks(calls[0], "thread/start"@),
        calls.len() > 1 ==> {
            &&& answered(calls[0]) is Ok
            &&& told_thread(answered(calls[0])->Ok_0) is Text
            &&& asks(calls[1], "turn/start"@)
            &&& json::member(sent(calls[1]), "threadId"@) == told_thread(answered(calls[0])->Ok_0)
            &&& json::member(sent(calls[1]), "input"@) is Array
            &&& json::member(sent(calls[1]), "input"@)->Array_0.len() == 1
            &&& json::member(json::member(sent(calls[1]), "input"@)->Array_0[0], "text"@)
                == JsonModel::Text(said)
        },
        calls.len() > 2 ==> {
            &&& answered(calls[1]) is Ok
            &&& calls[2] is Wait
            &&& calls[2]->Wait_method == "turn/completed"@
            &&& JsonModel::Text(calls[2]->Wait_thread) == told_thread(answered(calls[0])->Ok_0)
        },
{
    if !scan::is_blank(said) {
        if let Some(Ok(started)) = conversation::answer(
            calls[0],
            "thread/start"@,
            conversation::start_model(),
        ) {
            if let Some(id) = json::text_of(told_thread(started)) {
                turn_members(id, said);
            }
        }
    }
}

/// An item in which the naming model says a text.
pub open spec fn model_says(item: JsonModel, output: Seq<char>) -> bool {
    json::member(item, "type"@) == JsonModel::Text("agentMessage"@) && json::member(item, "text"@)
        == JsonModel::Text(output)
}

/// The output of a turn is the last text that the naming model says in it.
pub open spec fn says_last(items: Seq<JsonModel>, output: Seq<char>) -> bool {
    exists|i: int|
        0 <= i < items.len() && #[trigger] model_says(items[i], output) && forall|j: int, t: Seq<
            char,
        >| i < j < items.len() ==> !#[trigger] model_says(items[j], t)
}

/// What the naming model said is the last text that it said; nothing was said where it
/// said no text at all.
pub proof fn the_last_output_counts(completed: JsonModel)
    ensures
        match conversation::naming_output(completed) {
            Some(output) => json::member(json::member(completed, "turn"@), "items"@) is Array
                && says_last(
                json::member(json::member(completed, "turn"@), "items"@)->Array_0,
                output,
            ),
            None => json::member(json::member(completed, "turn"@), "items"@) is Array ==> forall|
                j: int,
                t: Seq<char>,
            |
                0 <= j < json::member(
                    json::member(completed, "turn"@),
                    "items"@,
                )->Array_0.len() ==> !#[trigger] model_says(
                    json::member(json::member(completed, "turn"@), "items"@)->Array_0[j],
                    t,
                ),
        },
{
    if let JsonModel::Array(items) = json::member(json::member(completed, "turn"@), "items"@) {
        last_text_is_last(items);
    }
}

proof fn last_text_is_last(items: Seq<JsonModel>)
    ensures
        match conversation::last_agent_text(items) {
            Some(output) => says_last(items, output),
            None => forall|j: int, t: Seq<char>|
                0 <= j < items.len() ==> !#[trigger] model_says(items[j], t),
        },
    decreases items.len(),
{
    if items.len() > 0 {
        let head = items.drop_last();
        let n = items.len() - 1;
        if let Some(t) = conversation::agent_text(items.last()) {
            assert(model_says(items[n], t));
        } else {
            last_text_is_last(head);
            assert forall|t: Seq<char>| !#[trigger] model_says(items[n], t) by {}
            match conversation::last_agent_text(items) {
                Some(output) => {
                    let i = choose|i: int|
                        0 <= i < head.len() && #[trigger] model_says(head[i], output) && forall|
                            j: int,
                            t: Seq<char>,
                        | i < j < head.len() ==> !#[trigger] model_says(head[j], t);
                    assert(model_says(items[i], output));
                    assert forall|j: int, t: Seq<char>| i < j < items.len() implies !#[trigger]
                        model_says(items[j], t) by {
                        if j < n {
                            assert(head[j] == items[j]);
                            assert(!model_says(head[j], t));
                        }
                    }
                },
                None => {
                    assert forall|j: int, t: Seq<char>| 0 <= j < items.len() implies !#[trigger]
                        model_says(items[j], t) by {
                        if j < n {
                            assert(head[j] == items[j]);
                            assert(!model_says(head[j], t));
                        }
                    }
                },
            }
        }
    }
}

/// A name that is given is the title, without the white space around it, that was read in
/// the last text of the naming model.
pub proof fn a_given_name_is_the_title_read(calls: Seq<Call>, said: Seq<char>, name: Seq<char>)
    requires
        conversation::name_run(calls, said) == Some(Ok::<Seq<char>, ErrorModel>(name)),
    ensures
        calls.len() == 4,
        answered(calls[2]) is Ok,
        calls[3] is Title,
        calls[3]->read is Some,
        name == scan::trimmed(calls[3]->read->0),
        says_last(
            json::member(json::member(answered(calls[2])->Ok_0, "turn"@), "items"@)->Array_0,
            calls[3]->output,
        ),
{
    a_name_is_asked_for_the_transcript(calls, said);
    the_last_output_counts(answered(calls[2])->Ok_0);
}

// ---------------------------------------------------------------------------
// Reading a conversation
// ---------------------------------------------------------------------------

/// The entries of the page that a call was answered.
pub open spec fn entries(call: Call) -> Seq<JsonModel> {
    match answered(call) {
        Ok(reply) => match json::member(reply, "data"@) {
            JsonModel::Array(items) => items,
            _ => Seq::empty(),
        },
        Err(_) => Seq::empty(),
    }
}

/// Where the list of a call goes on.
pub open spec fn onward(call: Call) -> JsonModel {
    match answered(call) {
        Ok(reply) => json::member(reply, "nextCursor"@),
        Err(_) => JsonModel::Null,
    }
}

/// The calls ask for the turns of a thread up to a place, then for its items; each page is
/// asked for where the one before it said that the list goes on.
pub open spec fn in_order(
    calls: Seq<Call>,
    id: Seq<char>,
    place: int,
    first: Option<Seq<char>>,
) -> bool {
    forall|k: int|
        0 <= k < calls.len() ==> {
            &&& asks(
                #[trigger] calls[k],
                if k < place {
                    "thread/turns/list"@
                } else {
                    "thread/items/list"@
                },
            )
            &&& json::member(sent(calls[k]), "threadId"@) == JsonModel::Text(id)
            &&& k == 0 ==> history_laws::says_cursor(json::member(sent(calls[k]), "cursor"@), first)
            &&& k > 0 && k == place ==> onward(calls[k - 1]) == JsonModel::Null && json::member(
                sent(calls[k]),
                "cursor"@,
            ) == JsonModel::Null
            &&& k > 0 && k != place ==> json::member(sent(calls[k]), "cursor"@) == onward(
                calls[k - 1],
            ) && json::member(sent(calls[k]), "cursor"@) is Text
        }
}

/// A turn is listed as completed in one of the first calls.
pub open spec fn completed_in(calls: Seq<Call>, place: int, turn: Seq<char>) -> bool {
    exists|k: int, i: int|
        #![trigger entries(calls[k])[i]]
        0 <= k < place && 0 <= i < entries(calls[k]).len() && history_laws::is_done(
            entries(calls[k])[i],
            turn,
        )
}

proof fn items_calls_in_order(
    calls: Seq<Call>,
    id: Seq<char>,
    turns: Seq<Seq<char>>,
    messages: Seq<Seq<char>>,
    cursor: Option<Seq<char>>,
    seen: Seq<Seq<char>>,
    budget: nat,
    pages: nat,
)
    requires
        conversation::items_run(calls, id, turns, messages, cursor, seen, budget, pages) is Some,
    ensures
        in_order(calls, id, 0, cursor),
    decreases pages,
{
    if calls.len() > 0 {
        history_laws::item_requests_say_what_they_ask(id, cursor);
        if let Some(Ok(reply)) = conversation::answer(
            calls[0],
            "thread/items/list"@,
            history::items_params(id, cursor),
        ) {
            if let Ok((after, next)) = history::item_page(reply, turns, messages, seen) {
                history_laws::accepted_pages_are_in_order(
                    reply,
                    Seq::empty(),
                    None,
                    turns,
                    messages,
                    seen,
                );
                if next is Some && transcript::total(after) < 12288 {
                    let rest = calls.skip(1);
                    items_calls_in_order(
                        rest,
                        id,
                        turns,
                        after,
                        next,
                        seen.push(next->0),
                        (budget - 1) as nat,
                        (pages - 1) as nat,
                    );
                    assert forall|k: int| 0 < k < calls.len() implies #[trigger] calls[k] == rest[k
                        - 1] by {}
                }
            }
        }
    }
}

proof fn turns_calls_in_order(
    calls: Seq<Call>,
    id: Seq<char>,
    turns: Seq<Seq<char>>,
    cursor: Option<Seq<char>>,
    seen: Seq<Seq<char>>,
    budget: nat,
    pages: nat,
) -> (place: int)
    requires
        conversation::turns_run(calls, id, turns, cursor, seen, budget, pages) is Some,
    ensures
        0 <= place <= calls.len(),
        calls.len() > 0 ==> place > 0,
        in_order(calls, id, place, cursor),
    decreases pages,
{
    if calls.len() == 0 {
        0
    } else {
        history_laws::turn_requests_say_what_they_ask(id, cursor);
        let rest = calls.skip(1);
        match conversation::answer(
            calls[0],
            "thread/turns/list"@,
            history::turns_params(id, cursor),
        ) {
            Some(Ok(reply)) => match history::turn_page(reply, turns, seen) {
                Ok((after, next)) => {
                    history_laws::accepted_pages_are_in_order(
                        reply,
                        Seq::empty(),
                        None,
                        turns,
                        turns,
                        seen,
                    );
                    if next is None {
                        items_calls_in_order(
                            rest,
                            id,
                            after,
                            Seq::empty(),
                            None,
                            Seq::empty(),
                            (budget - 1) as nat,
                            history::MAX_THREAD_TURNS_PAGES as nat,
                        );
                        assert forall|k: int| 0 < k < calls.len() implies #[trigger] calls[k]
                            == rest[k - 1] by {}
                        1
                    } else {
                        let place = turns_calls_in_order(
                            rest,
                            id,
                            after,
                            next,
                            seen.push(next->0),
                            (budget - 1) as nat,
                            (pages - 1) as nat,
                        );
                        assert forall|k: int| 0 < k < calls.len() implies #[trigger] calls[k]
                            == rest[k - 1] by {}
                        place + 1
                    }
                },
                Err(_) => 1,
            },
            _ => 1,
        }
    }
}

/// Reading a conversation asks for nothing but the turns and then the items of its thread,
/// page by page, each page where the one before it said that the list goes on.
pub proof fn reading_asks_page_by_page(calls: Seq<Call>, id: Seq<char>)
    requires
        conversation::read_run(calls, id) is Some,
    ensures
        exists|place: int| 0 <= place <= calls.len() && #[trigger] in_order(calls, id, place, None),
{
    let place = turns_calls_in_order(
        calls,
        id,
        Seq::empty(),
        None,
        Seq::empty(),
        history::MAX_HISTORY_REQUESTS as nat,
        history::MAX_THREAD_TURNS_PAGES as nat,
    );
}

/// The lines of a transcript account for the items that were read: each comes from a
/// message of a turn that counts, and each message of such a turn has its line unless there
/// is no room for it.
pub open spec fn accounts(
    calls: Seq<Call>,
    turns: Seq<Seq<char>>,
    before: Seq<Seq<char>>,
    lines: Seq<Seq<char>>,
) -> bool {
    &&& before.is_prefix_of(lines)
    &&& forall|n: int|
        before.len() <= n < lines.len() ==> line_is_found(calls, turns, #[trigger] lines[n])
    &&& forall|k: int, i: int, turn: Seq<char>, role: Seq<char>, said: Seq<char>|
        0 <= k < calls.len() && 0 <= i < entries(calls[k]).len() && #[trigger] history_laws::says(
            entries(calls[k])[i],
            turn,
            role,
            said,
        ) && turns.contains(turn) && transcript::message(role, said) is Some ==> lines.contains(
            transcript::message(role, said)->0,
        ) || transcript::total(lines) + transcript::size(transcript::message(role, said)->0)
            > 12288
}

/// Some item that was read accounts for a line.
pub open spec fn line_is_found(
    calls: Seq<Call>,
    turns: Seq<Seq<char>>,
    line: Seq<char>,
) -> bool {
    exists|k: int, i: int|
        #![trigger entries(calls[k])[i]]
        0 <= k < calls.len() && 0 <= i < entries(calls[k]).len() && history_laws::comes_from(
            entries(calls[k])[i],
            turns,
            line,
        )
}

proof fn items_account(
    calls: Seq<Call>,
    id: Seq<char>,
    turns: Seq<Seq<char>>,
    messages: Seq<Seq<char>>,
    cursor: Option<Seq<char>>,
    seen: Seq<Seq<char>>,
    budget: nat,
    pages: nat,
) -> (lines: Seq<Seq<char>>)
    requires
        conversation::items_run(
            calls,
            id,
            turns,
            messages,
            cursor,
            seen,
            budget,
            pages,
        ) matches Some(Ok(_)),
    ensures
        conversation::items_run(calls, id, turns, messages, cursor, seen, budget, pages) == Some(
            Ok::<Seq<char>, ErrorModel>(transcript::concatenated(lines.reverse())),
        ),
        accounts(calls, turns, messages, lines),
        transcript::total(messages) <= transcript::total(lines),
    decreases pages,
{
    let reply = answered(calls[0])->Ok_0;
    let (after, next) = history::item_page(reply, turns, messages, seen)->Ok_0;
    let items = entries(calls[0]);
    history_laws::only_messages_of_completed_turns_are_kept(items, turns, messages);
    a_longer_transcript_is_larger(messages, after);
    let lines = if next is None || transcript::total(after) >= 12288 {
        after
    } else {
        items_account(
            calls.skip(1),
            id,
            turns,
            after,
            next,
            seen.push(next->0),
            (budget - 1) as nat,
            (pages - 1) as nat,
        )
    };
    let rest = calls.skip(1);
    assert(after.is_prefix_of(lines)) by {
        assert(after.subrange(0, after.len() as int) =~= after);
    }
    a_longer_transcript_is_larger(after, lines);
    assert(messages == after.subrange(0, messages.len() as int));
    assert(after == lines.subrange(0, after.len() as int));
    assert(messages =~= lines.subrange(0, messages.len() as int));
    assert forall|n: int| messages.len() <= n < lines.len() implies line_is_found(
        calls,
        turns,
        #[trigger] lines[n],
    ) by {
        if n < after.len() {
            assert(lines[n] == after[n]);
            let i = choose|i: int|
                0 <= i < items.len() && history_laws::comes_from(items[i], turns, after[n]);
            assert(history_laws::comes_from(entries(calls[0])[i], turns, lines[n]));
        } else {
            assert(line_is_found(rest, turns, lines[n]));
            let (k, i) = choose|k: int, i: int|
                #![trigger entries(rest[k])[i]]
                0 <= k < rest.len() && 0 <= i < entries(rest[k]).len() && history_laws::comes_from(
                    entries(rest[k])[i],
                    turns,
                    lines[n],
                );
            assert(calls[k + 1] == rest[k]);
            assert(history_laws::comes_from(entries(calls[k + 1])[i], turns, lines[n]));
        }
    }
    assert forall|k: int, i: int, turn: Seq<char>, role: Seq<char>, said: Seq<char>|
        0 <= k < calls.len() && 0 <= i < entries(calls[k]).len() && #[trigger] history_laws::says(
            entries(calls[k])[i],
            turn,
            role,
            said,
        ) && turns.contains(turn) && transcript::message(role, said) is Some implies lines.contains(
        transcript::message(role, said)->0,
    ) || transcript::total(lines) + transcript::size(transcript::message(role, said)->0)
        > 12288 by {
        let line = transcript::message(role, said)->0;
        if k == 0 {
            history_laws::messages_of_completed_turns_are_kept(
                items,
                turns,
                messages,
                i,
                turn,
                role,
                said,
            );
            if after.contains(line) {
                let at = after.index_of(line);
                assert(lines[at] == line);
            }
        } else {
            assert(calls[k] == rest[k - 1]);
            assert(history_laws::says(entries(rest[k - 1])[i], turn, role, said));
        }
    }
    lines
}

proof fn a_longer_transcript_is_larger(a: Seq<Seq<char>>, b: Seq<Seq<char>>)
    requires
        a.is_prefix_of(b),
    ensures
        transcript::total(a) <= transcript::total(b),
{
    let rest = b.skip(a.len() as int);
    assert(a == b.subrange(0, a.len() as int));
    assert(a + rest =~= b);
    transcript::total_append(a, rest);
}

/// The turns that count for the items are those that the pages of turns list as completed.
pub open spec fn counts_exactly(calls: Seq<Call>, place: int, turns: Seq<Seq<char>>) -> bool {
    forall|turn: Seq<char>| #[trigger]
        turns.contains(turn) <==> completed_in(calls, place, turn)
}

proof fn turns_account(
    calls: Seq<Call>,
    id: Seq<char>,
    turns: Seq<Seq<char>>,
    cursor: Option<Seq<char>>,
    seen: Seq<Seq<char>>,
    budget: nat,
    pages: nat,
) -> (found: (int, Seq<Seq<char>>, Seq<Seq<char>>))
    requires
        conversation::turns_run(calls, id, turns, cursor, seen, budget, pages) matches Some(Ok(_)),
        turns.no_duplicates(),
    ensures
        0 < found.0 <= calls.len(),
        forall|turn: Seq<char>| #[trigger]
            found.1.contains(turn) <==> turns.contains(turn) || completed_in(calls, found.0, turn),
        accounts(calls.skip(found.0), found.1, Seq::empty(), found.2),
        conversation::turns_run(calls, id, turns, cursor, seen, budget, pages) == Some(
            Ok::<Seq<char>, ErrorModel>(transcript::concatenated(found.2.reverse())),
        ),
    decreases pages,
{
    let reply = answered(calls[0])->Ok_0;
    let (after, next) = history::turn_page(reply, turns, seen)->Ok_0;
    let listed = entries(calls[0]);
    let rest = calls.skip(1);
    history_laws::exactly_the_completed_turns_count(listed, turns);
    let found = if next is None {
        let lines = items_account(
            rest,
            id,
            after,
            Seq::empty(),
            None,
            Seq::empty(),
            (budget - 1) as nat,
            history::MAX_THREAD_TURNS_PAGES as nat,
        );
        (0int, after, lines)
    } else {
        turns_account(
            rest,
            id,
            after,
            next,
            seen.push(next->0),
            (budget - 1) as nat,
            (pages - 1) as nat,
        )
    };
    let place = found.0 + 1;
    assert(rest.skip(found.0) =~= calls.skip(place));
    assert forall|turn: Seq<char>| #[trigger] found.1.contains(turn) <==> turns.contains(turn)
        || completed_in(calls, place, turn) by {
        if completed_in(calls, place, turn) {
            let (k, i) = choose|k: int, i: int|
                #![trigger entries(calls[k])[i]]
                0 <= k < place && 0 <= i < entries(calls[k]).len() && history_laws::is_done(
                    entries(calls[k])[i],
                    turn,
                );
            if k == 0 {
                assert(history_laws::is_done(listed[i], turn));
                assert(after.contains(turn));
            } else {
                assert(rest[k - 1] == calls[k]);
                assert(history_laws::is_done(entries(rest[k - 1])[i], turn));
                assert(completed_in(rest, found.0, turn));
            }
        }
        if turns.contains(turn) {
            assert(after.contains(turn));
        }
        if found.1.contains(turn) && !turns.contains(turn) {
            if after.contains(turn) {
                let i = choose|i: int|
                    0 <= i < listed.len() && history_laws::is_done(#[trigger] listed[i], turn);
                assert(history_laws::is_done(entries(calls[0])[i], turn));
            } else {
                assert(completed_in(rest, found.0, turn));
                let (k, i) = choose|k: int, i: int|
                    #![trigger entries(rest[k])[i]]
                    0 <= k < found.0 && 0 <= i < entries(rest[k]).len() && history_laws::is_done(
                        entries(rest[k])[i],
                        turn,
                    );
                assert(calls[k + 1] == rest[k]);
                assert(history_laws::is_done(entries(calls[k + 1])[i], turn));
            }
        }
    }
    (place, found.1, found.2)
}

/// What is read of a conversation is the text of its completed turns: the pages of turns
/// say which are completed; every line comes from a message of one of these in a page of
/// items, and every such message has its line unless the transcript has no room for it; the
/// lines stand in the reverse of the order in which the items are listed.
pub proof fn a_conversation_is_its_completed_turns(calls: Seq<Call>, id: Seq<char>)
    requires
        conversation::read_run(calls, id) matches Some(Ok(_)),
    ensures
        exists|place: int, turns: Seq<Seq<char>>, lines: Seq<Seq<char>>|
            0 < place <= calls.len() && counts_exactly(calls, place, turns) && #[trigger] accounts(
                calls.skip(place),
                turns,
                Seq::empty(),
                lines,
            ) && conversation::read_run(calls, id) == Some(
                Ok::<Seq<char>, ErrorModel>(transcript::concatenated(lines.reverse())),
            ),
{
    let (place, turns, lines) = turns_account(
        calls,
        id,
        Seq::empty(),
        None,
        Seq::empty(),
        history::MAX_HISTORY_REQUESTS as nat,
        history::MAX_THREAD_TURNS_PAGES as nat,
    );
    assert(counts_exactly(calls, place, turns));
    assert(accounts(calls.skip(place), turns, Seq::empty(), lines));
}

/// The lines of a transcript stand one after the other.
pub proof fn lines_stand_one_after_the_other(lines: Seq<Seq<char>>, line: Seq<char>)
    ensures
        transcript::concatenated(Seq::empty()) == Seq::<char>::empty(),
        transcript::concatenated(seq![line]) == line,
        transcript::concatenated(lines.push(line)) == transcript::concatenated(lines) + line,
{
    reveal_with_fuel(transcript::concatenated, 2);
    assert(lines.push(line).drop_last() =~= lines);
    assert(seq![line].drop_last() =~= Seq::<Seq<char>>::empty());
    assert(Seq::<char>::empty() + line =~= line);
}

} // verus!
