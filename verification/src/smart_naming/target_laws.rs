//! Which panes are named, when a name is due, and which message answers which request.

use vstd::prelude::*;
use crate::domain::Pane;
use crate::error::ErrorModel;
use crate::json;
use crate::json::JsonModel;
use crate::scan;
use crate::smart_naming::history_laws;
use crate::smart_naming::messages;
use crate::smart_naming::messages::{MessageModel, Wanted};
use crate::smart_naming::target;
use crate::smart_naming::target::TargetModel;
use crate::smart_naming::thread;
use crate::smart_naming::title;
use crate::text;

verus! {

// ---------------------------------------------------------------------------
// Titles that show a thread
// ---------------------------------------------------------------------------

proof fn three_dots()
    ensures
        "..."@ == seq!['.', '.', '.'],
{
    reveal_strlit("...");
    assert("..."@ =~= seq!['.', '.', '.']);
}

/// A title shows a thread by its whole identity, or by a long enough beginning of one and
/// three dots.
pub proof fn a_title_shows_a_thread(id: Seq<char>, n: int)
    requires
        thread::is_thread_id(id),
        0 <= n < 36,
        thread::undashed(id.take(n)) >= 12,
    ensures
        thread::hint(id) == Some(id),
        thread::hint(id.take(n) + "..."@) == Some(id.take(n)),
        thread::marker_matches(id, id),
        thread::marker_matches(id, id.take(n) + "..."@),
{
    three_dots();
    let front = id.take(n);
    let shown = front + "..."@;
    assert(id.subrange(0, 36) =~= id);
    assert(shown[n] == '.');
    assert(!text::is_hex_digit('.'));
    assert(!thread::is_thread_id(shown)) by {
        if thread::is_thread_id(shown) {
            assert(thread::thread_char_at(n, shown[n]));
        }
    }
    assert(shown.take(shown.len() - 3) =~= front);
    assert(shown.subrange(n, n + 3) =~= "..."@);
    assert forall|i: int| 0 <= i < front.len() implies text::is_hex_digit(#[trigger] front[i])
        || front[i] == '-' by {
        assert(thread::thread_char_at(i, id[i]));
    }
    assert(front =~= id.subrange(0, n));
}

/// What a title shows is the beginning of an identity: hexadecimal digits and hyphens, at
/// least twelve of them digits; a whole one where nothing was left out.
pub proof fn what_a_title_shows_is_hexadecimal(shown: Seq<char>)
    requires
        thread::hint(shown) is Some,
    ensures
        ({
            let hint = thread::hint(shown)->0;
            &&& hint == shown || shown == hint + "..."@
            &&& hint == shown ==> hint.len() == 36
            &&& hint.len() <= 36
            &&& forall|i: int|
                0 <= i < hint.len() ==> text::is_hex_digit(#[trigger] hint[i]) || hint[i] == '-'
        }),
{
    three_dots();
    let hint = thread::hint(shown)->0;
    if thread::is_thread_id(shown) {
        assert forall|i: int| 0 <= i < hint.len() implies text::is_hex_digit(#[trigger] hint[i])
            || hint[i] == '-' by {
            assert(thread::thread_char_at(i, shown[i]));
        }
    } else {
        assert("..."@ == shown.subrange(shown.len() - 3, shown.len() as int));
        assert(shown =~= hint + "..."@);
    }
}

// ---------------------------------------------------------------------------
// Targets
// ---------------------------------------------------------------------------

/// A target is about its pane.
pub open spec fn is_about(t: TargetModel, pane: Pane) -> bool {
    &&& t.pane_id == pane.id@
    &&& t.session_id == pane.session_id@
    &&& t.pane_pid == pane.pane_pid
    &&& t.cwd == pane.current_path@
    &&& t.pane_title == scan::trimmed(pane.title->0@)
    &&& t.immediate_naming == pane.immediate_naming
    &&& t.generated_at_unix == pane.generated_at_unix
    &&& t.generated_name == text::option_view(pane.generated_title)
    &&& t.auto_name_token == text::option_view(pane.auto_name_token)
}

/// A pane is a target exactly where it has no manual name, its title shows a thread, and a
/// title that an unpin waits for has come; the target is about the pane and that thread.
pub proof fn a_pane_that_shows_a_thread_is_a_target(pane: Pane)
    ensures
        target::titled_target(pane) is Some <==> {
            &&& !pane.manual_name
            &&& pane.title is Some
            &&& thread::hint(scan::trimmed(pane.title->0@)) is Some
            &&& pane.unpin_waiting ==> text::option_view(pane.unpin_waiting_title) != Some(
                pane.title->0@,
            ) && pane.unpin_waiting_pid is Some && pane.unpin_waiting_pid->0 == pane.pane_pid
                && pane.unpin_waiting_session is Some && pane.unpin_waiting_session->0@
                == pane.session_id@
        },
        target::titled_target(pane) matches Some(t) ==> is_about(t, pane) && t.stable_title
            && Some(t.thread_hint) == thread::hint(scan::trimmed(pane.title->0@)),
{
}

/// A thread that was verified otherwise is a target with that thread, marked by whether the
/// title shows it too.
pub proof fn a_verified_thread_is_a_target(pane: Pane, id: Seq<char>)
    requires
        thread::is_thread_id(id),
        !pane.manual_name,
        pane.title is Some,
    ensures
        target::verified_target(pane, id) is Some,
        ({
            let t = target::verified_target(pane, id)->0;
            &&& is_about(t, pane)
            &&& t.thread_hint == id
            &&& t.stable_title <==> thread::marker_matches(id, scan::trimmed(pane.title->0@))
        }),
{
}

/// A name is due at once where it is asked for or missing, and else half an hour after it
/// was made and no earlier.
pub proof fn a_name_is_due_after_half_an_hour(t: TargetModel, now: u64)
    ensures
        t.immediate_naming ==> target::is_due(t, now),
        t.generated_name is None ==> target::is_due(t, now),
        t.generated_at_unix is None ==> target::is_due(t, now),
        !t.immediate_naming && t.generated_name is Some && t.generated_at_unix is Some ==> (
        target::is_due(t, now) <==> t.generated_at_unix->0 + 1800 <= now),
{
}

/// A title that is accepted is short, on one line, without markup, and ends in a letter or
/// a digit.
pub proof fn accepted_titles_are_plain(t: Seq<char>, c: char)
    requires
        title::is_valid_title(t),
        t.contains(c),
    ensures
        0 < t.len() <= 48,
        c != '\n' && c != '\t' && c != '\r' && c != '\x1b',
        c != '*' && c != '#' && c != '[' && c != ']' && c != '<' && c != '>',
        c != '\u{200b}' && c != '\u{202e}' && c != '\u{feff}',
        t[0] != '"' && t[0] != '\'' && t[0] != '`',
        t.last() != '"' && t.last() != '\'' && t.last() != '`',
{
    let i = t.index_of(c);
    assert(!text::is_control(t[i]));
}

// ---------------------------------------------------------------------------
// Messages
// ---------------------------------------------------------------------------

proof fn message_keys_differ()
    ensures
        "id"@ != "method"@,
        "id"@ != "params"@,
        "method"@ != "params"@,
        "capabilities"@ != "clientInfo"@,
        "name"@ != "title"@,
        "name"@ != "version"@,
        "title"@ != "version"@,
{
    reveal_strlit("id");
    reveal_strlit("method");
    reveal_strlit("params");
    reveal_strlit("capabilities");
    reveal_strlit("clientInfo");
    reveal_strlit("name");
    reveal_strlit("title");
    reveal_strlit("version");
    assert("id"@.len() == 2 && "method"@.len() == 6 && "params"@.len() == 6);
    assert("method"@[0] == 'm' && "params"@[0] == 'p');
    assert("capabilities"@.len() == 12 && "clientInfo"@.len() == 10);
    assert("name"@.len() == 4 && "title"@.len() == 5 && "version"@.len() == 7);
}

/// A request says its number, what it asks and with what; and its reply, which says the
/// same number, is the one that is waited for.
pub proof fn a_request_says_what_it_asks(
    id: u64,
    method: Seq<char>,
    params: JsonModel,
    value: JsonModel,
)
    ensures
        history_laws::says_number(
            json::member(messages::request_model(id, method, params), "id"@),
            id,
        ),
        json::member(messages::request_model(id, method, params), "method"@) == JsonModel::Text(
            method,
        ),
        json::member(messages::request_model(id, method, params), "params"@) == params,
        messages::answers(Wanted::Reply(id), value) <==> history_laws::says_number(
            json::member(value, "id"@),
            id,
        ),
{
    message_keys_differ();
    let request = messages::request_model(id, method, params);
    json::the_first_member_counts(request->keys, request->values, 0);
    json::the_first_member_counts(request->keys, request->values, 1);
    json::the_first_member_counts(request->keys, request->values, 2);
}

/// A client introduces itself by its name and version.
pub proof fn a_client_introduces_itself(version: Seq<char>)
    ensures
        ({
            let params = messages::initialize_model(version);
            let client = json::member(params, "clientInfo"@);
            &&& json::member(client, "name"@) == JsonModel::Text("codex-mux"@)
            &&& json::member(client, "version"@) == JsonModel::Text(version)
            &&& json::member(json::member(params, "capabilities"@), "experimentalApi"@)
                == JsonModel::Bool(true)
        }),
{
    message_keys_differ();
    let params = messages::initialize_model(version);
    json::the_first_member_counts(params->keys, params->values, 0);
    json::the_first_member_counts(params->keys, params->values, 1);
    let capabilities = params->values[0];
    json::the_first_member_counts(capabilities->keys, capabilities->values, 0);
    let client = params->values[1];
    json::the_first_member_counts(client->keys, client->values, 0);
    json::the_first_member_counts(client->keys, client->values, 2);
}

/// The answer is the first message that answers: none before it does, and it does, unless
/// there is none.
pub proof fn the_first_answer_is_the_answer(pending: Seq<MessageModel>, wanted: Wanted, i: int)
    requires
        0 <= i <= pending.len(),
    ensures
        ({
            let n = messages::first_answer(pending, wanted, i);
            &&& i <= n <= pending.len()
            &&& forall|j: int|
                i <= j < n ==> !messages::answers(wanted, (#[trigger] pending[j]).value)
            &&& n < pending.len() ==> messages::answers(wanted, pending[n].value)
        }),
    decreases pending.len() - i,
{
    if i < pending.len() && !messages::answers(wanted, pending[i].value) {
        the_first_answer_is_the_answer(pending, wanted, i + 1);
    }
}

/// A notification is told to the thread that it names, and to no other.
pub proof fn notifications_are_told_by_thread(
    method: String,
    thread_id: String,
    value: JsonModel,
)
    ensures
        messages::answers(Wanted::Notification { method, thread_id }, value) <==> json::member(
            value,
            "method"@,
        ) == JsonModel::Text(method@) && json::member(json::member(value, "params"@), "threadId"@)
            == JsonModel::Text(thread_id@),
{
}

/// A reply is its result; an error in it is an error, whatever else it says, and so is a
/// reply with neither.
pub proof fn a_reply_is_its_result(value: JsonModel)
    ensures
        ({
            let r = messages::reply_result(messages::message_of(value));
            &&& json::find_member(value, "error"@) is Some ==> r is Err
            &&& json::find_member(value, "error"@) is None && json::find_member(
                value,
                "result"@,
            ) is None ==> r is Err
            &&& json::find_member(value, "error"@) is None ==> (json::find_member(
                value,
                "result"@,
            ) matches Some(result) ==> r == Ok::<JsonModel, ErrorModel>(result))
        }),
{
}

/// What is forgotten of a thread is every message that names it, and nothing else.
pub proof fn only_messages_of_the_thread_are_forgotten(
    pending: Seq<MessageModel>,
    thread_id: Seq<char>,
    m: MessageModel,
)
    ensures
        messages::without_thread(pending, thread_id).contains(m) <==> pending.contains(m)
            && json::member(json::member(m.value, "params"@), "threadId"@) != JsonModel::Text(
            thread_id,
        ),
    decreases pending.len(),
{
    let kept = messages::without_thread(pending, thread_id);
    if pending.len() > 0 {
        let head = pending.drop_last();
        let before = messages::without_thread(head, thread_id);
        only_messages_of_the_thread_are_forgotten(head, thread_id, m);
        if pending.contains(m) {
            let i = pending.index_of(m);
            if i < head.len() {
                assert(head[i] == m);
            }
        }
        if head.contains(m) {
            let i = head.index_of(m);
            assert(pending[i] == m);
        }
        if before.contains(m) {
            let k = before.index_of(m);
            assert(kept[k] == m);
        }
        if kept.contains(m) && !before.contains(m) {
            let k = kept.index_of(m);
            if k < before.len() {
                assert(before[k] == m);
            }
            assert(m == pending.last());
            assert(pending[pending.len() - 1] == m);
        }
        if m == pending.last() && kept.len() > before.len() {
            assert(kept.last() == m);
        }
    }
}

/// A message is kept for later exactly where it answers a request or tells that a turn is
/// completed.
pub proof fn answers_are_kept_for_later(value: JsonModel)
    ensures
        messages::is_retained(value) <==> {
            ||| json::member(value, "method"@) == JsonModel::Text("turn/completed"@)
            ||| json::find_member(value, "id"@) is Some && json::find_member(value, "method"@) is None
                && (json::find_member(value, "result"@) is Some || json::find_member(
                value,
                "error"@,
            ) is Some)
        },
{
}

} // verus!
