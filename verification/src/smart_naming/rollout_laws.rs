//! What of a rollout reaches the transcript.

use vstd::prelude::*;
use crate::json;
use crate::json::JsonModel;
use crate::scan;
use crate::smart_naming::history_laws;
use crate::smart_naming::rollout;
use crate::smart_naming::rollout::{EntryFacts, ReadModel};
use crate::smart_naming::transcript;

verus! {

/// A newer message that fits ends the transcript with its line: behind everything where
/// there is room, else in the place of the oldest messages.
pub proof fn a_newer_message_ends_the_transcript(
    messages: Seq<Seq<char>>,
    role: Seq<char>,
    said: Seq<char>,
)
    requires
        history_laws::is_speaker(role),
        transcript::size(role) + transcript::size(said) + 3 <= 6144,
        transcript::total(messages) <= 12288,
    ensures
        scan::is_blank(said) ==> transcript::pushed(messages, role, said) == messages,
        !scan::is_blank(said) ==> {
            let line = role + ": "@ + said + "\n"@;
            &&& transcript::pushed(messages, role, said).len() > 0
            &&& transcript::pushed(messages, role, said).last() == line
            &&& transcript::total(messages) + transcript::size(line) <= 12288
                ==> transcript::pushed(messages, role, said) == messages.push(line)
        },
{
    history_laws::a_short_message_is_kept_whole(role, said);
    if !scan::is_blank(said) {
        transcript::newest_messages_stay(messages, role, said);
    }
}

/// A record of a rollout is an event of a kind.
pub open spec fn is_event(value: JsonModel, kind: Seq<char>) -> bool {
    json::member(value, "type"@) == JsonModel::Text("event_msg"@) && json::member(
        json::member(value, "payload"@),
        "type"@,
    ) == JsonModel::Text(kind)
}

/// A record of a rollout is what the assistant answered.
pub open spec fn is_answer(value: JsonModel) -> bool {
    let payload = json::member(value, "payload"@);
    &&& json::member(value, "type"@) == JsonModel::Text("response_item"@)
    &&& json::member(payload, "type"@) == JsonModel::Text("message"@)
    &&& json::member(payload, "role"@) == JsonModel::Text("assistant"@)
}

proof fn kinds_differ()
    ensures
        "user_message"@ != "item_completed"@,
        "agent_message"@ != "item_completed"@,
        "user_message"@ != "agent_message"@,
        "event_msg"@ != "response_item"@,
        "UserMessage"@ != "AgentMessage"@,
{
    reveal_strlit("user_message");
    reveal_strlit("agent_message");
    reveal_strlit("item_completed");
    reveal_strlit("event_msg");
    reveal_strlit("response_item");
    reveal_strlit("UserMessage");
    reveal_strlit("AgentMessage");
    assert("user_message"@[0] == 'u' && "agent_message"@[0] == 'a' && "item_completed"@[0] == 'i');
    assert("event_msg"@[0] == 'e' && "response_item"@[0] == 'r');
    assert("UserMessage"@[0] == 'U' && "AgentMessage"@[0] == 'A');
}

/// What a user or the assistant says in an event is pushed under the name of the one who
/// says it.
pub proof fn events_are_told_by_speaker(state: ReadModel, value: JsonModel, said: Seq<char>)
    requires
        json::member(json::member(value, "payload"@), "message"@) == JsonModel::Text(said),
    ensures
        is_event(value, "user_message"@) ==> rollout::after_record(state, value).messages
            == transcript::pushed(state.messages, "User"@, said),
        is_event(value, "agent_message"@) ==> rollout::after_record(state, value).messages
            == transcript::pushed(state.messages, "Assistant"@, said),
{
    kinds_differ();
}

/// A completed item says what its content says, under the name of the one who says it, and
/// an item that was read before says nothing again.
pub proof fn an_item_is_read_once(
    state: ReadModel,
    value: JsonModel,
    id: Seq<char>,
    said: Seq<char>,
)
    requires
        is_event(value, "item_completed"@),
        ({
            let item = json::member(json::member(value, "payload"@), "item"@);
            &&& json::member(item, "id"@) == JsonModel::Text(id)
            &&& json::member(item, "content"@) == JsonModel::Text(said)
        }),
    ensures
        ({
            let item = json::member(json::member(value, "payload"@), "item"@);
            let after = rollout::after_record(state, value);
            let kind = json::member(item, "type"@);
            &&& after.seen == state.seen.insert(id)
            &&& state.seen.contains(id) ==> after.messages == state.messages
            &&& !state.seen.contains(id) && kind == JsonModel::Text("UserMessage"@)
                ==> after.messages == transcript::pushed(state.messages, "User"@, said)
            &&& !state.seen.contains(id) && kind == JsonModel::Text("AgentMessage"@)
                ==> after.messages == transcript::pushed(state.messages, "Assistant"@, said)
            &&& rollout::after_record(after, value).messages == after.messages
        }),
{
    kinds_differ();
    if state.seen.contains(id) {
        assert(state.seen.insert(id) =~= state.seen);
    }
}

/// An answer that only repeats the event before it is not read twice; any other answer is
/// what the assistant says.
pub proof fn a_repeated_answer_is_read_once(
    state: ReadModel,
    event: JsonModel,
    answer: JsonModel,
    said: Seq<char>,
    answered: Seq<char>,
)
    requires
        is_event(event, "agent_message"@),
        json::member(json::member(event, "payload"@), "message"@) == JsonModel::Text(said),
        is_answer(answer),
        json::find_member(json::member(answer, "payload"@), "id"@) is None,
        json::member(json::member(answer, "payload"@), "content"@) == JsonModel::Text(answered),
    ensures
        ({
            let one = rollout::after_record(state, event);
            let both = rollout::after_record(one, answer);
            &&& answered == said ==> both.messages == one.messages
            &&& answered != said ==> both.messages == transcript::pushed(
                one.messages,
                "Assistant"@,
                answered,
            )
        }),
{
    kinds_differ();
}

/// A record that is neither an event nor an answer of the assistant says nothing.
pub proof fn other_records_say_nothing(state: ReadModel, value: JsonModel)
    requires
        json::member(value, "type"@) != JsonModel::Text("event_msg"@),
        !is_answer(value),
    ensures
        rollout::after_record(state, value).messages == state.messages,
        rollout::after_record(state, value).seen == state.seen,
{
}

/// Records are read one line after the other, and a line that is no record says nothing.
pub proof fn lines_are_read_in_order(state: ReadModel, bytes: Seq<u8>, i: int)
    requires
        0 <= i < bytes.len(),
    ensures
        ({
            let end = rollout::line_end(bytes, i);
            let line = bytes.subrange(i, end);
            match json::parsed(line) {
                Ok(value) => rollout::after_lines(state, bytes, i) == rollout::after_lines(
                    rollout::after_record(state, value),
                    bytes,
                    end,
                ),
                Err(_) => exists|next: ReadModel| #[trigger]
                    rollout::after_lines(next, bytes, end) == rollout::after_lines(state, bytes, i)
                        && next.messages == state.messages && next.seen == state.seen,
            }
        }),
{
    let end = rollout::line_end(bytes, i);
    let quiet = ReadModel { paired: None, ..state };
    assert(json::parsed(bytes.subrange(i, end)) is Err ==> rollout::after_lines(quiet, bytes, end)
        == rollout::after_lines(state, bytes, i));
}

/// A line ends behind its first line end.
pub proof fn a_line_ends_behind_its_line_end(bytes: Seq<u8>, i: int)
    requires
        0 <= i <= bytes.len(),
    ensures
        ({
            let end = rollout::line_end(bytes, i);
            &&& i <= end <= bytes.len()
            &&& i < bytes.len() ==> i < end
            &&& forall|k: int| i <= k < end - 1 ==> #[trigger] bytes[k] != 10
            &&& i < end < bytes.len() ==> bytes[end - 1] == 10
        }),
    decreases bytes.len() - i,
{
    if i < bytes.len() && bytes[i] != 10 {
        a_line_ends_behind_its_line_end(bytes, i + 1);
    }
}

/// A rollout is read only where it is a file of the user alone: nobody else owns it, may
/// write it or knows it by another name.
pub proof fn only_own_files_are_read(facts: EntryFacts, user: u32)
    ensures
        rollout::file_check(facts, user) is Ok <==> facts.is_file && facts.owner == user
            && facts.links == 1 && facts.mode & 0o022 == 0,
        rollout::directory_check(facts, user) is Ok <==> facts.is_directory && facts.owner == user
            && facts.mode & 0o022 == 0,
{
}

/// Of a long rollout, its last sixteen mebibytes are read.
pub proof fn the_end_of_a_long_rollout_is_read(size: u64)
    ensures
        size <= 16777216 ==> rollout::start_of(size) == 0,
        size > 16777216 ==> size - rollout::start_of(size) == 16777216,
{
}

} // verus!
