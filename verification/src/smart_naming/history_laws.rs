//! What holds of the pages of a conversation: which messages reach the transcript, which
//! turns count, and what the requests ask for.

use vstd::prelude::*;
use crate::error::ErrorModel;
use crate::json;
use crate::json::JsonModel;
use crate::scan;
use crate::smart_naming::history;
use crate::smart_naming::thread;
use crate::smart_naming::transcript;
use crate::text;

verus! {

// ---------------------------------------------------------------------------
// One line
// ---------------------------------------------------------------------------

/// The whole line of a message: who speaks, what was said, a line end.
pub open spec fn whole_line(role: Seq<char>, said: Seq<char>) -> Seq<char> {
    role + ": "@ + said + "\n"@
}

/// A speaker is named by a short word.
pub open spec fn is_speaker(role: Seq<char>) -> bool {
    &&& role.len() > 0
    &&& !text::is_space(role[0])
    &&& transcript::size(role) + 3 < 6144
}

proof fn small_sizes()
    ensures
        transcript::size(": "@) == 2,
        transcript::size("\n"@) == 1,
{
    reveal_strlit(": ");
    reveal_strlit("\n");
    reveal_with_fuel(vstd::utf8::encode_utf8, 3);
    assert(": "@ =~= seq![':', ' ']);
    assert("\n"@ =~= seq!['\n']);
}

proof fn a_short_text_fits(s: Seq<char>, i: int, used: nat)
    requires
        0 <= i <= s.len(),
        used + transcript::size(s.skip(i)) + 1 <= 6144,
    ensures
        transcript::fitting(s, i, used) == s.len(),
    decreases s.len() - i,
{
    if i < s.len() {
        assert(s.skip(i) =~= seq![s[i]] + s.skip(i + 1));
        transcript::size_append(seq![s[i]], s.skip(i + 1));
        a_short_text_fits(s, i + 1, used + transcript::size(seq![s[i]]));
    }
}

proof fn fitting_stops(s: Seq<char>, i: int, used: nat)
    requires
        0 <= i <= s.len(),
    ensures
        i <= transcript::fitting(s, i, used) <= s.len(),
        ({
            let n = transcript::fitting(s, i, used);
            &&& n > i ==> used + transcript::size(s.subrange(i, n)) + 1 <= 6144
            &&& n < s.len() ==> used + transcript::size(s.subrange(i, n + 1)) + 1 > 6144
        }),
    decreases s.len() - i,
{
    if i < s.len() {
        assert(s.subrange(i, i + 1) =~= seq![s[i]]);
        let next = used + transcript::size(seq![s[i]]);
        if next + 1 <= 6144 {
            fitting_stops(s, i + 1, next);
            let n = transcript::fitting(s, i + 1, next);
            assert(s.subrange(i, n) =~= seq![s[i]] + s.subrange(i + 1, n));
            transcript::size_append(seq![s[i]], s.subrange(i + 1, n));
            if n < s.len() {
                assert(s.subrange(i, n + 1) =~= seq![s[i]] + s.subrange(i + 1, n + 1));
                transcript::size_append(seq![s[i]], s.subrange(i + 1, n + 1));
            }
        }
    }
}

/// A text that fits is kept whole: the line says who speaks, then all that was said. It is
/// left out exactly where nothing but white space was said.
pub proof fn a_short_message_is_kept_whole(role: Seq<char>, said: Seq<char>)
    requires
        is_speaker(role),
        transcript::size(role) + transcript::size(said) + 3 <= 6144,
    ensures
        transcript::message_line(role, said) == whole_line(role, said),
        transcript::message(role, said) == (if scan::is_blank(said) {
            None
        } else {
            Some(whole_line(role, said))
        }),
        transcript::size(whole_line(role, said)) == transcript::size(role) + transcript::size(said)
            + 3,
{
    small_sizes();
    let start = role + ": "@;
    transcript::size_append(role, ": "@);
    transcript::size_append(start, said);
    transcript::size_append(start + said, "\n"@);
    assert(said.skip(0) =~= said);
    a_short_text_fits(said, 0, transcript::size(start));
    assert(said.take(said.len() as int) =~= said);
    let line = whole_line(role, said);
    reveal_strlit(": ");
    reveal_strlit(":");
    reveal_strlit("\n");
    assert(text::is_space('\n') && text::is_space(' ') && !text::is_space(':'));
    let n = role.len() as int;
    assert(line[n] == ':' && line[n + 1] == ' ' && line.last() == '\n');
    assert forall|i: int| n + 2 <= i < n + 2 + said.len() implies line[i] == said[i - n - 2] by {}
    if scan::is_blank(said) {
        assert forall|i: int| n + 1 <= i < line.len() implies text::is_space(#[trigger] line[i]) by {
            if n + 2 <= i < n + 2 + said.len() {
                assert(text::is_space(said[i - n - 2]));
            }
        }
        scan::trimmed_is(line, 0, n + 1);
        assert(line.subrange(0, n + 1) =~= role + ":"@);
    } else {
        let at = choose|i: int| 0 <= i < said.len() && !text::is_space(said[i]);
        let end = last_shown(line, n + 2 + at);
        scan::trimmed_is(line, 0, end);
        assert(scan::trimmed(line).len() == end);
        assert((role + ":"@).len() == n + 1);
    }
}

proof fn last_shown(s: Seq<char>, at: int) -> (end: int)
    requires
        0 <= at < s.len(),
        !text::is_space(s[at]),
    ensures
        at < end <= s.len(),
        !text::is_space(s[end - 1]),
        forall|i: int| end <= i < s.len() ==> text::is_space(#[trigger] s[i]),
    decreases s.len(),
{
    if !text::is_space(s.last()) {
        s.len() as int
    } else {
        let end = last_shown(s.drop_last(), at);
        assert forall|i: int| end <= i < s.len() implies text::is_space(#[trigger] s[i]) by {
            if i < s.len() - 1 {
                assert(s.drop_last()[i] == s[i]);
            }
        }
        end
    }
}

/// A text that does not fit is cut between two characters, at the last place where the
/// line keeps to its bound.
pub proof fn a_long_message_is_cut_late(role: Seq<char>, said: Seq<char>)
    requires
        is_speaker(role),
    ensures
        exists|n: int|
            0 <= n <= said.len() && transcript::message_line(role, said) == whole_line(
                role,
                #[trigger] said.take(n),
            ) && (n > 0 ==> transcript::size(role) + transcript::size(said.take(n)) + 3 <= 6144) && (
            n < said.len() ==> transcript::size(role) + transcript::size(said.take(n + 1)) + 3
                > 6144),
        transcript::message(role, said) is Some ==> transcript::message(role, said)
            == Some(transcript::message_line(role, said)),
{
    small_sizes();
    let start = role + ": "@;
    transcript::size_append(role, ": "@);
    fitting_stops(said, 0, transcript::size(start));
    let n = transcript::fitting(said, 0, transcript::size(start));
    assert(said.subrange(0, n) =~= said.take(n));
    if n < said.len() {
        assert(said.subrange(0, n + 1) =~= said.take(n + 1));
    }
}

/// What several parts say is what each part with a text says, in order, a line end between
/// them: more parts go behind, and a part without a text adds nothing.
pub proof fn parts_are_said_in_order(parts: Seq<JsonModel>, part: JsonModel)
    ensures
        transcript::parts_said(Seq::empty()) == Seq::<char>::empty(),
        json::member(part, "text"@) matches JsonModel::Text(t) ==> {
            &&& transcript::parts_said(seq![part]) == t
            &&& transcript::part_texts(parts).len() > 0 ==> transcript::parts_said(parts.push(part))
                == transcript::parts_said(parts) + "\n"@ + t
            &&& transcript::part_texts(parts).len() == 0 ==> transcript::parts_said(
                parts.push(part),
            ) == t
        },
        !(json::member(part, "text"@) is Text) ==> transcript::parts_said(parts.push(part))
            == transcript::parts_said(parts),
        transcript::part_texts(parts).len() > 0 <==> exists|i: int|
            0 <= i < parts.len() && json::member(#[trigger] parts[i], "text"@) is Text,
    decreases parts.len(),
{
    reveal_with_fuel(transcript::part_texts, 2);
    let more = parts.push(part);
    assert(more.drop_last() =~= parts);
    assert(seq![part].drop_last() =~= Seq::<JsonModel>::empty());
    let before = transcript::part_texts(parts);
    if let JsonModel::Text(t) = json::member(part, "text"@) {
        assert(before.push(t).drop_last() =~= before);
        if before.len() == 0 {
            assert(before.push(t) =~= seq![t]);
        }
        assert(transcript::part_texts(seq![part]) =~= seq![t]);
    }
    if parts.len() > 0 {
        let head = parts.drop_last();
        parts_are_said_in_order(head, part);
        if exists|i: int| 0 <= i < parts.len() && json::member(#[trigger] parts[i], "text"@) is Text {
            let i = choose|i: int|
                0 <= i < parts.len() && json::member(#[trigger] parts[i], "text"@) is Text;
            if i < head.len() {
                assert(head[i] == parts[i]);
            }
        }
        if before.len() > 0 {
            if json::member(parts.last(), "text"@) is Text {
                assert(json::member(parts[parts.len() - 1], "text"@) is Text);
            } else {
                let i = choose|i: int|
                    0 <= i < head.len() && json::member(#[trigger] head[i], "text"@) is Text;
                assert(parts[i] == head[i]);
            }
        }
    }
}

// ---------------------------------------------------------------------------
// Items
// ---------------------------------------------------------------------------

/// An entry of a list of items: in a turn, someone says a text.
pub open spec fn says(
    entry: JsonModel,
    turn: Seq<char>,
    role: Seq<char>,
    said: Seq<char>,
) -> bool {
    let item = json::member(entry, "item"@);
    &&& json::member(entry, "turnId"@) == JsonModel::Text(turn)
    &&& {
        ||| role == "User"@ && json::member(item, "type"@) == JsonModel::Text("userMessage"@)
            && user_parts(item, said)
        ||| role == "Assistant"@ && json::member(item, "type"@) == JsonModel::Text(
            "agentMessage"@,
        ) && json::member(item, "text"@) == JsonModel::Text(said)
    }
}

/// The parts of a message of the user say a text.
pub open spec fn user_parts(item: JsonModel, said: Seq<char>) -> bool {
    match json::member(item, "content"@) {
        JsonModel::Array(parts) => said.len() > 0 && transcript::parts_said(parts) == said,
        _ => false,
    }
}

proof fn what_an_item_says(entry: JsonModel)
    ensures
        forall|turn: Seq<char>, role: Seq<char>, said: Seq<char>| #[trigger]
            says(entry, turn, role, said) <==> json::member(entry, "turnId"@) == JsonModel::Text(
                turn,
            ) && history::item_said(json::member(entry, "item"@)) == Some((role, said)),
{
    reveal_strlit("userMessage");
    reveal_strlit("agentMessage");
    assert("userMessage"@[0] != "agentMessage"@[0]);
}

/// What is told apart: every message of a completed turn has its line in the transcript,
/// unless the transcript has no room for it.
pub proof fn messages_of_completed_turns_are_kept(
    items: Seq<JsonModel>,
    turns: Seq<Seq<char>>,
    before: Seq<Seq<char>>,
    i: int,
    turn: Seq<char>,
    role: Seq<char>,
    said: Seq<char>,
)
    requires
        history::items_read(items, turns, before) is Ok,
        0 <= i < items.len(),
        says(items[i], turn, role, said),
        turns.contains(turn),
        transcript::message(role, said) is Some,
    ensures
        ({
            let after = history::items_read(items, turns, before)->Ok_0;
            let line = transcript::message(role, said)->0;
            after.contains(line) || transcript::total(after) + transcript::size(line) > 12288
        }),
    decreases items.len(),
{
    let head = items.drop_last();
    let earlier = history::items_read(head, turns, before)->Ok_0;
    let after = history::items_read(items, turns, before)->Ok_0;
    let line = transcript::message(role, said)->0;
    what_an_item_says(items.last());
    if i == items.len() - 1 {
        if transcript::total(earlier) + transcript::size(line) <= 12288 {
            assert(after == earlier.push(line));
            assert(after.last() == line);
        }
    } else {
        assert(head[i] == items[i]);
        messages_of_completed_turns_are_kept(head, turns, before, i, turn, role, said);
        if after != earlier {
            transcript::total_push(earlier, after.last());
            assert(after =~= earlier.push(after.last()));
            if earlier.contains(line) {
                let k = earlier.index_of(line);
                assert(after[k] == line);
            }
        }
    }
}

/// An entry of the list accounts for a line.
pub open spec fn comes_from(entry: JsonModel, turns: Seq<Seq<char>>, line: Seq<char>) -> bool {
    exists|turn: Seq<char>, role: Seq<char>, said: Seq<char>| #[trigger]
        says(entry, turn, role, said) && turns.contains(turn) && transcript::message(role, said)
            == Some(line)
}

/// Nothing else reaches the transcript: what it held stays in front, and each line behind
/// comes from a message of a completed turn.
pub proof fn only_messages_of_completed_turns_are_kept(
    items: Seq<JsonModel>,
    turns: Seq<Seq<char>>,
    before: Seq<Seq<char>>,
)
    requires
        history::items_read(items, turns, before) is Ok,
    ensures
        ({
            let after = history::items_read(items, turns, before)->Ok_0;
            &&& before.is_prefix_of(after)
            &&& after.len() <= before.len() + items.len()
            &&& forall|k: int|
                before.len() <= k < after.len() ==> exists|i: int|
                    0 <= i < items.len() && comes_from(items[i], turns, #[trigger] after[k])
        }),
    decreases items.len(),
{
    let after = history::items_read(items, turns, before)->Ok_0;
    if items.len() == 0 {
        assert(before.subrange(0, before.len() as int) =~= before);
    } else {
        let head = items.drop_last();
        let earlier = history::items_read(head, turns, before)->Ok_0;
        only_messages_of_completed_turns_are_kept(head, turns, before);
        what_an_item_says(items.last());
        assert(before.is_prefix_of(after)) by {
            assert(before == earlier.subrange(0, before.len() as int));
            assert(after.subrange(0, before.len() as int) =~= before);
        }
        assert forall|k: int| before.len() <= k < after.len() implies exists|i: int|
            0 <= i < items.len() && comes_from(items[i], turns, #[trigger] after[k]) by {
            if k < earlier.len() {
                assert(after[k] == earlier[k]);
                let i = choose|i: int|
                    0 <= i < head.len() && comes_from(head[i], turns, earlier[k]);
                assert(head[i] == items[i]);
                assert(comes_from(items[i], turns, after[k]));
            } else {
                let (role, said) = history::item_said(json::member(items.last(), "item"@))->0;
                let turn = json::member(items.last(), "turnId"@)->Text_0;
                assert(says(items.last(), turn, role, said));
                assert(comes_from(items[items.len() - 1], turns, after[k]));
            }
        }
    }
}

/// One message into an empty transcript: its line is all that the transcript holds where
/// its turn is completed, and nothing where it is not.
pub proof fn one_message_alone(
    entry: JsonModel,
    turns: Seq<Seq<char>>,
    turn: Seq<char>,
    role: Seq<char>,
    said: Seq<char>,
)
    requires
        says(entry, turn, role, said),
        0 < transcript::size(turn) <= 128,
        !scan::is_blank(said),
        transcript::size(said) <= 6000,
    ensures
        turns.contains(turn) ==> history::items_read(seq![entry], turns, Seq::empty()) == Ok::<
            Seq<Seq<char>>,
            ErrorModel,
        >(seq![role + ": "@ + said + "\n"@]),
        !turns.contains(turn) ==> history::items_read(seq![entry], turns, Seq::empty()) == Ok::<
            Seq<Seq<char>>,
            ErrorModel,
        >(Seq::empty()),
{
    speakers_are_short();
    what_an_item_says(entry);
    a_short_message_is_kept_whole(role, said);
    reveal_with_fuel(history::items_read, 2);
    assert(seq![entry].drop_last() =~= Seq::<JsonModel>::empty());
    assert(Seq::<Seq<char>>::empty().push(whole_line(role, said)) =~= seq![
        whole_line(role, said),
    ]);
}

proof fn speakers_are_short()
    ensures
        is_speaker("User"@),
        is_speaker("Assistant"@),
        transcript::size("User"@) == 4,
        transcript::size("Assistant"@) == 9,
{
    reveal_strlit("User");
    reveal_strlit("Assistant");
    reveal_with_fuel(vstd::utf8::encode_utf8, 10);
    assert("User"@ =~= seq!['U', 's', 'e', 'r']);
    assert("Assistant"@ =~= seq!['A', 's', 's', 'i', 's', 't', 'a', 'n', 't']);
    assert(!text::is_space('U') && !text::is_space('A'));
}

/// Reading is refused exactly where an item names a turn by an empty text or by one that is
/// too long.
pub proof fn items_are_refused_for_their_turns(
    items: Seq<JsonModel>,
    turns: Seq<Seq<char>>,
    before: Seq<Seq<char>>,
)
    ensures
        history::items_read(items, turns, before) is Err <==> exists|i: int|
            0 <= i < items.len() && bad_id(json::member(#[trigger] items[i], "turnId"@)),
    decreases items.len(),
{
    if items.len() > 0 {
        let head = items.drop_last();
        items_are_refused_for_their_turns(head, turns, before);
        if history::items_read(items, turns, before) is Err {
            if history::items_read(head, turns, before) is Err {
                let i = choose|i: int|
                    0 <= i < head.len() && bad_id(json::member(#[trigger] head[i], "turnId"@));
                assert(items[i] == head[i]);
            } else {
                assert(bad_id(json::member(items[items.len() - 1], "turnId"@)));
            }
        }
        if exists|i: int|
            0 <= i < items.len() && bad_id(json::member(#[trigger] items[i], "turnId"@)) {
            let i = choose|i: int|
                0 <= i < items.len() && bad_id(json::member(#[trigger] items[i], "turnId"@));
            if i < head.len() {
                assert(head[i] == items[i]);
            }
        }
    }
}

/// An identity of a turn that cannot be trusted.
pub open spec fn bad_id(value: JsonModel) -> bool {
    match value {
        JsonModel::Text(t) => transcript::size(t) == 0 || transcript::size(t) > 128,
        _ => false,
    }
}

// ---------------------------------------------------------------------------
// Turns and threads
// ---------------------------------------------------------------------------

/// A listed turn is completed and has an identity.
pub open spec fn is_done(turn: JsonModel, id: Seq<char>) -> bool {
    json::member(turn, "status"@) == JsonModel::Text("completed"@) && json::member(turn, "id"@)
        == JsonModel::Text(id)
}

/// A turn counts exactly where it counted before or is listed as completed, and no turn
/// counts twice.
pub proof fn exactly_the_completed_turns_count(turns: Seq<JsonModel>, before: Seq<Seq<char>>)
    requires
        history::completed(turns, before) is Ok,
        before.no_duplicates(),
    ensures
        ({
            let found = history::completed(turns, before)->Ok_0;
            &&& found.no_duplicates()
            &&& before.is_prefix_of(found)
            &&& forall|id: Seq<char>| #[trigger]
                found.contains(id) <==> before.contains(id) || exists|i: int|
                    0 <= i < turns.len() && is_done(#[trigger] turns[i], id)
            &&& forall|i: int, id: Seq<char>|
                0 <= i < turns.len() && #[trigger] is_done(turns[i], id) ==> !bad_id(
                    JsonModel::Text(id),
                )
            &&& before.len() <= 6400 ==> found.len() <= 6400
        }),
    decreases turns.len(),
{
    let found = history::completed(turns, before)->Ok_0;
    if turns.len() == 0 {
        assert(before.subrange(0, before.len() as int) =~= before);
    } else {
        let head = turns.drop_last();
        let earlier = history::completed(head, before)->Ok_0;
        exactly_the_completed_turns_count(head, before);
        assert(before == earlier.subrange(0, before.len() as int));
        assert(found.subrange(0, before.len() as int) =~= before);
        let last = turns.last();
        assert forall|id: Seq<char>| #[trigger] found.contains(id) implies before.contains(id)
            || exists|i: int| 0 <= i < turns.len() && is_done(#[trigger] turns[i], id) by {
            if earlier.contains(id) {
                if !before.contains(id) {
                    let i = choose|i: int| 0 <= i < head.len() && is_done(#[trigger] head[i], id);
                    assert(turns[i] == head[i]);
                }
            } else {
                let k = found.index_of(id);
                if k < earlier.len() {
                    assert(earlier[k] == id);
                }
                assert(is_done(turns[turns.len() - 1], id));
            }
        }
        assert forall|id: Seq<char>|
            before.contains(id) || exists|i: int|
                0 <= i < turns.len() && is_done(#[trigger] turns[i], id) implies
            #[trigger] found.contains(id) by {
            if !before.contains(id) {
                let i = choose|i: int| 0 <= i < turns.len() && is_done(#[trigger] turns[i], id);
                if i < head.len() {
                    assert(is_done(head[i], id));
                    assert(earlier.contains(id));
                }
            } else {
                assert(earlier.contains(id));
            }
            if earlier.contains(id) {
                let k = earlier.index_of(id);
                assert(found[k] == id);
            } else {
                assert(found.last() == id);
            }
        }
        assert forall|i: int, id: Seq<char>|
            0 <= i < turns.len() && #[trigger] is_done(turns[i], id) implies !bad_id(
            JsonModel::Text(id),
        ) by {
            if i < head.len() {
                assert(is_done(head[i], id));
            }
        }
        if found != earlier {
            assert(found =~= earlier.push(found.last()));
        }
    }
}

/// A listed thread fits a hint.
pub open spec fn fits(entry: JsonModel, hint: Seq<char>, id: Seq<char>) -> bool {
    json::member(entry, "id"@) == JsonModel::Text(id) && thread::is_thread_id(id)
        && hint.is_prefix_of(id)
}

/// A search through listed threads finds the one that fits the hint: every thread that fits
/// is the one found, nothing is found where none fits, and two that fit are refused.
pub proof fn the_one_fitting_thread_is_found(
    threads: Seq<JsonModel>,
    hint: Seq<char>,
    matched: Option<Seq<char>>,
)
    ensures
        match history::listed(threads, hint, matched) {
            Ok(found) => {
                &&& forall|i: int, id: Seq<char>|
                    0 <= i < threads.len() && #[trigger] fits(threads[i], hint, id) ==> found
                        == Some(id)
                &&& matched is Some ==> found == matched
                &&& found is Some && matched is None ==> exists|i: int|
                    0 <= i < threads.len() && fits(#[trigger] threads[i], hint, found->0)
            },
            Err(_) => exists|i: int, id: Seq<char>|
                0 <= i < threads.len() && #[trigger] fits(threads[i], hint, id) && (matched
                    matches Some(m) && m != id || exists|j: int, other: Seq<char>|
                    0 <= j < threads.len() && #[trigger] fits(threads[j], hint, other) && other
                        != id),
        },
    decreases threads.len(),
{
    if threads.len() > 0 {
        let head = threads.drop_last();
        the_one_fitting_thread_is_found(head, hint, matched);
        let last = threads[threads.len() - 1];
        match history::listed(head, hint, matched) {
            Err(_) => {
                let (i, id) = choose|i: int, id: Seq<char>|
                    0 <= i < head.len() && #[trigger] fits(head[i], hint, id) && (matched
                        matches Some(m) && m != id || exists|j: int, other: Seq<char>|
                        0 <= j < head.len() && #[trigger] fits(head[j], hint, other) && other
                            != id);
                assert(fits(threads[i], hint, id));
                if exists|j: int, other: Seq<char>|
                    0 <= j < head.len() && #[trigger] fits(head[j], hint, other) && other != id {
                    let (j, other) = choose|j: int, other: Seq<char>|
                        0 <= j < head.len() && #[trigger] fits(head[j], hint, other) && other != id;
                    assert(fits(threads[j], hint, other));
                }
            },
            Ok(earlier) => {
                match history::listed(threads, hint, matched) {
                    Ok(found) => {
                        assert forall|i: int, id: Seq<char>|
                            0 <= i < threads.len() && #[trigger] fits(threads[i], hint, id) implies
                            found == Some(id) by {
                            if i < head.len() {
                                assert(fits(head[i], hint, id));
                            }
                        }
                        if found is Some && matched is None {
                            if earlier is Some {
                                let i = choose|i: int|
                                    0 <= i < head.len() && fits(
                                        #[trigger] head[i],
                                        hint,
                                        earlier->0,
                                    );
                                assert(threads[i] == head[i]);
                            } else {
                                assert(fits(last, hint, found->0));
                            }
                        }
                    },
                    Err(_) => {
                        let id = json::member(last, "id"@)->Text_0;
                        assert(fits(threads[threads.len() - 1], hint, id));
                        if matched is None {
                            let i = choose|i: int|
                                0 <= i < head.len() && fits(#[trigger] head[i], hint, earlier->0);
                            assert(fits(threads[i], hint, earlier->0));
                        }
                    },
                }
            },
        }
    }
}

// ---------------------------------------------------------------------------
// Pages
// ---------------------------------------------------------------------------

/// Where a page says that the list goes on.
pub open spec fn goes_on(
    reply: JsonModel,
    seen: Seq<Seq<char>>,
    next: Option<Seq<char>>,
) -> bool {
    match next {
        None => json::member(reply, "nextCursor"@) == JsonModel::Null,
        Some(c) => json::member(reply, "nextCursor"@) == JsonModel::Text(c) && !seen.contains(c)
            && 0 < transcript::size(c) <= 4096,
    }
}

/// A page that is accepted has its entries, at most as many as were asked for, and goes on
/// exactly where its cursor says so, which no page before had.
pub proof fn accepted_pages_are_in_order(
    reply: JsonModel,
    hint: Seq<char>,
    matched: Option<Seq<char>>,
    turns: Seq<Seq<char>>,
    before: Seq<Seq<char>>,
    seen: Seq<Seq<char>>,
)
    ensures
        history::thread_page(reply, hint, matched, seen) matches Ok((found, next)) ==> goes_on(
            reply,
            seen,
            next,
        ) && json::member(reply, "data"@) is Array && json::member(reply, "data"@)->Array_0.len()
            <= 100,
        history::turn_page(reply, before, seen) matches Ok((found, next)) ==> goes_on(
            reply,
            seen,
            next,
        ) && json::member(reply, "data"@) is Array && json::member(reply, "data"@)->Array_0.len()
            <= 100,
        history::item_page(reply, turns, before, seen) matches Ok((found, next)) ==> goes_on(
            reply,
            seen,
            next,
        ) && json::member(reply, "data"@) is Array && json::member(reply, "data"@)->Array_0.len()
            <= 100,
{
}

// ---------------------------------------------------------------------------
// Requests
// ---------------------------------------------------------------------------

/// A JSON number that says a natural number.
pub open spec fn says_number(value: JsonModel, n: u64) -> bool {
    value matches JsonModel::Number { unsigned, .. } && unsigned == Some(n)
}

/// A cursor as it is sent: null for the first page.
pub open spec fn says_cursor(value: JsonModel, cursor: Option<Seq<char>>) -> bool {
    match cursor {
        None => value == JsonModel::Null,
        Some(c) => value == JsonModel::Text(c),
    }
}

proof fn request_keys_differ()
    ensures
        "cursor"@ != "limit"@,
        "cursor"@ != "sortDirection"@,
        "cursor"@ != "sortKey"@,
        "cursor"@ != "useStateDbOnly"@,
        "cursor"@ != "itemsView"@,
        "cursor"@ != "threadId"@,
        "limit"@ != "sortDirection"@,
        "limit"@ != "sortKey"@,
        "limit"@ != "useStateDbOnly"@,
        "limit"@ != "itemsView"@,
        "limit"@ != "threadId"@,
        "sortDirection"@ != "sortKey"@,
        "sortDirection"@ != "useStateDbOnly"@,
        "sortDirection"@ != "itemsView"@,
        "sortDirection"@ != "threadId"@,
        "sortKey"@ != "useStateDbOnly"@,
        "itemsView"@ != "threadId"@,
{
    reveal_strlit("cursor");
    reveal_strlit("limit");
    reveal_strlit("sortDirection");
    reveal_strlit("sortKey");
    reveal_strlit("useStateDbOnly");
    reveal_strlit("itemsView");
    reveal_strlit("threadId");
    assert("cursor"@.len() == 6 && "limit"@.len() == 5 && "sortDirection"@.len() == 13);
    assert("sortKey"@.len() == 7 && "useStateDbOnly"@.len() == 14 && "itemsView"@.len() == 9);
    assert("threadId"@.len() == 8);
}

/// A request for threads asks for the page behind its cursor, the threads that changed last
/// first, and tells the two sources apart.
pub proof fn thread_requests_say_what_they_ask(cursor: Option<Seq<char>>, state_db_only: bool)
    ensures
        ({
            let params = history::list_params(cursor, state_db_only);
            &&& says_cursor(json::member(params, "cursor"@), cursor)
            &&& says_number(json::member(params, "limit"@), 100)
            &&& json::member(params, "sortDirection"@) == JsonModel::Text("desc"@)
            &&& json::member(params, "sortKey"@) == JsonModel::Text("updated_at"@)
            &&& json::member(params, "useStateDbOnly"@) == JsonModel::Bool(state_db_only)
        }),
{
    request_keys_differ();
    let params = history::list_params(cursor, state_db_only);
    let keys = params->keys;
    let values = params->values;
    json::the_first_member_counts(keys, values, 0);
    json::the_first_member_counts(keys, values, 1);
    json::the_first_member_counts(keys, values, 2);
    json::the_first_member_counts(keys, values, 3);
    json::the_first_member_counts(keys, values, 4);
}

/// A request for turns asks for the page behind its cursor of the turns of its thread, the
/// newest first, without their items.
pub proof fn turn_requests_say_what_they_ask(id: Seq<char>, cursor: Option<Seq<char>>)
    ensures
        ({
            let params = history::turns_params(id, cursor);
            &&& says_cursor(json::member(params, "cursor"@), cursor)
            &&& json::member(params, "itemsView"@) == JsonModel::Text("notLoaded"@)
            &&& says_number(json::member(params, "limit"@), 100)
            &&& json::member(params, "sortDirection"@) == JsonModel::Text("desc"@)
            &&& json::member(params, "threadId"@) == JsonModel::Text(id)
        }),
{
    request_keys_differ();
    let params = history::turns_params(id, cursor);
    let keys = params->keys;
    let values = params->values;
    json::the_first_member_counts(keys, values, 0);
    json::the_first_member_counts(keys, values, 1);
    json::the_first_member_counts(keys, values, 2);
    json::the_first_member_counts(keys, values, 3);
    json::the_first_member_counts(keys, values, 4);
}

/// A request for items asks for the page behind its cursor of the items of its thread, the
/// newest first.
pub proof fn item_requests_say_what_they_ask(id: Seq<char>, cursor: Option<Seq<char>>)
    ensures
        ({
            let params = history::items_params(id, cursor);
            &&& says_cursor(json::member(params, "cursor"@), cursor)
            &&& says_number(json::member(params, "limit"@), 100)
            &&& json::member(params, "sortDirection"@) == JsonModel::Text("desc"@)
            &&& json::member(params, "threadId"@) == JsonModel::Text(id)
        }),
{
    request_keys_differ();
    let params = history::items_params(id, cursor);
    let keys = params->keys;
    let values = params->values;
    json::the_first_member_counts(keys, values, 0);
    json::the_first_member_counts(keys, values, 1);
    json::the_first_member_counts(keys, values, 2);
    json::the_first_member_counts(keys, values, 3);
}

} // verus!
