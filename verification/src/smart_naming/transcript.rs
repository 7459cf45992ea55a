//! The bounded transcript that names are generated from.

use vstd::prelude::*;
use crate::json;
use crate::json::{Json, JsonModel};
use crate::scan;
use crate::scan::trim;
use crate::text;
use crate::text::{join_texts, put, text_equal, to_chars};

verus! {

/// Most UTF-8 bytes that are sent to the naming model.
pub const MAX_CONVERSATION_BYTES: usize = 12 * 1024;

/// Most bytes of one message of a transcript.
pub const MAX_MESSAGE_BYTES: usize = 6 * 1024;

// ---------------------------------------------------------------------------
// One message
// ---------------------------------------------------------------------------

/// The number of UTF-8 bytes of a text.
pub open spec fn size(s: Seq<char>) -> nat {
    text::utf8(s).len()
}

/// How many leading characters of a text fit into a message that already has some
/// bytes, with one byte left for the line end.
pub open spec fn fitting(s: Seq<char>, i: int, used: nat) -> int
    decreases s.len() - i,
{
    if 0 <= i < s.len() && used + size(seq![s[i]]) + 1 <= MAX_MESSAGE_BYTES {
        fitting(s, i + 1, used + size(seq![s[i]]))
    } else {
        i
    }
}

/// The line of a message: who speaks, then as much of the text as fits.
pub open spec fn message_line(role: Seq<char>, said: Seq<char>) -> Seq<char> {
    let start = role + ": "@;
    start + said.take(fitting(said, 0, size(start))) + "\n"@
}

/// A message, where it says anything.
pub open spec fn message(role: Seq<char>, said: Seq<char>) -> Option<Seq<char>> {
    let line = message_line(role, said);
    if scan::trimmed(line) == role + ":"@ {
        None
    } else {
        Some(line)
    }
}

pub proof fn size_append(a: Seq<char>, b: Seq<char>)
    ensures
        text::utf8(a + b) == text::utf8(a) + text::utf8(b),
        size(a + b) == size(a) + size(b),
    decreases a.len(),
{
    if a.len() == 0 {
        assert(a + b =~= b);
        assert(text::utf8(a) + text::utf8(b) =~= text::utf8(b));
    } else {
        assert((a + b).drop_first() =~= a.drop_first() + b);
        size_append(a.drop_first(), b);
        let head = vstd::utf8::encode_scalar(a[0] as u32);
        assert(head + (text::utf8(a.drop_first()) + text::utf8(b)) =~= (head + text::utf8(
            a.drop_first(),
        )) + text::utf8(b));
    }
}

proof fn fitting_range(s: Seq<char>, i: int, used: nat)
    requires
        0 <= i <= s.len(),
    ensures
        i <= fitting(s, i, used) <= s.len(),
        used < MAX_MESSAGE_BYTES ==> used + size(s.subrange(i, fitting(s, i, used)))
            < MAX_MESSAGE_BYTES,
    decreases s.len() - i,
{
    if i < s.len() && used + size(seq![s[i]]) + 1 <= MAX_MESSAGE_BYTES {
        let next = used + size(seq![s[i]]);
        fitting_range(s, i + 1, next);
        let end = fitting(s, i + 1, next);
        assert(s.subrange(i, end) =~= seq![s[i]] + s.subrange(i + 1, end));
        size_append(seq![s[i]], s.subrange(i + 1, end));
    } else {
        assert(s.subrange(i, i) =~= Seq::<char>::empty());
    }
}

/// A message of a short role keeps to its bound.
pub proof fn message_is_bounded(role: Seq<char>, said: Seq<char>)
    requires
        size(role) + 2 < MAX_MESSAGE_BYTES,
    ensures
        size(message_line(role, said)) <= MAX_MESSAGE_BYTES,
{
    let start = role + ": "@;
    let end = fitting(said, 0, size(start));
    reveal_strlit(": ");
    reveal_strlit("\n");
    reveal_with_fuel(vstd::utf8::encode_utf8, 3);
    size_append(role, ": "@);
    assert(": "@ =~= seq![':', ' ']);
    assert(size(": "@) == 2);
    assert("\n"@ =~= seq!['\n']);
    assert(size("\n"@) == 1);
    fitting_range(said, 0, size(start));
    assert(said.subrange(0, end) =~= said.take(end));
    size_append(start, said.take(end));
    size_append(start + said.take(end), "\n"@);
}

/// The number of UTF-8 bytes of a text.
fn byte_len(s: &str) -> (r: usize)
    ensures
        r == size(s@),
{
    s.as_bytes().len()
}

/// The number of bytes that UTF-8 takes for a character.
fn char_len(c: char) -> (r: usize)
    ensures
        r == size(seq![c]),
        1 <= r <= 4,
{
    let n: u32 = c as u32;
    proof {
        reveal_with_fuel(vstd::utf8::encode_utf8, 2);
        assert(seq![c].drop_first() =~= Seq::<char>::empty());
        assert(text::utf8(seq![c]) =~= vstd::utf8::encode_scalar(c as u32));
    }
    if n < 0x80 {
        1
    } else if n < 0x800 {
        2
    } else if n < 0x10000 {
        3
    } else {
        4
    }
}

/// The message that a role and a text make.
pub fn format_message(role: &str, said: &str) -> (r: Option<String>)
    ensures
        text::option_view(r) == message(role@, said@),
{
    let mut line = role.to_owned();
    line.append(": ");
    let ghost start = line@;
    let mut used: usize = byte_len(&line);
    let v = to_chars(said);
    let mut i: usize = 0;
    proof {
        assert(said@.take(0) =~= Seq::<char>::empty());
        assert(line@ =~= start + said@.take(0));
    }
    while i < v.len() && used <= MAX_MESSAGE_BYTES && used + char_len(v[i]) + 1
        <= MAX_MESSAGE_BYTES
        invariant
            i <= v.len(),
            v@ == said@,
            line@ == start + said@.take(i as int),
            fitting(said@, 0, size(start)) == fitting(said@, i as int, used as nat),
        decreases v.len() - i,
    {
        used += char_len(v[i]);
        line.push(v[i]);
        i += 1;
        assert(line@ =~= start + said@.take(i as int));
    }
    assert(fitting(said@, i as int, used as nat) == i);
    line.append("\n");
    let mut plain = role.to_owned();
    plain.append(":");
    if text_equal(&trim(&line), &plain) {
        None
    } else {
        Some(line)
    }
}

// ---------------------------------------------------------------------------
// The transcript
// ---------------------------------------------------------------------------

/// The bytes of several messages.
pub open spec fn total(messages: Seq<Seq<char>>) -> nat
    decreases messages.len(),
{
    if messages.len() == 0 {
        0
    } else {
        size(messages[0]) + total(messages.skip(1))
    }
}

/// What stays of the oldest messages when room is needed for some bytes: they go
/// one by one from the front.
pub open spec fn with_room(messages: Seq<Seq<char>>, need: nat) -> Seq<Seq<char>>
    decreases messages.len(),
{
    if messages.len() == 0 || total(messages) + need <= MAX_CONVERSATION_BYTES {
        messages
    } else {
        with_room(messages.skip(1), need)
    }
}

/// The transcript after a newer message.
pub open spec fn pushed(
    messages: Seq<Seq<char>>,
    role: Seq<char>,
    said: Seq<char>,
) -> Seq<Seq<char>> {
    match message(role, said) {
        None => messages,
        Some(line) => {
            let kept = with_room(messages, size(line));
            if size(line) <= MAX_CONVERSATION_BYTES {
                kept.push(line)
            } else {
                kept
            }
        },
    }
}

/// The transcript, newest message first, after an older message: it is left out
/// where it does not fit.
pub open spec fn pushed_older(
    messages: Seq<Seq<char>>,
    role: Seq<char>,
    said: Seq<char>,
) -> Seq<Seq<char>> {
    match message(role, said) {
        None => messages,
        Some(line) => if total(messages) + size(line) <= MAX_CONVERSATION_BYTES {
            messages.push(line)
        } else {
            messages
        },
    }
}

/// The texts of the parts of a message that have one.
pub open spec fn part_texts(parts: Seq<JsonModel>) -> Seq<Seq<char>>
    decreases parts.len(),
{
    if parts.len() == 0 {
        Seq::empty()
    } else {
        let before = part_texts(parts.drop_last());
        match json::text_of(json::member(parts.last(), "text"@)) {
            Some(t) => before.push(t),
            None => before,
        }
    }
}

/// What the parts of a message say, one part to a line.
pub open spec fn parts_said(parts: Seq<JsonModel>) -> Seq<char> {
    scan::join_with(part_texts(parts), "\n"@)
}

/// What a message content says: a text, or the texts of its parts.
pub open spec fn content_said(content: JsonModel) -> Option<Seq<char>> {
    match content {
        JsonModel::Text(t) => Some(t),
        JsonModel::Array(parts) => if parts_said(parts).len() == 0 {
            None
        } else {
            Some(parts_said(parts))
        },
        _ => None,
    }
}

/// The messages in the order in which they are held, one after the other.
pub open spec fn concatenated(messages: Seq<Seq<char>>) -> Seq<char>
    decreases messages.len(),
{
    if messages.len() == 0 {
        Seq::empty()
    } else {
        concatenated(messages.drop_last()) + messages.last()
    }
}

pub proof fn total_append(a: Seq<Seq<char>>, b: Seq<Seq<char>>)
    ensures
        total(a + b) == total(a) + total(b),
    decreases a.len(),
{
    if a.len() == 0 {
        assert(a + b =~= b);
    } else {
        assert((a + b).skip(1) =~= a.skip(1) + b);
        total_append(a.skip(1), b);
    }
}

pub proof fn total_push(a: Seq<Seq<char>>, line: Seq<char>)
    ensures
        total(a.push(line)) == total(a) + size(line),
{
    total_append(a, seq![line]);
    assert(a.push(line) =~= a + seq![line]);
    assert(seq![line].skip(1) =~= Seq::empty());
    reveal_with_fuel(total, 2);
}

proof fn with_room_fits(messages: Seq<Seq<char>>, need: nat)
    requires
        total(messages) <= MAX_CONVERSATION_BYTES,
    ensures
        total(with_room(messages, need)) <= total(messages),
        need <= MAX_CONVERSATION_BYTES ==> total(with_room(messages, need)) + need
            <= MAX_CONVERSATION_BYTES,
        with_room(messages, need).is_suffix_of(messages),
    decreases messages.len(),
{
    if messages.len() == 0 || total(messages) + need <= MAX_CONVERSATION_BYTES {
        assert(messages.subrange(0, messages.len() as int) =~= messages);
    } else {
        let rest = messages.skip(1);
        with_room_fits(rest, need);
        let kept = with_room(rest, need);
        assert(kept =~= messages.subrange(
            messages.len() - kept.len(),
            messages.len() as int,
        )) by {
            assert(kept == rest.subrange(rest.len() - kept.len(), rest.len() as int));
        }
    }
}

/// A transcript never outgrows its budget, whichever way it is filled.
pub proof fn transcript_keeps_its_budget(
    messages: Seq<Seq<char>>,
    role: Seq<char>,
    said: Seq<char>,
)
    requires
        total(messages) <= MAX_CONVERSATION_BYTES,
    ensures
        total(pushed(messages, role, said)) <= MAX_CONVERSATION_BYTES,
        total(pushed_older(messages, role, said)) <= MAX_CONVERSATION_BYTES,
{
    if let Some(line) = message(role, said) {
        with_room_fits(messages, size(line));
        total_push(with_room(messages, size(line)), line);
        total_push(messages, line);
    }
}

/// The newest messages stay: of a transcript that takes a newer message, an end
/// remains, in its order, before that message.
pub proof fn newest_messages_stay(messages: Seq<Seq<char>>, role: Seq<char>, said: Seq<char>)
    requires
        total(messages) <= MAX_CONVERSATION_BYTES,
        size(role) + 2 < MAX_MESSAGE_BYTES,
        message(role, said) is Some,
    ensures
        pushed(messages, role, said).last() == message_line(role, said),
        pushed(messages, role, said).drop_last().is_suffix_of(messages),
{
    message_is_bounded(role, said);
    let line = message_line(role, said);
    with_room_fits(messages, size(line));
    assert(pushed(messages, role, said).drop_last() =~= with_room(messages, size(line)));
}

proof fn concatenated_size(messages: Seq<Seq<char>>)
    ensures
        size(concatenated(messages)) == total(messages),
    decreases messages.len(),
{
    if messages.len() > 0 {
        concatenated_size(messages.drop_last());
        size_append(concatenated(messages.drop_last()), messages.last());
        total_push(messages.drop_last(), messages.last());
        assert(messages.drop_last().push(messages.last()) =~= messages);
    }
}

/// The messages that a row of speakers and texts makes, without those that say
/// nothing.
pub open spec fn formatted(said: Seq<(Seq<char>, Seq<char>)>) -> Seq<Seq<char>>
    decreases said.len(),
{
    if said.len() == 0 {
        Seq::empty()
    } else {
        let before = formatted(said.drop_last());
        match message(said.last().0, said.last().1) {
            Some(line) => before.push(line),
            None => before,
        }
    }
}

/// A new transcript after a row of pushes.
pub open spec fn pushed_all(said: Seq<(Seq<char>, Seq<char>)>) -> Seq<Seq<char>>
    decreases said.len(),
{
    if said.len() == 0 {
        Seq::empty()
    } else {
        pushed(pushed_all(said.drop_last()), said.last().0, said.last().1)
    }
}

/// The longest end of a row of messages that keeps to the budget.
pub open spec fn longest_end(kept: Seq<Seq<char>>, all: Seq<Seq<char>>) -> bool {
    &&& kept.is_suffix_of(all)
    &&& total(kept) <= MAX_CONVERSATION_BYTES
    &&& forall|k: int|
        0 <= k <= all.len() && total(#[trigger] all.skip(k)) <= MAX_CONVERSATION_BYTES ==> all.len()
            - k <= kept.len()
}

proof fn with_room_is_longest(messages: Seq<Seq<char>>, need: nat, k: int)
    requires
        0 <= k <= messages.len(),
        total(messages.skip(k)) + need <= MAX_CONVERSATION_BYTES,
    ensures
        with_room(messages, need).len() >= messages.len() - k,
    decreases messages.len(),
{
    if messages.len() > 0 && total(messages) + need > MAX_CONVERSATION_BYTES {
        if k == 0 {
            assert(messages.skip(0) =~= messages);
        } else {
            assert(messages.skip(1).skip(k - 1) =~= messages.skip(k));
            with_room_is_longest(messages.skip(1), need, k - 1);
        }
    }
}

proof fn a_push_keeps_the_longest_end(
    kept: Seq<Seq<char>>,
    all: Seq<Seq<char>>,
    line: Seq<char>,
)
    requires
        longest_end(kept, all),
        size(line) <= MAX_CONVERSATION_BYTES,
    ensures
        longest_end(with_room(kept, size(line)).push(line), all.push(line)),
{
    let rest = with_room(kept, size(line));
    with_room_fits(kept, size(line));
    total_push(rest, line);
    let next = all.push(line);
    assert(rest.push(line).is_suffix_of(next)) by {
        assert(rest == kept.subrange(kept.len() - rest.len(), kept.len() as int));
        assert(kept == all.subrange(all.len() - kept.len(), all.len() as int));
        assert(rest.push(line) =~= next.subrange(
            next.len() - rest.push(line).len(),
            next.len() as int,
        ));
    }
    assert forall|k: int|
        0 <= k <= next.len() && total(#[trigger] next.skip(k))
            <= MAX_CONVERSATION_BYTES implies next.len() - k <= rest.push(line).len() by {
        if k <= all.len() {
            assert(next.skip(k) =~= all.skip(k).push(line));
            total_push(all.skip(k), line);
            let at = kept.len() - (all.len() - k);
            assert(kept == all.subrange(all.len() - kept.len(), all.len() as int));
            assert(kept.skip(at) =~= all.skip(k));
            with_room_is_longest(kept, size(line), at);
        }
    }
}

/// What a row of pushes leaves: the longest end of its messages that keeps to the
/// budget, and so the text of those messages one after the other. Messages that say
/// nothing do not count; each of the others ends its line, keeps to its own bound and
/// is cut, where it is cut, between two characters.
pub proof fn a_transcript_holds_its_longest_end(said: Seq<(Seq<char>, Seq<char>)>)
    requires
        forall|i: int|
            0 <= i < said.len() ==> size((#[trigger] said[i]).0) + 2 < MAX_MESSAGE_BYTES,
    ensures
        longest_end(pushed_all(said), formatted(said)),
        size(concatenated(pushed_all(said))) <= MAX_CONVERSATION_BYTES,
        forall|i: int|
            0 <= i < formatted(said).len() ==> 1 <= size(#[trigger] formatted(said)[i])
                <= MAX_MESSAGE_BYTES && formatted(said)[i].len() > 0 && formatted(said)[i].last()
                == '\n',
    decreases said.len(),
{
    if said.len() == 0 {
        assert(pushed_all(said).is_suffix_of(formatted(said)));
        assert(formatted(said).skip(0) =~= formatted(said));
    } else {
        let (role, words) = said.last();
        let before = said.drop_last();
        assert forall|i: int| 0 <= i < before.len() implies size((#[trigger] before[i]).0) + 2
            < MAX_MESSAGE_BYTES by {
            assert(before[i] == said[i]);
        }
        a_transcript_holds_its_longest_end(before);
        if let Some(line) = message(role, words) {
            assert(said[said.len() - 1] == said.last());
            message_is_bounded(role, words);
            a_push_keeps_the_longest_end(pushed_all(before), formatted(before), line);
            reveal_strlit("\n");
            assert(line.last() == '\n');
            size_append(line.drop_last(), seq!['\n']);
            assert(line.drop_last() + seq!['\n'] =~= line);
            reveal_with_fuel(vstd::utf8::encode_utf8, 2);
            assert forall|i: int| 0 <= i < formatted(said).len() implies 1 <= size(
                #[trigger] formatted(said)[i],
            ) <= MAX_MESSAGE_BYTES && formatted(said)[i].len() > 0 && formatted(said)[i].last()
                == '\n' by {
                if i < formatted(before).len() {
                    assert(formatted(said)[i] == formatted(before)[i]);
                }
            }
        }
    }
    concatenated_size(pushed_all(said));
}

/// The last messages of a conversation, within a byte budget.
#[derive(Debug)]
pub struct RecentTranscript {
    messages: Vec<String>,
    bytes: usize,
}

impl RecentTranscript {
    /// The messages held.
    pub closed spec fn held(&self) -> Seq<Seq<char>> {
        text::texts(self.messages@)
    }

    #[verifier::type_invariant]
    closed spec fn within_budget(self) -> bool {
        self.bytes == total(text::texts(self.messages@)) && self.bytes <= MAX_CONVERSATION_BYTES
    }

    pub fn new() -> (r: Self)
        ensures
            r.held() == Seq::<Seq<char>>::empty(),
    {
        RecentTranscript { messages: text::no_texts(), bytes: 0 }
    }

    /// The bytes held.
    pub fn len(&self) -> (r: usize)
        ensures
            r == total(self.held()),
            r <= MAX_CONVERSATION_BYTES,
    {
        proof {
            use_type_invariant(self);
        }
        self.bytes
    }

    /// Adds a newer message and drops the oldest ones that leave no room for it.
    pub fn push(&mut self, role: &str, said: &str)
        ensures
            final(self).held() == pushed(old(self).held(), role@, said@),
    {
        proof {
            use_type_invariant(&*self);
            transcript_keeps_its_budget(self.held(), role@, said@);
        }
        let Some(line) = format_message(role, said) else {
            return ;
        };
        let need: usize = byte_len(&line);
        let mut messages = text::no_texts();
        let mut from: usize = 0;
        let mut left: usize = self.bytes;
        let ghost all = self.held();
        proof {
            assert(all.skip(0) =~= all);
        }
        while from < self.messages.len() && need > MAX_CONVERSATION_BYTES - left
            invariant
                from <= self.messages.len(),
                all == text::texts(self.messages@),
                left == total(all.skip(from as int)),
                left <= MAX_CONVERSATION_BYTES,
                with_room(all, need as nat) == with_room(all.skip(from as int), need as nat),
            decreases self.messages.len() - from,
        {
            proof {
                assert(all.skip(from as int).skip(1) =~= all.skip(from + 1));
                assert(all.skip(from as int)[0] == self.messages@[from as int]@);
            }
            left -= byte_len(&self.messages[from]);
            from += 1;
        }
        let mut i: usize = from;
        proof {
            assert(all.subrange(from as int, from as int) =~= Seq::<Seq<char>>::empty());
        }
        while i < self.messages.len()
            invariant
                from <= i <= self.messages.len(),
                all == text::texts(self.messages@),
                text::texts(messages@) == all.subrange(from as int, i as int),
            decreases self.messages.len() - i,
        {
            put(&mut messages, &self.messages[i]);
            i += 1;
            assert(text::texts(messages@) =~= all.subrange(from as int, i as int));
        }
        assert(text::texts(messages@) =~= all.skip(from as int));
        let mut bytes: usize = left;
        if need <= MAX_CONVERSATION_BYTES {
            proof {
                with_room_fits(all, need as nat);
                total_push(text::texts(messages@), line@);
            }
            bytes += need;
            text::push_text(&mut messages, line);
        }
        *self = RecentTranscript { messages, bytes };
    }

    /// Adds an older message to a transcript that holds its newest message first.
    pub fn push_newest_first(&mut self, role: &str, said: &str)
        ensures
            final(self).held() == pushed_older(old(self).held(), role@, said@),
    {
        proof {
            use_type_invariant(&*self);
        }
        let Some(line) = format_message(role, said) else {
            return ;
        };
        let need: usize = byte_len(&line);
        if need <= MAX_CONVERSATION_BYTES - self.bytes {
            let mut messages = text::no_texts();
            text::put_all(&mut messages, &self.messages);
            proof {
                assert(text::texts(messages@) =~= self.held());
                total_push(self.held(), line@);
            }
            let bytes: usize = self.bytes + need;
            text::push_text(&mut messages, line);
            *self = RecentTranscript { messages, bytes };
        }
    }

    /// Adds a newer message by its content.
    pub fn push_content(&mut self, role: &str, content: &Json)
        ensures
            final(self).held() == match content_said(content@) {
                Some(said) => pushed(old(self).held(), role@, said),
                None => old(self).held(),
            },
    {
        if let Some(said) = content.as_text() {
            self.push(role, said);
            return ;
        }
        let Some(parts) = content.as_array() else {
            return ;
        };
        let said = parts_text(parts);
        if said.unicode_len() > 0 {
            self.push(role, &said);
        }
    }

    /// The messages in the order in which they came.
    pub fn render(&self) -> (r: String)
        ensures
            r@ == concatenated(self.held()),
            size(r@) <= MAX_CONVERSATION_BYTES,
    {
        proof {
            use_type_invariant(self);
            concatenated_size(self.held());
        }
        concatenate(&self.messages)
    }

    /// The messages in the reverse of the order in which they came.
    pub fn render_reversed(&self) -> (r: String)
        ensures
            r@ == concatenated(self.held().reverse()),
            size(r@) <= MAX_CONVERSATION_BYTES,
    {
        proof {
            use_type_invariant(self);
        }
        let mut turned = text::no_texts();
        let ghost all = self.held();
        let mut i: usize = self.messages.len();
        proof {
            assert(all.reverse().take(0) =~= Seq::<Seq<char>>::empty());
            reversed_total(all);
        }
        while i > 0
            invariant
                i <= self.messages.len(),
                all == text::texts(self.messages@),
                text::texts(turned@) == all.reverse().take(all.len() - i),
            decreases i,
        {
            i -= 1;
            put(&mut turned, &self.messages[i]);
            assert(text::texts(turned@) =~= all.reverse().take(all.len() - i));
        }
        assert(text::texts(turned@) =~= all.reverse());
        proof {
            concatenated_size(all.reverse());
        }
        concatenate(&turned)
    }
}

proof fn reversed_total(messages: Seq<Seq<char>>)
    ensures
        total(messages.reverse()) == total(messages),
    decreases messages.len(),
{
    if messages.len() > 0 {
        let rest = messages.skip(1);
        reversed_total(rest);
        assert(messages.reverse() =~= rest.reverse().push(messages[0]));
        total_push(rest.reverse(), messages[0]);
    } else {
        assert(messages.reverse() =~= messages);
    }
}

impl Default for RecentTranscript {
    fn default() -> (r: Self)
        ensures
            r.held() == Seq::<Seq<char>>::empty(),
    {
        RecentTranscript::new()
    }
}

fn concatenate(messages: &Vec<String>) -> (r: String)
    ensures
        r@ == concatenated(text::texts(messages@)),
{
    let mut r = String::new();
    let ghost all = text::texts(messages@);
    let mut i: usize = 0;
    assert(all.take(0) =~= Seq::<Seq<char>>::empty());
    while i < messages.len()
        invariant
            i <= messages.len(),
            all == text::texts(messages@),
            r@ == concatenated(all.take(i as int)),
        decreases messages.len() - i,
    {
        proof {
            assert(all.take(i + 1).drop_last() =~= all.take(i as int));
            assert(all.take(i + 1).last() == messages@[i as int]@);
        }
        r.append(&messages[i]);
        i += 1;
    }
    assert(all.take(all.len() as int) =~= all);
    r
}

/// What the parts of a message say, one part to a line.
pub fn parts_text(parts: &Vec<Json>) -> (r: String)
    ensures
        r@ == parts_said(json::list_view(parts@)),
{
    let mut said = text::no_texts();
    let ghost all = json::list_view(parts@);
    let mut i: usize = 0;
    assert(all.take(0) =~= Seq::<JsonModel>::empty());
    while i < parts.len()
        invariant
            i <= parts.len(),
            all == json::list_view(parts@),
            text::texts(said@) == part_texts(all.take(i as int)),
        decreases parts.len() - i,
    {
        proof {
            assert(all.take(i + 1).drop_last() =~= all.take(i as int));
            assert(all.take(i + 1).last() == parts@[i as int]@);
        }
        if let Some(t) = parts[i].text_at("text") {
            put(&mut said, t);
        }
        i += 1;
    }
    assert(all.take(all.len() as int) =~= all);
    join_texts(&said, "\n")
}

} // verus!
