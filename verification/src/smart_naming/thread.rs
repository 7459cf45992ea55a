//! Thread identities as Codex writes them into a pane title.

use vstd::prelude::*;
use crate::scan::{ends_with, starts_with};
use crate::text;
use crate::text::{slice_text, to_chars};

verus! {

/// The shape of a thread identity: hexadecimal digits in groups of eight, four,
/// four, four and twelve.
pub open spec fn is_thread_id(s: Seq<char>) -> bool {
    s.len() == 36 && forall|i: int| 0 <= i < 36 ==> thread_char_at(i, #[trigger] s[i])
}

pub open spec fn thread_char_at(i: int, c: char) -> bool {
    if i == 8 || i == 13 || i == 18 || i == 23 {
        c == '-'
    } else {
        text::is_hex_digit(c)
    }
}

/// The number of characters other than `-`.
pub open spec fn undashed(s: Seq<char>) -> nat
    decreases s.len(),
{
    if s.len() == 0 {
        0
    } else {
        undashed(s.drop_last()) + if s.last() == '-' {
            0nat
        } else {
            1nat
        }
    }
}

pub proof fn undashed_front(s: Seq<char>)
    requires
        s.len() > 0,
    ensures
        undashed(s) == undashed(s.skip(1)) + if s[0] == '-' {
            0nat
        } else {
            1nat
        },
    decreases s.len(),
{
    if s.len() > 1 {
        undashed_front(s.drop_last());
        assert(s.drop_last().skip(1) =~= s.skip(1).drop_last());
        assert(s.skip(1).last() == s.last());
    } else {
        assert(s.skip(1) =~= s.drop_last());
    }
}

/// A shortened thread identity: fewer than thirty-six characters, hexadecimal
/// digits and dashes only, at least twelve of them digits.
pub open spec fn is_thread_prefix(s: Seq<char>) -> bool {
    &&& undashed(s) >= 12
    &&& s.len() < 36
    &&& forall|i: int| 0 <= i < s.len() ==> text::is_hex_digit(#[trigger] s[i]) || s[i] == '-'
}

/// The thread identity, or the start of one, that a pane title shows: the title
/// itself, or what stands before its final `...`.
pub open spec fn hint(title: Seq<char>) -> Option<Seq<char>> {
    if is_thread_id(title) {
        Some(title)
    } else if "..."@.is_suffix_of(title) && is_thread_prefix(title.take(title.len() - 3)) {
        Some(title.take(title.len() - 3))
    } else {
        None
    }
}

/// A stored thread identity that the title of its pane still shows.
pub open spec fn marker_matches(thread: Seq<char>, title: Seq<char>) -> bool {
    is_thread_id(thread) && match hint(title) {
        Some(h) => h.is_prefix_of(thread),
        None => false,
    }
}

/// A title that is a whole thread identity matches that identity alone.
pub proof fn whole_title_matches_only_itself(thread: Seq<char>, title: Seq<char>)
    requires
        is_thread_id(title),
    ensures
        marker_matches(thread, title) <==> thread == title,
{
    if marker_matches(thread, title) {
        assert(thread =~= title);
    }
    assert(title.subrange(0, title.len() as int) =~= title);
}

fn is_hex(c: char) -> (r: bool)
    ensures
        r == text::is_hex_digit(c),
{
    ('0' <= c && c <= '9') || ('a' <= c && c <= 'f') || ('A' <= c && c <= 'F')
}

pub fn looks_like_thread_id(value: &str) -> (r: bool)
    ensures
        r == is_thread_id(value@),
{
    let v = to_chars(value);
    if v.len() != 36 {
        return false;
    }
    let mut i: usize = 0;
    while i < 36
        invariant
            i <= 36,
            forall|j: int| 0 <= j < i ==> thread_char_at(j, #[trigger] v@[j]),
        decreases 36 - i,
    {
        let fits = if i == 8 || i == 13 || i == 18 || i == 23 {
            v[i] == '-'
        } else {
            is_hex(v[i])
        };
        if !fits {
            assert(!thread_char_at(i as int, v@[i as int]));
            return false;
        }
        i += 1;
    }
    true
}

fn looks_like_thread_prefix(v: &Vec<char>, len: usize) -> (r: bool)
    requires
        len <= v.len(),
    ensures
        r == is_thread_prefix(v@.take(len as int)),
{
    if len >= 36 {
        return false;
    }
    let ghost s = v@.take(len as int);
    let mut count: usize = 0;
    let mut i: usize = 0;
    while i < len
        invariant
            i <= len,
            count <= i,
            count == undashed(s.take(i as int)),
            forall|j: int|
                0 <= j < i ==> text::is_hex_digit(#[trigger] s[j]) || s[j] == '-',
        decreases len - i,
    {
        let c: char = v[i];
        assert(s[i as int] == c);
        if !is_hex(c) && c != '-' {
            return false;
        }
        proof {
            assert(s.take(i + 1).drop_last() =~= s.take(i as int));
        }
        if c != '-' {
            count += 1;
        }
        i += 1;
    }
    assert(s.take(len as int) =~= s);
    count >= 12
}

/// The thread identity, or the start of one, that a pane title shows.
pub fn thread_hint(title: &str) -> (r: Option<String>)
    ensures
        text::option_view(r) == hint(title@),
{
    if looks_like_thread_id(title) {
        return Some(title.to_owned());
    }
    if !ends_with(title, "...") {
        return None;
    }
    proof {
        reveal_strlit("...");
    }
    let v = to_chars(title);
    let len: usize = v.len() - 3;
    if looks_like_thread_prefix(&v, len) {
        assert(v@.subrange(0, len as int) =~= v@.take(len as int));
        Some(slice_text(&v, 0, len))
    } else {
        None
    }
}

/// Whether the title of a pane still shows the thread stored with it.
pub fn thread_marker_matches_title(thread: &str, title: &str) -> (r: bool)
    ensures
        r == marker_matches(thread@, title@),
{
    if !looks_like_thread_id(thread) {
        return false;
    }
    match thread_hint(title) {
        Some(prefix) => starts_with(thread, &prefix),
        None => false,
    }
}

} // verus!
