//! Trimming, splitting and searching.

use vstd::prelude::*;
use crate::text::{copy_bytes, slice_text, to_chars};

verus! {

// ---------------------------------------------------------------------------
// Trimming
// ---------------------------------------------------------------------------

/// A text without its leading white space.
pub open spec fn trim_start(s: Seq<char>) -> Seq<char>
    decreases s.len(),
{
    if s.len() > 0 && crate::text::is_space(s[0]) {
        trim_start(s.skip(1))
    } else {
        s
    }
}

/// A text without its trailing white space.
pub open spec fn trim_end(s: Seq<char>) -> Seq<char>
    decreases s.len(),
{
    if s.len() > 0 && crate::text::is_space(s.last()) {
        trim_end(s.drop_last())
    } else {
        s
    }
}

/// A text without the white space at its two ends.
pub open spec fn trimmed(s: Seq<char>) -> Seq<char> {
    trim_end(trim_start(s))
}

/// Nothing but white space.
pub open spec fn is_blank(s: Seq<char>) -> bool {
    forall|i: int| 0 <= i < s.len() ==> crate::text::is_space(#[trigger] s[i])
}

proof fn trim_start_is(s: Seq<char>, n: int)
    requires
        0 <= n <= s.len(),
        forall|i: int| 0 <= i < n ==> crate::text::is_space(#[trigger] s[i]),
        n < s.len() ==> !crate::text::is_space(s[n]),
    ensures
        trim_start(s) == s.skip(n),
    decreases n,
{
    if n > 0 {
        assert forall|i: int| 0 <= i < n - 1 implies crate::text::is_space(
            #[trigger] s.skip(1)[i],
        ) by {
            assert(s.skip(1)[i] == s[i + 1]);
        }
        trim_start_is(s.skip(1), n - 1);
        assert(s.skip(1).skip(n - 1) =~= s.skip(n));
    } else {
        assert(s.skip(0) =~= s);
    }
}

proof fn trim_end_is(s: Seq<char>, n: int)
    requires
        0 <= n <= s.len(),
        forall|i: int| n <= i < s.len() ==> crate::text::is_space(#[trigger] s[i]),
        n > 0 ==> !crate::text::is_space(s[n - 1]),
    ensures
        trim_end(s) == s.take(n),
    decreases s.len(),
{
    if n < s.len() {
        trim_end_is(s.drop_last(), n);
        assert(s.drop_last().take(n) =~= s.take(n));
    } else {
        assert(s.take(n) =~= s);
    }
}

/// Trimming leaves nothing exactly when there was only white space.
pub proof fn trimmed_empty_iff_blank(s: Seq<char>)
    ensures
        trimmed(s).len() == 0 <==> is_blank(s),
    decreases s.len(),
{
    if s.len() > 0 && crate::text::is_space(s[0]) {
        trimmed_empty_iff_blank(s.skip(1));
        assert(is_blank(s.skip(1)) <==> is_blank(s)) by {
            if is_blank(s.skip(1)) {
                assert forall|i: int| 0 <= i < s.len() implies crate::text::is_space(
                    #[trigger] s[i],
                ) by {
                    if i > 0 {
                        assert(s.skip(1)[i - 1] == s[i]);
                    }
                }
            }
            if is_blank(s) {
                assert forall|i: int| 0 <= i < s.skip(1).len() implies crate::text::is_space(
                    #[trigger] s.skip(1)[i],
                ) by {
                    assert(s.skip(1)[i] == s[i + 1]);
                }
            }
        }
    } else if s.len() > 0 {
        trim_end_keeps_first(s);
        assert(!is_blank(s)) by {
            assert(!crate::text::is_space(s[0]));
        }
    }
}

proof fn trim_start_stops(s: Seq<char>)
    ensures
        trim_start(s).len() > 0 ==> !crate::text::is_space(trim_start(s)[0]),
    decreases s.len(),
{
    if s.len() > 0 && crate::text::is_space(s[0]) {
        trim_start_stops(s.skip(1));
    }
}

proof fn trim_end_stops(s: Seq<char>)
    ensures
        trim_end(s).len() > 0 ==> !crate::text::is_space(trim_end(s).last()) && trim_end(s)[0]
            == s[0],
    decreases s.len(),
{
    if s.len() > 0 && crate::text::is_space(s.last()) {
        trim_end_stops(s.drop_last());
    }
}

/// Trimming a trimmed text changes nothing.
pub proof fn trimming_again_changes_nothing(s: Seq<char>)
    ensures
        trimmed(trimmed(s)) == trimmed(s),
{
    trim_start_stops(s);
    trim_end_stops(trim_start(s));
}

proof fn trim_end_keeps_first(s: Seq<char>)
    requires
        s.len() > 0,
        !crate::text::is_space(s[0]),
    ensures
        trim_end(s).len() > 0,
    decreases s.len(),
{
    if crate::text::is_space(s.last()) {
        assert(s.drop_last().len() > 0);
        trim_end_keeps_first(s.drop_last());
    }
}

/// Trimming takes exactly the white space at the two ends.
pub proof fn trimmed_is(s: Seq<char>, from: int, to: int)
    requires
        0 <= from < to <= s.len(),
        forall|i: int| 0 <= i < from ==> crate::text::is_space(#[trigger] s[i]),
        !crate::text::is_space(s[from]),
        !crate::text::is_space(s[to - 1]),
        forall|i: int| to <= i < s.len() ==> crate::text::is_space(#[trigger] s[i]),
    ensures
        trimmed(s) == s.subrange(from, to),
{
    trim_start_is(s, from);
    let rest = s.skip(from);
    assert forall|i: int| to - from <= i < rest.len() implies crate::text::is_space(
        #[trigger] rest[i],
    ) by {
        assert(rest[i] == s[i + from]);
    }
    trim_end_is(rest, to - from);
    assert(rest.take(to - from) =~= s.subrange(from, to));
}

/// `str::trim`.
pub fn trim(s: &str) -> (r: String)
    ensures
        r@ == trimmed(s@),
{
    let v = to_chars(s);
    let mut from: usize = 0;
    while from < v.len() && v[from].is_whitespace()
        invariant
            from <= v.len(),
            forall|i: int| 0 <= i < from ==> crate::text::is_space(#[trigger] v@[i]),
        decreases v.len() - from,
    {
        from += 1;
    }
    let mut to: usize = v.len();
    while to > from && v[to - 1].is_whitespace()
        invariant
            from <= to <= v.len(),
            forall|i: int| to <= i < v.len() ==> crate::text::is_space(#[trigger] v@[i]),
        decreases to,
    {
        to -= 1;
    }
    proof {
        trim_start_is(v@, from as int);
        let t = v@.skip(from as int);
        assert forall|i: int| to - from <= i < t.len() implies crate::text::is_space(
            #[trigger] t[i],
        ) by {
            assert(t[i] == v@[i + from]);
        }
        if to > from {
            assert(t[to - from - 1] == v@[to - 1]);
        }
        trim_end_is(t, to - from);
        assert(t.take(to - from) =~= v@.subrange(from as int, to as int));
    }
    slice_text(&v, from, to)
}

/// Whether a text holds nothing but white space.
pub fn blank(s: &str) -> (r: bool)
    ensures
        r == is_blank(s@),
        r == (trimmed(s@).len() == 0),
{
    let v = to_chars(s);
    proof {
        trimmed_empty_iff_blank(s@);
    }
    let mut i: usize = 0;
    while i < v.len()
        invariant
            i <= v.len(),
            forall|j: int| 0 <= j < i ==> crate::text::is_space(#[trigger] v@[j]),
        decreases v.len() - i,
    {
        if !v[i].is_whitespace() {
            assert(!crate::text::is_space(v@[i as int]));
            return false;
        }
        i += 1;
    }
    true
}

/// Some character is a control character.
pub open spec fn has_control(s: Seq<char>) -> bool {
    exists|i: int| 0 <= i < s.len() && crate::text::is_control(#[trigger] s[i])
}

pub fn contains_control(s: &str) -> (r: bool)
    ensures
        r == has_control(s@),
{
    let v = to_chars(s);
    let mut i: usize = 0;
    while i < v.len()
        invariant
            i <= v.len(),
            forall|j: int| 0 <= j < i ==> !crate::text::is_control(#[trigger] v@[j]),
        decreases v.len() - i,
    {
        if v[i].is_control() {
            assert(crate::text::is_control(v@[i as int]));
            return true;
        }
        i += 1;
    }
    false
}

pub fn contains_char(s: &str, c: char) -> (r: bool)
    ensures
        r == s@.contains(c),
{
    let v = to_chars(s);
    let mut i: usize = 0;
    while i < v.len()
        invariant
            i <= v.len(),
            forall|j: int| 0 <= j < i ==> #[trigger] v@[j] != c,
        decreases v.len() - i,
    {
        if v[i] == c {
            assert(v@[i as int] == c);
            return true;
        }
        i += 1;
    }
    false
}

pub fn contains_byte(s: &[u8], b: u8) -> (r: bool)
    ensures
        r == s@.contains(b),
{
    let mut i: usize = 0;
    while i < s.len()
        invariant
            i <= s.len(),
            forall|j: int| 0 <= j < i ==> #[trigger] s@[j] != b,
        decreases s.len() - i,
    {
        if s[i] == b {
            assert(s@[i as int] == b);
            return true;
        }
        i += 1;
    }
    false
}

// ---------------------------------------------------------------------------
// Prefixes and suffixes
// ---------------------------------------------------------------------------

pub fn bytes_start_with(s: &[u8], p: &[u8]) -> (r: bool)
    ensures
        r == p@.is_prefix_of(s@),
{
    if p.len() > s.len() {
        return false;
    }
    let mut i: usize = 0;
    while i < p.len()
        invariant
            i <= p.len() <= s.len(),
            forall|j: int| 0 <= j < i ==> p@[j] == s@[j],
        decreases p.len() - i,
    {
        if s[i] != p[i] {
            assert(s@.subrange(0, p@.len() as int)[i as int] != p@[i as int]);
            return false;
        }
        i += 1;
    }
    true
}

pub fn starts_with(s: &str, p: &str) -> (r: bool)
    ensures
        r == p@.is_prefix_of(s@),
{
    let v = to_chars(s);
    let w = to_chars(p);
    if w.len() > v.len() {
        return false;
    }
    let mut i: usize = 0;
    while i < w.len()
        invariant
            i <= w.len() <= v.len(),
            forall|j: int| 0 <= j < i ==> w@[j] == v@[j],
        decreases w.len() - i,
    {
        if v[i] != w[i] {
            assert(v@.subrange(0, w@.len() as int)[i as int] != w@[i as int]);
            return false;
        }
        i += 1;
    }
    true
}

pub fn ends_with(s: &str, p: &str) -> (r: bool)
    ensures
        r == p@.is_suffix_of(s@),
{
    let v = to_chars(s);
    let w = to_chars(p);
    if w.len() > v.len() {
        return false;
    }
    let off: usize = v.len() - w.len();
    let mut i: usize = 0;
    while i < w.len()
        invariant
            i <= w.len() <= v.len(),
            off == v.len() - w.len(),
            forall|j: int| 0 <= j < i ==> #[trigger] w@[j] == v@[off + j],
        decreases w.len() - i,
    {
        if v[off + i] != w[i] {
            assert(v@.subrange(v@.len() - w@.len(), v@.len() as int)[i as int] != w@[i as int]);
            return false;
        }
        i += 1;
    }
    true
}

/// A text without a given prefix, where it has that prefix.
pub open spec fn without_prefix<T>(s: Seq<T>, p: Seq<T>) -> Option<Seq<T>> {
    if p.is_prefix_of(s) {
        Some(s.skip(p.len() as int))
    } else {
        None
    }
}

/// `str::strip_prefix`.
pub fn strip_prefix(s: &str, p: &str) -> (r: Option<String>)
    ensures
        crate::text::option_view(r) == without_prefix(s@, p@),
{
    if starts_with(s, p) {
        let v = to_chars(s);
        let w = to_chars(p);
        let n: usize = w.len();
        proof {
            assert(v@.subrange(n as int, v@.len() as int) =~= v@.skip(n as int));
        }
        Some(slice_text(&v, n, v.len()))
    } else {
        None
    }
}

// ---------------------------------------------------------------------------
// Splitting
// ---------------------------------------------------------------------------

/// The parts of a sequence between the occurrences of a separator.
pub open spec fn split_on<T>(s: Seq<T>, sep: T) -> Seq<Seq<T>>
    decreases s.len(),
{
    if s.len() == 0 {
        seq![Seq::<T>::empty()]
    } else {
        let parts = split_on(s.drop_last(), sep);
        if s.last() == sep {
            parts.push(Seq::<T>::empty())
        } else {
            parts.drop_last().push(parts.last().push(s.last()))
        }
    }
}

/// There is always at least one part.
pub proof fn split_on_nonempty<T>(s: Seq<T>, sep: T)
    ensures
        split_on(s, sep).len() >= 1,
    decreases s.len(),
{
    if s.len() > 0 {
        split_on_nonempty(s.drop_last(), sep);
    }
}

/// The parts, with the separator between each two of them.
pub open spec fn join_with<T>(parts: Seq<Seq<T>>, sep: Seq<T>) -> Seq<T>
    decreases parts.len(),
{
    if parts.len() == 0 {
        Seq::<T>::empty()
    } else if parts.len() == 1 {
        parts[0]
    } else {
        join_with(parts.drop_last(), sep) + sep + parts.last()
    }
}

/// Two rows of parts are joined one after the other, the separator between them.
pub proof fn join_append<T>(a: Seq<Seq<T>>, b: Seq<Seq<T>>, sep: Seq<T>)
    requires
        a.len() > 0,
        b.len() > 0,
    ensures
        join_with(a + b, sep) == join_with(a, sep) + sep + join_with(b, sep),
    decreases b.len(),
{
    let whole = a + b;
    if b.len() == 1 {
        assert(whole.drop_last() =~= a);
    } else {
        assert(whole.drop_last() =~= a + b.drop_last());
        join_append(a, b.drop_last(), sep);
        assert(join_with(whole, sep) =~= join_with(a, sep) + sep + join_with(b, sep));
    }
}

/// Joining the parts with the separator gives the sequence back.
pub proof fn join_undoes_split<T>(s: Seq<T>, sep: T)
    ensures
        join_with(split_on(s, sep), seq![sep]) == s,
    decreases s.len(),
{
    if s.len() > 0 {
        let parts = split_on(s.drop_last(), sep);
        split_on_nonempty(s.drop_last(), sep);
        join_undoes_split(s.drop_last(), sep);
        let all = split_on(s, sep);
        if s.last() == sep {
            assert(all.drop_last() =~= parts);
            assert(join_with(all, seq![sep]) =~= s.drop_last() + seq![sep]);
        } else {
            assert(all.drop_last() =~= parts.drop_last());
            if parts.len() == 1 {
                assert(join_with(all, seq![sep]) == parts[0].push(s.last()));
            } else {
                let head = join_with(parts.drop_last(), seq![sep]);
                assert(head + seq![sep] + parts.last().push(s.last()) =~= (head + seq![sep]
                    + parts.last()).push(s.last()));
            }
        }
        assert(s.drop_last().push(s.last()) =~= s);
        assert(s.drop_last() + seq![s.last()] =~= s);
    }
}

pub fn split_bytes(s: &[u8], sep: u8) -> (r: Vec<Vec<u8>>)
    ensures
        crate::text::words(r@) == split_on(s@, sep),
{
    let mut parts: Vec<Vec<u8>> = Vec::new();
    let mut cur: Vec<u8> = Vec::new();
    let mut i: usize = 0;
    assert(s@.take(0) =~= Seq::<u8>::empty());
    assert(crate::text::words(parts@).push(cur@) =~= split_on(s@.take(0), sep));
    while i < s.len()
        invariant
            i <= s.len(),
            crate::text::words(parts@).push(cur@) == split_on(s@.take(i as int), sep),
        decreases s.len() - i,
    {
        let b: u8 = s[i];
        proof {
            assert(s@.take(i + 1).drop_last() =~= s@.take(i as int));
            assert(s@.take(i + 1).last() == b);
        }
        let ghost before = crate::text::words(parts@).push(cur@);
        assert(before.last() == cur@);
        assert(before.drop_last() =~= crate::text::words(parts@));
        if b == sep {
            crate::text::push_word(&mut parts, cur);
            cur = Vec::new();
        } else {
            cur.push(b);
        }
        i += 1;
    }
    assert(s@.take(s@.len() as int) =~= s@);
    crate::text::push_word(&mut parts, cur);
    parts
}

pub fn split_text(s: &str, sep: char) -> (r: Vec<String>)
    ensures
        crate::text::texts(r@) == split_on(s@, sep),
{
    let v = to_chars(s);
    let mut parts: Vec<String> = Vec::new();
    let mut cur = String::new();
    let mut i: usize = 0;
    assert(v@.take(0) =~= Seq::<char>::empty());
    assert(crate::text::texts(parts@).push(cur@) =~= split_on(v@.take(0), sep));
    while i < v.len()
        invariant
            i <= v.len(),
            crate::text::texts(parts@).push(cur@) == split_on(v@.take(i as int), sep),
        decreases v.len() - i,
    {
        let b: char = v[i];
        proof {
            assert(v@.take(i + 1).drop_last() =~= v@.take(i as int));
            assert(v@.take(i + 1).last() == b);
        }
        let ghost before = crate::text::texts(parts@).push(cur@);
        assert(before.last() == cur@);
        assert(before.drop_last() =~= crate::text::texts(parts@));
        if b == sep {
            crate::text::push_text(&mut parts, cur);
            cur = String::new();
        } else {
            cur.push(b);
        }
        i += 1;
    }
    assert(v@.take(v@.len() as int) =~= v@);
    crate::text::push_text(&mut parts, cur);
    parts
}

// ---------------------------------------------------------------------------
// Rewriting character by character
// ---------------------------------------------------------------------------

/// Each character replaced by a text.
pub open spec fn expand(s: Seq<char>, f: spec_fn(char) -> Seq<char>) -> Seq<char>
    decreases s.len(),
{
    if s.len() == 0 {
        Seq::empty()
    } else {
        expand(s.drop_last(), f) + f(s.last())
    }
}

pub proof fn expand_step(s: Seq<char>, i: int, f: spec_fn(char) -> Seq<char>)
    requires
        0 <= i < s.len(),
    ensures
        expand(s.take(i + 1), f) == expand(s.take(i), f) + f(s[i]),
{
    assert(s.take(i + 1).drop_last() =~= s.take(i));
    assert(s.take(i + 1).last() == s[i]);
}

pub proof fn expand_append(a: Seq<char>, b: Seq<char>, f: spec_fn(char) -> Seq<char>)
    ensures
        expand(a + b, f) == expand(a, f) + expand(b, f),
    decreases b.len(),
{
    if b.len() == 0 {
        assert(a + b =~= a);
        assert(expand(a, f) + Seq::<char>::empty() =~= expand(a, f));
    } else {
        expand_append(a, b.drop_last(), f);
        assert((a + b).drop_last() =~= a + b.drop_last());
        assert((a + b).last() == b.last());
        assert(expand(a, f) + (expand(b.drop_last(), f) + f(b.last())) =~= (expand(a, f) + expand(
            b.drop_last(),
            f,
        )) + f(b.last()));
    }
}

// ---------------------------------------------------------------------------
// Searching
// ---------------------------------------------------------------------------

/// `p` stands in `s` from position `i` on.
pub open spec fn occurs_at<T>(s: Seq<T>, p: Seq<T>, i: int) -> bool {
    0 <= i && i + p.len() <= s.len() && s.subrange(i, i + p.len()) == p
}

pub fn bytes_at(s: &[u8], p: &[u8], i: usize) -> (r: bool)
    requires
        i <= s.len(),
    ensures
        r == occurs_at(s@, p@, i as int),
{
    if p.len() > s.len() - i {
        return false;
    }
    let mut j: usize = 0;
    while j < p.len()
        invariant
            j <= p.len(),
            i + p.len() <= s.len(),
            forall|k: int| 0 <= k < j ==> #[trigger] p@[k] == s@[i + k],
        decreases p.len() - j,
    {
        if s[i + j] != p[j] {
            assert(s@.subrange(i as int, i + p@.len())[j as int] != p@[j as int]);
            return false;
        }
        j += 1;
    }
    assert(s@.subrange(i as int, i + p@.len()) =~= p@);
    true
}

/// The first position at or after `from` where `p` stands in `s`.
pub fn find_bytes(s: &[u8], p: &[u8], from: usize) -> (r: Option<usize>)
    requires
        from <= s.len(),
    ensures
        match r {
            Some(i) => from <= i && occurs_at(s@, p@, i as int) && forall|j: int|
                from <= j < i ==> !occurs_at(s@, p@, j),
            None => forall|j: int| from <= j ==> !occurs_at(s@, p@, j),
        },
{
    let mut i: usize = from;
    while i < s.len()
        invariant
            from <= i <= s.len(),
            forall|j: int| from <= j < i ==> !occurs_at(s@, p@, j),
        decreases s.len() - i,
    {
        if bytes_at(s, p, i) {
            return Some(i);
        }
        i += 1;
    }
    if bytes_at(s, p, i) {
        Some(i)
    } else {
        None
    }
}

pub fn chars_at(s: &Vec<char>, p: &Vec<char>, i: usize) -> (r: bool)
    requires
        i <= s.len(),
    ensures
        r == occurs_at(s@, p@, i as int),
{
    if p.len() > s.len() - i {
        return false;
    }
    let mut j: usize = 0;
    while j < p.len()
        invariant
            j <= p.len(),
            i + p.len() <= s.len(),
            forall|k: int| 0 <= k < j ==> #[trigger] p@[k] == s@[i + k],
        decreases p.len() - j,
    {
        if s[i + j] != p[j] {
            assert(s@.subrange(i as int, i + p@.len())[j as int] != p@[j as int]);
            return false;
        }
        j += 1;
    }
    assert(s@.subrange(i as int, i + p@.len()) =~= p@);
    true
}

/// `p` stands somewhere in `s`.
pub open spec fn occurs<T>(s: Seq<T>, p: Seq<T>) -> bool {
    exists|i: int| occurs_at(s, p, i)
}

/// `str::contains` with a text.
pub fn contains_text(s: &str, p: &str) -> (r: bool)
    ensures
        r == occurs(s@, p@),
{
    let v = to_chars(s);
    let w = to_chars(p);
    let mut i: usize = 0;
    while i < v.len()
        invariant
            i <= v.len(),
            forall|j: int| 0 <= j < i ==> !occurs_at(v@, w@, j),
        decreases v.len() - i,
    {
        if chars_at(&v, &w, i) {
            return true;
        }
        i += 1;
    }
    chars_at(&v, &w, i)
}

// ---------------------------------------------------------------------------
// Lines and longer separators
// ---------------------------------------------------------------------------

/// The first position at or after `i` where `p` stands in `s`, or the length
/// of `s` plus one where there is none.
pub open spec fn first_from<T>(s: Seq<T>, p: Seq<T>, i: int) -> int
    decreases s.len() + 1 - i,
{
    if i < 0 || i + p.len() > s.len() {
        s.len() as int + 1
    } else if occurs_at(s, p, i) {
        i
    } else {
        first_from(s, p, i + 1)
    }
}

/// The parts of `s` from position `i` on between the leftmost, non-overlapping
/// occurrences of a separator of one or more elements.
pub open spec fn split_by_from<T>(s: Seq<T>, sep: Seq<T>, i: int) -> Seq<Seq<T>>
    decreases s.len() - i,
{
    let at = first_from(s, sep, i);
    if 0 <= i <= s.len() && sep.len() > 0 && i <= at && at + sep.len() <= s.len() {
        seq![s.subrange(i, at)] + split_by_from(s, sep, at + sep.len())
    } else {
        seq![s.skip(i)]
    }
}

/// `str::split` and a window search with a separator of several elements.
pub open spec fn split_by<T>(s: Seq<T>, sep: Seq<T>) -> Seq<Seq<T>> {
    split_by_from(s, sep, 0)
}

proof fn first_from_is<T>(s: Seq<T>, p: Seq<T>, i: int, at: int)
    requires
        0 <= i <= at,
        occurs_at(s, p, at),
        forall|j: int| i <= j < at ==> !occurs_at(s, p, j),
    ensures
        first_from(s, p, i) == at,
    decreases at - i,
{
    if i < at {
        assert(!occurs_at(s, p, i));
        first_from_is(s, p, i + 1, at);
    }
}

proof fn first_from_none<T>(s: Seq<T>, p: Seq<T>, i: int)
    requires
        0 <= i,
        forall|j: int| i <= j ==> !occurs_at(s, p, j),
    ensures
        first_from(s, p, i) == s.len() + 1,
    decreases s.len() + 1 - i,
{
    if i + p.len() <= s.len() {
        assert(!occurs_at(s, p, i));
        first_from_none(s, p, i + 1);
    }
}

pub fn split_bytes_by(s: &[u8], sep: &[u8]) -> (r: Vec<Vec<u8>>)
    requires
        sep.len() > 0,
    ensures
        crate::text::words(r@) == split_by(s@, sep@),
{
    let mut parts: Vec<Vec<u8>> = Vec::new();
    let mut start: usize = 0;
    assert(crate::text::words(parts@) =~= Seq::<Seq<u8>>::empty());
    assert(Seq::<Seq<u8>>::empty() + split_by_from(s@, sep@, 0) =~= split_by_from(s@, sep@, 0));
    loop
        invariant
            start <= s.len(),
            sep.len() > 0,
            crate::text::words(parts@) + split_by_from(s@, sep@, start as int) == split_by(
                s@,
                sep@,
            ),
        decreases s.len() - start,
    {
        match find_bytes(s, sep, start) {
            Some(at) => {
                let ghost before = crate::text::words(parts@);
                proof {
                    first_from_is(s@, sep@, start as int, at as int);
                }
                let piece = copy_bytes(&s[start..at]);
                crate::text::push_word(&mut parts, piece);
                let next: usize = at + sep.len();
                proof {
                    let rest = split_by_from(s@, sep@, next as int);
                    let head = s@.subrange(start as int, at as int);
                    assert(split_by_from(s@, sep@, start as int) == seq![head] + rest);
                    assert(before + (seq![head] + rest) =~= before.push(head) + rest);
                }
                start = next;
            },
            None => {
                let ghost before = crate::text::words(parts@);
                proof {
                    first_from_none(s@, sep@, start as int);
                    assert(s@.subrange(start as int, s@.len() as int) =~= s@.skip(start as int));
                    assert(split_by_from(s@, sep@, start as int) == seq![s@.skip(start as int)]);
                    assert(before + seq![s@.skip(start as int)] =~= before.push(
                        s@.skip(start as int),
                    ));
                }
                let piece = copy_bytes(&s[start..s.len()]);
                crate::text::push_word(&mut parts, piece);
                return parts;
            },
        }
    }
}

pub fn find_chars(s: &Vec<char>, p: &Vec<char>, from: usize) -> (r: Option<usize>)
    requires
        from <= s.len(),
    ensures
        match r {
            Some(i) => from <= i && occurs_at(s@, p@, i as int) && forall|j: int|
                from <= j < i ==> !occurs_at(s@, p@, j),
            None => forall|j: int| from <= j ==> !occurs_at(s@, p@, j),
        },
{
    let mut i: usize = from;
    while i < s.len()
        invariant
            from <= i <= s.len(),
            forall|j: int| from <= j < i ==> !occurs_at(s@, p@, j),
        decreases s.len() - i,
    {
        if chars_at(s, p, i) {
            return Some(i);
        }
        i += 1;
    }
    if chars_at(s, p, i) {
        Some(i)
    } else {
        None
    }
}

pub fn split_text_by(s: &str, sep: &str) -> (r: Vec<String>)
    requires
        sep@.len() > 0,
    ensures
        crate::text::texts(r@) == split_by(s@, sep@),
{
    let v = to_chars(s);
    let w = to_chars(sep);
    let mut parts: Vec<String> = Vec::new();
    let mut start: usize = 0;
    assert(crate::text::texts(parts@) =~= Seq::<Seq<char>>::empty());
    assert(Seq::<Seq<char>>::empty() + split_by_from(v@, w@, 0) =~= split_by_from(v@, w@, 0));
    loop
        invariant
            start <= v.len(),
            crate::text::texts(parts@) + split_by_from(v@, w@, start as int) == split_by(v@, w@),
        decreases v.len() - start,
    {
        match find_chars(&v, &w, start) {
            Some(at) => {
                let ghost before = crate::text::texts(parts@);
                proof {
                    first_from_is(v@, w@, start as int, at as int);
                }
                let piece = slice_text(&v, start, at);
                crate::text::push_text(&mut parts, piece);
                let next: usize = at + w.len();
                proof {
                    let rest = split_by_from(v@, w@, next as int);
                    let head = v@.subrange(start as int, at as int);
                    assert(split_by_from(v@, w@, start as int) == seq![head] + rest);
                    assert(before + (seq![head] + rest) =~= before.push(head) + rest);
                }
                start = next;
            },
            None => {
                let ghost before = crate::text::texts(parts@);
                proof {
                    first_from_none(v@, w@, start as int);
                    assert(v@.subrange(start as int, v@.len() as int) =~= v@.skip(start as int));
                    assert(split_by_from(v@, w@, start as int) == seq![v@.skip(start as int)]);
                    assert(before + seq![v@.skip(start as int)] =~= before.push(
                        v@.skip(start as int),
                    ));
                }
                let piece = slice_text(&v, start, v.len());
                crate::text::push_text(&mut parts, piece);
                return parts;
            },
        }
    }
}

/// A line without the carriage return of a `\r\n` ending.
pub open spec fn without_cr(s: Seq<char>) -> Seq<char> {
    if s.len() > 0 && s.last() == '\r' {
        s.drop_last()
    } else {
        s
    }
}

/// The lines of a text: each ends in `\n` or `\r\n`, and the last one may lack
/// its ending.
pub open spec fn lines(s: Seq<char>) -> Seq<Seq<char>> {
    let parts = split_on(s, '\n');
    let ended = Seq::new((parts.len() - 1) as nat, |i: int| without_cr(parts[i]));
    if parts.last().len() == 0 {
        ended
    } else {
        ended.push(parts.last())
    }
}

/// `str::lines`.
pub fn text_lines(s: &str) -> (r: Vec<String>)
    ensures
        crate::text::texts(r@) == lines(s@),
{
    let parts = split_text(s, '\n');
    proof {
        split_on_nonempty(s@, '\n');
    }
    let ghost all = split_on(s@, '\n');
    assert(parts.len() == all.len());
    let mut out: Vec<String> = Vec::new();
    let last: usize = parts.len() - 1;
    let mut i: usize = 0;
    while i < last
        invariant
            i <= last,
            last == parts.len() - 1,
            crate::text::texts(parts@) == all,
            crate::text::texts(out@) =~= Seq::new(i as nat, |j: int| without_cr(all[j])),
        decreases last - i,
    {
        let v = to_chars(&parts[i]);
        assert(all[i as int] == parts@[i as int]@);
        let line = if v.len() > 0 && v[v.len() - 1] == '\r' {
            proof {
                assert(v@.subrange(0, v@.len() - 1) =~= v@.drop_last());
            }
            slice_text(&v, 0, v.len() - 1)
        } else {
            parts[i].clone()
        };
        crate::text::push_text(&mut out, line);
        i += 1;
    }
    assert(all.last() == parts@[last as int]@);
    if !parts[last].as_str().is_empty() {
        crate::text::push_text(&mut out, parts[last].clone());
    }
    out
}

// ---------------------------------------------------------------------------
// Splitting what was put together
// ---------------------------------------------------------------------------

/// Splitting two sequences with a separator between them splits each.
pub proof fn split_on_append<T>(a: Seq<T>, sep: T, b: Seq<T>)
    ensures
        split_on(a + seq![sep] + b, sep) == split_on(a, sep) + split_on(b, sep),
    decreases b.len(),
{
    let s = a + seq![sep] + b;
    let left = split_on(a, sep);
    split_on_nonempty(b, sep);
    if b.len() == 0 {
        assert(s.drop_last() =~= a);
        assert(s.last() == sep);
        assert(left.push(Seq::<T>::empty()) =~= left + seq![Seq::<T>::empty()]);
    } else {
        let c = b.drop_last();
        split_on_append(a, sep, c);
        split_on_nonempty(c, sep);
        assert(s.drop_last() =~= a + seq![sep] + c);
        assert(s.last() == b.last());
        let whole = left + split_on(c, sep);
        assert(whole.last() == split_on(c, sep).last());
        if b.last() == sep {
            assert(whole.push(Seq::<T>::empty()) =~= left + split_on(b, sep));
        } else {
            assert(whole.drop_last() =~= left + split_on(c, sep).drop_last());
            assert(whole.drop_last().push(whole.last().push(b.last())) =~= left + split_on(b, sep));
        }
    }
}

/// A sequence without the separator is its only part.
pub proof fn split_on_without<T>(s: Seq<T>, sep: T)
    requires
        !s.contains(sep),
    ensures
        split_on(s, sep) == seq![s],
    decreases s.len(),
{
    if s.len() > 0 {
        assert forall|i: int| 0 <= i < s.drop_last().len() implies s.drop_last()[i] != sep by {
            assert(s.contains(s[i]));
        }
        split_on_without(s.drop_last(), sep);
        assert(s.contains(s.last()));
        assert(s.drop_last().push(s.last()) =~= s);
        assert(split_on(s, sep) =~= seq![s]);
    } else {
        assert(s =~= Seq::<T>::empty());
    }
}

/// No part holds the separator.
pub proof fn split_on_parts<T>(s: Seq<T>, sep: T, i: int)
    requires
        0 <= i < split_on(s, sep).len(),
    ensures
        !split_on(s, sep)[i].contains(sep),
    decreases s.len(),
{
    if s.len() > 0 {
        let parts = split_on(s.drop_last(), sep);
        split_on_nonempty(s.drop_last(), sep);
        if s.last() == sep {
            if i < parts.len() {
                split_on_parts(s.drop_last(), sep, i);
            }
        } else if i < parts.len() - 1 {
            split_on_parts(s.drop_last(), sep, i);
        } else {
            split_on_parts(s.drop_last(), sep, parts.len() - 1);
            let last = parts.last().push(s.last());
            assert forall|k: int| 0 <= k < last.len() implies last[k] != sep by {
                if k < parts.last().len() {
                    assert(parts.last().contains(parts.last()[k]));
                }
            }
        }
    }
}

/// Splitting joined parts gives the parts back, where none holds the separator.
pub proof fn split_undoes_join<T>(parts: Seq<Seq<T>>, sep: T)
    requires
        parts.len() > 0,
        forall|i: int| 0 <= i < parts.len() ==> !(#[trigger] parts[i]).contains(sep),
    ensures
        split_on(join_with(parts, seq![sep]), sep) == parts,
    decreases parts.len(),
{
    if parts.len() == 1 {
        split_on_without(parts[0], sep);
        assert(seq![parts[0]] =~= parts);
    } else {
        let head = parts.drop_last();
        assert forall|i: int| 0 <= i < head.len() implies !(#[trigger] head[i]).contains(sep) by {
            assert(head[i] == parts[i]);
        }
        split_undoes_join(head, sep);
        split_on_append(join_with(head, seq![sep]), sep, parts.last());
        split_on_without(parts.last(), sep);
        assert(head + seq![parts.last()] =~= parts);
    }
}

/// Each line followed by a line feed.
pub open spec fn unlines(parts: Seq<Seq<char>>) -> Seq<char>
    decreases parts.len(),
{
    if parts.len() == 0 {
        Seq::empty()
    } else {
        unlines(parts.drop_last()) + parts.last() + seq!['\n']
    }
}

/// Lines that each end are joined lines with an empty one behind them.
pub proof fn unlines_is_join(parts: Seq<Seq<char>>)
    ensures
        unlines(parts) == join_with(parts.push(Seq::empty()), seq!['\n']),
    decreases parts.len(),
{
    let nl = seq!['\n'];
    let none = Seq::<char>::empty();
    let all = parts.push(none);
    assert(all.drop_last() =~= parts);
    assert(all.last() == none);
    if parts.len() == 0 {
        assert(all.len() == 1);
        assert(join_with(all, nl) == all[0]);
    } else {
        assert(join_with(all, nl) == join_with(parts, nl) + nl + none);
        unlines_is_join(parts.drop_last());
        let inner = parts.drop_last().push(none);
        assert(inner.drop_last() =~= parts.drop_last());
        if parts.len() == 1 {
            assert(inner.len() == 1);
            assert(join_with(inner, nl) == inner[0]);
            assert(join_with(parts, nl) == parts[0]);
            assert(unlines(parts) =~= parts[0] + nl + none);
        } else {
            let head = join_with(parts.drop_last(), nl);
            assert(inner.len() >= 2);
            assert(join_with(inner, nl) == head + nl + none);
            assert(join_with(parts, nl) == head + nl + parts.last());
            assert(unlines(parts) =~= head + nl + parts.last() + nl + none);
        }
    }
}

pub proof fn unlines_append(a: Seq<Seq<char>>, b: Seq<Seq<char>>)
    ensures
        unlines(a + b) == unlines(a) + unlines(b),
    decreases b.len(),
{
    if b.len() == 0 {
        assert(a + b =~= a);
        assert(unlines(a) + Seq::<char>::empty() =~= unlines(a));
    } else {
        unlines_append(a, b.drop_last());
        assert((a + b).drop_last() =~= a + b.drop_last());
        assert(unlines(a) + unlines(b.drop_last()) + b.last() + seq!['\n'] =~= unlines(a) + (
        unlines(b.drop_last()) + b.last() + seq!['\n']));
    }
}

/// Each line of a list followed by a line feed.
pub fn unlines_text(parts: &Vec<String>) -> (r: String)
    ensures
        r@ == unlines(crate::text::texts(parts@)),
{
    let ghost all = crate::text::texts(parts@);
    let mut r = String::new();
    let mut i: usize = 0;
    assert(all.take(0).len() == 0);
    while i < parts.len()
        invariant
            i <= parts.len(),
            r@ == unlines(all.take(i as int)),
        decreases parts.len() - i,
    {
        let ghost before = r@;
        proof {
            assert(all.take(i + 1).drop_last() =~= all.take(i as int));
            assert(all.take(i + 1).last() == parts@[i as int]@);
        }
        r.append(&parts[i]);
        r.push('\n');
        assert(r@ =~= before + parts@[i as int]@ + seq!['\n']);
        i += 1;
    }
    assert(all.take(all.len() as int) =~= all);
    r
}

// ---------------------------------------------------------------------------
// Words between ASCII white space
// ---------------------------------------------------------------------------

pub open spec fn is_ascii_space(c: char) -> bool {
    c == ' ' || c == '\t' || c == '\n' || c == '\u{c}' || c == '\r'
}

/// The words of a text, as ASCII white space separates them.
pub open spec fn ascii_words(s: Seq<char>) -> Seq<Seq<char>>
    decreases s.len(),
{
    if s.len() == 0 {
        Seq::empty()
    } else {
        let rest = ascii_words(s.drop_last());
        if is_ascii_space(s.last()) {
            rest
        } else if s.len() == 1 || is_ascii_space(s[s.len() - 2]) {
            rest.push(seq![s.last()])
        } else {
            rest.drop_last().push(rest.last().push(s.last()))
        }
    }
}

proof fn open_word(s: Seq<char>)
    requires
        s.len() > 0,
        !is_ascii_space(s.last()),
    ensures
        ascii_words(s).len() > 0,
    decreases s.len(),
{
}

pub fn split_ascii_whitespace(s: &str) -> (r: Vec<String>)
    ensures
        crate::text::texts(r@) == ascii_words(s@),
{
    let v = crate::text::to_chars(s);
    let mut r: Vec<String> = crate::text::no_texts();
    let mut i: usize = 0;
    assert(v@.take(0) =~= Seq::<char>::empty());
    while i < v.len()
        invariant
            i <= v.len(),
            v@ == s@,
            crate::text::texts(r@) == ascii_words(v@.take(i as int)),
        decreases v.len() - i,
    {
        let c: char = v[i];
        let ghost now = v@.take(i + 1);
        let ghost rest = crate::text::texts(r@);
        assert(now.drop_last() =~= v@.take(i as int));
        let space = c == ' ' || c == '\t' || c == '\n' || c == '\u{c}' || c == '\r';
        if !space {
            let starts = i == 0 || {
                let p: char = v[i - 1];
                p == ' ' || p == '\t' || p == '\n' || p == '\u{c}' || p == '\r'
            };
            if starts {
                let mut word = String::new();
                word.push(c);
                assert(word@ =~= seq![c]);
                crate::text::push_text(&mut r, word);
            } else {
                assert(now[now.len() - 2] == v@[i - 1]);
                proof {
                    open_word(v@.take(i as int));
                }
                match r.pop() {
                    Some(last) => {
                        let mut word = last;
                        let ghost before = word@;
                        word.push(c);
                        assert(crate::text::texts(r@) =~= rest.drop_last());
                        crate::text::push_text(&mut r, word);
                    },
                    None => {},
                }
            }
        }
        assert(crate::text::texts(r@) =~= ascii_words(now));
        i += 1;
    }
    assert(v@.take(v@.len() as int) =~= v@);
    r
}

/// The words of a text, as white space separates them.
pub open spec fn words(s: Seq<char>) -> Seq<Seq<char>>
    decreases s.len(),
{
    if s.len() == 0 {
        Seq::empty()
    } else {
        let rest = words(s.drop_last());
        if crate::text::is_space(s.last()) {
            rest
        } else if s.len() == 1 || crate::text::is_space(s[s.len() - 2]) {
            rest.push(seq![s.last()])
        } else {
            rest.drop_last().push(rest.last().push(s.last()))
        }
    }
}

proof fn word_is_open(s: Seq<char>)
    requires
        s.len() > 0,
        !crate::text::is_space(s.last()),
    ensures
        words(s).len() > 0,
    decreases s.len(),
{
}

/// `str::split_whitespace`.
pub fn split_whitespace(s: &str) -> (r: Vec<String>)
    ensures
        crate::text::texts(r@) == words(s@),
{
    let v = crate::text::to_chars(s);
    let mut r: Vec<String> = crate::text::no_texts();
    let mut i: usize = 0;
    assert(v@.take(0) =~= Seq::<char>::empty());
    while i < v.len()
        invariant
            i <= v.len(),
            v@ == s@,
            crate::text::texts(r@) == words(v@.take(i as int)),
        decreases v.len() - i,
    {
        let c: char = v[i];
        let ghost now = v@.take(i + 1);
        let ghost rest = crate::text::texts(r@);
        assert(now.drop_last() =~= v@.take(i as int));
        if !c.is_whitespace() {
            let starts = i == 0 || v[i - 1].is_whitespace();
            if starts {
                let mut word = String::new();
                word.push(c);
                assert(word@ =~= seq![c]);
                crate::text::push_text(&mut r, word);
            } else {
                assert(now[now.len() - 2] == v@[i - 1]);
                proof {
                    word_is_open(v@.take(i as int));
                }
                match r.pop() {
                    Some(last) => {
                        let mut word = last;
                        word.push(c);
                        assert(crate::text::texts(r@) =~= rest.drop_last());
                        crate::text::push_text(&mut r, word);
                    },
                    None => {},
                }
            }
        }
        assert(crate::text::texts(r@) =~= words(now));
        i += 1;
    }
    assert(v@.take(v@.len() as int) =~= v@);
    r
}

/// A word behind white space, or at the start, is a word of its own.
pub proof fn words_append(front: Seq<char>, word: Seq<char>)
    requires
        front.len() == 0 || crate::text::is_space(front.last()),
        word.len() > 0,
        forall|i: int| 0 <= i < word.len() ==> !crate::text::is_space(#[trigger] word[i]),
    ensures
        words(front + word) == words(front).push(word),
    decreases word.len(),
{
    let whole = front + word;
    assert(whole.last() == word.last());
    assert(whole.drop_last() =~= front + word.drop_last());
    if word.len() == 1 {
        assert(whole.drop_last() =~= front);
        assert(word =~= seq![word.last()]);
    } else {
        let shorter = word.drop_last();
        assert forall|i: int| 0 <= i < shorter.len() implies !crate::text::is_space(
            #[trigger] shorter[i],
        ) by {
            assert(shorter[i] == word[i]);
        }
        words_append(front, shorter);
        assert(whole[whole.len() - 2] == word[word.len() - 2]);
        let rest = words(front).push(shorter);
        assert(rest.drop_last() =~= words(front));
        assert(shorter.push(word.last()) =~= word);
    }
}

/// White space at the end adds no word.
pub proof fn words_before_space(s: Seq<char>, c: char)
    requires
        crate::text::is_space(c),
    ensures
        words(s.push(c)) == words(s),
{
    assert(s.push(c).drop_last() =~= s);
}

} // verus!
