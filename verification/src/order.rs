//! Lexicographic order of byte strings, of lists of byte strings and of texts.

use vstd::prelude::*;
use crate::text;
use crate::text::to_chars;

verus! {

/// `a` comes before `b`, from a position on at which both agree so far.
pub open spec fn bytes_before(a: Seq<u8>, b: Seq<u8>, i: int) -> bool
    decreases b.len() - i,
{
    if i >= b.len() {
        false
    } else if i >= a.len() {
        true
    } else if a[i] != b[i] {
        a[i] < b[i]
    } else {
        bytes_before(a, b, i + 1)
    }
}

/// Order of lists whose elements are byte strings.
pub open spec fn words_before(a: Seq<Seq<u8>>, b: Seq<Seq<u8>>, i: int) -> bool
    decreases b.len() - i,
{
    if i >= b.len() {
        false
    } else if i >= a.len() {
        true
    } else if a[i] != b[i] {
        bytes_before(a[i], b[i], 0)
    } else {
        words_before(a, b, i + 1)
    }
}

/// Order of texts by their characters, which is that of their UTF-8 bytes.
pub open spec fn text_before(a: Seq<char>, b: Seq<char>, i: int) -> bool
    decreases b.len() - i,
{
    if i >= b.len() {
        false
    } else if i >= a.len() {
        true
    } else if a[i] != b[i] {
        (a[i] as int) < (b[i] as int)
    } else {
        text_before(a, b, i + 1)
    }
}

proof fn never_before_itself(a: Seq<char>, i: int)
    requires
        0 <= i <= a.len(),
    ensures
        !text_before(a, a, i),
    decreases a.len() - i,
{
    if i < a.len() {
        never_before_itself(a, i + 1);
    }
}

/// Two different texts are ordered one way and not the other.
pub proof fn texts_are_ordered(a: Seq<char>, b: Seq<char>, i: int)
    requires
        0 <= i <= a.len(),
        i <= b.len(),
        forall|j: int| 0 <= j < i ==> a[j] == b[j],
    ensures
        a != b ==> text_before(a, b, i) != text_before(b, a, i),
        !text_before(a, a, i),
    decreases a.len() - i,
{
    if i < a.len() {
        never_before_itself(a, i);
        if i < b.len() && a[i] == b[i] {
            texts_are_ordered(a, b, i + 1);
            assert(text_before(a, b, i) == text_before(a, b, i + 1));
            assert(text_before(b, a, i) == text_before(b, a, i + 1));
        } else if i < b.len() {
            assert(text_before(a, b, i) == ((a[i] as int) < (b[i] as int)));
            assert(text_before(b, a, i) == ((b[i] as int) < (a[i] as int)));
        } else {
            assert(text_before(b, a, i));
            assert(!text_before(a, b, i));
        }
    } else if i < b.len() {
        assert(text_before(a, b, i));
        assert(!text_before(b, a, i));
    } else {
        assert(a =~= b);
    }
}

pub fn byte_string_before(a: &[u8], b: &[u8]) -> (r: bool)
    ensures
        r == bytes_before(a@, b@, 0),
{
    let mut i: usize = 0;
    while i < a.len() && i < b.len() && a[i] == b[i]
        invariant
            i <= a@.len(),
            i <= b@.len(),
            bytes_before(a@, b@, 0) == bytes_before(a@, b@, i as int),
        decreases a.len() - i,
    {
        i += 1;
    }
    if i >= b.len() {
        false
    } else if i >= a.len() {
        true
    } else {
        a[i] < b[i]
    }
}

pub fn word_list_before(a: &Vec<Vec<u8>>, b: &Vec<Vec<u8>>) -> (r: bool)
    ensures
        r == words_before(text::words(a@), text::words(b@), 0),
{
    let ghost x = text::words(a@);
    let ghost y = text::words(b@);
    let mut i: usize = 0;
    while i < a.len() && i < b.len()
        invariant
            i <= a.len(),
            i <= b.len(),
            words_before(x, y, 0) == words_before(x, y, i as int),
        decreases a.len() - i,
    {
        assert(x[i as int] == a@[i as int]@);
        assert(y[i as int] == b@[i as int]@);
        if !text::bytes_equal(&a[i], &b[i]) {
            return byte_string_before(&a[i], &b[i]);
        }
        i += 1;
    }
    i < b.len()
}

pub fn text_is_before(a: &str, b: &str) -> (r: bool)
    ensures
        r == text_before(a@, b@, 0),
{
    let x = to_chars(a);
    let y = to_chars(b);
    let mut i: usize = 0;
    while i < x.len() && i < y.len() && x[i] == y[i]
        invariant
            i <= x@.len(),
            i <= y@.len(),
            x@ == a@,
            y@ == b@,
            text_before(a@, b@, 0) == text_before(a@, b@, i as int),
        decreases x.len() - i,
    {
        i += 1;
    }
    if i >= y.len() {
        false
    } else if i >= x.len() {
        true
    } else {
        x[i] < y[i]
    }
}

/// A text put into an ordered list, behind its equals.
pub open spec fn text_inserted(list: Seq<Seq<char>>, t: Seq<char>) -> Seq<Seq<char>>
    decreases list.len(),
{
    if list.len() > 0 && text_before(t, list.last(), 0) {
        text_inserted(list.drop_last(), t).push(list.last())
    } else {
        list.push(t)
    }
}

/// The first `n` texts of a list in order.
pub open spec fn texts_in_order(list: Seq<Seq<char>>, n: nat) -> Seq<Seq<char>>
    decreases n,
{
    if n == 0 {
        Seq::empty()
    } else {
        text_inserted(texts_in_order(list, (n - 1) as nat), list[n - 1])
    }
}

fn insert_text(list: Vec<String>, t: String) -> (r: Vec<String>)
    ensures
        text::texts(r@) == text_inserted(text::texts(list@), t@),
    decreases list@.len(),
{
    let mut list = list;
    let ghost before = text::texts(list@);
    if list.len() > 0 {
        let n: usize = list.len() - 1;
        assert(before.last() == list@[n as int]@);
        if text_is_before(&t, &list[n]) {
            let ghost all = list@;
            match list.pop() {
                Some(last) => {
                    assert(text::texts(list@) =~= before.drop_last());
                    let mut r = insert_text(list, t);
                    let ghost rest = text::texts(r@);
                    r.push(last);
                    assert(text::texts(r@) =~= rest.push(before.last()));
                    return r;
                },
                None => {
                    assert(false);
                },
            }
        }
    }
    list.push(t);
    assert(text::texts(list@) =~= before.push(t@));
    list
}

/// The texts of a list in order.
pub fn sorted_texts(list: &Vec<String>) -> (r: Vec<String>)
    ensures
        text::texts(r@) == texts_in_order(text::texts(list@), list@.len()),
{
    let ghost all = text::texts(list@);
    let mut r: Vec<String> = Vec::new();
    assert(text::texts(r@) =~= Seq::<Seq<char>>::empty());
    let mut i: usize = 0;
    while i < list.len()
        invariant
            i <= list.len(),
            text::texts(r@) == texts_in_order(all, i as nat),
        decreases list.len() - i,
    {
        assert(all[i as int] == list@[i as int]@);
        r = insert_text(r, list[i].clone());
        i += 1;
    }
    r
}

} // verus!
