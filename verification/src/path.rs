//! Unix paths as byte strings, compared and taken apart by their components.

use vstd::prelude::*;
use crate::order;
use crate::scan;
use crate::scan::split_bytes;
use crate::text;
use crate::text::{bytes_equal, bytes_of, copy_bytes};

verus! {

/// A Unix path: any byte string, `/` separating its components.
#[derive(Debug, PartialEq, Eq, Hash)]
pub struct UnixPath {
    pub bytes: Vec<u8>,
}

impl View for UnixPath {
    type V = Seq<u8>;

    open spec fn view(&self) -> Seq<u8> {
        self.bytes@
    }
}

impl Clone for UnixPath {
    fn clone(&self) -> (r: Self)
        ensures
            r@ == self@,
    {
        UnixPath { bytes: copy_bytes(&self.bytes) }
    }
}

pub open spec fn is_absolute(p: Seq<u8>) -> bool {
    p.len() > 0 && p[0] == 47
}

/// The pieces that name something: no empty piece, and `.` only where it leads
/// a relative path.
pub open spec fn kept_pieces(pieces: Seq<Seq<u8>>) -> Seq<Seq<u8>>
    decreases pieces.len(),
{
    if pieces.len() == 0 {
        Seq::empty()
    } else {
        let rest = kept_pieces(pieces.drop_last());
        let piece = pieces.last();
        if piece.len() > 0 && (piece != seq![46u8] || pieces.len() == 1) {
            rest.push(piece)
        } else {
            rest
        }
    }
}

/// The components of a path after its root.
pub open spec fn components(p: Seq<u8>) -> Seq<Seq<u8>> {
    kept_pieces(scan::split_on(p, 47))
}

/// Two paths with the same root and the same components.
pub open spec fn same_path(a: Seq<u8>, b: Seq<u8>) -> bool {
    is_absolute(a) == is_absolute(b) && components(a) == components(b)
}

/// The last component, unless it is `.` or `..`.
pub open spec fn file_name(p: Seq<u8>) -> Option<Seq<u8>> {
    let c = components(p);
    if c.len() > 0 && c.last() != seq![46u8] && c.last() != seq![46u8, 46u8] {
        Some(c.last())
    } else {
        None
    }
}

/// A path followed by another one: the second alone where it is absolute.
pub open spec fn joined(p: Seq<u8>, q: Seq<u8>) -> Seq<u8> {
    if is_absolute(q) {
        q
    } else if p.len() > 0 && p.last() != 47 {
        p.push(47) + q
    } else {
        p + q
    }
}

/// A component as a word that orders as the component does: the root first,
/// then `.`, then `..`, then the names.
pub open spec fn component_key(c: Seq<u8>) -> Seq<u8> {
    if c == seq![46u8] {
        seq![1u8]
    } else if c == seq![46u8, 46u8] {
        seq![2u8]
    } else {
        seq![3u8] + c
    }
}

/// The root, where there is one, and the components of a path, as words that
/// order as the path does.
pub open spec fn path_key(p: Seq<u8>) -> Seq<Seq<u8>> {
    let c = components(p);
    (if is_absolute(p) {
        seq![seq![0u8]]
    } else {
        Seq::empty()
    }) + Seq::new(c.len(), |i: int| component_key(c[i]))
}

/// A path comes before another one, component by component.
pub open spec fn path_before(a: Seq<u8>, b: Seq<u8>) -> bool {
    order::words_before(path_key(a), path_key(b), 0)
}

/// A path begins with the components of another one.
pub open spec fn is_under(p: Seq<u8>, base: Seq<u8>) -> bool {
    path_key(base).is_prefix_of(path_key(p))
}

/// A path without what follows its last component.
pub open spec fn without_tail(p: Seq<u8>) -> Seq<u8>
    decreases p.len(),
{
    if p.len() > 0 && p.last() == 47 {
        without_tail(p.drop_last())
    } else if p.len() > 1 && p.last() == 46 && p[p.len() - 2] == 47 {
        without_tail(p.take(p.len() - 2))
    } else {
        p
    }
}

/// Where the last `byte` of a byte string stands, `-1` without one.
pub open spec fn last_index(p: Seq<u8>, byte: u8) -> int
    decreases p.len(),
{
    if p.len() == 0 {
        -1
    } else if p.last() == byte {
        p.len() - 1
    } else {
        last_index(p.drop_last(), byte)
    }
}

/// A path with the extension of its file name replaced, or given one. A leading
/// dot starts no extension; a path without a file name stays.
pub open spec fn with_extension(p: Seq<u8>, extension: Seq<u8>) -> Seq<u8> {
    let whole = without_tail(p);
    let name = whole.skip(last_index(whole, 47) + 1);
    let dot = last_index(name, 46);
    if name.len() == 0 || name == seq![46u8] || name == seq![46u8, 46u8] {
        p
    } else {
        (if dot > 0 {
            whole.take(last_index(whole, 47) + 1 + dot)
        } else {
            whole
        }).push(46) + extension
    }
}

/// A path without its last component; a root and an empty path have none.
pub open spec fn parent(p: Seq<u8>) -> Option<Seq<u8>> {
    let whole = without_tail(p);
    if whole.len() == 0 {
        None
    } else {
        let head = without_tail(whole.take(last_index(whole, 47) + 1));
        if head.len() == 0 && last_index(whole, 47) >= 0 {
            Some(seq![47u8])
        } else {
            Some(head)
        }
    }
}

/// Path equality is reflexive, symmetric and transitive.
pub proof fn same_path_is_equivalence(a: Seq<u8>, b: Seq<u8>, c: Seq<u8>)
    ensures
        same_path(a, a),
        same_path(a, b) ==> same_path(b, a),
        same_path(a, b) && same_path(b, c) ==> same_path(a, c),
{
}

/// Equal paths have the same file name.
pub proof fn same_path_same_name(a: Seq<u8>, b: Seq<u8>)
    requires
        same_path(a, b),
    ensures
        file_name(a) == file_name(b),
{
}

fn path_components(p: &[u8]) -> (r: Vec<Vec<u8>>)
    ensures
        text::words(r@) == components(p@),
{
    let pieces = split_bytes(p, 47);
    let ghost all = scan::split_on(p@, 47u8);
    let mut kept: Vec<Vec<u8>> = Vec::new();
    let dot: Vec<u8> = dot_bytes();
    let mut i: usize = 0;
    assert(text::words(kept@) =~= kept_pieces(all.take(0)));
    while i < pieces.len()
        invariant
            i <= pieces.len(),
            text::words(kept@) == kept_pieces(all.take(i as int)),
        decreases pieces.len() - i,
    {
        proof {
            assert(all.take(i + 1).drop_last() =~= all.take(i as int));
            assert(all.take(i + 1).last() == pieces@[i as int]@);
        }
        if pieces[i].len() > 0 && (i == 0 || !bytes_equal(&pieces[i], &dot)) {
            text::push_word(&mut kept, copy_bytes(&pieces[i]));
        }
        i += 1;
    }
    assert(all.take(all.len() as int) =~= all);
    kept
}

fn dot_bytes() -> (r: Vec<u8>)
    ensures
        r@ == seq![46u8],
{
    let mut r: Vec<u8> = Vec::new();
    r.push(46);
    r
}

fn words_equal(a: &Vec<Vec<u8>>, b: &Vec<Vec<u8>>) -> (r: bool)
    ensures
        r == (text::words(a@) == text::words(b@)),
{
    if a.len() != b.len() {
        assert(text::words(a@).len() != text::words(b@).len());
        return false;
    }
    let mut i: usize = 0;
    while i < a.len()
        invariant
            i <= a.len(),
            a.len() == b.len(),
            forall|j: int| 0 <= j < i ==> text::words(a@)[j] == text::words(b@)[j],
        decreases a.len() - i,
    {
        if !bytes_equal(&a[i], &b[i]) {
            assert(text::words(a@)[i as int] != text::words(b@)[i as int]);
            return false;
        }
        i += 1;
    }
    assert(text::words(a@) =~= text::words(b@));
    true
}

fn component_word(c: &Vec<u8>) -> (r: Vec<u8>)
    ensures
        r@ == component_key(c@),
{
    let mut r: Vec<u8> = Vec::new();
    if c.len() == 1 && c[0] == 46 {
        assert(c@ =~= seq![46u8]);
        r.push(1);
        assert(r@ =~= seq![1u8]);
        return r;
    }
    if c.len() == 2 && c[0] == 46 && c[1] == 46 {
        assert(c@ =~= seq![46u8, 46u8]);
        r.push(2);
        assert(r@ =~= seq![2u8]);
        return r;
    }
    r.push(3);
    let mut rest = copy_bytes(c);
    r.append(&mut rest);
    assert(r@ =~= seq![3u8] + c@);
    r
}

fn key_of(p: &UnixPath) -> (r: Vec<Vec<u8>>)
    ensures
        text::words(r@) == path_key(p@),
{
    let parts = path_components(&p.bytes);
    let ghost c = components(p@);
    let ghost keys = Seq::new(c.len(), |i: int| component_key(c[i]));
    let mut r = text::no_words();
    if p.is_absolute() {
        let mut root: Vec<u8> = Vec::new();
        root.push(0);
        assert(root@ =~= seq![0u8]);
        text::push_word(&mut r, root);
    }
    let ghost head = text::words(r@);
    assert(head =~= if is_absolute(p@) {
        seq![seq![0u8]]
    } else {
        Seq::<Seq<u8>>::empty()
    });
    let mut i: usize = 0;
    assert(text::words(r@) =~= head + keys.take(0));
    while i < parts.len()
        invariant
            i <= parts.len(),
            text::words(r@) == head + keys.take(i as int),
        decreases parts.len() - i,
    {
        assert(c[i as int] == parts@[i as int]@);
        text::push_word(&mut r, component_word(&parts[i]));
        assert(head + keys.take(i + 1) =~= (head + keys.take(i as int)).push(keys[i as int]));
        i += 1;
    }
    assert(keys.take(keys.len() as int) =~= keys);
    r
}

fn trim_tail(p: &[u8]) -> (r: Vec<u8>)
    ensures
        r@ == without_tail(p@),
{
    let mut n: usize = p.len();
    assert(p@.take(n as int) =~= p@);
    loop
        invariant
            n <= p@.len(),
            without_tail(p@) == without_tail(p@.take(n as int)),
        decreases n,
    {
        let ghost now = p@.take(n as int);
        if n > 0 && p[n - 1] == 47 {
            assert(now.drop_last() =~= p@.take(n - 1));
            n = n - 1;
        } else if n > 1 && p[n - 1] == 46 && p[n - 2] == 47 {
            assert(now.take(n - 2) =~= p@.take(n - 2));
            n = n - 2;
        } else {
            let r = text::slice_bytes(p, 0, n);
            assert(r@ =~= now);
            return r;
        }
    }
}

/// Where the name behind the last `byte` starts: 0 without one.
fn after_last(p: &[u8], byte: u8) -> (r: usize)
    ensures
        r == last_index(p@, byte) + 1,
        r <= p@.len(),
{
    let mut n: usize = p.len();
    assert(p@.take(n as int) =~= p@);
    while n > 0
        invariant
            n <= p@.len(),
            last_index(p@, byte) == last_index(p@.take(n as int), byte),
        decreases n,
    {
        if p[n - 1] == byte {
            return n;
        }
        assert(p@.take(n as int).drop_last() =~= p@.take(n - 1));
        n -= 1;
    }
    0
}

impl UnixPath {
    pub fn new(value: &str) -> (r: Self)
        ensures
            r@ == text::utf8(value@),
    {
        UnixPath { bytes: bytes_of(value) }
    }

    pub fn from_bytes(bytes: &[u8]) -> (r: Self)
        ensures
            r@ == bytes@,
    {
        UnixPath { bytes: copy_bytes(bytes) }
    }

    pub fn is_empty(&self) -> (r: bool)
        ensures
            r == (self@.len() == 0),
    {
        self.bytes.len() == 0
    }

    pub fn is_absolute(&self) -> (r: bool)
        ensures
            r == is_absolute(self@),
    {
        self.bytes.len() > 0 && self.bytes[0] == 47
    }

    pub fn same_as(&self, other: &UnixPath) -> (r: bool)
        ensures
            r == same_path(self@, other@),
    {
        self.is_absolute() == other.is_absolute() && words_equal(
            &path_components(&self.bytes),
            &path_components(&other.bytes),
        )
    }

    pub fn parent(&self) -> (r: Option<UnixPath>)
        ensures
            match r {
                Some(found) => parent(self@) == Some(found@),
                None => parent(self@) is None,
            },
    {
        let whole = trim_tail(&self.bytes);
        if whole.len() == 0 {
            return None;
        }
        let start: usize = after_last(&whole, 47);
        let head = text::slice_bytes(&whole, 0, start);
        assert(head@ =~= whole@.take(start as int));
        let bytes = trim_tail(&head);
        if bytes.len() == 0 && start > 0 {
            let mut root: Vec<u8> = Vec::new();
            root.push(47);
            assert(root@ =~= seq![47u8]);
            return Some(UnixPath { bytes: root });
        }
        Some(UnixPath { bytes })
    }

    pub fn components(&self) -> (r: Vec<Vec<u8>>)
        ensures
            crate::text::words(r@) == components(self@),
    {
        path_components(&self.bytes)
    }

    pub fn file_name(&self) -> (r: Option<Vec<u8>>)
        ensures
            match r {
                Some(name) => file_name(self@) == Some(name@),
                None => file_name(self@) is None,
            },
    {
        let mut parts = path_components(&self.bytes);
        let ghost all = components(self@);
        if parts.len() == 0 {
            return None;
        }
        let i: usize = parts.len() - 1;
        let last: Vec<u8> = copy_bytes(&parts[i]);
        assert(all.last() == last@);
        let is_dot = last.len() == 1 && last[0] == 46;
        let is_up = last.len() == 2 && last[0] == 46 && last[1] == 46;
        assert(is_dot == (last@ == seq![46u8])) by {
            if is_dot {
                assert(last@ =~= seq![46u8]);
            }
        }
        assert(is_up == (last@ == seq![46u8, 46u8])) by {
            if is_up {
                assert(last@ =~= seq![46u8, 46u8]);
            }
        }
        if is_dot || is_up {
            None
        } else {
            Some(last)
        }
    }

    pub fn join(&self, other: &UnixPath) -> (r: UnixPath)
        ensures
            r@ == joined(self@, other@),
    {
        if other.is_absolute() {
            return other.clone();
        }
        let mut bytes: Vec<u8> = copy_bytes(&self.bytes);
        if bytes.len() > 0 && bytes[bytes.len() - 1] != 47 {
            bytes.push(47);
        }
        let mut tail: Vec<u8> = copy_bytes(&other.bytes);
        bytes.append(&mut tail);
        UnixPath { bytes }
    }

    /// Whether this path comes before another one.
    pub fn is_before(&self, other: &UnixPath) -> (r: bool)
        ensures
            r == path_before(self@, other@),
    {
        order::word_list_before(&key_of(self), &key_of(other))
    }

    /// Whether this path begins with the components of another one.
    pub fn starts_with(&self, base: &UnixPath) -> (r: bool)
        ensures
            r == is_under(self@, base@),
    {
        let a = key_of(self);
        let b = key_of(base);
        let ghost x = path_key(self@);
        let ghost y = path_key(base@);
        if b.len() > a.len() {
            return false;
        }
        let mut i: usize = 0;
        while i < b.len()
            invariant
                i <= b.len() <= a.len(),
                forall|j: int| 0 <= j < i ==> x[j] == y[j],
            decreases b.len() - i,
        {
            assert(x[i as int] == a@[i as int]@);
            assert(y[i as int] == b@[i as int]@);
            if !bytes_equal(&a[i], &b[i]) {
                assert(x.subrange(0, y.len() as int)[i as int] == x[i as int]);
                return false;
            }
            i += 1;
        }
        assert(x.subrange(0, y.len() as int) =~= y);
        true
    }

    /// This path with the extension of its file name replaced, or given one.
    pub fn with_extension(&self, extension: &str) -> (r: UnixPath)
        ensures
            r@ == with_extension(self@, text::utf8(extension@)),
    {
        let whole = trim_tail(&self.bytes);
        let start: usize = after_last(&whole, 47);
        let name = text::slice_bytes(&whole, start, whole.len());
        assert(name@ =~= whole@.skip(start as int));
        let is_dot = name.len() == 1 && name[0] == 46;
        let is_up = name.len() == 2 && name[0] == 46 && name[1] == 46;
        assert(is_dot == (name@ == seq![46u8])) by {
            if is_dot {
                assert(name@ =~= seq![46u8]);
            }
        }
        assert(is_up == (name@ == seq![46u8, 46u8])) by {
            if is_up {
                assert(name@ =~= seq![46u8, 46u8]);
            }
        }
        if name.len() == 0 || is_dot || is_up {
            return self.clone();
        }
        let dot: usize = after_last(&name, 46);
        let mut bytes = if dot > 1 {
            text::slice_bytes(&whole, 0, start + dot - 1)
        } else {
            whole
        };
        bytes.push(46);
        let mut tail = bytes_of(extension);
        bytes.append(&mut tail);
        UnixPath { bytes }
    }

    /// The path as text: what its bytes encode, with malformed UTF-8 replaced.
    pub fn display(&self) -> (r: String)
        ensures
            r@ == text::lossy_text(self@),
            text::utf8_decoded(self@) matches Some(decoded) ==> r@ == decoded,
    {
        let r = text::utf8_lossy(&self.bytes);
        proof {
            if vstd::utf8::valid_utf8(self@) {
                text::utf8_decodes_back(r@);
            }
        }
        r
    }
}

} // verus!
