//! Texts that stay on one line.

use vstd::prelude::*;
use crate::number;
use crate::scan;
use crate::text;
use crate::tmux::quote;

verus! {

/// Neither a line feed nor a carriage return.
pub open spec fn one_line(s: Seq<char>) -> bool {
    forall|i: int| 0 <= i < s.len() ==> #[trigger] s[i] != '\n' && s[i] != '\r'
}

/// A number below `n` is one of `0` to `n - 1`.
pub open spec fn one_of(i: int, n: nat) -> bool
    decreases n,
{
    n > 0 && (i == n - 1 || one_of(i, (n - 1) as nat))
}

pub proof fn one_of_range(i: int, n: nat)
    requires
        0 <= i < n,
    ensures
        one_of(i, n),
    decreases n,
{
    if i < n - 1 {
        one_of_range(i, (n - 1) as nat);
    }
}

/// A line of a block: no line feed, and no carriage return at its end.
pub proof fn one_line_is_line(s: Seq<char>)
    requires
        one_line(s),
    ensures
        !s.contains('\n'),
        scan::without_cr(s) == s,
{
}

pub proof fn one_line_append(a: Seq<char>, b: Seq<char>)
    requires
        one_line(a),
        one_line(b),
    ensures
        one_line(a + b),
{
    assert forall|i: int| 0 <= i < (a + b).len() implies #[trigger] (a + b)[i] != '\n' && (a
        + b)[i] != '\r' by {
        if i < a.len() {
            assert((a + b)[i] == a[i]);
        } else {
            assert((a + b)[i] == b[i - a.len()]);
        }
    }
}

/// A text without control characters stays on one line.
pub proof fn no_control_one_line(s: Seq<char>)
    requires
        !scan::has_control(s),
    ensures
        one_line(s),
{
    assert forall|i: int| 0 <= i < s.len() implies #[trigger] s[i] != '\n' && s[i] != '\r' by {
        assert(!text::is_control(s[i]));
    }
}

proof fn one_line_expand(s: Seq<char>, f: spec_fn(char) -> Seq<char>)
    requires
        one_line(s),
        forall|c: char| c != '\n' && c != '\r' ==> one_line(#[trigger] f(c)),
    ensures
        one_line(scan::expand(s, f)),
    decreases s.len(),
{
    if s.len() > 0 {
        let head = s.drop_last();
        assert forall|i: int| 0 <= i < head.len() implies #[trigger] head[i] != '\n' && head[i]
            != '\r' by {
            assert(head[i] == s[i]);
        }
        one_line_expand(head, f);
        assert(s[s.len() - 1] != '\n');
        one_line_append(scan::expand(head, f), f(s.last()));
    }
}

/// Quoting keeps a text on one line.
pub proof fn one_line_quoted(s: Seq<char>)
    requires
        one_line(s),
    ensures
        one_line(quote::quoted(s)),
        one_line(quote::double_quoted(s)),
{
    one_line_expand(s, quote::quote_char());
    one_line_expand(s, quote::word_char());
    let single = seq!['\''];
    let double = seq!['"'];
    one_line_append(single, scan::expand(s, quote::quote_char()));
    one_line_append(single + scan::expand(s, quote::quote_char()), single);
    one_line_append(double, scan::expand(s, quote::word_char()));
    one_line_append(double + scan::expand(s, quote::word_char()), double);
}

/// Each text of a list stays on one line.
pub open spec fn all_one_line(v: Seq<Seq<char>>) -> bool {
    forall|i: int| 0 <= i < v.len() ==> one_line(#[trigger] v[i])
}

pub proof fn all_one_line_append(a: Seq<Seq<char>>, b: Seq<Seq<char>>)
    requires
        all_one_line(a),
        all_one_line(b),
    ensures
        all_one_line(a + b),
{
    assert forall|i: int| 0 <= i < (a + b).len() implies one_line(#[trigger] (a + b)[i]) by {
        if i < a.len() {
            assert((a + b)[i] == a[i]);
        } else {
            assert((a + b)[i] == b[i - a.len()]);
        }
    }
}

pub proof fn one_line_join(v: Seq<Seq<char>>, sep: Seq<char>)
    requires
        all_one_line(v),
        one_line(sep),
    ensures
        one_line(scan::join_with(v, sep)),
    decreases v.len(),
{
    if v.len() == 1 {
        assert(one_line(v[0]));
    } else if v.len() > 1 {
        let head = v.drop_last();
        assert forall|i: int| 0 <= i < head.len() implies one_line(#[trigger] head[i]) by {
            assert(head[i] == v[i]);
        }
        one_line_join(head, sep);
        assert(one_line(v[v.len() - 1]));
        one_line_append(scan::join_with(head, sep), sep);
        one_line_append(scan::join_with(head, sep) + sep, v.last());
    }
}

pub proof fn one_line_hex(bytes: Seq<u8>)
    ensures
        one_line(number::hex(bytes)),
    decreases bytes.len(),
{
    if bytes.len() > 0 {
        let head = number::hex(bytes.drop_last());
        one_line_hex(bytes.drop_last());
        let a = number::hex_char((bytes.last() / 16) as nat);
        let b = number::hex_char((bytes.last() % 16) as nat);
        assert(a != '\n' && a != '\r' && b != '\n' && b != '\r');
        assert forall|i: int| 0 <= i < number::hex(bytes).len() implies #[trigger] number::hex(
            bytes,
        )[i] != '\n' && number::hex(bytes)[i] != '\r' by {
            if i < head.len() {
                assert(number::hex(bytes)[i] == head[i]);
            }
        }
    }
}

} // verus!
