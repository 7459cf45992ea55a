//! Quoting for the tmux command parser, for tmux formats and for the shell.

use vstd::prelude::*;
use crate::scan;
use crate::text;
use crate::text::to_chars;

verus! {

// ---------------------------------------------------------------------------
// Single-quoted words
// ---------------------------------------------------------------------------

/// A character inside a single-quoted word: a single quote ends the quoted part,
/// stands escaped, and opens the next part.
pub open spec fn quote_char() -> spec_fn(char) -> Seq<char> {
    |c: char|
        if c == '\'' {
            seq!['\'', '\\', '\'', '\'']
        } else {
            seq![c]
        }
}

/// A value as one single-quoted word.
pub open spec fn quoted(value: Seq<char>) -> Seq<char> {
    seq!['\''] + scan::expand(value, quote_char()) + seq!['\'']
}

/// A value read ahead of what was read already.
pub open spec fn prepend(c: char, rest: Option<Seq<char>>) -> Option<Seq<char>> {
    match rest {
        Some(t) => Some(seq![c] + t),
        None => None,
    }
}

/// How a shell, and the tmux command parser, read one word made of
/// single-quoted parts and backslash escapes; `None` where it is not complete.
pub open spec fn read_word(s: Seq<char>, inside: bool) -> Option<Seq<char>>
    decreases s.len(),
{
    if s.len() == 0 {
        if inside {
            None
        } else {
            Some(Seq::empty())
        }
    } else if inside {
        if s[0] == '\'' {
            read_word(s.skip(1), false)
        } else {
            prepend(s[0], read_word(s.skip(1), true))
        }
    } else if s[0] == '\'' {
        read_word(s.skip(1), true)
    } else if s[0] == '\\' && s.len() > 1 {
        prepend(s[1], read_word(s.skip(2), false))
    } else {
        None
    }
}

proof fn read_quoted_tail(value: Seq<char>)
    ensures
        read_word(scan::expand(value, quote_char()) + seq!['\''], true) == Some(value),
    decreases value.len(),
{
    let f = quote_char();
    if value.len() == 0 {
        let s = scan::expand(value, f) + seq!['\''];
        assert(s =~= seq!['\'']);
        assert(s.skip(1) =~= Seq::<char>::empty());
        assert(read_word(Seq::<char>::empty(), false) == Some(Seq::<char>::empty()));
        assert(value =~= Seq::<char>::empty());
    } else {
        let head = value[0];
        let rest = value.skip(1);
        read_quoted_tail(rest);
        assert(value =~= seq![head] + rest);
        scan::expand_append(seq![head], rest, f);
        assert(seq![head].drop_last() =~= Seq::<char>::empty());
        assert(scan::expand(seq![head], f) =~= f(head)) by {
            assert(scan::expand(Seq::<char>::empty(), f) =~= Seq::<char>::empty());
        }
        let tail = scan::expand(rest, f) + seq!['\''];
        let s = scan::expand(value, f) + seq!['\''];
        assert(s =~= f(head) + tail);
        if head == '\'' {
            let s1 = s.skip(1);
            assert(s1 =~= seq!['\\', '\'', '\''] + tail);
            let s2 = s1.skip(2);
            assert(s2 =~= seq!['\''] + tail);
            assert(s2.skip(1) =~= tail);
            assert(read_word(s2, false) == Some(rest));
            assert(read_word(s1, false) == Some(seq!['\''] + rest));
        } else {
            assert(s.skip(1) =~= tail);
        }
    }
}

/// Reading a quoted value as one word gives the value back.
pub proof fn quoted_reads_back(value: Seq<char>)
    ensures
        read_word(quoted(value), false) == Some(value),
{
    read_quoted_tail(value);
    let s = quoted(value);
    assert(s.skip(1) =~= scan::expand(value, quote_char()) + seq!['\'']);
}

/// Quotes a value for the tmux command parser.
pub fn tmux_quote(value: &str) -> (r: String)
    ensures
        r@ == quoted(value@),
{
    let v = to_chars(value);
    let mut r = String::new();
    r.push('\'');
    let mut i: usize = 0;
    let ghost f = quote_char();
    assert(r@ =~= seq!['\''] + scan::expand(v@.take(0), f));
    while i < v.len()
        invariant
            i <= v.len(),
            r@ == seq!['\''] + scan::expand(v@.take(i as int), f),
        decreases v.len() - i,
    {
        let c: char = v[i];
        let ghost before = r@;
        if c == '\'' {
            r.push('\'');
            r.push('\\');
            r.push('\'');
            r.push('\'');
        } else {
            r.push(c);
        }
        proof {
            scan::expand_step(v@, i as int, f);
            assert(r@ =~= before + f(c));
            assert(seq!['\''] + (scan::expand(v@.take(i as int), f) + f(c)) =~= before + f(c));
        }
        i += 1;
    }
    assert(v@.take(v@.len() as int) =~= v@);
    r.push('\'');
    assert(r@ =~= quoted(value@));
    r
}

/// Quotes a value for the shell.
pub fn shell_literal(value: &str) -> (r: String)
    ensures
        r@ == quoted(value@),
{
    tmux_quote(value)
}

// ---------------------------------------------------------------------------
// Double-quoted words
// ---------------------------------------------------------------------------

/// A character inside a double-quoted tmux word: `\\`, `"` and `$` are escaped.
pub open spec fn word_char() -> spec_fn(char) -> Seq<char> {
    |c: char|
        if c == '\\' || c == '"' || c == '$' {
            seq!['\\', c]
        } else {
            seq![c]
        }
}

/// A value as one double-quoted tmux word.
pub open spec fn double_quoted(value: Seq<char>) -> Seq<char> {
    seq!['"'] + scan::expand(value, word_char()) + seq!['"']
}

/// Quotes a value as one double-quoted tmux word.
pub fn tmux_word(value: &str) -> (r: String)
    ensures
        r@ == double_quoted(value@),
{
    let v = to_chars(value);
    let mut r = String::new();
    r.push('"');
    let mut i: usize = 0;
    let ghost f = word_char();
    assert(r@ =~= seq!['"'] + scan::expand(v@.take(0), f));
    while i < v.len()
        invariant
            i <= v.len(),
            r@ == seq!['"'] + scan::expand(v@.take(i as int), f),
        decreases v.len() - i,
    {
        let c: char = v[i];
        let ghost before = r@;
        if c == '\\' || c == '"' || c == '$' {
            r.push('\\');
        }
        r.push(c);
        proof {
            scan::expand_step(v@, i as int, f);
            assert(r@ =~= before + f(c));
            assert(seq!['"'] + (scan::expand(v@.take(i as int), f) + f(c)) =~= before + f(c));
        }
        i += 1;
    }
    assert(v@.take(v@.len() as int) =~= v@);
    r.push('"');
    assert(r@ =~= double_quoted(value@));
    r
}

// ---------------------------------------------------------------------------
// Literals in tmux formats
// ---------------------------------------------------------------------------

/// A character inside a format: `#`, `,` and `}` are escaped with `#`.
pub open spec fn format_char() -> spec_fn(char) -> Seq<char> {
    |c: char|
        if c == '#' || c == ',' || c == '}' {
            seq!['#', c]
        } else {
            seq![c]
        }
}

/// A value as a literal inside a format.
pub open spec fn format_literal(value: Seq<char>) -> Seq<char> {
    scan::expand(value, format_char())
}

/// How tmux reads the escapes of a literal inside a format.
pub open spec fn read_format(s: Seq<char>) -> Seq<char>
    decreases s.len(),
{
    if s.len() == 0 {
        Seq::empty()
    } else if s[0] == '#' && s.len() > 1 && (s[1] == '#' || s[1] == ',' || s[1] == '}') {
        seq![s[1]] + read_format(s.skip(2))
    } else {
        seq![s[0]] + read_format(s.skip(1))
    }
}

/// Reading a format literal gives the value back.
pub proof fn format_literal_reads_back(value: Seq<char>)
    ensures
        read_format(format_literal(value)) == value,
    decreases value.len(),
{
    let f = format_char();
    if value.len() > 0 {
        let head = value[0];
        let rest = value.skip(1);
        format_literal_reads_back(rest);
        assert(value =~= seq![head] + rest);
        scan::expand_append(seq![head], rest, f);
        assert(seq![head].drop_last() =~= Seq::<char>::empty());
        assert(scan::expand(seq![head], f) =~= f(head)) by {
            assert(scan::expand(Seq::<char>::empty(), f) =~= Seq::<char>::empty());
        }
        let tail = scan::expand(rest, f);
        let s = f(head) + tail;
        assert(format_literal(value) =~= s);
        if head == '#' || head == ',' || head == '}' {
            assert(s.skip(2) =~= tail);
        } else {
            assert(s.skip(1) =~= tail);
        }
    } else {
        assert(value =~= Seq::<char>::empty());
    }
}

/// No `,` or `}` of the value can end the format that holds its literal: each
/// stands behind a `#`.
pub fn tmux_format_literal(value: &str) -> (r: String)
    ensures
        r@ == format_literal(value@),
{
    let v = to_chars(value);
    let mut r = String::new();
    let mut i: usize = 0;
    let ghost f = format_char();
    while i < v.len()
        invariant
            i <= v.len(),
            r@ == scan::expand(v@.take(i as int), f),
        decreases v.len() - i,
    {
        let c: char = v[i];
        let ghost before = r@;
        if c == '#' || c == ',' || c == '}' {
            r.push('#');
            r.push(c);
        } else {
            r.push(c);
        }
        proof {
            scan::expand_step(v@, i as int, f);
            assert(r@ =~= before + f(c));
        }
        i += 1;
    }
    assert(v@.take(v@.len() as int) =~= v@);
    r
}

// ---------------------------------------------------------------------------
// Pane titles
// ---------------------------------------------------------------------------

/// The number of `#` at the start of a text.
pub open spec fn leading_hashes(s: Seq<char>) -> nat
    decreases s.len(),
{
    if s.len() > 0 && s[0] == '#' {
        1 + leading_hashes(s.skip(1))
    } else {
        0
    }
}

pub open spec fn hashes(n: nat) -> Seq<char> {
    Seq::new(n, |i: int| '#')
}

pub proof fn leading_hashes_bound(s: Seq<char>)
    ensures
        leading_hashes(s) <= s.len(),
        s.len() > 0 && s[0] == '#' ==> leading_hashes(s) > 0,
    decreases s.len(),
{
    if s.len() > 0 && s[0] == '#' {
        leading_hashes_bound(s.skip(1));
    }
}

/// A title as `select-pane -T` has to be given it: each run of `#` doubled,
/// except a run directly before `[`, which tmux keeps as it stands.
pub open spec fn title_literal(t: Seq<char>) -> Seq<char>
    decreases t.len(),
{
    if t.len() == 0 {
        Seq::empty()
    } else if t[0] != '#' {
        seq![t[0]] + title_literal(t.skip(1))
    } else {
        let n = leading_hashes(t);
        let rest = t.skip(n as int);
        if n == 0 || n > t.len() {
            Seq::empty()
        } else if rest.len() > 0 && rest[0] == '[' {
            hashes(n) + title_literal(rest)
        } else {
            hashes(2 * n) + title_literal(rest)
        }
    }
}

/// What tmux stores of a title argument without formats: each run of `#` halved,
/// except a run directly before `[`.
pub open spec fn read_title(s: Seq<char>) -> Seq<char>
    decreases s.len(),
{
    if s.len() == 0 {
        Seq::empty()
    } else if s[0] != '#' {
        seq![s[0]] + read_title(s.skip(1))
    } else {
        let n = leading_hashes(s);
        let rest = s.skip(n as int);
        if n == 0 || n > s.len() {
            Seq::empty()
        } else if rest.len() > 0 && rest[0] == '[' {
            hashes(n) + read_title(rest)
        } else {
            hashes(n / 2) + read_title(rest)
        }
    }
}

proof fn leading_hashes_of_run(n: nat, tail: Seq<char>)
    requires
        tail.len() == 0 || tail[0] != '#',
    ensures
        leading_hashes(hashes(n) + tail) == n,
    decreases n,
{
    let s = hashes(n) + tail;
    if n > 0 {
        assert(s.skip(1) =~= hashes((n - 1) as nat) + tail);
        leading_hashes_of_run((n - 1) as nat, tail);
    } else {
        assert(s =~= tail);
    }
}

proof fn leading_hashes_exact(t: Seq<char>)
    ensures
        leading_hashes(t) <= t.len(),
        t.take(leading_hashes(t) as int) == hashes(leading_hashes(t)),
        t.skip(leading_hashes(t) as int).len() == 0 || t.skip(leading_hashes(t) as int)[0] != '#',
    decreases t.len(),
{
    let n = leading_hashes(t);
    if t.len() > 0 && t[0] == '#' {
        leading_hashes_exact(t.skip(1));
        let m = leading_hashes(t.skip(1));
        assert(t.skip(1).skip(m as int) =~= t.skip(n as int));
        assert(t.take(n as int) =~= hashes(n)) by {
            assert forall|i: int| 0 <= i < n implies t[i] == '#' by {
                if i > 0 {
                    assert(t.skip(1).take(m as int)[i - 1] == hashes(m)[i - 1]);
                    assert(t.skip(1)[i - 1] == t[i]);
                }
            }
        }
    } else {
        assert(t.take(0) =~= hashes(0));
        assert(t.skip(0) =~= t);
    }
}

/// The title that tmux stores for a literal is the title itself.
pub proof fn title_literal_reads_back(t: Seq<char>)
    ensures
        read_title(title_literal(t)) == t,
    decreases t.len(),
{
    if t.len() == 0 {
        assert(t =~= Seq::<char>::empty());
    } else if t[0] != '#' {
        title_literal_reads_back(t.skip(1));
        let s = title_literal(t);
        assert(s.skip(1) =~= title_literal(t.skip(1)));
        assert(seq![t[0]] + t.skip(1) =~= t);
    } else {
        let n = leading_hashes(t);
        leading_hashes_exact(t);
        leading_hashes_bound(t);
        let rest = t.skip(n as int);
        title_literal_reads_back(rest);
        let tail = title_literal(rest);
        assert(tail.len() == 0 <==> rest.len() == 0) by {
            if rest.len() > 0 {
                assert(tail[0] == rest[0]);
            }
        }
        assert(rest.len() > 0 ==> tail[0] == rest[0]);
        let s = title_literal(t);
        assert(hashes(n) + rest =~= t);
        if rest.len() > 0 && rest[0] == '[' {
            leading_hashes_of_run(n, tail);
            assert(s.skip(n as int) =~= tail);
            assert(s[0] == hashes(n)[0]);
        } else {
            leading_hashes_of_run(2 * n, tail);
            assert(s.skip(2 * n as int) =~= tail);
            assert(s[0] == hashes(2 * n)[0]);
        }
    }
}

fn push_hashes(r: &mut String, n: usize)
    ensures
        final(r)@ == old(r)@ + hashes(n as nat),
{
    let ghost before = r@;
    let mut i: usize = 0;
    while i < n
        invariant
            i <= n,
            r@ =~= before + hashes(i as nat),
        decreases n - i,
    {
        r.push('#');
        i += 1;
    }
}

/// Where a run of hashes ends.
fn run_end(v: &Vec<char>, i: usize) -> (end: usize)
    requires
        i < v.len(),
        v@[i as int] == '#',
    ensures
        i < end <= v@.len(),
        forall|j: int| i <= j < end ==> v@[j] == '#',
        end < v@.len() ==> v@[end as int] != '#',
{
    let mut end: usize = i + 1;
    while end < v.len() && v[end] == '#'
        invariant
            i < end <= v.len(),
            forall|j: int| i <= j < end ==> v@[j] == '#',
        decreases v.len() - end,
    {
        end += 1;
    }
    end
}

/// Encodes a title for `select-pane -T` without changing its text.
pub fn tmux_title_literal(title: &str) -> (r: String)
    ensures
        r@ == title_literal(title@),
{
    let v = to_chars(title);
    let mut r = String::new();
    let mut i: usize = 0;
    assert(v@.skip(0) =~= v@);
    assert(r@ + title_literal(v@) =~= title_literal(v@));
    while i < v.len()
        invariant
            i <= v.len(),
            r@ + title_literal(v@.skip(i as int)) == title_literal(v@),
        decreases v.len() - i,
    {
        let ghost before = r@;
        let ghost t = v@.skip(i as int);
        if v[i] != '#' {
            r.push(v[i]);
            proof {
                assert(t.skip(1) =~= v@.skip(i + 1));
                assert(before + (seq![t[0]] + title_literal(v@.skip(i + 1))) =~= before.push(t[0])
                    + title_literal(v@.skip(i + 1)));
            }
            i += 1;
        } else {
            let end: usize = run_end(&v, i);
            let n: usize = end - i;
            proof {
                let tail = v@.skip(end as int);
                assert(t =~= hashes(n as nat) + tail);
                leading_hashes_of_run(n as nat, tail);
                assert(t.skip(n as int) =~= tail);
            }
            push_hashes(&mut r, n);
            if !(end < v.len() && v[end] == '[') {
                push_hashes(&mut r, n);
                assert(r@ =~= before + hashes((2 * n) as nat));
            }
            proof {
                let tail = title_literal(v@.skip(end as int));
                if end < v.len() && v@[end as int] == '[' {
                    assert(before + (hashes(n as nat) + tail) =~= r@ + tail);
                } else {
                    assert(before + (hashes((2 * n) as nat) + tail) =~= r@ + tail);
                }
            }
            i = end;
        }
    }
    assert(v@.skip(v@.len() as int) =~= Seq::<char>::empty());
    assert(r@ + Seq::<char>::empty() =~= r@);
    r
}

// ---------------------------------------------------------------------------
// Format conditions
// ---------------------------------------------------------------------------

/// The condition that a format variable has a value.
pub open spec fn equals_clause(name: Seq<char>, value: Seq<char>) -> Seq<char> {
    "#{==:#{"@ + name + "},"@ + value + "}"@
}

/// The condition that two conditions hold.
pub open spec fn both_clause(left: Seq<char>, right: Seq<char>) -> Seq<char> {
    "#{&&:"@ + left + ","@ + right + "}"@
}

/// The condition that every clause of a list holds.
pub open spec fn all_clauses(clauses: Seq<Seq<char>>) -> Seq<char>
    decreases clauses.len(),
{
    if clauses.len() == 0 {
        Seq::empty()
    } else if clauses.len() == 1 {
        clauses[0]
    } else {
        both_clause(all_clauses(clauses.drop_last()), clauses.last())
    }
}

pub fn equals(name: &str, value: &str) -> (r: String)
    ensures
        r@ == equals_clause(name@, value@),
{
    let mut s = "#{==:#{".to_owned();
    s.append(name);
    s.append("},");
    s.append(value);
    s.append("}");
    s
}

pub fn both(left: &str, right: &str) -> (r: String)
    ensures
        r@ == both_clause(left@, right@),
{
    let mut s = "#{&&:".to_owned();
    s.append(left);
    s.append(",");
    s.append(right);
    s.append("}");
    s
}

/// Joins clauses into one condition.
pub fn all_of(clauses: &Vec<String>) -> (r: String)
    requires
        clauses.len() > 0,
    ensures
        r@ == all_clauses(text::texts(clauses@)),
{
    let ghost all = text::texts(clauses@);
    let mut r = clauses[0].clone();
    let mut i: usize = 1;
    assert(all.take(1).len() == 1);
    while i < clauses.len()
        invariant
            1 <= i <= clauses.len(),
            r@ == all_clauses(all.take(i as int)),
        decreases clauses.len() - i,
    {
        proof {
            assert(all.take(i + 1).drop_last() =~= all.take(i as int));
            assert(all.take(i + 1).last() == clauses@[i as int]@);
        }
        r = both(&r, &clauses[i]);
        i += 1;
    }
    assert(all.take(all.len() as int) =~= all);
    r
}

// ---------------------------------------------------------------------------
// Command sequences as text
// ---------------------------------------------------------------------------

/// One argument inside a command text: `;` separates commands unless it is the
/// argument marked as a value.
pub open spec fn command_word(word: Seq<char>, is_value: bool) -> Seq<char> {
    if word == ";"@ && !is_value {
        ";"@
    } else {
        quoted(word)
    }
}

/// An argument vector as the text of a tmux command sequence.
pub open spec fn command_text(arguments: Seq<Seq<char>>, value_index: Option<int>) -> Seq<char> {
    scan::join_with(
        Seq::new(arguments.len(), |i: int| command_word(arguments[i], value_index == Some(i))),
        " "@,
    )
}

pub fn tmux_command(arguments: &Vec<String>, value_index: Option<usize>) -> (r: String)
    ensures
        r@ == command_text(
            text::texts(arguments@),
            match value_index {
                Some(i) => Some(i as int),
                None => None,
            },
        ),
{
    let ghost index: Option<int> = match value_index {
        Some(i) => Some(i as int),
        None => None,
    };
    let ghost all = text::texts(arguments@);
    let ghost whole = Seq::new(all.len(), |i: int| command_word(all[i], index == Some(i)));
    let mut parts = text::no_texts();
    let mut i: usize = 0;
    while i < arguments.len()
        invariant
            i <= arguments.len(),
            text::texts(parts@) =~= whole.take(i as int),
        decreases arguments.len() - i,
    {
        let is_value = match value_index {
            Some(at) => at == i,
            None => false,
        };
        assert(is_value == (index == Some(i as int)));
        if text::text_equal(&arguments[i], ";") && !is_value {
            text::put(&mut parts, ";");
        } else {
            text::push_text(&mut parts, tmux_quote(&arguments[i]));
        }
        i += 1;
    }
    assert(whole.take(whole.len() as int) =~= whole);
    text::join_texts(&parts, " ")
}

} // verus!
