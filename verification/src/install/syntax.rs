//! Reading a host tmux configuration far enough to see whether it binds Left in
//! the root table. What cannot be read counts as a binding.

use vstd::prelude::*;
use crate::scan;
use crate::text;
use crate::text::{slice_text, text_equal, to_chars};
use crate::tmux::quote;

verus! {

/// ASCII white space as the tmux parser sees it.
pub open spec fn is_ascii_space(c: char) -> bool {
    c == ' ' || c == '\t' || c == '\n' || c == '\u{c}' || c == '\r'
}

/// The commands read so far, and what is being read.
#[verifier::ext_equal]
pub struct Reading {
    pub commands: Seq<Seq<Seq<char>>>,
    pub word: Seq<char>,
    pub quote: Option<char>,
    pub escaped: bool,
    /// A comment began.
    pub stopped: bool,
}

pub open spec fn start_reading() -> Reading {
    Reading {
        commands: seq![Seq::<Seq<char>>::empty()],
        word: Seq::empty(),
        quote: None,
        escaped: false,
        stopped: false,
    }
}

/// The word ends; an empty one does not count.
pub open spec fn end_word(r: Reading) -> Reading {
    if r.word.len() == 0 {
        r
    } else {
        Reading {
            commands: r.commands.drop_last().push(r.commands.last().push(r.word)),
            word: Seq::empty(),
            ..r
        }
    }
}

/// One more character of a line.
pub open spec fn read_char(r: Reading, c: char) -> Reading {
    if r.stopped {
        r
    } else if r.escaped {
        Reading { word: r.word.push(c), escaped: false, ..r }
    } else if c == '\\' {
        Reading { escaped: true, ..r }
    } else if r.quote is Some {
        if c == r.quote->0 {
            Reading { quote: None, ..r }
        } else {
            Reading { word: r.word.push(c), ..r }
        }
    } else if c == '\'' || c == '"' {
        Reading { quote: Some(c), ..r }
    } else if c == ';' {
        let ended = end_word(r);
        Reading { commands: ended.commands.push(Seq::empty()), ..ended }
    } else if c == '#' && r.word.len() == 0 && r.commands.last().len() == 0 {
        Reading { stopped: true, ..r }
    } else if is_ascii_space(c) {
        end_word(r)
    } else {
        Reading { word: r.word.push(c), ..r }
    }
}

pub open spec fn read_chars(r: Reading, s: Seq<char>) -> Reading
    decreases s.len(),
{
    if s.len() == 0 {
        r
    } else {
        read_char(read_chars(r, s.drop_last()), s.last())
    }
}

/// The commands of a line, each a list of words; `None` where a quote or an
/// escape is left open.
pub open spec fn commands_of(line: Seq<char>) -> Option<Seq<Seq<Seq<char>>>> {
    let r = read_chars(start_reading(), line);
    if r.escaped || r.quote is Some {
        None
    } else {
        Some(end_word(r).commands)
    }
}

proof fn read_chars_append(r: Reading, a: Seq<char>, b: Seq<char>)
    ensures
        read_chars(r, a + b) == read_chars(read_chars(r, a), b),
    decreases b.len(),
{
    if b.len() == 0 {
        assert(a + b =~= a);
    } else {
        read_chars_append(r, a, b.drop_last());
        assert((a + b).drop_last() =~= a + b.drop_last());
    }
}

proof fn read_quoted_value(value: Seq<char>)
    ensures
        ({
            let open = Reading { quote: Some('"'), ..start_reading() };
            read_chars(open, scan::expand(value, quote::word_char())) == Reading {
                word: value,
                ..open
            }
        }),
    decreases value.len(),
{
    let open = Reading { quote: Some('"'), ..start_reading() };
    let f = quote::word_char();
    if value.len() == 0 {
        assert(value =~= Seq::<char>::empty());
        assert(scan::expand(value, f) =~= Seq::<char>::empty());
    } else {
        let head = value.drop_last();
        let c = value.last();
        read_quoted_value(head);
        read_chars_append(open, scan::expand(head, f), f(c));
        let so_far = Reading { word: head, ..open };
        assert(head.push(c) =~= value);
        if c == '\\' || c == '"' || c == '$' {
            let piece = seq!['\\', c];
            assert(piece.drop_last() =~= seq!['\\']);
            assert(seq!['\\'].drop_last() =~= Seq::<char>::empty());
            assert(read_chars(so_far, Seq::<char>::empty()) == so_far);
            assert(read_chars(so_far, seq!['\\']) == Reading { escaped: true, ..so_far });
            assert(read_chars(so_far, piece) == Reading { word: value, ..open });
        } else {
            let piece = seq![c];
            assert(piece.drop_last() =~= Seq::<char>::empty());
            assert(read_chars(so_far, Seq::<char>::empty()) == so_far);
            assert(read_chars(so_far, piece) == Reading { word: value, ..open });
        }
    }
}

/// A double-quoted word reads as one command of one word, the quoted value.
pub proof fn quoted_word_is_one_word(value: Seq<char>)
    requires
        value.len() > 0,
    ensures
        commands_of(quote::double_quoted(value)) == Some(seq![seq![value]]),
{
    let start = start_reading();
    let open = Reading { quote: Some('"'), ..start };
    let inner = scan::expand(value, quote::word_char());
    let q = seq!['"'];
    assert(q.drop_last() =~= Seq::<char>::empty());
    assert(read_chars(start, Seq::<char>::empty()) == start);
    assert(read_chars(start, q) == open);
    read_quoted_value(value);
    read_chars_append(start, q, inner);
    read_chars_append(start, q + inner, q);
    let filled = Reading { word: value, ..open };
    assert(read_chars(filled, Seq::<char>::empty()) == filled);
    assert(read_chars(filled, q) == Reading { quote: None, ..filled });
    let end = Reading { quote: None, ..filled };
    let ended = end_word(end).commands;
    assert(ended =~= seq![Seq::<Seq<char>>::empty().push(value)]);
    assert(Seq::<Seq<char>>::empty().push(value) =~= seq![value]);
}

/// What the options of a bind command, from a position on, amount to: an unknown
/// option, or no key at all, counts as a binding of Left.
pub open spec fn options_bind_left(words: Seq<Seq<char>>, k: int, table: Seq<char>) -> bool
    decreases words.len() + 2 - k,
{
    if k < 0 || k >= words.len() {
        true
    } else if words[k] == "-n"@ {
        options_bind_left(words, k + 1, "root"@)
    } else if words[k] == "-T"@ {
        options_bind_left(
            words,
            k + 2,
            if k + 1 < words.len() {
                words[k + 1]
            } else {
                Seq::empty()
            },
        )
    } else if words[k] == "-N"@ {
        options_bind_left(words, k + 2, table)
    } else if words[k] == "-r"@ {
        options_bind_left(words, k + 1, table)
    } else if words[k].len() > 1 && words[k][0] == '-' {
        true
    } else {
        table == "root"@ && words[k] == "Left"@
    }
}

/// The command binds Left in the root table, or may.
pub open spec fn command_binds_left(words: Seq<Seq<char>>) -> bool {
    &&& words.len() > 0
    &&& words[0] == "bind"@ || words[0] == "bind-key"@
    &&& options_bind_left(words, 1, "prefix"@)
}

/// The characters of a text before its first ASCII white space.
pub open spec fn first_word(s: Seq<char>) -> Seq<char>
    decreases s.len(),
{
    if s.len() == 0 || is_ascii_space(s[0]) {
        Seq::empty()
    } else {
        seq![s[0]] + first_word(s.skip(1))
    }
}

/// The line binds Left in the root table, or may.
pub open spec fn line_binds_left(line: Seq<char>) -> bool {
    let first = first_word(scan::trim_start(line));
    match commands_of(line) {
        None => first == "bind"@ || first == "bind-key"@,
        Some(commands) => exists|i: int|
            0 <= i < commands.len() && command_binds_left(#[trigger] commands[i]),
    }
}

/// The number of backslashes at the end of a text.
pub open spec fn trailing_backslashes(s: Seq<char>) -> nat
    decreases s.len(),
{
    if s.len() > 0 && s.last() == '\\' {
        1 + trailing_backslashes(s.drop_last())
    } else {
        0
    }
}

pub open spec fn continues(line: Seq<char>) -> bool {
    trailing_backslashes(line) % 2 == 1
}

/// Some logical line, from a physical line on, binds Left. A line that ends in
/// an unescaped backslash continues on the next one.
pub open spec fn lines_bind_left(lines: Seq<Seq<char>>, k: int, logical: Seq<char>) -> bool
    decreases lines.len() - k,
{
    if k < 0 || k + 1 >= lines.len() {
        let rest = if 0 <= k < lines.len() {
            logical + lines[k]
        } else {
            logical
        };
        rest.len() > 0 && line_binds_left(rest)
    } else {
        let line = logical + lines[k];
        if continues(line) {
            lines_bind_left(lines, k + 1, line.drop_last())
        } else {
            line_binds_left(line) || lines_bind_left(lines, k + 1, Seq::empty())
        }
    }
}

/// The configuration binds Left in the root table, or may.
pub open spec fn text_binds_left(contents: Seq<char>) -> bool {
    lines_bind_left(scan::split_on(contents, '\n'), 0, Seq::empty())
}

// ---------------------------------------------------------------------------
// Functions
// ---------------------------------------------------------------------------

fn is_space(c: char) -> (r: bool)
    ensures
        r == is_ascii_space(c),
{
    c == ' ' || c == '\t' || c == '\n' || c == '\u{c}' || c == '\r'
}

fn push_row_word(commands: &mut Vec<Vec<String>>, word: String)
    requires
        old(commands).len() > 0,
    ensures
        text::rows(final(commands)@) == text::rows(old(commands)@).drop_last().push(
            text::rows(old(commands)@).last().push(word@),
        ),
        final(commands).len() == old(commands).len(),
{
    let ghost before = text::rows(commands@);
    let ghost w = word@;
    match commands.pop() {
        Some(last) => {
            let mut row = last;
            let ghost row_before = text::texts(row@);
            assert(before.last() == row_before);
            text::push_text(&mut row, word);
            commands.push(row);
            assert(text::rows(commands@) =~= before.drop_last().push(row_before.push(w)));
        },
        None => {},
    }
}

/// The commands of a line, each a list of words.
pub fn tmux_commands(line: &str) -> (r: Option<Vec<Vec<String>>>)
    ensures
        match r {
            Some(commands) => commands_of(line@) == Some(text::rows(commands@)),
            None => commands_of(line@) is None,
        },
{
    let v = to_chars(line);
    let first: Vec<String> = Vec::new();
    let mut commands: Vec<Vec<String>> = Vec::new();
    commands.push(first);
    let mut word = String::new();
    let mut quote: Option<char> = None;
    let mut escaped = false;
    let mut stopped = false;
    let mut i: usize = 0;
    proof {
        assert(text::texts(first@) =~= Seq::<Seq<char>>::empty());
        assert(text::rows(commands@) =~= seq![Seq::<Seq<char>>::empty()]);
        assert(v@.take(0) =~= Seq::<char>::empty());
    }
    while i < v.len()
        invariant
            i <= v.len(),
            commands.len() > 0,
            read_chars(start_reading(), v@.take(i as int)) == (Reading {
                commands: text::rows(commands@),
                word: word@,
                quote,
                escaped,
                stopped,
            }),
        decreases v.len() - i,
    {
        let c: char = v[i];
        let ghost before = read_chars(start_reading(), v@.take(i as int));
        proof {
            assert(v@.take(i + 1).drop_last() =~= v@.take(i as int));
            assert(v@.take(i + 1).last() == c);
            assert(text::rows(commands@).last() == text::texts(
                commands@[commands@.len() - 1]@,
            ));
        }
        i += 1;
        if stopped {
            continue ;
        }
        if escaped {
            word.push(c);
            escaped = false;
            continue ;
        }
        if c == '\\' {
            escaped = true;
            continue ;
        }
        if let Some(delimiter) = quote {
            if c == delimiter {
                quote = None;
            } else {
                word.push(c);
            }
            continue ;
        }
        if c == '\'' || c == '"' {
            quote = Some(c);
        } else if c == ';' {
            if !word.as_str().is_empty() {
                push_row_word(&mut commands, word);
                word = String::new();
            }
            let empty: Vec<String> = Vec::new();
            let ghost rows_before = text::rows(commands@);
            commands.push(empty);
            proof {
                assert(text::texts(empty@) =~= Seq::<Seq<char>>::empty());
                assert(text::rows(commands@) =~= rows_before.push(Seq::empty()));
                assert(word@ =~= Seq::<char>::empty());
            }
        } else if c == '#' && word.as_str().is_empty() && commands[commands.len() - 1].len() == 0 {
            stopped = true;
        } else if is_space(c) {
            if !word.as_str().is_empty() {
                push_row_word(&mut commands, word);
                word = String::new();
            }
        } else {
            word.push(c);
        }
    }
    assert(v@.take(v@.len() as int) =~= v@);
    if escaped || quote.is_some() {
        return None;
    }
    if !word.as_str().is_empty() {
        push_row_word(&mut commands, word);
    }
    Some(commands)
}

/// Whether a command binds Left in the root table, or may.
pub fn command_binds_root_left(words: &Vec<String>) -> (r: bool)
    ensures
        r == command_binds_left(text::texts(words@)),
{
    let ghost all = text::texts(words@);
    assert(all.len() == words@.len());
    if words.len() == 0 {
        return false;
    }
    assert(all[0] == words@[0]@);
    if !text_equal(&words[0], "bind") && !text_equal(&words[0], "bind-key") {
        return false;
    }
    let mut table = "prefix".to_owned();
    let mut k: usize = 1;
    while k < words.len()
        invariant
            k >= 1,
            k <= words.len(),
            all.len() == words.len(),
            options_bind_left(all, 1, "prefix"@) == options_bind_left(all, k as int, table@),
        decreases words.len() - k,
    {
        assert(all[k as int] == words@[k as int]@);
        let word = &words[k];
        if text_equal(word, "-n") {
            table = "root".to_owned();
            k += 1;
        } else if text_equal(word, "-T") {
            if k >= words.len() - 1 {
                assert(options_bind_left(all, k + 2, Seq::empty()));
                return true;
            }
            assert(all[k + 1] == words@[k + 1]@);
            table = words[k + 1].clone();
            k += 2;
        } else if text_equal(word, "-N") {
            if k >= words.len() - 1 {
                assert(options_bind_left(all, k + 2, table@));
                return true;
            }
            k += 2;
        } else if text_equal(word, "-r") {
            k += 1;
        } else {
            let v = to_chars(word);
            if v.len() > 1 && v[0] == '-' {
                return true;
            }
            return text_equal(&table, "root") && text_equal(word, "Left");
        }
    }
    true
}

fn trimmed_start(s: &str) -> (r: String)
    ensures
        r@ == scan::trim_start(s@),
{
    let v = to_chars(s);
    let mut from: usize = 0;
    assert(v@.skip(0) =~= v@);
    while from < v.len() && v[from].is_whitespace()
        invariant
            from <= v.len(),
            scan::trim_start(v@) == scan::trim_start(v@.skip(from as int)),
        decreases v.len() - from,
    {
        assert(v@.skip(from as int).skip(1) =~= v@.skip(from + 1));
        from += 1;
    }
    assert(v@.subrange(from as int, v@.len() as int) =~= v@.skip(from as int));
    slice_text(&v, from, v.len())
}

fn leading_word(s: &str) -> (r: String)
    ensures
        r@ == first_word(s@),
{
    let v = to_chars(s);
    let mut r = String::new();
    let mut i: usize = 0;
    assert(v@.skip(0) =~= v@);
    assert(r@ + first_word(v@) =~= first_word(v@));
    while i < v.len() && !is_space(v[i])
        invariant
            i <= v.len(),
            r@ + first_word(v@.skip(i as int)) == first_word(v@),
        decreases v.len() - i,
    {
        let ghost before = r@;
        r.push(v[i]);
        proof {
            assert(v@.skip(i as int).skip(1) =~= v@.skip(i + 1));
            let rest = first_word(v@.skip(i + 1));
            assert(before + (seq![v@[i as int]] + rest) =~= before.push(v@[i as int]) + rest);
        }
        i += 1;
    }
    assert(r@ + Seq::<char>::empty() =~= r@);
    r
}

/// Whether a line binds Left in the root table, or may.
pub fn line_binds_root_left(line: &str) -> (r: bool)
    ensures
        r == line_binds_left(line@),
{
    let first = leading_word(&trimmed_start(line));
    let commands = match tmux_commands(line) {
        None => return text_equal(&first, "bind") || text_equal(&first, "bind-key"),
        Some(commands) => commands,
    };
    let ghost all = text::rows(commands@);
    let mut i: usize = 0;
    while i < commands.len()
        invariant
            i <= commands.len(),
            forall|j: int| 0 <= j < i ==> !command_binds_left(#[trigger] all[j]),
        decreases commands.len() - i,
    {
        assert(all[i as int] == text::texts(commands@[i as int]@));
        if command_binds_root_left(&commands[i]) {
            proof {
                assert(commands_of(line@) == Some(all));
                let read = commands_of(line@)->0;
                assert(command_binds_left(read[i as int]));
            }
            return true;
        }
        i += 1;
    }
    false
}

/// Whether a line continues on the next one.
pub fn has_unescaped_trailing_backslash(line: &str) -> (r: bool)
    ensures
        r == continues(line@),
{
    let v = to_chars(line);
    let mut end: usize = v.len();
    let mut count: usize = 0;
    assert(v@.take(v@.len() as int) =~= v@);
    while end > 0 && v[end - 1] == '\\'
        invariant
            end <= v.len(),
            count == v.len() - end,
            trailing_backslashes(v@) == count + trailing_backslashes(v@.take(end as int)),
        decreases end,
    {
        assert(v@.take(end as int).drop_last() =~= v@.take(end - 1));
        end -= 1;
        count += 1;
    }
    count % 2 == 1
}

/// Whether a configuration binds Left in the root table, or may.
pub fn text_binds_root_left(contents: &str) -> (r: bool)
    ensures
        r == text_binds_left(contents@),
{
    let lines = scan::split_text(contents, '\n');
    let ghost all = scan::split_on(contents@, '\n');
    proof {
        scan::split_on_nonempty(contents@, '\n');
    }
    assert(all.len() == lines@.len());
    let mut logical = String::new();
    let mut k: usize = 0;
    assert(logical@ =~= Seq::<char>::empty());
    while k < lines.len() - 1
        invariant
            k < lines.len(),
            lines_bind_left(all, 0, Seq::empty()) == lines_bind_left(all, k as int, logical@),
        decreases lines.len() - k,
    {
        assert(all[k as int] == lines@[k as int]@);
        logical.append(&lines[k]);
        if has_unescaped_trailing_backslash(&logical) {
            let v = to_chars(&logical);
            proof {
                assert(v@.len() > 0);
                assert(v@.subrange(0, v@.len() - 1) =~= v@.drop_last());
            }
            logical = slice_text(&v, 0, v.len() - 1);
        } else {
            if line_binds_root_left(&logical) {
                return true;
            }
            logical = String::new();
            assert(logical@ =~= Seq::<char>::empty());
        }
        k += 1;
    }
    assert(all[k as int] == lines@[k as int]@);
    logical.append(&lines[k]);
    !logical.as_str().is_empty() && line_binds_root_left(&logical)
}

} // verus!
