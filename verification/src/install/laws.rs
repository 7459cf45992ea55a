//! What installing and removing the block keeps, for every text of a host file.

use vstd::prelude::*;
use crate::install::block;
use crate::install::block::PathsModel;
use crate::install::plan;
use crate::install::shape;
use crate::install::status;
use crate::markers;
use crate::path;
use crate::scan;
use crate::text;

verus! {

// ---------------------------------------------------------------------------
// The block
// ---------------------------------------------------------------------------

proof fn literal_starts()
    ensures
        block::BEGIN_MARKER@.len() >= 3,
        block::BEGIN_MARKER@[0] == '#',
        block::BEGIN_MARKER@[2] == '>',
        block::END_MARKER@.len() >= 3,
        block::END_MARKER@[0] == '#',
        block::END_MARKER@[2] == '<',
        block::MANAGED_NOTE@.len() >= 3,
        block::MANAGED_NOTE@[0] == '#',
        block::MANAGED_NOTE@[2] == 'M',
        "bind-key "@.len() == 9,
        "bind-key "@[0] == 'b',
{
    reveal_strlit("# >>> codex-mux >>>");
    reveal_strlit("# <<< codex-mux <<<");
    reveal_strlit("# Managed by codex-mux; changes inside this block are replaced.");
    reveal_strlit("bind-key ");
}

/// A line that holds neither a marker nor a field.
pub open spec fn plain(s: Seq<char>) -> bool {
    s.len() > 0 && s[0] != '#'
}

proof fn left_lines_are_plain(p: PathsModel)
    ensures
        forall|i: int|
            0 <= i < block::left_lines(p).len() ==> plain(#[trigger] block::left_lines(p)[i]),
{
    reveal_strlit("bind-key -T root Left if-shell -F '");
    reveal_strlit("  set-option -p @codex_mux_smart_left_active 1");
    reveal_strlit("  run-shell -b ");
    reveal_strlit("} {");
    reveal_strlit("  send-keys Left");
    reveal_strlit("}");
    let lines = block::left_lines(p);
    assert forall|i: int| 0 <= i < lines.len() implies plain(#[trigger] lines[i]) by {
        assert(lines[0][0] == "bind-key -T root Left if-shell -F '"@[0]);
        assert(lines[2][0] == "  run-shell -b "@[0]);
    }
}

/// The lines that are written form exactly one block.
pub proof fn written_lines_are_a_block(
    key: Seq<char>,
    smart_left: bool,
    p: PathsModel,
    newline: bool,
)
    requires
        shape::acceptable(key, p),
    ensures
        markers::is_block(
            block::block_lines(key, smart_left, p, newline),
            block::BEGIN_MARKER@,
            block::END_MARKER@,
        ),
{
    let lines = block::block_lines(key, smart_left, p, newline);
    let head = block::head_lines(key, p, newline);
    let values = block::value_lines(p);
    let tail = block::tail_lines(key, smart_left, p);
    shape::block_one_line(key, smart_left, p, newline);
    shape::fields_are_tags();
    literal_starts();
    left_lines_are_plain(p);
    shape::tagged_unlike_marker(block::MATCH_FIELD@, block::path_texts(p.match_executables));
    shape::tagged_unlike_marker(block::PANE_COMMAND_FIELD@, p.pane_commands);
    shape::tagged_unlike_marker(block::MATCH_COMMAND_REGEX_FIELD@, p.match_command_regexes);
    shape::tagged_unlike_marker(block::PANE_COMMAND_REGEX_FIELD@, p.pane_command_regexes);
    let v1 = block::tagged(block::MATCH_FIELD@, block::path_texts(p.match_executables));
    let v2 = block::tagged(block::PANE_COMMAND_FIELD@, p.pane_commands);
    let v3 = block::tagged(block::MATCH_COMMAND_REGEX_FIELD@, p.match_command_regexes);
    let v4 = block::tagged(block::PANE_COMMAND_REGEX_FIELD@, p.pane_command_regexes);
    assert forall|k: int| 0 < k < lines.len() - 1 implies shape::unlike_marker(
        #[trigger] lines[k],
    ) by {
        if k < head.len() {
            assert(lines[k] == head[k]);
            assert(shape::unlike_marker(head[1]));
            assert(shape::unlike_marker(head[2]));
            assert(shape::unlike_marker(head[3]));
            assert(shape::unlike_marker(head[4]));
            assert(shape::unlike_marker(head[5]));
            assert(shape::unlike_marker(head[6]));
            assert(shape::unlike_marker(head[7]));
        } else if k < head.len() + values.len() {
            let j = k - head.len();
            assert(lines[k] == values[j]);
            if j < v1.len() {
                assert(values[j] == v1[j]);
            } else if j < v1.len() + v2.len() {
                assert(values[j] == v2[j - v1.len()]);
            } else if j < v1.len() + v2.len() + v3.len() {
                assert(values[j] == v3[j - v1.len() - v2.len()]);
            } else {
                assert(values[j] == v4[j - v1.len() - v2.len() - v3.len()]);
            }
        } else {
            let j = k - head.len() - values.len();
            assert(lines[k] == tail[j]);
            if j == 0 {
                assert(tail[0] == block::SMART_LEFT_FIELD@ + block::flag_text(smart_left));
            } else if j == 1 {
                assert(tail[1] == "bind-key "@ + key + " run-shell -C "@ + block::popup_word(p));
                assert(tail[1][0] == "bind-key "@[0]);
            } else {
                assert(tail[j] == block::left_lines(p)[j - 2]);
            }
        }
    }
    assert(lines[0] == head[0]);
    assert(lines.last() == tail.last());
    assert(block::BEGIN_MARKER@[2] != block::END_MARKER@[2]);
    assert forall|k: int| 0 <= k < lines.len() implies !(#[trigger] lines[k]).contains('\n')
        && markers::content(lines[k]) == lines[k] by {
        assert(crate::one_line::one_line(lines[k]));
        crate::one_line::one_line_is_line(lines[k]);
    }
}

// ---------------------------------------------------------------------------
// The fields of the block
// ---------------------------------------------------------------------------

proof fn values_shift(a: Seq<Seq<char>>, b: Seq<Seq<char>>, j: int, prefix: Seq<char>)
    requires
        0 <= j <= b.len(),
    ensures
        markers::all_values(a + b, a.len() + j, prefix) == markers::all_values(b, j, prefix),
    decreases b.len() - j,
{
    if j < b.len() {
        values_shift(a, b, j + 1, prefix);
        assert((a + b)[a.len() + j] == b[j]);
    }
}

proof fn values_append(a: Seq<Seq<char>>, b: Seq<Seq<char>>, k: int, prefix: Seq<char>)
    requires
        0 <= k <= a.len(),
    ensures
        markers::all_values(a + b, k, prefix) == markers::all_values(a, k, prefix)
            + markers::all_values(b, 0, prefix),
    decreases a.len() - k,
{
    if k < a.len() {
        values_append(a, b, k + 1, prefix);
        assert((a + b)[k] == a[k]);
        let rest = markers::all_values(a, k + 1, prefix);
        let more = markers::all_values(b, 0, prefix);
        match scan::without_prefix(a[k], prefix) {
            Some(value) => {
                assert(seq![value] + (rest + more) =~= seq![value] + rest + more);
            },
            None => {},
        }
    } else {
        values_shift(a, b, 0, prefix);
        assert(Seq::<Seq<char>>::empty() + markers::all_values(b, 0, prefix)
            =~= markers::all_values(b, 0, prefix));
    }
}

/// The value of a line under a prefix, alone in a list where it has one.
pub open spec fn one_value(line: Seq<char>, prefix: Seq<char>) -> Seq<Seq<char>> {
    match scan::without_prefix(line, prefix) {
        Some(value) => seq![value],
        None => Seq::empty(),
    }
}

proof fn values_of_one(line: Seq<char>, prefix: Seq<char>)
    ensures
        markers::all_values(seq![line], 0, prefix) == one_value(line, prefix),
{
    let lines = seq![line];
    assert(markers::all_values(lines, 1, prefix) =~= Seq::<Seq<char>>::empty());
    assert(lines[0] == line);
    assert(markers::all_values(lines, 0, prefix) =~= one_value(line, prefix));
}

proof fn first_is_first_of_all(lines: Seq<Seq<char>>, k: int, prefix: Seq<char>)
    requires
        0 <= k <= lines.len(),
    ensures
        markers::first_value(lines, k, prefix) == if markers::all_values(lines, k, prefix).len()
            > 0 {
            Some(markers::all_values(lines, k, prefix)[0])
        } else {
            None
        },
    decreases lines.len() - k,
{
    if k < lines.len() {
        first_is_first_of_all(lines, k + 1, prefix);
    }
}

/// Under the prefix of one field, a line of another field has no value.
proof fn tags_are_apart(wanted: Seq<char>, tag: Seq<char>, value: Seq<char>)
    requires
        shape::is_tag(wanted),
        shape::is_tag(tag),
    ensures
        one_value(tag + value, wanted) == picked(wanted, tag, value),
{
    let line = tag + value;
    if wanted == tag {
        assert(wanted.is_prefix_of(line));
        assert(line.skip(tag.len() as int) =~= value);
    } else if wanted.is_prefix_of(line) {
        assert(line.take(wanted.len() as int) =~= wanted);
        if wanted.len() < tag.len() {
            assert(line[wanted.len() - 2] == wanted[wanted.len() - 2]);
            assert(tag[wanted.len() - 2] == ':');
        } else if wanted.len() > tag.len() {
            assert(line[tag.len() - 2] == wanted[tag.len() - 2]);
            assert(wanted[tag.len() - 2] == ':');
        } else {
            assert(wanted =~= tag);
        }
    }
}

proof fn plain_has_no_value(wanted: Seq<char>, line: Seq<char>)
    requires
        shape::is_tag(wanted),
        line.len() < 3 || line[0] != '#' || line[2] != 'c',
    ensures
        one_value(line, wanted) == Seq::<Seq<char>>::empty(),
{
    if wanted.is_prefix_of(line) {
        assert(line.take(wanted.len() as int) =~= wanted);
        assert(line[0] == wanted[0]);
        assert(line[2] == wanted[2]);
    }
}

/// A value where its field is the wanted one.
pub open spec fn picked(wanted: Seq<char>, tag: Seq<char>, value: Seq<char>) -> Seq<Seq<char>> {
    if wanted == tag {
        seq![value]
    } else {
        Seq::empty()
    }
}

/// Values where their field is the wanted one.
pub open spec fn all_picked(
    wanted: Seq<char>,
    tag: Seq<char>,
    values: Seq<Seq<char>>,
) -> Seq<Seq<char>> {
    if wanted == tag {
        values
    } else {
        Seq::empty()
    }
}

proof fn values_of_tagged(wanted: Seq<char>, tag: Seq<char>, values: Seq<Seq<char>>)
    requires
        shape::is_tag(wanted),
        shape::is_tag(tag),
    ensures
        markers::all_values(block::tagged(tag, values), 0, wanted) == all_picked(
            wanted,
            tag,
            values,
        ),
    decreases values.len(),
{
    let lines = block::tagged(tag, values);
    if values.len() == 0 {
        assert(lines.len() == 0);
        assert(markers::all_values(lines, 0, wanted) =~= Seq::<Seq<char>>::empty());
        assert(values =~= Seq::<Seq<char>>::empty());
    } else {
        let front = values.drop_last();
        values_of_tagged(wanted, tag, front);
        let last = tag + values.last();
        assert(lines =~= block::tagged(tag, front) + seq![last]);
        values_append(block::tagged(tag, front), seq![last], 0, wanted);
        values_of_one(last, wanted);
        tags_are_apart(wanted, tag, values.last());
        if wanted == tag {
            assert(front + seq![values.last()] =~= values);
        } else {
            assert(Seq::<Seq<char>>::empty() + Seq::<Seq<char>>::empty() =~= Seq::<
                Seq<char>,
            >::empty());
        }
    }
}

proof fn values_of_plain(wanted: Seq<char>, lines: Seq<Seq<char>>, k: int)
    requires
        shape::is_tag(wanted),
        0 <= k <= lines.len(),
        forall|i: int| 0 <= i < lines.len() ==> plain(#[trigger] lines[i]),
    ensures
        markers::all_values(lines, k, wanted) == Seq::<Seq<char>>::empty(),
    decreases lines.len() - k,
{
    if k < lines.len() {
        values_of_plain(wanted, lines, k + 1);
        assert(plain(lines[k]));
        plain_has_no_value(wanted, lines[k]);
    }
}

/// What a field of the written block says.
pub open spec fn written_values(
    wanted: Seq<char>,
    key: Seq<char>,
    smart_left: bool,
    p: PathsModel,
    newline: bool,
) -> Seq<Seq<char>> {
    picked(wanted, block::LEADING_NEWLINE_FIELD@, block::flag_text(newline)) + picked(
        wanted,
        block::KEY_FIELD@,
        key,
    ) + picked(wanted, block::BINARY_FIELD@, block::path_text(p.mux)) + picked(
        wanted,
        block::CODEX_FIELD@,
        block::path_text(p.codex),
    ) + picked(wanted, block::LAUNCH_FIELD@, block::path_text(p.codex)) + picked(
        wanted,
        block::MATCH_SCOPE_FIELD@,
        p.match_scope,
    ) + all_picked(wanted, block::MATCH_FIELD@, block::path_texts(p.match_executables))
        + all_picked(wanted, block::PANE_COMMAND_FIELD@, p.pane_commands) + all_picked(
        wanted,
        block::MATCH_COMMAND_REGEX_FIELD@,
        p.match_command_regexes,
    ) + all_picked(wanted, block::PANE_COMMAND_REGEX_FIELD@, p.pane_command_regexes) + picked(
        wanted,
        block::SMART_LEFT_FIELD@,
        block::flag_text(smart_left),
    )
}

proof fn empty_is_neutral(a: Seq<Seq<char>>)
    ensures
        a + Seq::<Seq<char>>::empty() == a,
        Seq::<Seq<char>>::empty() + a == a,
{
    assert(a + Seq::<Seq<char>>::empty() =~= a);
    assert(Seq::<Seq<char>>::empty() + a =~= a);
}

proof fn head_values(wanted: Seq<char>, key: Seq<char>, p: PathsModel, newline: bool)
    requires
        shape::is_tag(wanted),
    ensures
        markers::all_values(block::head_lines(key, p, newline), 0, wanted) == picked(
            wanted,
            block::LEADING_NEWLINE_FIELD@,
            block::flag_text(newline),
        ) + picked(wanted, block::KEY_FIELD@, key) + picked(
            wanted,
            block::BINARY_FIELD@,
            block::path_text(p.mux),
        ) + picked(wanted, block::CODEX_FIELD@, block::path_text(p.codex)) + picked(
            wanted,
            block::LAUNCH_FIELD@,
            block::path_text(p.codex),
        ) + picked(wanted, block::MATCH_SCOPE_FIELD@, p.match_scope),
{
    shape::fields_are_tags();
    literal_starts();
    let head = block::head_lines(key, p, newline);
    let s0 = seq![head[0]];
    let s1 = s0 + seq![head[1]];
    let s2 = s1 + seq![head[2]];
    let s3 = s2 + seq![head[3]];
    let s4 = s3 + seq![head[4]];
    let s5 = s4 + seq![head[5]];
    let s6 = s5 + seq![head[6]];
    assert(head =~= s6 + seq![head[7]]);
    values_append(s0, seq![head[1]], 0, wanted);
    values_append(s1, seq![head[2]], 0, wanted);
    values_append(s2, seq![head[3]], 0, wanted);
    values_append(s3, seq![head[4]], 0, wanted);
    values_append(s4, seq![head[5]], 0, wanted);
    values_append(s5, seq![head[6]], 0, wanted);
    values_append(s6, seq![head[7]], 0, wanted);
    values_of_one(head[0], wanted);
    values_of_one(head[1], wanted);
    values_of_one(head[2], wanted);
    values_of_one(head[3], wanted);
    values_of_one(head[4], wanted);
    values_of_one(head[5], wanted);
    values_of_one(head[6], wanted);
    values_of_one(head[7], wanted);
    plain_has_no_value(wanted, head[0]);
    plain_has_no_value(wanted, head[1]);
    tags_are_apart(wanted, block::LEADING_NEWLINE_FIELD@, block::flag_text(newline));
    tags_are_apart(wanted, block::KEY_FIELD@, key);
    tags_are_apart(wanted, block::BINARY_FIELD@, block::path_text(p.mux));
    tags_are_apart(wanted, block::CODEX_FIELD@, block::path_text(p.codex));
    tags_are_apart(wanted, block::LAUNCH_FIELD@, block::path_text(p.codex));
    tags_are_apart(wanted, block::MATCH_SCOPE_FIELD@, p.match_scope);
    empty_is_neutral(Seq::empty());
    empty_is_neutral(
        picked(wanted, block::LEADING_NEWLINE_FIELD@, block::flag_text(newline)),
    );
}

proof fn tail_values(wanted: Seq<char>, key: Seq<char>, smart_left: bool, p: PathsModel)
    requires
        shape::is_tag(wanted),
    ensures
        markers::all_values(block::tail_lines(key, smart_left, p), 0, wanted) == picked(
            wanted,
            block::SMART_LEFT_FIELD@,
            block::flag_text(smart_left),
        ),
{
    shape::fields_are_tags();
    literal_starts();
    left_lines_are_plain(p);
    let tail = block::tail_lines(key, smart_left, p);
    let field = block::SMART_LEFT_FIELD@ + block::flag_text(smart_left);
    let binding = "bind-key "@ + key + " run-shell -C "@ + block::popup_word(p);
    let left = if smart_left {
        block::left_lines(p)
    } else {
        Seq::<Seq<char>>::empty()
    };
    let a = seq![field] + seq![binding];
    let b = a + left;
    assert(tail =~= b + seq![block::END_MARKER@]);
    values_append(seq![field], seq![binding], 0, wanted);
    values_append(a, left, 0, wanted);
    values_append(b, seq![block::END_MARKER@], 0, wanted);
    values_of_one(field, wanted);
    values_of_one(binding, wanted);
    values_of_one(block::END_MARKER@, wanted);
    values_of_plain(wanted, left, 0);
    assert(binding[0] == "bind-key "@[0]);
    plain_has_no_value(wanted, binding);
    plain_has_no_value(wanted, block::END_MARKER@);
    tags_are_apart(wanted, block::SMART_LEFT_FIELD@, block::flag_text(smart_left));
    empty_is_neutral(picked(wanted, block::SMART_LEFT_FIELD@, block::flag_text(smart_left)));
}

proof fn values_of_parts(
    head: Seq<Seq<char>>,
    v1: Seq<Seq<char>>,
    v2: Seq<Seq<char>>,
    v3: Seq<Seq<char>>,
    v4: Seq<Seq<char>>,
    tail: Seq<Seq<char>>,
    wanted: Seq<char>,
)
    ensures
        markers::all_values(head + (v1 + v2 + v3 + v4) + tail, 0, wanted) == markers::all_values(
            head,
            0,
            wanted,
        ) + markers::all_values(v1, 0, wanted) + markers::all_values(v2, 0, wanted)
            + markers::all_values(v3, 0, wanted) + markers::all_values(v4, 0, wanted)
            + markers::all_values(tail, 0, wanted),
{
    values_append(v1, v2, 0, wanted);
    values_append(v1 + v2, v3, 0, wanted);
    values_append(v1 + v2 + v3, v4, 0, wanted);
    values_append(head, v1 + v2 + v3 + v4, 0, wanted);
    values_append(head + (v1 + v2 + v3 + v4), tail, 0, wanted);
    let h = markers::all_values(head, 0, wanted);
    let w1 = markers::all_values(v1, 0, wanted);
    let w2 = markers::all_values(v2, 0, wanted);
    let w3 = markers::all_values(v3, 0, wanted);
    let w4 = markers::all_values(v4, 0, wanted);
    assert(h + (w1 + w2 + w3 + w4) =~= h + w1 + w2 + w3 + w4);
}

proof fn block_values(
    wanted: Seq<char>,
    key: Seq<char>,
    smart_left: bool,
    p: PathsModel,
    newline: bool,
)
    requires
        shape::is_tag(wanted),
    ensures
        markers::all_values(block::block_lines(key, smart_left, p, newline), 0, wanted)
            == written_values(wanted, key, smart_left, p, newline),
{
    head_values(wanted, key, p, newline);
    tail_values(wanted, key, smart_left, p);
    assert(shape::is_tag(block::MATCH_FIELD@) && shape::is_tag(block::PANE_COMMAND_FIELD@)
        && shape::is_tag(block::MATCH_COMMAND_REGEX_FIELD@) && shape::is_tag(
        block::PANE_COMMAND_REGEX_FIELD@,
    )) by {
        shape::fields_are_tags();
    }
    values_of_tagged(wanted, block::MATCH_FIELD@, block::path_texts(p.match_executables));
    values_of_tagged(wanted, block::PANE_COMMAND_FIELD@, p.pane_commands);
    values_of_tagged(wanted, block::MATCH_COMMAND_REGEX_FIELD@, p.match_command_regexes);
    values_of_tagged(wanted, block::PANE_COMMAND_REGEX_FIELD@, p.pane_command_regexes);
    values_of_parts(
        block::head_lines(key, p, newline),
        block::tagged(block::MATCH_FIELD@, block::path_texts(p.match_executables)),
        block::tagged(block::PANE_COMMAND_FIELD@, p.pane_commands),
        block::tagged(block::MATCH_COMMAND_REGEX_FIELD@, p.match_command_regexes),
        block::tagged(block::PANE_COMMAND_REGEX_FIELD@, p.pane_command_regexes),
        block::tail_lines(key, smart_left, p),
        wanted,
    );
}

/// What every field of the written block says.
pub open spec fn fields_say(
    values: spec_fn(Seq<char>) -> Seq<Seq<char>>,
    key: Seq<char>,
    smart_left: bool,
    p: PathsModel,
    newline: bool,
) -> bool {
    &&& values(block::LEADING_NEWLINE_FIELD@) == seq![block::flag_text(newline)]
    &&& values(block::KEY_FIELD@) == seq![key]
    &&& values(block::BINARY_FIELD@) == seq![block::path_text(p.mux)]
    &&& values(block::CODEX_FIELD@) == seq![block::path_text(p.codex)]
    &&& values(block::LAUNCH_FIELD@) == seq![block::path_text(p.codex)]
    &&& values(block::MATCH_SCOPE_FIELD@) == seq![p.match_scope]
    &&& values(block::MATCH_FIELD@) == block::path_texts(p.match_executables)
    &&& values(block::PANE_COMMAND_FIELD@) == p.pane_commands
    &&& values(block::MATCH_COMMAND_REGEX_FIELD@) == p.match_command_regexes
    &&& values(block::PANE_COMMAND_REGEX_FIELD@) == p.pane_command_regexes
    &&& values(block::SMART_LEFT_FIELD@) == seq![block::flag_text(smart_left)]
}

proof fn each_field_apart(key: Seq<char>, smart_left: bool, p: PathsModel, newline: bool)
    ensures
        fields_say(
            |t: Seq<char>| written_values(t, key, smart_left, p, newline),
            key,
            smart_left,
            p,
            newline,
        ),
{
    shape::fields_differ();
    assert(written_values(block::LEADING_NEWLINE_FIELD@, key, smart_left, p, newline) =~= seq![block::flag_text(newline)]);
    assert(written_values(block::KEY_FIELD@, key, smart_left, p, newline) =~= seq![key]);
    assert(written_values(block::BINARY_FIELD@, key, smart_left, p, newline) =~= seq![block::path_text(p.mux)]);
    assert(written_values(block::CODEX_FIELD@, key, smart_left, p, newline) =~= seq![block::path_text(p.codex)]);
    assert(written_values(block::LAUNCH_FIELD@, key, smart_left, p, newline) =~= seq![block::path_text(p.codex)]);
    assert(written_values(block::MATCH_SCOPE_FIELD@, key, smart_left, p, newline) =~= seq![p.match_scope]);
    assert(written_values(block::MATCH_FIELD@, key, smart_left, p, newline) =~= block::path_texts(p.match_executables));
    assert(written_values(block::PANE_COMMAND_FIELD@, key, smart_left, p, newline) =~= p.pane_commands);
    assert(written_values(block::MATCH_COMMAND_REGEX_FIELD@, key, smart_left, p, newline) =~= p.match_command_regexes);
    assert(written_values(block::PANE_COMMAND_REGEX_FIELD@, key, smart_left, p, newline) =~= p.pane_command_regexes);
    assert(written_values(block::SMART_LEFT_FIELD@, key, smart_left, p, newline) =~= seq![block::flag_text(smart_left)]);
}

/// Where a host file holds no block, or exactly one.
pub open spec fn manageable(contents: Seq<char>) -> bool {
    plan::block_in(contents) is Absent || plan::block_in(contents) is At
}

proof fn flag_reads_back(flag: bool)
    ensures
        (block::flag_text(flag) == "true"@) == flag,
        plan::smart_left_flag(Some(block::flag_text(flag))) == Ok::<
            bool,
            crate::install::failure::FailureModel,
        >(flag),
{
    reveal_strlit("true");
    reveal_strlit("false");
    assert("true"@.len() == 4);
    assert("false"@.len() == 5);
}

/// An installed block is found again, alone, and every one of its fields reads
/// back what was written.
pub proof fn installed_fields_read_back(
    contents: Seq<char>,
    key: Seq<char>,
    smart_left: bool,
    p: PathsModel,
)
    requires
        shape::acceptable(key, p),
        manageable(contents),
    ensures
        ({
            let new = plan::installed_text(contents, key, smart_left, p);
            let newline = plan::leads_with_newline(contents);
            &&& plan::block_in(new) is At
            &&& fields_say(
                |t: Seq<char>| plan::fields_in(new, t),
                key,
                smart_left,
                p,
                newline,
            )
            &&& plan::field_in(new, block::LEADING_NEWLINE_FIELD@) == Some(
                block::flag_text(newline),
            )
            &&& plan::field_in(new, block::KEY_FIELD@) == Some(key)
            &&& plan::field_in(new, block::BINARY_FIELD@) == Some(block::path_text(p.mux))
            &&& plan::field_in(new, block::CODEX_FIELD@) == Some(block::path_text(p.codex))
            &&& plan::field_in(new, block::LAUNCH_FIELD@) == Some(block::path_text(p.codex))
            &&& plan::field_in(new, block::MATCH_SCOPE_FIELD@) == Some(p.match_scope)
            &&& plan::field_in(new, block::SMART_LEFT_FIELD@) == Some(
                block::flag_text(smart_left),
            )
        }),
{
    let newline = plan::leads_with_newline(contents);
    let new = plan::installed_text(contents, key, smart_left, p);
    each_field_apart(key, smart_left, p, newline);
    shape::fields_are_tags();
    field_reads_back(contents, key, smart_left, p, block::LEADING_NEWLINE_FIELD@);
    field_reads_back(contents, key, smart_left, p, block::KEY_FIELD@);
    field_reads_back(contents, key, smart_left, p, block::BINARY_FIELD@);
    field_reads_back(contents, key, smart_left, p, block::CODEX_FIELD@);
    field_reads_back(contents, key, smart_left, p, block::LAUNCH_FIELD@);
    field_reads_back(contents, key, smart_left, p, block::MATCH_SCOPE_FIELD@);
    field_reads_back(contents, key, smart_left, p, block::MATCH_FIELD@);
    field_reads_back(contents, key, smart_left, p, block::PANE_COMMAND_FIELD@);
    field_reads_back(contents, key, smart_left, p, block::MATCH_COMMAND_REGEX_FIELD@);
    field_reads_back(contents, key, smart_left, p, block::PANE_COMMAND_REGEX_FIELD@);
    field_reads_back(contents, key, smart_left, p, block::SMART_LEFT_FIELD@);
    let say = |t: Seq<char>| written_values(t, key, smart_left, p, newline);
    assert(say(block::LEADING_NEWLINE_FIELD@) == seq![block::flag_text(newline)]);
    assert(say(block::KEY_FIELD@) == seq![key]);
    assert(say(block::BINARY_FIELD@) == seq![block::path_text(p.mux)]);
    assert(say(block::CODEX_FIELD@) == seq![block::path_text(p.codex)]);
    assert(say(block::LAUNCH_FIELD@) == seq![block::path_text(p.codex)]);
    assert(say(block::MATCH_SCOPE_FIELD@) == seq![p.match_scope]);
    assert(say(block::MATCH_FIELD@) == block::path_texts(p.match_executables));
    assert(say(block::PANE_COMMAND_FIELD@) == p.pane_commands);
    assert(say(block::MATCH_COMMAND_REGEX_FIELD@) == p.match_command_regexes);
    assert(say(block::PANE_COMMAND_REGEX_FIELD@) == p.pane_command_regexes);
    assert(say(block::SMART_LEFT_FIELD@) == seq![block::flag_text(smart_left)]);
}

proof fn field_reads_back(
    contents: Seq<char>,
    key: Seq<char>,
    smart_left: bool,
    p: PathsModel,
    wanted: Seq<char>,
)
    requires
        shape::acceptable(key, p),
        manageable(contents),
        shape::is_tag(wanted),
    ensures
        ({
            let new = plan::installed_text(contents, key, smart_left, p);
            let newline = plan::leads_with_newline(contents);
            let values = written_values(wanted, key, smart_left, p, newline);
            &&& plan::block_in(new) is At
            &&& plan::fields_in(new, wanted) == values
            &&& plan::field_in(new, wanted) == if values.len() > 0 {
                Some(values[0])
            } else {
                None
            }
        }),
{
    let newline = plan::leads_with_newline(contents);
    let lines = block::block_lines(key, smart_left, p, newline);
    let begin = block::BEGIN_MARKER@;
    let end = block::END_MARKER@;
    let new = plan::installed_text(contents, key, smart_left, p);
    let all = plan::lines_of(new);
    written_lines_are_a_block(key, smart_left, p, newline);
    block_values(wanted, key, smart_left, p, newline);
    first_is_first_of_all(lines, 0, wanted);
    if plan::block_in(contents) is Absent {
        markers::appended_block_is_found(contents, lines, begin, end);
        markers::field_of_lines(
            all,
            markers::kept_lines(contents),
            lines,
            seq![Seq::<char>::empty()],
            0,
            wanted,
        );
    } else {
        let old_lines = plan::lines_of(contents);
        let first = markers::position(old_lines, begin);
        let last = markers::position(old_lines, end);
        markers::replaced_block_is_found(contents, lines, begin, end);
        markers::located_in_range(old_lines, begin, end);
        markers::field_of_lines(
            all,
            old_lines.take(first),
            lines,
            markers::tail_lines(old_lines, last),
            0,
            wanted,
        );
    }
}

// ---------------------------------------------------------------------------
// Laws
// ---------------------------------------------------------------------------

/// Installing and then removing gives a text that held no block back, character
/// for character.
pub proof fn removing_undoes_installing(
    contents: Seq<char>,
    key: Seq<char>,
    smart_left: bool,
    p: PathsModel,
)
    requires
        shape::acceptable(key, p),
        plan::block_in(contents) is Absent,
    ensures
        plan::removed_text(plan::installed_text(contents, key, smart_left, p)) == contents,
{
    let newline = plan::leads_with_newline(contents);
    let lines = block::block_lines(key, smart_left, p, newline);
    installed_fields_read_back(contents, key, smart_left, p);
    flag_reads_back(newline);
    written_lines_are_a_block(key, smart_left, p, newline);
    markers::appended_block_is_found(
        contents,
        lines,
        block::BEGIN_MARKER@,
        block::END_MARKER@,
    );
    markers::removal_restores_the_text(
        contents,
        lines,
        block::BEGIN_MARKER@,
        block::END_MARKER@,
    );
}

/// Installing over a block and then removing is removing that block.
pub proof fn removing_after_replacing_is_removing(
    contents: Seq<char>,
    key: Seq<char>,
    smart_left: bool,
    p: PathsModel,
)
    requires
        shape::acceptable(key, p),
        plan::block_in(contents) is At,
    ensures
        plan::removed_text(plan::installed_text(contents, key, smart_left, p))
            == plan::removed_text(contents),
{
    let newline = plan::leads_with_newline(contents);
    let lines = block::block_lines(key, smart_left, p, newline);
    installed_fields_read_back(contents, key, smart_left, p);
    flag_reads_back(newline);
    written_lines_are_a_block(key, smart_left, p, newline);
    markers::replaced_block_is_found(
        contents,
        lines,
        block::BEGIN_MARKER@,
        block::END_MARKER@,
    );
}

/// Installing the same values twice is installing them once.
pub proof fn installing_twice_is_installing_once(
    contents: Seq<char>,
    key: Seq<char>,
    smart_left: bool,
    p: PathsModel,
)
    requires
        shape::acceptable(key, p),
        manageable(contents),
    ensures
        ({
            let once = plan::installed_text(contents, key, smart_left, p);
            plan::installed_text(once, key, smart_left, p) == once
        }),
{
    let newline = plan::leads_with_newline(contents);
    let lines = block::block_lines(key, smart_left, p, newline);
    installed_fields_read_back(contents, key, smart_left, p);
    flag_reads_back(newline);
    written_lines_are_a_block(key, smart_left, p, newline);
    if plan::block_in(contents) is Absent {
        markers::replacing_an_appended_block_changes_nothing(
            contents,
            lines,
            block::BEGIN_MARKER@,
            block::END_MARKER@,
        );
    } else {
        markers::replacing_twice_is_replacing_once(
            contents,
            lines,
            block::BEGIN_MARKER@,
            block::END_MARKER@,
        );
    }
}

/// Installing changes nothing outside the block; where the text did not end its
/// last line, that line is ended.
pub proof fn installing_keeps_the_rest(
    contents: Seq<char>,
    key: Seq<char>,
    smart_left: bool,
    p: PathsModel,
)
    requires
        shape::acceptable(key, p),
        manageable(contents),
    ensures
        plan::outside(plan::installed_text(contents, key, smart_left, p)) == if plan::block_in(
            contents,
        ) is Absent && markers::needs_newline(contents) {
            contents.push('\n')
        } else {
            plan::outside(contents)
        },
{
    let newline = plan::leads_with_newline(contents);
    let lines = block::block_lines(key, smart_left, p, newline);
    let begin = block::BEGIN_MARKER@;
    let end = block::END_MARKER@;
    let new = plan::installed_text(contents, key, smart_left, p);
    let all = plan::lines_of(new);
    written_lines_are_a_block(key, smart_left, p, newline);
    if plan::block_in(contents) is Absent {
        let none = Seq::<char>::empty();
        markers::appended_block_is_found(contents, lines, begin, end);
        let kept = markers::kept_lines(contents);
        let from = kept.len() as int;
        markers::kept_lines_text(contents);
        assert(all.take(from) =~= kept);
        assert(all.skip(from + lines.len()) =~= seq![none]);
        assert(markers::after(all, from + lines.len() - 1) =~= none);
        assert(plan::outside(new) =~= scan::unlines(kept));
    } else {
        markers::replaced_block_is_found(contents, lines, begin, end);
    }
}

/// After an installation the status shows every value as it was given, with no
/// drift.
pub proof fn installed_values_show_no_drift(
    contents: Seq<char>,
    key: Seq<char>,
    smart_left: bool,
    p: PathsModel,
)
    requires
        shape::acceptable(key, p),
        p.pane_commands.len() > 0,
        manageable(contents),
    ensures
        ({
            let new = plan::installed_text(contents, key, smart_left, p);
            &&& plan::smart_left_flag(plan::field_in(new, block::SMART_LEFT_FIELD@)) == Ok::<
                bool,
                crate::install::failure::FailureModel,
            >(smart_left)
            &&& status::status_of(new, p, smart_left) == (status::StatusModel {
                installed: true,
                key: Some(key),
                mux: Some(p.mux),
                codex: Some(p.codex),
                match_executables: p.match_executables,
                pane_commands: p.pane_commands,
                match_scope: Some(p.match_scope),
                match_command_regexes: p.match_command_regexes,
                pane_command_regexes: p.pane_command_regexes,
                smart_left,
                drift: Seq::empty(),
            })
        }),
{
    let new = plan::installed_text(contents, key, smart_left, p);
    installed_fields_read_back(contents, key, smart_left, p);
    flag_reads_back(smart_left);
    block::accepted_paths_are_text(p);
    vstd::utf8::decode_utf8_encode_utf8(p.mux);
    vstd::utf8::decode_utf8_encode_utf8(p.codex);
    let listed = plan::fields_in(new, block::MATCH_FIELD@);
    let values = |t: Seq<char>| plan::fields_in(new, t);
    assert(values(block::MATCH_FIELD@) == block::path_texts(p.match_executables));
    assert(values(block::PANE_COMMAND_FIELD@) == p.pane_commands);
    assert(values(block::MATCH_COMMAND_REGEX_FIELD@) == p.match_command_regexes);
    assert(values(block::PANE_COMMAND_REGEX_FIELD@) == p.pane_command_regexes);
    assert(text::utf8_words(listed) =~= p.match_executables) by {
        assert forall|i: int| 0 <= i < listed.len() implies #[trigger] text::utf8(listed[i])
            == p.match_executables[i] by {
            vstd::utf8::decode_utf8_encode_utf8(p.match_executables[i]);
        }
    }
    path::same_path_is_equivalence(p.mux, p.mux, p.mux);
    assert(status::drift_of(new, p) =~= Seq::<Seq<char>>::empty());
}

/// The installed block says whether it binds the Left key.
pub proof fn installed_values_flag(
    contents: Seq<char>,
    key: Seq<char>,
    smart_left: bool,
    p: PathsModel,
)
    requires
        shape::acceptable(key, p),
        manageable(contents),
    ensures
        plan::smart_left_flag(
            plan::field_in(
                plan::installed_text(contents, key, smart_left, p),
                block::SMART_LEFT_FIELD@,
            ),
        ) == Ok::<bool, crate::install::failure::FailureModel>(smart_left),
{
    installed_fields_read_back(contents, key, smart_left, p);
    flag_reads_back(smart_left);
}

/// What was installed can be removed: the only thing that can stand in the way is
/// the file itself.
pub proof fn installed_text_can_be_removed(
    path: Seq<u8>,
    facts: crate::install::failure::PathFacts,
    contents: Seq<char>,
    key: Seq<char>,
    smart_left: bool,
    p: PathsModel,
)
    requires
        shape::acceptable(key, p),
        manageable(contents),
    ensures
        plan::removal_problem(
            path,
            facts,
            text::utf8(plan::installed_text(contents, key, smart_left, p)),
        ) == crate::install::failure::path_problem(path, facts),
{
    let new = plan::installed_text(contents, key, smart_left, p);
    installed_fields_read_back(contents, key, smart_left, p);
    flag_reads_back(smart_left);
    text::utf8_decodes_back(new);
}

} // verus!
