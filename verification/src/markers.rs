//! A block of lines between two markers, owned inside a file that belongs to
//! someone else.
//!
//! A text is seen as its lines: the parts between its line feeds. Everything
//! outside the block is kept character for character.

use vstd::prelude::*;
use crate::scan;
use crate::scan::strip_prefix;
use crate::text;
use crate::text::{slice_text, text_equal, to_chars};

verus! {

/// A line without the carriage return at its end.
pub open spec fn content(line: Seq<char>) -> Seq<char> {
    scan::without_cr(line)
}

/// How many lines are a marker.
pub open spec fn count(lines: Seq<Seq<char>>, marker: Seq<char>) -> nat
    decreases lines.len(),
{
    if lines.len() == 0 {
        0
    } else {
        count(lines.drop_last(), marker) + if content(lines.last()) == marker {
            1nat
        } else {
            0nat
        }
    }
}

/// The last line that is a marker.
pub open spec fn position(lines: Seq<Seq<char>>, marker: Seq<char>) -> int
    decreases lines.len(),
{
    if lines.len() == 0 {
        -1
    } else if content(lines.last()) == marker {
        lines.len() - 1
    } else {
        position(lines.drop_last(), marker)
    }
}

/// Where the block stands.
pub enum Located {
    /// There is no marker.
    Absent,
    /// Exactly one block, from its begin marker to its end marker.
    At { first: int, last: int },
    /// One of the two markers is missing.
    Partial,
    /// The markers do not form exactly one block.
    Malformed,
}

pub open spec fn located(lines: Seq<Seq<char>>, begin: Seq<char>, end: Seq<char>) -> Located {
    let begins = count(lines, begin);
    let ends = count(lines, end);
    if begins == 0 && ends == 0 {
        Located::Absent
    } else if begins == 0 || ends == 0 {
        Located::Partial
    } else if begins == 1 && ends == 1 && position(lines, begin) < position(lines, end) {
        Located::At { first: position(lines, begin), last: position(lines, end) }
    } else {
        Located::Malformed
    }
}

/// The lines of a block, by their positions.
#[derive(Clone, Copy, Debug, PartialEq, Eq, Structural)]
pub struct MarkerRegion {
    pub first: usize,
    pub last: usize,
}

/// What a search for the block found.
#[derive(Clone, Copy, Debug, PartialEq, Eq, Structural)]
pub enum Found {
    Absent,
    At(MarkerRegion),
    Partial,
    Malformed,
}

impl View for Found {
    type V = Located;

    open spec fn view(&self) -> Located {
        match self {
            Found::Absent => Located::Absent,
            Found::At(region) => Located::At {
                first: region.first as int,
                last: region.last as int,
            },
            Found::Partial => Located::Partial,
            Found::Malformed => Located::Malformed,
        }
    }
}

/// What stands before a line.
pub open spec fn before(lines: Seq<Seq<char>>, first: int) -> Seq<char> {
    scan::unlines(lines.take(first))
}

/// What stands behind a line and its line feed.
pub open spec fn after(lines: Seq<Seq<char>>, last: int) -> Seq<char> {
    scan::join_with(lines.skip(last + 1), seq!['\n'])
}

/// The line at a position as a reader of the block sees it.
pub open spec fn block_line(lines: Seq<Seq<char>>, k: int) -> Seq<char> {
    if k + 1 < lines.len() {
        content(lines[k])
    } else {
        lines[k]
    }
}

/// The value behind a prefix, on the first line of the block that has it.
pub open spec fn field(lines: Seq<Seq<char>>, k: int, last: int, prefix: Seq<char>) -> Option<
    Seq<char>,
>
    decreases last + 1 - k,
{
    if k > last {
        None
    } else {
        match scan::without_prefix(block_line(lines, k), prefix) {
            Some(value) => Some(value),
            None => field(lines, k + 1, last, prefix),
        }
    }
}

/// The values behind a prefix, on every line of the block that has it.
pub open spec fn fields(lines: Seq<Seq<char>>, k: int, last: int, prefix: Seq<char>) -> Seq<
    Seq<char>,
>
    decreases last + 1 - k,
{
    if k > last {
        Seq::empty()
    } else {
        let rest = fields(lines, k + 1, last, prefix);
        match scan::without_prefix(block_line(lines, k), prefix) {
            Some(value) => seq![value] + rest,
            None => rest,
        }
    }
}

/// The text with its block replaced, or with the block appended where there was
/// none, on a line of its own.
pub open spec fn with_block(
    contents: Seq<char>,
    found: Located,
    leading_newline: bool,
    block: Seq<char>,
) -> Seq<char> {
    let lines = scan::split_on(contents, '\n');
    match found {
        Located::At { first, last } => before(lines, first) + block + after(lines, last),
        _ => if leading_newline {
            contents + seq!['\n'] + block
        } else {
            contents + block
        },
    }
}

/// The text without its block, and without the line feed before the block where
/// the block brought that line feed along.
pub open spec fn without_block(
    contents: Seq<char>,
    first: int,
    last: int,
    owned_newline: bool,
) -> Seq<char> {
    let lines = scan::split_on(contents, '\n');
    let head = before(lines, first);
    (if owned_newline && head.len() > 0 {
        head.drop_last()
    } else {
        head
    }) + after(lines, last)
}

/// A text whose last line does not end.
pub open spec fn needs_newline(contents: Seq<char>) -> bool {
    contents.len() > 0 && contents.last() != '\n'
}

// ---------------------------------------------------------------------------
// Laws
// ---------------------------------------------------------------------------

/// Lines that form exactly one block and can be written one per line.
pub open spec fn is_block(block: Seq<Seq<char>>, begin: Seq<char>, end: Seq<char>) -> bool {
    &&& block.len() >= 2
    &&& begin != end
    &&& begin.len() > 0
    &&& end.len() > 0
    &&& block[0] == begin
    &&& block.last() == end
    &&& forall|k: int|
        0 <= k < block.len() ==> !(#[trigger] block[k]).contains('\n') && content(block[k])
            == block[k]
    &&& forall|k: int|
        0 < k < block.len() - 1 ==> #[trigger] block[k] != begin && block[k] != end
}

proof fn count_append(a: Seq<Seq<char>>, b: Seq<Seq<char>>, marker: Seq<char>)
    ensures
        count(a + b, marker) == count(a, marker) + count(b, marker),
    decreases b.len(),
{
    if b.len() == 0 {
        assert(a + b =~= a);
    } else {
        count_append(a, b.drop_last(), marker);
        assert((a + b).drop_last() =~= a + b.drop_last());
    }
}

proof fn position_append(a: Seq<Seq<char>>, b: Seq<Seq<char>>, marker: Seq<char>)
    requires
        count(b, marker) > 0,
    ensures
        position(a + b, marker) == a.len() + position(b, marker),
        0 <= position(b, marker) < b.len(),
    decreases b.len(),
{
    assert((a + b).drop_last() =~= a + b.drop_last());
    assert((a + b).last() == b.last());
    if content(b.last()) != marker {
        position_append(a, b.drop_last(), marker);
    }
}

proof fn position_past(a: Seq<Seq<char>>, b: Seq<Seq<char>>, marker: Seq<char>)
    requires
        count(b, marker) == 0,
    ensures
        position(a + b, marker) == position(a, marker),
    decreases b.len(),
{
    if b.len() == 0 {
        assert(a + b =~= a);
    } else {
        assert((a + b).drop_last() =~= a + b.drop_last());
        assert((a + b).last() == b.last());
        position_past(a, b.drop_last(), marker);
    }
}

proof fn position_bounds(lines: Seq<Seq<char>>, marker: Seq<char>)
    ensures
        -1 <= position(lines, marker) < lines.len(),
        position(lines, marker) >= 0 ==> content(lines[position(lines, marker)]) == marker,
        count(lines, marker) > 0 <==> position(lines, marker) >= 0,
    decreases lines.len(),
{
    if lines.len() > 0 {
        position_bounds(lines.drop_last(), marker);
        let at = position(lines, marker);
        if content(lines.last()) != marker && at >= 0 {
            assert(lines.drop_last()[at] == lines[at]);
        }
    }
}

proof fn count_at_least_one(lines: Seq<Seq<char>>, marker: Seq<char>, i: int)
    requires
        0 <= i < lines.len(),
        content(lines[i]) == marker,
    ensures
        count(lines, marker) >= 1,
    decreases lines.len(),
{
    if i < lines.len() - 1 {
        assert(lines.drop_last()[i] == lines[i]);
        count_at_least_one(lines.drop_last(), marker, i);
    }
}

proof fn count_is_zero(lines: Seq<Seq<char>>, marker: Seq<char>)
    requires
        forall|i: int| 0 <= i < lines.len() ==> content(#[trigger] lines[i]) != marker,
    ensures
        count(lines, marker) == 0,
    decreases lines.len(),
{
    if lines.len() > 0 {
        let head = lines.drop_last();
        assert forall|i: int| 0 <= i < head.len() implies content(#[trigger] head[i])
            != marker by {
            assert(head[i] == lines[i]);
        }
        count_is_zero(head, marker);
        assert(content(lines[lines.len() - 1]) != marker);
    }
}

proof fn block_counts(block: Seq<Seq<char>>, begin: Seq<char>, end: Seq<char>)
    requires
        is_block(block, begin, end),
    ensures
        count(block, begin) == 1,
        count(block, end) == 1,
        position(block, begin) == 0,
        position(block, end) == block.len() - 1,
{
    let n = block.len() as int;
    let first = block.take(1);
    let middle = block.subrange(1, n - 1);
    let last = block.skip(n - 1);
    assert(block =~= first + middle + last);
    assert(first.drop_last() =~= Seq::<Seq<char>>::empty());
    assert(last.drop_last() =~= Seq::<Seq<char>>::empty());
    assert forall|i: int| 0 <= i < middle.len() implies content(#[trigger] middle[i]) != begin
        && content(middle[i]) != end by {
        assert(middle[i] == block[i + 1]);
    }
    count_is_zero(middle, begin);
    count_is_zero(middle, end);
    assert(content(block[0]) == block[0]);
    assert(content(block[n - 1]) == block[n - 1]);
    assert(count(Seq::<Seq<char>>::empty(), begin) == 0);
    assert(count(Seq::<Seq<char>>::empty(), end) == 0);
    count_append(first + middle, last, begin);
    count_append(first, middle, begin);
    count_append(first + middle, last, end);
    count_append(first, middle, end);
    position_past(first + middle, last, begin);
    position_past(first, middle, begin);
}

proof fn block_lines_split(block: Seq<Seq<char>>)
    requires
        forall|k: int| 0 <= k < block.len() ==> !(#[trigger] block[k]).contains('\n'),
    ensures
        scan::split_on(scan::unlines(block), '\n') == block.push(Seq::empty()),
{
    let all = block.push(Seq::<char>::empty());
    scan::unlines_is_join(block);
    assert forall|i: int| 0 <= i < all.len() implies !(#[trigger] all[i]).contains('\n') by {
        if i < block.len() {
            assert(all[i] == block[i]);
        }
    }
    scan::split_undoes_join(all, '\n');
}

/// The lines that stand before an appended block.
pub open spec fn kept_lines(contents: Seq<char>) -> Seq<Seq<char>> {
    let lines = scan::split_on(contents, '\n');
    if needs_newline(contents) {
        lines
    } else {
        lines.drop_last()
    }
}

/// The kept lines are the text, its last line ended.
pub proof fn kept_lines_text(contents: Seq<char>)
    ensures
        scan::unlines(kept_lines(contents)) == if needs_newline(contents) {
            contents.push('\n')
        } else {
            contents
        },
{
    let lines = scan::split_on(contents, '\n');
    scan::split_on_nonempty(contents, '\n');
    scan::join_undoes_split(contents, '\n');
    let nl = seq!['\n'];
    if needs_newline(contents) {
        scan::unlines_is_join(lines);
        let all = lines.push(Seq::<char>::empty());
        assert(all.drop_last() =~= lines);
        assert(all.len() >= 2);
        assert(scan::join_with(all, nl) == contents + nl + Seq::<char>::empty());
        assert(contents + nl + Seq::<char>::empty() =~= contents.push('\n'));
    } else {
        if contents.len() > 0 {
            assert(lines.last() =~= Seq::<char>::empty());
        } else {
            assert(lines =~= seq![Seq::<char>::empty()]);
        }
        let head = lines.drop_last();
        assert(head.push(Seq::<char>::empty()) =~= lines);
        scan::unlines_is_join(head);
    }
}

proof fn appended_lines(contents: Seq<char>, block: Seq<Seq<char>>)
    requires
        forall|k: int| 0 <= k < block.len() ==> !(#[trigger] block[k]).contains('\n'),
    ensures
        scan::split_on(
            with_block(
                contents,
                Located::Absent,
                needs_newline(contents),
                scan::unlines(block),
            ),
            '\n',
        ) == kept_lines(contents) + block + seq![Seq::<char>::empty()],
{
    let lines = scan::split_on(contents, '\n');
    let body = scan::unlines(block);
    let none = Seq::<char>::empty();
    block_lines_split(block);
    scan::split_on_nonempty(contents, '\n');
    if needs_newline(contents) {
        scan::split_on_append(contents, '\n', body);
        assert(lines + block.push(none) =~= lines + block + seq![none]);
    } else if contents.len() == 0 {
        assert(contents + body =~= body);
        assert(lines.drop_last() =~= Seq::<Seq<char>>::empty());
        assert(block.push(none) =~= lines.drop_last() + block + seq![none]);
    } else {
        let head = contents.drop_last();
        assert(contents =~= head + seq!['\n']);
        assert(contents + body =~= head + seq!['\n'] + body);
        scan::split_on_append(head, '\n', body);
        scan::split_on_append(head, '\n', none);
        assert(head + seq!['\n'] + none =~= contents);
        assert(scan::split_on(none, '\n') =~= seq![none]);
        assert(lines =~= scan::split_on(head, '\n') + seq![none]);
        assert(lines.drop_last() =~= scan::split_on(head, '\n'));
        assert(scan::split_on(head, '\n') + block.push(none) =~= lines.drop_last() + block
            + seq![none]);
    }
}

proof fn kept_lines_unmarked(contents: Seq<char>, begin: Seq<char>, end: Seq<char>)
    requires
        located(scan::split_on(contents, '\n'), begin, end) is Absent,
    ensures
        count(kept_lines(contents), begin) == 0,
        count(kept_lines(contents), end) == 0,
{
    let lines = scan::split_on(contents, '\n');
    scan::split_on_nonempty(contents, '\n');
}

/// A block appended to a text without markers is found exactly there.
pub proof fn appended_block_is_found(
    contents: Seq<char>,
    block: Seq<Seq<char>>,
    begin: Seq<char>,
    end: Seq<char>,
)
    requires
        located(scan::split_on(contents, '\n'), begin, end) is Absent,
        is_block(block, begin, end),
    ensures
        ({
            let changed = with_block(
                contents,
                Located::Absent,
                needs_newline(contents),
                scan::unlines(block),
            );
            let lines = scan::split_on(changed, '\n');
            let from = kept_lines(contents).len() as int;
            &&& located(lines, begin, end) == Located::At {
                first: from,
                last: from + block.len() - 1,
            }
            &&& lines == kept_lines(contents) + block + seq![Seq::<char>::empty()]
        }),
{
    let kept = kept_lines(contents);
    let tail = seq![Seq::<char>::empty()];
    appended_lines(contents, block);
    kept_lines_unmarked(contents, begin, end);
    block_counts(block, begin, end);
    count_is_zero(tail, begin);
    count_is_zero(tail, end);
    count_append(kept + block, tail, begin);
    count_append(kept, block, begin);
    count_append(kept + block, tail, end);
    count_append(kept, block, end);
    position_past(kept + block, tail, begin);
    position_past(kept + block, tail, end);
    position_append(kept, block, begin);
    position_append(kept, block, end);
}

/// Removing an appended block gives the text back, character for character.
pub proof fn removal_restores_the_text(
    contents: Seq<char>,
    block: Seq<Seq<char>>,
    begin: Seq<char>,
    end: Seq<char>,
)
    requires
        located(scan::split_on(contents, '\n'), begin, end) is Absent,
        is_block(block, begin, end),
    ensures
        ({
            let changed = with_block(
                contents,
                Located::Absent,
                needs_newline(contents),
                scan::unlines(block),
            );
            let from = kept_lines(contents).len() as int;
            without_block(
                changed,
                from,
                from + block.len() - 1,
                needs_newline(contents),
            ) == contents
        }),
{
    let kept = kept_lines(contents);
    let none = Seq::<char>::empty();
    appended_block_is_found(contents, block, begin, end);
    kept_lines_text(contents);
    let changed = with_block(
        contents,
        Located::Absent,
        needs_newline(contents),
        scan::unlines(block),
    );
    let lines = scan::split_on(changed, '\n');
    let from = kept.len() as int;
    let last = from + block.len() - 1;
    assert(lines.take(from) =~= kept);
    assert(lines.skip(last + 1) =~= seq![none]);
    assert(after(lines, last) =~= none);
    if needs_newline(contents) {
        assert(contents.push('\n').drop_last() =~= contents);
        assert(contents + none =~= contents);
    } else {
        assert(contents + none =~= contents);
    }
}

proof fn region_facts(lines: Seq<Seq<char>>, begin: Seq<char>, end: Seq<char>)
    requires
        located(lines, begin, end) is At,
    ensures
        ({
            let first = position(lines, begin);
            let last = position(lines, end);
            &&& 0 <= first < last < lines.len()
            &&& count(lines.take(first), begin) == 0
            &&& count(lines.take(first), end) == 0
            &&& count(lines.skip(last + 1), begin) == 0
            &&& count(lines.skip(last + 1), end) == 0
        }),
{
    let first = position(lines, begin);
    let last = position(lines, end);
    position_bounds(lines, begin);
    position_bounds(lines, end);
    let head = lines.take(first);
    let rest = lines.skip(first);
    let inner = lines.subrange(first, last + 1);
    let tail = lines.skip(last + 1);
    assert(lines =~= head + rest);
    assert(rest =~= inner + tail);
    count_append(head, rest, begin);
    count_append(inner, tail, begin);
    count_append(head, rest, end);
    count_append(inner, tail, end);
    assert(inner[0] == lines[first]);
    assert(inner[last - first] == lines[last]);
    count_at_least_one(inner, begin, 0);
    count_at_least_one(inner, end, last - first);
}

/// A block stands among the lines.
pub proof fn located_in_range(lines: Seq<Seq<char>>, begin: Seq<char>, end: Seq<char>)
    requires
        located(lines, begin, end) is At,
    ensures
        0 <= position(lines, begin) < position(lines, end) < lines.len(),
{
    region_facts(lines, begin, end);
}

/// The lines behind the block of a text, an empty one where the text ends with
/// its block.
pub open spec fn tail_lines(lines: Seq<Seq<char>>, last: int) -> Seq<Seq<char>> {
    if last + 1 < lines.len() {
        lines.skip(last + 1)
    } else {
        seq![Seq::<char>::empty()]
    }
}

/// A replaced block is found exactly where the block stood, and everything
/// around it is as it was.
pub proof fn replaced_block_is_found(
    contents: Seq<char>,
    block: Seq<Seq<char>>,
    begin: Seq<char>,
    end: Seq<char>,
)
    requires
        located(scan::split_on(contents, '\n'), begin, end) is At,
        is_block(block, begin, end),
    ensures
        ({
            let old_lines = scan::split_on(contents, '\n');
            let found = located(old_lines, begin, end);
            let first = position(old_lines, begin);
            let last = position(old_lines, end);
            let changed = with_block(contents, found, false, scan::unlines(block));
            let lines = scan::split_on(changed, '\n');
            &&& lines == old_lines.take(first) + block + tail_lines(old_lines, last)
            &&& located(lines, begin, end) == Located::At {
                first,
                last: first + block.len() - 1,
            }
            &&& before(lines, first) == before(old_lines, first)
            &&& after(lines, first + block.len() - 1) == after(old_lines, last)
        }),
{
    let old_lines = scan::split_on(contents, '\n');
    let first = position(old_lines, begin);
    let last = position(old_lines, end);
    region_facts(old_lines, begin, end);
    let head = old_lines.take(first);
    let tail = tail_lines(old_lines, last);
    let none = Seq::<char>::empty();
    let rest = after(old_lines, last);
    assert(rest == scan::join_with(tail, seq!['\n'])) by {
        if last + 1 >= old_lines.len() {
            assert(old_lines.skip(last + 1) =~= Seq::<Seq<char>>::empty());
            assert(scan::join_with(tail, seq!['\n']) == tail[0]);
        }
    }
    let upper = head + block;
    assert forall|k: int| 0 <= k < upper.len() implies !(#[trigger] upper[k]).contains('\n') by {
        if k < head.len() {
            scan::split_on_parts(contents, '\n', k);
            assert(upper[k] == old_lines[k]);
        } else {
            assert(upper[k] == block[k - head.len()]);
        }
    }
    assert forall|k: int| 0 <= k < tail.len() implies !(#[trigger] tail[k]).contains('\n') by {
        if last + 1 < old_lines.len() {
            scan::split_on_parts(contents, '\n', k + last + 1);
            assert(tail[k] == old_lines[k + last + 1]);
        }
    }
    scan::unlines_append(head, block);
    scan::unlines_is_join(upper);
    let changed = before(old_lines, first) + scan::unlines(block) + rest;
    let lines = upper + tail;
    assert(changed == scan::unlines(upper) + rest);
    assert(scan::split_on(changed, '\n') == lines) by {
        scan::split_undoes_join(tail, '\n');
        let body = scan::join_with(upper, seq!['\n']);
        scan::split_undoes_join(upper, '\n');
        let all = upper.push(none);
        assert(all.drop_last() =~= upper);
        assert(all.len() >= 2);
        assert(scan::unlines(upper) =~= body + seq!['\n']);
        assert(changed =~= body + seq!['\n'] + rest);
        scan::split_on_append(body, '\n', rest);
    }
    block_counts(block, begin, end);
    assert(count(tail, begin) == 0 && count(tail, end) == 0) by {
        if last + 1 >= old_lines.len() {
            count_is_zero(tail, begin);
            count_is_zero(tail, end);
        }
    }
    count_append(upper, tail, begin);
    count_append(head, block, begin);
    count_append(upper, tail, end);
    count_append(head, block, end);
    position_past(upper, tail, begin);
    position_past(upper, tail, end);
    position_append(head, block, begin);
    position_append(head, block, end);
    assert(lines.take(first) =~= head);
    assert(lines.skip(first + block.len()) =~= tail);
}

/// Replacing a block twice with the same lines is replacing it once.
pub proof fn replacing_twice_is_replacing_once(
    contents: Seq<char>,
    block: Seq<Seq<char>>,
    begin: Seq<char>,
    end: Seq<char>,
)
    requires
        located(scan::split_on(contents, '\n'), begin, end) is At,
        is_block(block, begin, end),
    ensures
        ({
            let found = located(scan::split_on(contents, '\n'), begin, end);
            let once = with_block(contents, found, false, scan::unlines(block));
            let again = located(scan::split_on(once, '\n'), begin, end);
            with_block(once, again, false, scan::unlines(block)) == once
        }),
{
    replaced_block_is_found(contents, block, begin, end);
}

/// Appending a block and then replacing it with the same lines changes nothing.
pub proof fn replacing_an_appended_block_changes_nothing(
    contents: Seq<char>,
    block: Seq<Seq<char>>,
    begin: Seq<char>,
    end: Seq<char>,
)
    requires
        located(scan::split_on(contents, '\n'), begin, end) is Absent,
        is_block(block, begin, end),
    ensures
        ({
            let once = with_block(
                contents,
                Located::Absent,
                needs_newline(contents),
                scan::unlines(block),
            );
            let again = located(scan::split_on(once, '\n'), begin, end);
            with_block(once, again, false, scan::unlines(block)) == once
        }),
{
    appended_block_is_found(contents, block, begin, end);
    kept_lines_text(contents);
    let kept = kept_lines(contents);
    let once = with_block(
        contents,
        Located::Absent,
        needs_newline(contents),
        scan::unlines(block),
    );
    let lines = scan::split_on(once, '\n');
    let from = kept.len() as int;
    assert(lines.take(from) =~= kept);
    assert(lines.skip(from + block.len()) =~= seq![Seq::<char>::empty()]);
    let body = scan::unlines(block);
    if needs_newline(contents) {
        assert(contents.push('\n') + body + Seq::<char>::empty() =~= contents + seq!['\n'] + body);
    } else {
        assert(contents + body + Seq::<char>::empty() =~= contents + body);
    }
}

/// The fields of a block are those of its lines, wherever the block stands.
pub proof fn field_of_lines(
    lines: Seq<Seq<char>>,
    head: Seq<Seq<char>>,
    block: Seq<Seq<char>>,
    tail: Seq<Seq<char>>,
    k: int,
    prefix: Seq<char>,
)
    requires
        lines == head + block + tail,
        tail.len() > 0,
        0 <= k <= block.len(),
        forall|i: int| 0 <= i < block.len() ==> content(#[trigger] block[i]) == block[i],
    ensures
        field(lines, head.len() + k, head.len() + block.len() - 1, prefix) == first_value(
            block,
            k,
            prefix,
        ),
        fields(lines, head.len() + k, head.len() + block.len() - 1, prefix) == all_values(
            block,
            k,
            prefix,
        ),
    decreases block.len() - k,
{
    if k < block.len() {
        assert(lines[head.len() + k] == block[k]);
        field_of_lines(lines, head, block, tail, k + 1, prefix);
    }
}

/// The value behind a prefix, on the first of the lines that has it.
pub open spec fn first_value(block: Seq<Seq<char>>, k: int, prefix: Seq<char>) -> Option<Seq<char>>
    decreases block.len() - k,
{
    if k >= block.len() {
        None
    } else {
        match scan::without_prefix(block[k], prefix) {
            Some(value) => Some(value),
            None => first_value(block, k + 1, prefix),
        }
    }
}

/// The values behind a prefix, on every line that has it.
pub open spec fn all_values(block: Seq<Seq<char>>, k: int, prefix: Seq<char>) -> Seq<Seq<char>>
    decreases block.len() - k,
{
    if k >= block.len() {
        Seq::empty()
    } else {
        let rest = all_values(block, k + 1, prefix);
        match scan::without_prefix(block[k], prefix) {
            Some(value) => seq![value] + rest,
            None => rest,
        }
    }
}

// ---------------------------------------------------------------------------
// Functions
// ---------------------------------------------------------------------------

fn is_marker(line: &str, marker: &str) -> (r: bool)
    ensures
        r == (content(line@) == marker@),
{
    let v = to_chars(line);
    if v.len() > 0 && v[v.len() - 1] == '\r' {
        assert(v@.subrange(0, v@.len() - 1) =~= v@.drop_last());
        text_equal(&slice_text(&v, 0, v.len() - 1), marker)
    } else {
        text_equal(line, marker)
    }
}

/// Finds the block among the lines of a text.
pub fn locate(lines: &Vec<String>, begin: &str, end: &str) -> (r: Found)
    ensures
        r@ == located(text::texts(lines@), begin@, end@),
{
    let ghost all = text::texts(lines@);
    let mut begins: usize = 0;
    let mut ends: usize = 0;
    let mut first: usize = 0;
    let mut last: usize = 0;
    let mut i: usize = 0;
    assert(all.take(0).len() == 0);
    while i < lines.len()
        invariant
            i <= lines.len(),
            begins <= i,
            ends <= i,
            begins == count(all.take(i as int), begin@),
            ends == count(all.take(i as int), end@),
            begins > 0 ==> first == position(all.take(i as int), begin@),
            ends > 0 ==> last == position(all.take(i as int), end@),
        decreases lines.len() - i,
    {
        proof {
            assert(all.take(i + 1).drop_last() =~= all.take(i as int));
            assert(all.take(i + 1).last() == lines@[i as int]@);
            position_bounds(all.take(i as int), begin@);
            position_bounds(all.take(i as int), end@);
        }
        if is_marker(&lines[i], begin) {
            begins += 1;
            first = i;
        }
        if is_marker(&lines[i], end) {
            ends += 1;
            last = i;
        }
        i += 1;
    }
    assert(all.take(all.len() as int) =~= all);
    if begins == 0 && ends == 0 {
        Found::Absent
    } else if begins == 0 || ends == 0 {
        Found::Partial
    } else if begins == 1 && ends == 1 && first < last {
        Found::At(MarkerRegion { first, last })
    } else {
        Found::Malformed
    }
}

/// A region that fits the lines of a text.
pub open spec fn fits(region: MarkerRegion, lines: Seq<Seq<char>>) -> bool {
    region.first < region.last < lines.len()
}

/// What `locate` finds fits the lines it was given.
pub proof fn found_region_fits(
    lines: Seq<Seq<char>>,
    begin: Seq<char>,
    end: Seq<char>,
    region: MarkerRegion,
)
    requires
        located(lines, begin, end) == (Located::At {
            first: region.first as int,
            last: region.last as int,
        }),
    ensures
        fits(region, lines),
{
    position_bounds(lines, begin);
    position_bounds(lines, end);
}

fn text_before(lines: &Vec<String>, first: usize) -> (r: String)
    requires
        first <= lines.len(),
    ensures
        r@ == before(text::texts(lines@), first as int),
{
    let ghost all = text::texts(lines@);
    let mut head = text::no_texts();
    let mut i: usize = 0;
    while i < first
        invariant
            i <= first <= lines.len(),
            text::texts(head@) =~= all.take(i as int),
        decreases first - i,
    {
        text::put(&mut head, &lines[i]);
        i += 1;
    }
    scan::unlines_text(&head)
}

fn text_after(lines: &Vec<String>, last: usize) -> (r: String)
    requires
        last < lines.len(),
    ensures
        r@ == after(text::texts(lines@), last as int),
{
    let ghost all = text::texts(lines@);
    let mut tail = text::no_texts();
    let mut i: usize = last + 1;
    while i < lines.len()
        invariant
            last < i <= lines.len(),
            text::texts(tail@) =~= all.subrange(last + 1, i as int),
        decreases lines.len() - i,
    {
        text::put(&mut tail, &lines[i]);
        i += 1;
    }
    assert(text::texts(tail@) =~= all.skip(last + 1));
    let r = text::join_texts(&tail, "\n");
    proof {
        reveal_strlit("\n");
        assert("\n"@ =~= seq!['\n']);
    }
    r
}

/// Whether the last line of a text does not end.
pub fn lacks_newline(contents: &str) -> (r: bool)
    ensures
        r == needs_newline(contents@),
{
    let v = to_chars(contents);
    v.len() > 0 && v[v.len() - 1] != '\n'
}

/// Puts a block into a text: in place of the block that is there, or at its end.
pub fn replace_or_append(
    contents: &str,
    found: Found,
    leading_newline: bool,
    block: &str,
) -> (r: String)
    requires
        found matches Found::At(region) ==> fits(region, scan::split_on(contents@, '\n')),
    ensures
        r@ == with_block(contents@, found@, leading_newline, block@),
{
    match found {
        Found::At(region) => {
            let lines = scan::split_text(contents, '\n');
            assert(text::texts(lines@).len() == lines@.len());
            let mut r = text_before(&lines, region.first);
            r.append(block);
            r.append(&text_after(&lines, region.last));
            r
        },
        _ => {
            let mut r = contents.to_owned();
            if leading_newline {
                r.push('\n');
                assert(r@ =~= contents@ + seq!['\n']);
            }
            r.append(block);
            r
        },
    }
}

/// Takes the block out of a text.
pub fn remove_block(contents: &str, region: MarkerRegion, owned_newline: bool) -> (r: String)
    requires
        fits(region, scan::split_on(contents@, '\n')),
    ensures
        r@ == without_block(
            contents@,
            region.first as int,
            region.last as int,
            owned_newline,
        ),
{
    let lines = scan::split_text(contents, '\n');
    assert(text::texts(lines@).len() == lines@.len());
    let head = text_before(&lines, region.first);
    let v = to_chars(&head);
    let mut r = if owned_newline && v.len() > 0 {
        assert(v@.subrange(0, v@.len() - 1) =~= v@.drop_last());
        slice_text(&v, 0, v.len() - 1)
    } else {
        head
    };
    r.append(&text_after(&lines, region.last));
    r
}

fn line_at(lines: &Vec<String>, k: usize) -> (r: String)
    requires
        k < lines.len(),
    ensures
        r@ == block_line(text::texts(lines@), k as int),
{
    assert(text::texts(lines@).len() == lines@.len());
    assert(text::texts(lines@)[k as int] == lines@[k as int]@);
    let v = to_chars(&lines[k]);
    if k < lines.len() - 1 && v.len() > 0 && v[v.len() - 1] == '\r' {
        assert(v@.subrange(0, v@.len() - 1) =~= v@.drop_last());
        slice_text(&v, 0, v.len() - 1)
    } else {
        lines[k].clone()
    }
}

/// The value behind a prefix in a block.
pub fn block_field(lines: &Vec<String>, region: MarkerRegion, prefix: &str) -> (r: Option<String>)
    requires
        fits(region, text::texts(lines@)),
    ensures
        text::option_view(r) == field(
            text::texts(lines@),
            region.first as int,
            region.last as int,
            prefix@,
        ),
{
    let ghost all = text::texts(lines@);
    assert(all.len() == lines@.len());
    let mut k: usize = region.first;
    while k <= region.last
        invariant
            region.first <= k <= region.last + 1,
            region.last < lines.len(),
            field(all, region.first as int, region.last as int, prefix@) == field(
                all,
                k as int,
                region.last as int,
                prefix@,
            ),
        decreases region.last + 1 - k,
    {
        let line = line_at(lines, k);
        if let Some(value) = strip_prefix(&line, prefix) {
            return Some(value);
        }
        k += 1;
    }
    None
}

/// The values behind a prefix in a block.
pub fn block_fields(lines: &Vec<String>, region: MarkerRegion, prefix: &str) -> (r: Vec<String>)
    requires
        fits(region, text::texts(lines@)),
    ensures
        text::texts(r@) == fields(
            text::texts(lines@),
            region.first as int,
            region.last as int,
            prefix@,
        ),
{
    let ghost all = text::texts(lines@);
    assert(all.len() == lines@.len());
    let ghost whole = fields(all, region.first as int, region.last as int, prefix@);
    let mut r = text::no_texts();
    let mut k: usize = region.first;
    assert(text::texts(r@) + whole =~= whole);
    while k <= region.last
        invariant
            region.first <= k <= region.last + 1,
            region.last < lines.len(),
            text::texts(r@) + fields(all, k as int, region.last as int, prefix@) == whole,
        decreases region.last + 1 - k,
    {
        let ghost before_step = text::texts(r@);
        let ghost rest = fields(all, k + 1, region.last as int, prefix@);
        let line = line_at(lines, k);
        if let Some(value) = strip_prefix(&line, prefix) {
            let ghost v = value@;
            text::push_text(&mut r, value);
            assert(before_step + (seq![v] + rest) =~= before_step.push(v) + rest);
        }
        k += 1;
    }
    assert(text::texts(r@) + Seq::<Seq<char>>::empty() =~= text::texts(r@));
    r
}

} // verus!
