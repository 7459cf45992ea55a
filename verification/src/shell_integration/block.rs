//! The block in a shell startup file.

use vstd::prelude::*;
use crate::install::block;
use crate::install::block::{LEADING_NEWLINE_FIELD, MANAGED_NOTE};
use crate::install::failure::{FailureModel, InstallError};
use crate::install::shape;
use crate::markers;
use crate::markers::{block_field, locate, Found, Located};
use crate::one_line;
use crate::scan;
use crate::shell_integration::hooks;
use crate::text;
use crate::text::{read_utf8, text_equal};

verus! {

/// A shell whose prompt is followed.
#[derive(Clone, Copy, Debug, PartialEq, Eq, Structural)]
pub enum ShellKind {
    /// GNU Bash primary prompt lifecycle.
    Bash,
    /// Zsh primary prompt lifecycle.
    Zsh,
}

pub open spec fn shell_label(kind: ShellKind) -> Seq<char> {
    match kind {
        ShellKind::Bash => "Bash"@,
        ShellKind::Zsh => "Zsh"@,
    }
}

pub open spec fn begin_of(kind: ShellKind) -> Seq<char> {
    match kind {
        ShellKind::Bash => "# >>> codex-mux bash >>>"@,
        ShellKind::Zsh => "# >>> codex-mux zsh >>>"@,
    }
}

pub open spec fn end_of(kind: ShellKind) -> Seq<char> {
    match kind {
        ShellKind::Bash => "# <<< codex-mux bash <<<"@,
        ShellKind::Zsh => "# <<< codex-mux zsh <<<"@,
    }
}

pub open spec fn hook_of(kind: ShellKind) -> Seq<char> {
    match kind {
        ShellKind::Bash => hooks::bash_hook(),
        ShellKind::Zsh => hooks::zsh_hook(),
    }
}

impl ShellKind {
    pub fn label(self) -> (r: &'static str)
        ensures
            r@ == shell_label(self),
    {
        match self {
            ShellKind::Bash => "Bash",
            ShellKind::Zsh => "Zsh",
        }
    }

    pub fn begin_marker(self) -> (r: &'static str)
        ensures
            r@ == begin_of(self),
    {
        match self {
            ShellKind::Bash => "# >>> codex-mux bash >>>",
            ShellKind::Zsh => "# >>> codex-mux zsh >>>",
        }
    }

    pub fn end_marker(self) -> (r: &'static str)
        ensures
            r@ == end_of(self),
    {
        match self {
            ShellKind::Bash => "# <<< codex-mux bash <<<",
            ShellKind::Zsh => "# <<< codex-mux zsh <<<",
        }
    }
}

/// Where the block of a shell stands in a text.
pub open spec fn block_in(contents: Seq<char>, kind: ShellKind) -> Located {
    markers::located(scan::split_on(contents, '\n'), begin_of(kind), end_of(kind))
}

/// Why a startup file cannot be managed.
pub open spec fn contents_problem(bytes: Seq<u8>, kind: ShellKind) -> Option<FailureModel> {
    match text::utf8_decoded(bytes) {
        None => Some(FailureModel::Markers("shell configuration is not valid UTF-8"@)),
        Some(contents) => match block_in(contents, kind) {
            Located::Partial => Some(
                FailureModel::Markers(shell_label(kind) + " shell markers must both be present"@),
            ),
            Located::Malformed => Some(
                FailureModel::Markers(
                    shell_label(kind) + " shell markers must form exactly one non-nested block"@,
                ),
            ),
            _ => None,
        },
    }
}

/// Whether the line feed before the block belongs to the block.
pub open spec fn owns_newline(contents: Seq<char>, kind: ShellKind) -> bool {
    match block_in(contents, kind) {
        Located::At { first, last } => markers::field(
            scan::split_on(contents, '\n'),
            first,
            last,
            LEADING_NEWLINE_FIELD@,
        ) == Some("true"@),
        _ => false,
    }
}

/// Whether the new block brings its own line feed along.
pub open spec fn leads_with_newline(contents: Seq<char>, kind: ShellKind) -> bool {
    if block_in(contents, kind) is At {
        owns_newline(contents, kind)
    } else {
        markers::needs_newline(contents)
    }
}

/// The text of the block.
pub open spec fn rendered(kind: ShellKind, newline: bool) -> Seq<char> {
    begin_of(kind) + "\n"@ + MANAGED_NOTE@ + "\n"@ + LEADING_NEWLINE_FIELD@ + block::flag_text(
        newline,
    ) + "\n"@ + hook_of(kind) + end_of(kind) + "\n"@
}

/// The text with the block of a shell installed.
pub open spec fn installed_text(contents: Seq<char>, kind: ShellKind) -> Seq<char> {
    let newline = leads_with_newline(contents, kind);
    markers::with_block(contents, block_in(contents, kind), newline, rendered(kind, newline))
}

/// The text with the block of a shell removed.
pub open spec fn removed_text(contents: Seq<char>, kind: ShellKind) -> Seq<char> {
    match block_in(contents, kind) {
        Located::At { first, last } => markers::without_block(
            contents,
            first,
            last,
            owns_newline(contents, kind),
        ),
        _ => contents,
    }
}

// ---------------------------------------------------------------------------
// Functions
// ---------------------------------------------------------------------------

/// Renders the block.
pub fn render_block(kind: ShellKind, newline: bool) -> (r: String)
    ensures
        r@ == rendered(kind, newline),
{
    let mut r = kind.begin_marker().to_owned();
    r.append("\n");
    r.append(MANAGED_NOTE);
    r.append("\n");
    r.append(LEADING_NEWLINE_FIELD);
    r.append(
        if newline {
            "true"
        } else {
            "false"
        },
    );
    r.append("\n");
    let hook = match kind {
        ShellKind::Bash => hooks::bash_hook_text(),
        ShellKind::Zsh => hooks::zsh_hook_text(),
    };
    r.append(&hook);
    r.append(kind.end_marker());
    r.append("\n");
    r
}

/// What is to be done with the block.
#[derive(Clone, Copy, Debug, PartialEq, Eq, Structural)]
pub enum Operation {
    Install,
    Remove,
}

pub open spec fn changed_text(contents: Seq<char>, kind: ShellKind, operation: Operation) -> Seq<
    char,
> {
    match operation {
        Operation::Install => installed_text(contents, kind),
        Operation::Remove => removed_text(contents, kind),
    }
}

fn shell_failure(kind: ShellKind, detail: &str) -> (r: InstallError)
    ensures
        r@ == FailureModel::Markers(shell_label(kind) + detail@),
{
    let mut message = kind.label().to_owned();
    message.append(detail);
    InstallError::Markers(message)
}

/// What a startup file becomes, and whether it held a block.
pub fn change_contents(bytes: &[u8], kind: ShellKind, operation: Operation) -> (r: Result<
    (Vec<u8>, bool),
    InstallError,
>)
    ensures
        match r {
            Ok((replacement, had_block)) => {
                let contents = text::utf8_decoded(bytes@)->0;
                &&& contents_problem(bytes@, kind) is None
                &&& replacement@ == text::utf8(changed_text(contents, kind, operation))
                &&& had_block == (block_in(contents, kind) is At)
            },
            Err(e) => contents_problem(bytes@, kind) == Some(e@),
        },
{
    let contents = match read_utf8(bytes) {
        None => return Err(
            InstallError::Markers("shell configuration is not valid UTF-8".to_owned()),
        ),
        Some(contents) => contents,
    };
    let lines = scan::split_text(&contents, '\n');
    let found = locate(&lines, kind.begin_marker(), kind.end_marker());
    let mut newline = false;
    let mut had_block = false;
    match found {
        Found::Partial => return Err(
            shell_failure(kind, " shell markers must both be present"),
        ),
        Found::Malformed => return Err(
            shell_failure(kind, " shell markers must form exactly one non-nested block"),
        ),
        Found::Absent => {
            newline = markers::lacks_newline(&contents);
        },
        Found::At(region) => {
            proof {
                markers::found_region_fits(
                    scan::split_on(contents@, '\n'),
                    begin_of(kind),
                    end_of(kind),
                    region,
                );
            }
            had_block = true;
            newline = match block_field(&lines, region, LEADING_NEWLINE_FIELD) {
                Some(value) => text_equal(&value, "true"),
                None => false,
            };
        },
    }
    let changed = match operation {
        Operation::Install => markers::replace_or_append(
            &contents,
            found,
            newline,
            &render_block(kind, newline),
        ),
        Operation::Remove => match found {
            Found::At(region) => markers::remove_block(&contents, region, newline),
            _ => contents.clone(),
        },
    };
    Ok((text::bytes_of(&changed), had_block))
}

// ---------------------------------------------------------------------------
// Laws
// ---------------------------------------------------------------------------

/// The lines of a hook.
pub open spec fn hook_lines(kind: ShellKind) -> Seq<Seq<char>> {
    markers::kept_lines(hook_of(kind))
}

/// The lines of the block.
pub open spec fn block_lines(kind: ShellKind, newline: bool) -> Seq<Seq<char>> {
    seq![begin_of(kind), MANAGED_NOTE@, LEADING_NEWLINE_FIELD@ + block::flag_text(newline)]
        + hook_lines(kind) + seq![end_of(kind)]
}

proof fn parts_unmarked(s: Seq<char>, i: int)
    requires
        hooks::unmarked(s),
        0 <= i < scan::split_on(s, '\n').len(),
    ensures
        hooks::unmarked(scan::split_on(s, '\n')[i]),
    decreases s.len(),
{
    if s.len() > 0 {
        let head = s.drop_last();
        let parts = scan::split_on(head, '\n');
        scan::split_on_nonempty(head, '\n');
        assert forall|j: int| 0 <= j < head.len() implies #[trigger] head[j] != '#' && head[j]
            != '\r' by {
            assert(head[j] == s[j]);
        }
        if s.last() == '\n' {
            if i < parts.len() {
                parts_unmarked(head, i);
            }
        } else {
            if i < parts.len() - 1 {
                parts_unmarked(head, i);
                assert(scan::split_on(s, '\n')[i] == parts[i]);
            } else {
                parts_unmarked(head, parts.len() - 1);
                let last = parts.last().push(s.last());
                assert(scan::split_on(s, '\n')[i] == last);
                assert(s[s.len() - 1] != '#');
                assert forall|j: int| 0 <= j < last.len() implies #[trigger] last[j] != '#'
                    && last[j] != '\r' by {
                    if j < parts.last().len() {
                        assert(last[j] == parts[parts.len() - 1][j]);
                    }
                }
            }
        }
    }
}

proof fn marker_shapes(kind: ShellKind)
    ensures
        begin_of(kind).len() >= 3,
        begin_of(kind)[0] == '#',
        begin_of(kind)[2] == '>',
        end_of(kind).len() >= 3,
        end_of(kind)[0] == '#',
        end_of(kind)[2] == '<',
        one_line::one_line(begin_of(kind)),
        one_line::one_line(end_of(kind)),
        "\n"@ == seq!['\n'],
        MANAGED_NOTE@.len() >= 3,
        MANAGED_NOTE@[0] == '#',
        MANAGED_NOTE@[2] == 'M',
{
    reveal_strlit("\n");
    assert("\n"@ =~= seq!['\n']);
    reveal_strlit("# Managed by codex-mux; changes inside this block are replaced.");
    reveal_strlit("# >>> codex-mux bash >>>");
    assert(one_line::one_line("# >>> codex-mux bash >>>"@)) by {
        reveal_with_fuel(one_line::one_of, 25);
        assert forall|i: int| 0 <= i < 24 implies #[trigger] "# >>> codex-mux bash >>>"@[i] != '\n' && "# >>> codex-mux bash >>>"@[i]
            != '\r' by {
            one_line::one_of_range(i, 24);
        }
    }
    reveal_strlit("# >>> codex-mux zsh >>>");
    assert(one_line::one_line("# >>> codex-mux zsh >>>"@)) by {
        reveal_with_fuel(one_line::one_of, 24);
        assert forall|i: int| 0 <= i < 23 implies #[trigger] "# >>> codex-mux zsh >>>"@[i] != '\n' && "# >>> codex-mux zsh >>>"@[i]
            != '\r' by {
            one_line::one_of_range(i, 23);
        }
    }
    reveal_strlit("# <<< codex-mux bash <<<");
    assert(one_line::one_line("# <<< codex-mux bash <<<"@)) by {
        reveal_with_fuel(one_line::one_of, 25);
        assert forall|i: int| 0 <= i < 24 implies #[trigger] "# <<< codex-mux bash <<<"@[i] != '\n' && "# <<< codex-mux bash <<<"@[i]
            != '\r' by {
            one_line::one_of_range(i, 24);
        }
    }
    reveal_strlit("# <<< codex-mux zsh <<<");
    assert(one_line::one_line("# <<< codex-mux zsh <<<"@)) by {
        reveal_with_fuel(one_line::one_of, 24);
        assert forall|i: int| 0 <= i < 23 implies #[trigger] "# <<< codex-mux zsh <<<"@[i] != '\n' && "# <<< codex-mux zsh <<<"@[i]
            != '\r' by {
            one_line::one_of_range(i, 23);
        }
    }
}

proof fn hook_facts(kind: ShellKind)
    ensures
        hooks::unmarked(hook_of(kind)),
        scan::unlines(hook_lines(kind)) == hook_of(kind),
        forall|i: int|
            0 <= i < hook_lines(kind).len() ==> hooks::unmarked(#[trigger] hook_lines(kind)[i])
                && !hook_lines(kind)[i].contains('\n'),
{
    hooks::bash_hook_is_unmarked();
    hooks::zsh_hook_is_unmarked();
    let hook = hook_of(kind);
    markers::kept_lines_text(hook);
    let lines = hook_lines(kind);
    assert forall|i: int| 0 <= i < lines.len() implies hooks::unmarked(#[trigger] lines[i])
        && !lines[i].contains('\n') by {
        assert(lines[i] == scan::split_on(hook, '\n')[i]);
        parts_unmarked(hook, i);
        scan::split_on_parts(hook, '\n', i);
    }
}

/// The rendered text is that of the lines.
pub proof fn rendered_lines(kind: ShellKind, newline: bool)
    ensures
        scan::unlines(block_lines(kind, newline)) == rendered(kind, newline),
{
    marker_shapes(kind);
    hook_facts(kind);
    let a = begin_of(kind);
    let b = MANAGED_NOTE@;
    let c = LEADING_NEWLINE_FIELD@ + block::flag_text(newline);
    let head = seq![a, b, c];
    let tail = seq![end_of(kind)];
    scan::unlines_append(head + hook_lines(kind), tail);
    scan::unlines_append(head, hook_lines(kind));
    unlines_of_one(a);
    unlines_of_one(b);
    unlines_of_one(c);
    unlines_of_one(end_of(kind));
    assert(head =~= seq![a] + seq![b] + seq![c]);
    scan::unlines_append(seq![a] + seq![b], seq![c]);
    scan::unlines_append(seq![a], seq![b]);
    assert(scan::unlines(block_lines(kind, newline)) =~= rendered(kind, newline));
}

proof fn unlines_of_one(line: Seq<char>)
    ensures
        scan::unlines(seq![line]) == line + seq!['\n'],
{
    let one = seq![line];
    assert(one.drop_last() =~= Seq::<Seq<char>>::empty());
    assert(scan::unlines(one.drop_last()) =~= Seq::<char>::empty());
    assert(scan::unlines(one) =~= line + seq!['\n']);
}

/// The lines that are written form exactly one block.
pub proof fn written_lines_are_a_block(kind: ShellKind, newline: bool)
    ensures
        markers::is_block(block_lines(kind, newline), begin_of(kind), end_of(kind)),
        markers::first_value(block_lines(kind, newline), 0, LEADING_NEWLINE_FIELD@) == Some(
            block::flag_text(newline),
        ),
{
    marker_shapes(kind);
    hook_facts(kind);
    shape::fields_are_tags();
    shape::field_words_stay_on_one_line();
    shape::fixed_lines_stay_on_one_line();
    let lines = block_lines(kind, newline);
    let inner = hook_lines(kind);
    let begin = begin_of(kind);
    let end = end_of(kind);
    let tag = LEADING_NEWLINE_FIELD@;
    let field = tag + block::flag_text(newline);
    one_line::one_line_append(tag, block::flag_text(newline));
    assert(lines[0] == begin && lines[1] == MANAGED_NOTE@ && lines[2] == field);
    assert(lines.last() == end);
    assert(field[0] == tag[0] && field[2] == tag[2]);
    assert forall|k: int| 0 <= k < lines.len() implies !(#[trigger] lines[k]).contains('\n')
        && markers::content(lines[k]) == lines[k] by {
        if 3 <= k < lines.len() - 1 {
            assert(lines[k] == inner[k - 3]);
            assert(hooks::unmarked(inner[k - 3]));
        } else {
            assert(one_line::one_line(lines[k]));
            one_line::one_line_is_line(lines[k]);
        }
    }
    assert forall|k: int| 0 < k < lines.len() - 1 implies #[trigger] lines[k] != begin && lines[k]
        != end by {
        if k >= 3 {
            assert(lines[k] == inner[k - 3]);
            assert(hooks::unmarked(inner[k - 3]));
            if lines[k] == begin || lines[k] == end {
                assert(inner[k - 3][0] == '#');
            }
        }
    }
    assert(begin[2] != end[2]);
    assert(scan::without_prefix(lines[0], tag) is None) by {
        if tag.is_prefix_of(lines[0]) {
            assert(lines[0].take(tag.len() as int) =~= tag);
            assert(lines[0][2] == tag[2]);
        }
    }
    assert(scan::without_prefix(lines[1], tag) is None) by {
        if tag.is_prefix_of(lines[1]) {
            assert(lines[1].take(tag.len() as int) =~= tag);
            assert(lines[1][2] == tag[2]);
        }
    }
    assert(tag.is_prefix_of(field));
    assert(field.skip(tag.len() as int) =~= block::flag_text(newline));
    assert(markers::first_value(lines, 2, tag) == Some(block::flag_text(newline)));
    assert(markers::first_value(lines, 1, tag) == markers::first_value(lines, 2, tag));
}

proof fn installed_block(contents: Seq<char>, kind: ShellKind)
    requires
        block_in(contents, kind) is Absent || block_in(contents, kind) is At,
    ensures
        block_in(installed_text(contents, kind), kind) is At,
        owns_newline(installed_text(contents, kind), kind) == leads_with_newline(contents, kind),
{
    let newline = leads_with_newline(contents, kind);
    let lines = block_lines(kind, newline);
    let begin = begin_of(kind);
    let end = end_of(kind);
    let new = installed_text(contents, kind);
    let all = scan::split_on(new, '\n');
    rendered_lines(kind, newline);
    written_lines_are_a_block(kind, newline);
    reveal_strlit("true");
    reveal_strlit("false");
    assert("true"@.len() == 4 && "false"@.len() == 5);
    if block_in(contents, kind) is Absent {
        markers::appended_block_is_found(contents, lines, begin, end);
        markers::field_of_lines(
            all,
            markers::kept_lines(contents),
            lines,
            seq![Seq::<char>::empty()],
            0,
            LEADING_NEWLINE_FIELD@,
        );
    } else {
        let old_lines = scan::split_on(contents, '\n');
        markers::replaced_block_is_found(contents, lines, begin, end);
        markers::located_in_range(old_lines, begin, end);
        markers::field_of_lines(
            all,
            old_lines.take(markers::position(old_lines, begin)),
            lines,
            markers::tail_lines(old_lines, markers::position(old_lines, end)),
            0,
            LEADING_NEWLINE_FIELD@,
        );
    }
}

/// Installing and then removing gives a startup file that held no block back,
/// character for character.
pub proof fn removing_undoes_installing(contents: Seq<char>, kind: ShellKind)
    requires
        block_in(contents, kind) is Absent,
    ensures
        removed_text(installed_text(contents, kind), kind) == contents,
{
    let newline = leads_with_newline(contents, kind);
    let lines = block_lines(kind, newline);
    installed_block(contents, kind);
    rendered_lines(kind, newline);
    written_lines_are_a_block(kind, newline);
    markers::appended_block_is_found(contents, lines, begin_of(kind), end_of(kind));
    markers::removal_restores_the_text(contents, lines, begin_of(kind), end_of(kind));
}

/// Installing twice is installing once.
pub proof fn installing_twice_is_installing_once(contents: Seq<char>, kind: ShellKind)
    requires
        block_in(contents, kind) is Absent || block_in(contents, kind) is At,
    ensures
        installed_text(installed_text(contents, kind), kind) == installed_text(contents, kind),
{
    let newline = leads_with_newline(contents, kind);
    let lines = block_lines(kind, newline);
    installed_block(contents, kind);
    rendered_lines(kind, newline);
    written_lines_are_a_block(kind, newline);
    if block_in(contents, kind) is Absent {
        markers::replacing_an_appended_block_changes_nothing(
            contents,
            lines,
            begin_of(kind),
            end_of(kind),
        );
    } else {
        markers::replacing_twice_is_replacing_once(
            contents,
            lines,
            begin_of(kind),
            end_of(kind),
        );
    }
}

} // verus!
