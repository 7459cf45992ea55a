//! Codex launch commands.

use vstd::prelude::*;
use crate::domain::{CodexExecutable, InvocationContext, Pane};
use crate::path::UnixPath;
use crate::text;
use crate::text::{copy_bytes, no_words, push_text_word, push_word};

verus! {

/// Codex configuration override that shows the thread identifier in the
/// terminal title.
pub const TERMINAL_TITLE_CONFIG: &'static str = "tui.terminal_title=[\"thread-id\"]";

/// Interactive Codex launch selected by the user.
#[derive(Clone, Copy, Debug, PartialEq, Eq, Structural)]
pub enum LaunchKind {
    /// Start a fresh Codex session.
    New,
    /// Open the session picker for every directory.
    ResumeAll,
}

/// The directory of the selected pane where there is one, else that of the
/// invoking pane.
pub open spec fn directory(selected: Option<Seq<u8>>, invoking: Seq<u8>) -> Seq<u8> {
    if selected is Some && selected->0.len() > 0 {
        selected->0
    } else {
        invoking
    }
}

pub open spec fn selected_path(selected: Option<&Pane>) -> Option<Seq<u8>> {
    match selected {
        Some(pane) => Some(pane.current_path@),
        None => None,
    }
}

pub fn launch_directory<'a>(selected: Option<&'a Pane>, context: &'a InvocationContext) -> (r:
    &'a UnixPath)
    ensures
        r@ == directory(selected_path(selected), context.current_path@),
{
    match selected {
        Some(pane) => if pane.current_path.is_empty() {
            &context.current_path
        } else {
            &pane.current_path
        },
        None => &context.current_path,
    }
}

/// The argument vector that opens a window next to the invoking one and runs
/// Codex in it, each value an argument of its own.
pub open spec fn new_window_words(
    executable: Seq<u8>,
    window: Seq<char>,
    working_directory: Seq<u8>,
    kind: LaunchKind,
    yolo: bool,
) -> Seq<Seq<u8>> {
    let base = seq![
        text::utf8("new-window"@),
        text::utf8("-d"@),
        text::utf8("-a"@),
        text::utf8("-P"@),
        text::utf8("-F"@),
        text::utf8("#{pane_id}"@),
        text::utf8("-t"@),
        text::utf8(window),
        text::utf8("-c"@),
        working_directory,
        text::utf8("--"@),
        executable,
        text::utf8("-c"@),
        text::utf8(TERMINAL_TITLE_CONFIG@),
    ];
    let with_permissions = if yolo {
        base.push(text::utf8("--yolo"@))
    } else {
        base
    };
    if kind == LaunchKind::ResumeAll {
        with_permissions.push(text::utf8("resume"@)).push(text::utf8("--all"@))
    } else {
        with_permissions
    }
}

pub fn new_window_arguments(
    executable: &CodexExecutable,
    context: &InvocationContext,
    selected: Option<&Pane>,
    kind: LaunchKind,
) -> (r: Vec<Vec<u8>>)
    ensures
        text::words(r@) == new_window_words(
            executable@,
            context.window_id@,
            directory(selected_path(selected), context.current_path@),
            kind,
            false,
        ),
{
    new_window_arguments_with_permissions(executable, context, selected, kind, false)
}

/// Builds tmux arguments for a profile-selected Codex launch. No value passes
/// through a shell.
pub fn new_window_arguments_with_permissions(
    executable: &CodexExecutable,
    context: &InvocationContext,
    selected: Option<&Pane>,
    kind: LaunchKind,
    yolo: bool,
) -> (r: Vec<Vec<u8>>)
    ensures
        text::words(r@) == new_window_words(
            executable@,
            context.window_id@,
            directory(selected_path(selected), context.current_path@),
            kind,
            yolo,
        ),
{
    let mut arguments = no_words();
    push_text_word(&mut arguments, "new-window");
    push_text_word(&mut arguments, "-d");
    push_text_word(&mut arguments, "-a");
    push_text_word(&mut arguments, "-P");
    push_text_word(&mut arguments, "-F");
    push_text_word(&mut arguments, "#{pane_id}");
    push_text_word(&mut arguments, "-t");
    push_text_word(&mut arguments, context.window_id.as_str());
    push_text_word(&mut arguments, "-c");
    push_word(&mut arguments, copy_bytes(&launch_directory(selected, context).bytes));
    push_text_word(&mut arguments, "--");
    push_word(&mut arguments, copy_bytes(&executable.as_path().bytes));
    push_text_word(&mut arguments, "-c");
    push_text_word(&mut arguments, TERMINAL_TITLE_CONFIG);
    if yolo {
        push_text_word(&mut arguments, "--yolo");
    }
    if kind == LaunchKind::ResumeAll {
        push_text_word(&mut arguments, "resume");
        push_text_word(&mut arguments, "--all");
    }
    arguments
}

// ---------------------------------------------------------------------------
// Laws
// ---------------------------------------------------------------------------

proof fn words_differ(a: Seq<char>, b: Seq<char>)
    requires
        a != b,
    ensures
        text::utf8(a) != text::utf8(b),
{
    if text::utf8(a) == text::utf8(b) {
        text::utf8_injective(a, b);
    }
}

/// Whatever is launched, the permissions of the profile are one word of its own behind
/// the executable: asked for, the word is there, and everything else is as it is without
/// it; not asked for, no word behind the executable says so.
pub proof fn permissions_are_one_word(
    executable: Seq<u8>,
    window: Seq<char>,
    working_directory: Seq<u8>,
    kind: LaunchKind,
)
    ensures
        ({
            let plain = new_window_words(executable, window, working_directory, kind, false);
            let free = new_window_words(executable, window, working_directory, kind, true);
            &&& plain[11] == executable
            &&& forall|i: int|
                11 < i < plain.len() ==> #[trigger] plain[i] != text::utf8("--yolo"@)
            &&& free.len() == plain.len() + 1
            &&& exists|i: int|
                11 < i < free.len() && #[trigger] free[i] == text::utf8("--yolo"@) && free.remove(i)
                    == plain
        }),
{
    let plain = new_window_words(executable, window, working_directory, kind, false);
    let free = new_window_words(executable, window, working_directory, kind, true);
    reveal_strlit("--yolo");
    reveal_strlit("-c");
    reveal_strlit("resume");
    reveal_strlit("--all");
    reveal_strlit("tui.terminal_title=[\"thread-id\"]");
    words_differ("-c"@, "--yolo"@);
    words_differ(TERMINAL_TITLE_CONFIG@, "--yolo"@);
    assert("resume"@[0] != "--yolo"@[0]);
    words_differ("resume"@, "--yolo"@);
    words_differ("--all"@, "--yolo"@);
    assert(free[14] == text::utf8("--yolo"@));
    assert(free.remove(14) =~= plain);
}

/// A launch opens a window behind the invoking one, in the directory that was chosen, and
/// runs the executable in it, with the thread identity shown in the title. A resumed
/// session differs from a new one by the two words at the end that ask for the picker of
/// every directory.
pub proof fn a_launch_is_told_apart_by_its_last_words(
    executable: Seq<u8>,
    window: Seq<char>,
    working_directory: Seq<u8>,
    yolo: bool,
)
    ensures
        ({
            let new = new_window_words(executable, window, working_directory, LaunchKind::New, yolo);
            let resumed = new_window_words(
                executable,
                window,
                working_directory,
                LaunchKind::ResumeAll,
                yolo,
            );
            &&& resumed == new + seq![text::utf8("resume"@), text::utf8("--all"@)]
            &&& new.take(6) == seq![
                text::utf8("new-window"@),
                text::utf8("-d"@),
                text::utf8("-a"@),
                text::utf8("-P"@),
                text::utf8("-F"@),
                text::utf8("#{pane_id}"@),
            ]
            &&& new[6] == text::utf8("-t"@) && new[7] == text::utf8(window)
            &&& new[8] == text::utf8("-c"@) && new[9] == working_directory
            &&& new[10] == text::utf8("--"@) && new[11] == executable
            &&& new[12] == text::utf8("-c"@) && new[13] == text::utf8(
                "tui.terminal_title=[\"thread-id\"]"@,
            )
            &&& new.len() == if yolo {
                15int
            } else {
                14
            }
        }),
{
    let new = new_window_words(executable, window, working_directory, LaunchKind::New, yolo);
    let resumed = new_window_words(
        executable,
        window,
        working_directory,
        LaunchKind::ResumeAll,
        yolo,
    );
    assert(resumed =~= new + seq![text::utf8("resume"@), text::utf8("--all"@)]);
    assert(new.take(6) =~= seq![
        text::utf8("new-window"@),
        text::utf8("-d"@),
        text::utf8("-a"@),
        text::utf8("-P"@),
        text::utf8("-F"@),
        text::utf8("#{pane_id}"@),
    ]);
}

/// A launch goes to the directory of the selected pane wherever that is known, and only
/// else to that of the invoking pane.
pub proof fn the_selected_directory_comes_first(selected: Seq<u8>, invoking: Seq<u8>)
    ensures
        selected.len() > 0 ==> directory(Some(selected), invoking) == selected,
        selected.len() == 0 ==> directory(Some(selected), invoking) == invoking,
        directory(None, invoking) == invoking,
{
}

} // verus!
