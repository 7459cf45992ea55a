//! Pane-local tmux options that hold the state of a pane's name.

use vstd::prelude::*;
use crate::text;
use crate::text::list6;
use crate::tmux::quote;
use crate::tmux::quote::tmux_quote;

verus! {

pub const OWNER_OPTION: &'static str = "@codex_mux_generated_name";
pub const THREAD_OPTION: &'static str = "@codex_mux_generated_thread";
pub const SOURCE_TITLE_OPTION: &'static str = "@codex_mux_generated_source_title";
pub const SOURCE_CWD_OPTION: &'static str = "@codex_mux_generated_source_cwd";
pub const SOURCE_PID_OPTION: &'static str = "@codex_mux_generated_source_pid";
pub const SOURCE_SESSION_OPTION: &'static str = "@codex_mux_generated_source_session";
pub const GENERATED_AT_OPTION: &'static str = "@codex_mux_generated_at";
/// Wakes naming after Codex Resume opens its selector.
pub const IMMEDIATE_NAMING_OPTION: &'static str = "@codex_mux_name_now";
/// Stage of an explicit automatic-name request.
pub const AUTO_NAME_STATUS_OPTION: &'static str = "@codex_mux_auto_name_status";
/// Start time of an explicit automatic-name request.
pub const AUTO_NAME_STARTED_OPTION: &'static str = "@codex_mux_auto_name_started";
/// Tells superseded automatic-name requests apart.
pub const AUTO_NAME_TOKEN_OPTION: &'static str = "@codex_mux_auto_name_token";
/// Preserves a title explicitly saved by the user.
pub const MANUAL_NAME_OPTION: &'static str = "@codex_mux_manual_name";
/// Thread title from which naming can resume.
pub const MANUAL_NAME_SOURCE_OPTION: &'static str = "@codex_mux_manual_name_source";
/// Pane leader retained with a manual name.
pub const MANUAL_NAME_PID_OPTION: &'static str = "@codex_mux_manual_name_pid";
/// Session retained with a manual name.
pub const MANUAL_NAME_SESSION_OPTION: &'static str = "@codex_mux_manual_name_session";
/// Set after a source-less unpin until Codex shows a new exact title.
pub const UNPIN_WAITING_OPTION: &'static str = "@codex_mux_unpin_waiting";
/// Title that must change before a source-less unpin ends.
pub const UNPIN_WAITING_TITLE_OPTION: &'static str = "@codex_mux_unpin_waiting_title";
/// Pane leader retained with a source-less unpin.
pub const UNPIN_WAITING_PID_OPTION: &'static str = "@codex_mux_unpin_waiting_pid";
/// Session retained with a source-less unpin.
pub const UNPIN_WAITING_SESSION_OPTION: &'static str = "@codex_mux_unpin_waiting_session";
/// Proves that the title restore of an unpin completed.
pub const UNPIN_READY_OPTION: &'static str = "@codex_mux_unpin_ready";
/// Proves that a guarded unpin completed.
pub const UNPIN_COMPLETE_OPTION: &'static str = "@codex_mux_unpin_complete";
/// Proves that a guarded rename completed.
pub const RENAME_COMPLETE_OPTION: &'static str = "@codex_mux_rename_complete";

/// The options that a generated name owns.
pub open spec fn generated_options() -> Seq<Seq<char>> {
    seq![
        THREAD_OPTION@,
        OWNER_OPTION@,
        SOURCE_TITLE_OPTION@,
        SOURCE_CWD_OPTION@,
        SOURCE_PID_OPTION@,
        SOURCE_SESSION_OPTION@,
        GENERATED_AT_OPTION@,
        IMMEDIATE_NAMING_OPTION@,
        AUTO_NAME_STATUS_OPTION@,
        AUTO_NAME_STARTED_OPTION@,
        AUTO_NAME_TOKEN_OPTION@,
    ]
}

pub fn generated_option_list() -> (r: Vec<String>)
    ensures
        text::texts(r@) == generated_options(),
{
    let mut r = text::no_texts();
    text::put(&mut r, THREAD_OPTION);
    text::put(&mut r, OWNER_OPTION);
    text::put(&mut r, SOURCE_TITLE_OPTION);
    text::put(&mut r, SOURCE_CWD_OPTION);
    text::put(&mut r, SOURCE_PID_OPTION);
    text::put(&mut r, SOURCE_SESSION_OPTION);
    text::put(&mut r, GENERATED_AT_OPTION);
    text::put(&mut r, IMMEDIATE_NAMING_OPTION);
    text::put(&mut r, AUTO_NAME_STATUS_OPTION);
    text::put(&mut r, AUTO_NAME_STARTED_OPTION);
    text::put(&mut r, AUTO_NAME_TOKEN_OPTION);
    r
}

/// The arguments that unset one pane-local option.
pub open spec fn unset_words(pane: Seq<char>, option: Seq<char>) -> Seq<Seq<char>> {
    seq!["set-option"@, "-pu"@, "-t"@, pane, option]
}

/// The arguments that set one pane-local option.
pub open spec fn set_words(pane: Seq<char>, option: Seq<char>, value: Seq<char>) -> Seq<
    Seq<char>,
> {
    seq!["set-option"@, "-p"@, "-t"@, pane, option, value]
}

/// The commands that unset each option of a list, `;` between them.
pub open spec fn unset_sequence(pane: Seq<char>, options: Seq<Seq<char>>) -> Seq<Seq<char>>
    decreases options.len(),
{
    if options.len() == 0 {
        Seq::empty()
    } else if options.len() == 1 {
        unset_words(pane, options[0])
    } else {
        unset_sequence(pane, options.drop_last()) + seq![";"@] + unset_words(pane, options.last())
    }
}

pub fn unset_arguments(pane: &str, options: &Vec<String>) -> (r: Vec<String>)
    ensures
        text::texts(r@) == unset_sequence(pane@, text::texts(options@)),
{
    let ghost all = text::texts(options@);
    let mut r = text::no_texts();
    let mut i: usize = 0;
    assert(all.take(0).len() == 0);
    while i < options.len()
        invariant
            i <= options.len(),
            text::texts(r@) == unset_sequence(pane@, all.take(i as int)),
        decreases options.len() - i,
    {
        let ghost before = text::texts(r@);
        proof {
            assert(all.take(i + 1).drop_last() =~= all.take(i as int));
            assert(all.take(i + 1).last() == options@[i as int]@);
        }
        if i > 0 {
            text::put(&mut r, ";");
        }
        text::put(&mut r, "set-option");
        text::put(&mut r, "-pu");
        text::put(&mut r, "-t");
        text::put(&mut r, pane);
        text::put(&mut r, &options[i]);
        proof {
            let unset = unset_words(pane@, options@[i as int]@);
            if i > 0 {
                assert(text::texts(r@) =~= before + seq![";"@] + unset);
            } else {
                assert(text::texts(r@) =~= unset);
            }
        }
        i += 1;
    }
    assert(all.take(all.len() as int) =~= all);
    r
}

/// The commands that give up a generated name.
pub fn clear_marker_arguments(pane_id: &str) -> (r: Vec<String>)
    ensures
        text::texts(r@) == unset_sequence(pane_id@, generated_options()),
{
    unset_arguments(pane_id, &generated_option_list())
}

/// `set-option -p` of one option, as command text.
pub open spec fn set_text(pane: Seq<char>, option: Seq<char>, value: Seq<char>) -> Seq<char> {
    "set-option -p -t "@ + quote::quoted(pane) + " "@ + option + " "@ + value
}

/// `set-option -pu` of one option, as command text.
pub open spec fn unset_text(pane: Seq<char>, option: Seq<char>) -> Seq<char> {
    "set-option -pu -t "@ + quote::quoted(pane) + " "@ + option
}

pub fn set_command(pane: &str, option: &str, value: &str) -> (r: String)
    ensures
        r@ == set_text(pane@, option@, value@),
{
    let mut s = "set-option -p -t ".to_owned();
    s.append(&tmux_quote(pane));
    s.append(" ");
    s.append(option);
    s.append(" ");
    s.append(value);
    s
}

pub fn unset_command(pane: &str, option: &str) -> (r: String)
    ensures
        r@ == unset_text(pane@, option@),
{
    let mut s = "set-option -pu -t ".to_owned();
    s.append(&tmux_quote(pane));
    s.append(" ");
    s.append(option);
    s
}

pub fn set_arguments(pane: &str, option: &str, value: &str) -> (r: Vec<String>)
    ensures
        text::texts(r@) == set_words(pane@, option@, value@),
{
    list6("set-option", "-p", "-t", pane, option, value)
}

} // verus!
