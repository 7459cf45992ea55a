//! The fields of the formats that tmux is asked with, in the order in which they are read.

use vstd::prelude::*;
use crate::app::context;
use crate::tmux::inventory;
use crate::tmux::owned_names;
use crate::tmux::smart_left;

verus! {

/// A format holds a field at a place, a separator or its end behind it, and a separator or
/// its beginning in front of it.
pub open spec fn field_at(format: Seq<char>, field: Seq<char>, i: int) -> bool {
    &&& 0 <= i && i + field.len() <= format.len()
    &&& format.subrange(i, i + field.len()) == field
    &&& i > 0 ==> format[i - 1] == '\x1f'
    &&& i + field.len() < format.len() ==> format[i + field.len()] == '\x1f'
}

/// The list of panes asks for what its rows are read as, field by field.
#[verifier::rlimit(80)]
pub proof fn the_list_of_panes_asks_for_its_fields()
    ensures
        inventory::PANE_FORMAT@.len() == 222,
        field_at(inventory::PANE_FORMAT@, "#{pane_id}"@, 0),
        field_at(inventory::PANE_FORMAT@, "#{session_id}"@, 11),
        field_at(inventory::PANE_FORMAT@, "#{window_id}"@, 25),
        field_at(inventory::PANE_FORMAT@, "#{window_name}"@, 38),
        field_at(inventory::PANE_FORMAT@, "#{pane_title}"@, 53),
        field_at(inventory::PANE_FORMAT@, "#{pane_current_path}"@, 67),
        field_at(inventory::PANE_FORMAT@, "#{pane_current_command}"@, 88),
        field_at(inventory::PANE_FORMAT@, "#{pane_pid}"@, 112),
        field_at(inventory::PANE_FORMAT@, "#{pane_tty}"@, 124),
        field_at(inventory::PANE_FORMAT@, "#{@codex_mux_generated_thread}"@, 136),
        field_at(inventory::PANE_FORMAT@, "#{@codex_mux_generated_name}"@, 167),
        field_at(inventory::PANE_FORMAT@, "#{@codex_mux_generated_at}"@, 196),
{
    reveal_strlit("#{pane_id}\x1f#{session_id}\x1f#{window_id}\x1f#{window_name}\x1f#{pane_title}\x1f#{pane_current_path}\x1f#{pane_current_command}\x1f#{pane_pid}\x1f#{pane_tty}\x1f#{@codex_mux_generated_thread}\x1f#{@codex_mux_generated_name}\x1f#{@codex_mux_generated_at}");
    let format = inventory::PANE_FORMAT@;
    assert(format.len() == 222);
    reveal_strlit("#{pane_id}");
    assert("#{pane_id}"@.len() == 10);
    assert(format.subrange(0, 10) =~= "#{pane_id}"@);
    reveal_strlit("#{session_id}");
    assert("#{session_id}"@.len() == 13);
    assert(format.subrange(11, 24) =~= "#{session_id}"@);
    reveal_strlit("#{window_id}");
    assert("#{window_id}"@.len() == 12);
    assert(format.subrange(25, 37) =~= "#{window_id}"@);
    reveal_strlit("#{window_name}");
    assert("#{window_name}"@.len() == 14);
    assert(format.subrange(38, 52) =~= "#{window_name}"@);
    reveal_strlit("#{pane_title}");
    assert("#{pane_title}"@.len() == 13);
    assert(format.subrange(53, 66) =~= "#{pane_title}"@);
    reveal_strlit("#{pane_current_path}");
    assert("#{pane_current_path}"@.len() == 20);
    assert(format.subrange(67, 87) =~= "#{pane_current_path}"@);
    reveal_strlit("#{pane_current_command}");
    assert("#{pane_current_command}"@.len() == 23);
    assert(format.subrange(88, 111) =~= "#{pane_current_command}"@);
    reveal_strlit("#{pane_pid}");
    assert("#{pane_pid}"@.len() == 11);
    assert(format.subrange(112, 123) =~= "#{pane_pid}"@);
    reveal_strlit("#{pane_tty}");
    assert("#{pane_tty}"@.len() == 11);
    assert(format.subrange(124, 135) =~= "#{pane_tty}"@);
    reveal_strlit("#{@codex_mux_generated_thread}");
    assert("#{@codex_mux_generated_thread}"@.len() == 30);
    assert(format.subrange(136, 166) =~= "#{@codex_mux_generated_thread}"@);
    reveal_strlit("#{@codex_mux_generated_name}");
    assert("#{@codex_mux_generated_name}"@.len() == 28);
    assert(format.subrange(167, 195) =~= "#{@codex_mux_generated_name}"@);
    reveal_strlit("#{@codex_mux_generated_at}");
    assert("#{@codex_mux_generated_at}"@.len() == 26);
    assert(format.subrange(196, 222) =~= "#{@codex_mux_generated_at}"@);
}

/// The state of the names asks for what its rows are read as, field by field.
#[verifier::rlimit(80)]
pub proof fn the_state_of_names_asks_for_its_fields()
    ensures
        owned_names::STATE_FORMAT@.len() == 446,
        field_at(owned_names::STATE_FORMAT@, "#{pane_id}"@, 0),
        field_at(owned_names::STATE_FORMAT@, "#{pane_title}"@, 11),
        field_at(owned_names::STATE_FORMAT@, "#{pane_current_path}"@, 25),
        field_at(owned_names::STATE_FORMAT@, "#{pane_pid}"@, 46),
        field_at(owned_names::STATE_FORMAT@, "#{session_id}"@, 58),
        field_at(owned_names::STATE_FORMAT@, "#{@codex_mux_generated_thread}"@, 72),
        field_at(owned_names::STATE_FORMAT@, "#{@codex_mux_generated_name}"@, 103),
        field_at(owned_names::STATE_FORMAT@, "#{@codex_mux_generated_source_title}"@, 132),
        field_at(owned_names::STATE_FORMAT@, "#{@codex_mux_generated_source_cwd}"@, 169),
        field_at(owned_names::STATE_FORMAT@, "#{@codex_mux_generated_source_pid}"@, 204),
        field_at(owned_names::STATE_FORMAT@, "#{@codex_mux_generated_source_session}"@, 239),
        field_at(owned_names::STATE_FORMAT@, "#{@codex_mux_generated_at}"@, 278),
        field_at(owned_names::STATE_FORMAT@, "#{@codex_mux_name_now}"@, 305),
        field_at(owned_names::STATE_FORMAT@, "#{@codex_mux_manual_name}"@, 328),
        field_at(owned_names::STATE_FORMAT@, "#{@codex_mux_auto_name_status}"@, 354),
        field_at(owned_names::STATE_FORMAT@, "#{@codex_mux_auto_name_started}"@, 385),
        field_at(owned_names::STATE_FORMAT@, "#{@codex_mux_auto_name_token}"@, 417),
{
    reveal_strlit("#{pane_id}\x1f#{pane_title}\x1f#{pane_current_path}\x1f#{pane_pid}\x1f#{session_id}\x1f#{@codex_mux_generated_thread}\x1f#{@codex_mux_generated_name}\x1f#{@codex_mux_generated_source_title}\x1f#{@codex_mux_generated_source_cwd}\x1f#{@codex_mux_generated_source_pid}\x1f#{@codex_mux_generated_source_session}\x1f#{@codex_mux_generated_at}\x1f#{@codex_mux_name_now}\x1f#{@codex_mux_manual_name}\x1f#{@codex_mux_auto_name_status}\x1f#{@codex_mux_auto_name_started}\x1f#{@codex_mux_auto_name_token}");
    let format = owned_names::STATE_FORMAT@;
    assert(format.len() == 446);
    reveal_strlit("#{pane_id}");
    assert("#{pane_id}"@.len() == 10);
    assert(format.subrange(0, 10) =~= "#{pane_id}"@);
    reveal_strlit("#{pane_title}");
    assert("#{pane_title}"@.len() == 13);
    assert(format.subrange(11, 24) =~= "#{pane_title}"@);
    reveal_strlit("#{pane_current_path}");
    assert("#{pane_current_path}"@.len() == 20);
    assert(format.subrange(25, 45) =~= "#{pane_current_path}"@);
    reveal_strlit("#{pane_pid}");
    assert("#{pane_pid}"@.len() == 11);
    assert(format.subrange(46, 57) =~= "#{pane_pid}"@);
    reveal_strlit("#{session_id}");
    assert("#{session_id}"@.len() == 13);
    assert(format.subrange(58, 71) =~= "#{session_id}"@);
    reveal_strlit("#{@codex_mux_generated_thread}");
    assert("#{@codex_mux_generated_thread}"@.len() == 30);
    assert(format.subrange(72, 102) =~= "#{@codex_mux_generated_thread}"@);
    reveal_strlit("#{@codex_mux_generated_name}");
    assert("#{@codex_mux_generated_name}"@.len() == 28);
    assert(format.subrange(103, 131) =~= "#{@codex_mux_generated_name}"@);
    reveal_strlit("#{@codex_mux_generated_source_title}");
    assert("#{@codex_mux_generated_source_title}"@.len() == 36);
    assert(format.subrange(132, 168) =~= "#{@codex_mux_generated_source_title}"@);
    reveal_strlit("#{@codex_mux_generated_source_cwd}");
    assert("#{@codex_mux_generated_source_cwd}"@.len() == 34);
    assert(format.subrange(169, 203) =~= "#{@codex_mux_generated_source_cwd}"@);
    reveal_strlit("#{@codex_mux_generated_source_pid}");
    assert("#{@codex_mux_generated_source_pid}"@.len() == 34);
    assert(format.subrange(204, 238) =~= "#{@codex_mux_generated_source_pid}"@);
    reveal_strlit("#{@codex_mux_generated_source_session}");
    assert("#{@codex_mux_generated_source_session}"@.len() == 38);
    assert(format.subrange(239, 277) =~= "#{@codex_mux_generated_source_session}"@);
    reveal_strlit("#{@codex_mux_generated_at}");
    assert("#{@codex_mux_generated_at}"@.len() == 26);
    assert(format.subrange(278, 304) =~= "#{@codex_mux_generated_at}"@);
    reveal_strlit("#{@codex_mux_name_now}");
    assert("#{@codex_mux_name_now}"@.len() == 22);
    assert(format.subrange(305, 327) =~= "#{@codex_mux_name_now}"@);
    reveal_strlit("#{@codex_mux_manual_name}");
    assert("#{@codex_mux_manual_name}"@.len() == 25);
    assert(format.subrange(328, 353) =~= "#{@codex_mux_manual_name}"@);
    reveal_strlit("#{@codex_mux_auto_name_status}");
    assert("#{@codex_mux_auto_name_status}"@.len() == 30);
    assert(format.subrange(354, 384) =~= "#{@codex_mux_auto_name_status}"@);
    reveal_strlit("#{@codex_mux_auto_name_started}");
    assert("#{@codex_mux_auto_name_started}"@.len() == 31);
    assert(format.subrange(385, 416) =~= "#{@codex_mux_auto_name_started}"@);
    reveal_strlit("#{@codex_mux_auto_name_token}");
    assert("#{@codex_mux_auto_name_token}"@.len() == 29);
    assert(format.subrange(417, 446) =~= "#{@codex_mux_auto_name_token}"@);
}

/// The state of the windows asks for what its rows are read as, field by field.
#[verifier::rlimit(80)]
pub proof fn the_state_of_windows_asks_for_its_fields()
    ensures
        owned_names::LEGACY_STATE_FORMAT@.len() == 268,
        field_at(owned_names::LEGACY_STATE_FORMAT@, "#{pane_id}"@, 0),
        field_at(owned_names::LEGACY_STATE_FORMAT@, "#{window_id}"@, 11),
        field_at(owned_names::LEGACY_STATE_FORMAT@, "#{pane_title}"@, 24),
        field_at(owned_names::LEGACY_STATE_FORMAT@, "#{window_name}"@, 38),
        field_at(owned_names::LEGACY_STATE_FORMAT@, "#{automatic-rename}"@, 53),
        field_at(owned_names::LEGACY_STATE_FORMAT@, "#{window_panes}"@, 73),
        field_at(owned_names::LEGACY_STATE_FORMAT@, "#{@codex_mux_generated_thread}"@, 89),
        field_at(owned_names::LEGACY_STATE_FORMAT@, "#{@codex_mux_generated_name}"@, 120),
        field_at(owned_names::LEGACY_STATE_FORMAT@, "#{@codex_mux_generated_source_title}"@, 149),
        field_at(owned_names::LEGACY_STATE_FORMAT@, "#{@codex_mux_generated_source_cwd}"@, 186),
        field_at(owned_names::LEGACY_STATE_FORMAT@, "#{@codex_mux_generated_at}"@, 221),
        field_at(owned_names::LEGACY_STATE_FORMAT@, "#{pane_current_path}"@, 248),
{
    reveal_strlit("#{pane_id}\x1f#{window_id}\x1f#{pane_title}\x1f#{window_name}\x1f#{automatic-rename}\x1f#{window_panes}\x1f#{@codex_mux_generated_thread}\x1f#{@codex_mux_generated_name}\x1f#{@codex_mux_generated_source_title}\x1f#{@codex_mux_generated_source_cwd}\x1f#{@codex_mux_generated_at}\x1f#{pane_current_path}");
    let format = owned_names::LEGACY_STATE_FORMAT@;
    assert(format.len() == 268);
    reveal_strlit("#{pane_id}");
    assert("#{pane_id}"@.len() == 10);
    assert(format.subrange(0, 10) =~= "#{pane_id}"@);
    reveal_strlit("#{window_id}");
    assert("#{window_id}"@.len() == 12);
    assert(format.subrange(11, 23) =~= "#{window_id}"@);
    reveal_strlit("#{pane_title}");
    assert("#{pane_title}"@.len() == 13);
    assert(format.subrange(24, 37) =~= "#{pane_title}"@);
    reveal_strlit("#{window_name}");
    assert("#{window_name}"@.len() == 14);
    assert(format.subrange(38, 52) =~= "#{window_name}"@);
    reveal_strlit("#{automatic-rename}");
    assert("#{automatic-rename}"@.len() == 19);
    assert(format.subrange(53, 72) =~= "#{automatic-rename}"@);
    reveal_strlit("#{window_panes}");
    assert("#{window_panes}"@.len() == 15);
    assert(format.subrange(73, 88) =~= "#{window_panes}"@);
    reveal_strlit("#{@codex_mux_generated_thread}");
    assert("#{@codex_mux_generated_thread}"@.len() == 30);
    assert(format.subrange(89, 119) =~= "#{@codex_mux_generated_thread}"@);
    reveal_strlit("#{@codex_mux_generated_name}");
    assert("#{@codex_mux_generated_name}"@.len() == 28);
    assert(format.subrange(120, 148) =~= "#{@codex_mux_generated_name}"@);
    reveal_strlit("#{@codex_mux_generated_source_title}");
    assert("#{@codex_mux_generated_source_title}"@.len() == 36);
    assert(format.subrange(149, 185) =~= "#{@codex_mux_generated_source_title}"@);
    reveal_strlit("#{@codex_mux_generated_source_cwd}");
    assert("#{@codex_mux_generated_source_cwd}"@.len() == 34);
    assert(format.subrange(186, 220) =~= "#{@codex_mux_generated_source_cwd}"@);
    reveal_strlit("#{@codex_mux_generated_at}");
    assert("#{@codex_mux_generated_at}"@.len() == 26);
    assert(format.subrange(221, 247) =~= "#{@codex_mux_generated_at}"@);
    reveal_strlit("#{pane_current_path}");
    assert("#{pane_current_path}"@.len() == 20);
    assert(format.subrange(248, 268) =~= "#{pane_current_path}"@);
}

/// The state of a pane asks for what it is read as, field by field.
#[verifier::rlimit(80)]
pub proof fn the_state_of_a_pane_asks_for_its_fields()
    ensures
        smart_left::STATE_FORMAT@.len() == 129,
        field_at(smart_left::STATE_FORMAT@, "#{pane_pid}"@, 0),
        field_at(smart_left::STATE_FORMAT@, "#{pane_tty}"@, 12),
        field_at(smart_left::STATE_FORMAT@, "#{cursor_x}"@, 24),
        field_at(smart_left::STATE_FORMAT@, "#{cursor_y}"@, 36),
        field_at(smart_left::STATE_FORMAT@, "#{cursor_flag}"@, 48),
        field_at(smart_left::STATE_FORMAT@, "#{pane_in_mode}"@, 63),
        field_at(smart_left::STATE_FORMAT@, "#{pane_current_command}"@, 79),
        field_at(smart_left::STATE_FORMAT@, "#{@codex_mux_shell_prompt}"@, 103),
{
    reveal_strlit("#{pane_pid}\x1f#{pane_tty}\x1f#{cursor_x}\x1f#{cursor_y}\x1f#{cursor_flag}\x1f#{pane_in_mode}\x1f#{pane_current_command}\x1f#{@codex_mux_shell_prompt}");
    let format = smart_left::STATE_FORMAT@;
    assert(format.len() == 129);
    reveal_strlit("#{pane_pid}");
    assert("#{pane_pid}"@.len() == 11);
    assert(format.subrange(0, 11) =~= "#{pane_pid}"@);
    reveal_strlit("#{pane_tty}");
    assert("#{pane_tty}"@.len() == 11);
    assert(format.subrange(12, 23) =~= "#{pane_tty}"@);
    reveal_strlit("#{cursor_x}");
    assert("#{cursor_x}"@.len() == 11);
    assert(format.subrange(24, 35) =~= "#{cursor_x}"@);
    reveal_strlit("#{cursor_y}");
    assert("#{cursor_y}"@.len() == 11);
    assert(format.subrange(36, 47) =~= "#{cursor_y}"@);
    reveal_strlit("#{cursor_flag}");
    assert("#{cursor_flag}"@.len() == 14);
    assert(format.subrange(48, 62) =~= "#{cursor_flag}"@);
    reveal_strlit("#{pane_in_mode}");
    assert("#{pane_in_mode}"@.len() == 15);
    assert(format.subrange(63, 78) =~= "#{pane_in_mode}"@);
    reveal_strlit("#{pane_current_command}");
    assert("#{pane_current_command}"@.len() == 23);
    assert(format.subrange(79, 102) =~= "#{pane_current_command}"@);
    reveal_strlit("#{@codex_mux_shell_prompt}");
    assert("#{@codex_mux_shell_prompt}"@.len() == 26);
    assert(format.subrange(103, 129) =~= "#{@codex_mux_shell_prompt}"@);
}

/// A client is asked for what its row is read as, field by field.
#[verifier::rlimit(80)]
pub proof fn a_client_is_asked_for_its_fields()
    ensures
        context::CLIENT_FORMAT@.len() == 51,
        field_at(context::CLIENT_FORMAT@, "#{client_tty}"@, 0),
        field_at(context::CLIENT_FORMAT@, "#{session_id}"@, 14),
        field_at(context::CLIENT_FORMAT@, "#{window_id}"@, 28),
        field_at(context::CLIENT_FORMAT@, "#{pane_id}"@, 41),
{
    reveal_strlit("#{client_tty}\x1f#{session_id}\x1f#{window_id}\x1f#{pane_id}");
    let format = context::CLIENT_FORMAT@;
    assert(format.len() == 51);
    reveal_strlit("#{client_tty}");
    assert("#{client_tty}"@.len() == 13);
    assert(format.subrange(0, 13) =~= "#{client_tty}"@);
    reveal_strlit("#{session_id}");
    assert("#{session_id}"@.len() == 13);
    assert(format.subrange(14, 27) =~= "#{session_id}"@);
    reveal_strlit("#{window_id}");
    assert("#{window_id}"@.len() == 12);
    assert(format.subrange(28, 40) =~= "#{window_id}"@);
    reveal_strlit("#{pane_id}");
    assert("#{pane_id}"@.len() == 10);
    assert(format.subrange(41, 51) =~= "#{pane_id}"@);
}

/// A client with its directory is asked for what its row is read as, field by field.
#[verifier::rlimit(80)]
pub proof fn a_live_client_is_asked_for_its_fields()
    ensures
        context::LIVE_CLIENT_FORMAT@.len() == 72,
        field_at(context::LIVE_CLIENT_FORMAT@, "#{client_tty}"@, 0),
        field_at(context::LIVE_CLIENT_FORMAT@, "#{session_id}"@, 14),
        field_at(context::LIVE_CLIENT_FORMAT@, "#{window_id}"@, 28),
        field_at(context::LIVE_CLIENT_FORMAT@, "#{pane_id}"@, 41),
        field_at(context::LIVE_CLIENT_FORMAT@, "#{pane_current_path}"@, 52),
{
    reveal_strlit("#{client_tty}\x1f#{session_id}\x1f#{window_id}\x1f#{pane_id}\x1f#{pane_current_path}");
    let format = context::LIVE_CLIENT_FORMAT@;
    assert(format.len() == 72);
    reveal_strlit("#{client_tty}");
    assert("#{client_tty}"@.len() == 13);
    assert(format.subrange(0, 13) =~= "#{client_tty}"@);
    reveal_strlit("#{session_id}");
    assert("#{session_id}"@.len() == 13);
    assert(format.subrange(14, 27) =~= "#{session_id}"@);
    reveal_strlit("#{window_id}");
    assert("#{window_id}"@.len() == 12);
    assert(format.subrange(28, 40) =~= "#{window_id}"@);
    reveal_strlit("#{pane_id}");
    assert("#{pane_id}"@.len() == 10);
    assert(format.subrange(41, 51) =~= "#{pane_id}"@);
    reveal_strlit("#{pane_current_path}");
    assert("#{pane_current_path}"@.len() == 20);
    assert(format.subrange(52, 72) =~= "#{pane_current_path}"@);
}

} // verus!
