//! The prompt hooks that Bash and Zsh run.
//!
//! Each hook is kept in pieces of a few lines. No piece holds a `#` or a carriage
//! return, so no line of a hook is a marker or a field of the block around it.

use vstd::prelude::*;
use crate::one_line;

verus! {

/// Neither a `#` nor a carriage return.
pub open spec fn unmarked(s: Seq<char>) -> bool {
    forall|i: int| 0 <= i < s.len() ==> #[trigger] s[i] != '#' && s[i] != '\r'
}

pub proof fn unmarked_append(a: Seq<char>, b: Seq<char>)
    requires
        unmarked(a),
        unmarked(b),
    ensures
        unmarked(a + b),
{
    assert forall|i: int| 0 <= i < (a + b).len() implies #[trigger] (a + b)[i] != '#' && (a
        + b)[i] != '\r' by {
        if i < a.len() {
            assert((a + b)[i] == a[i]);
        } else {
            assert((a + b)[i] == b[i - a.len()]);
        }
    }
}

// ---------------------------------------------------------------------------
// Bash
// ---------------------------------------------------------------------------

pub const BASH_PIECE_1: &'static str =
    "__codex_mux_prompt_on() {\n  local __codex_mux_status=$?\n  if ! shopt -q promptvars; then\n    __codex_mux_prompt_off\n    return \"$__codex_mux_status\"\n";

pub const BASH_PIECE_2: &'static str =
    "  fi\n  if [[ -n ${TMUX_PANE-} ]] && command -v tmux >/dev/null 2>&1; then\n";

pub const BASH_PIECE_3: &'static str =
    "    command tmux set-option -p -t \"$TMUX_PANE\" @codex_mux_shell_prompt 1 >/dev/null 2>&1\n  fi\n  return \"$__codex_mux_status\"\n}\n";

pub const BASH_PIECE_4: &'static str =
    "__codex_mux_prompt_off() {\n  if [[ -n ${TMUX_PANE-} ]] && command -v tmux >/dev/null 2>&1; then\n";

pub const BASH_PIECE_5: &'static str =
    "    command tmux set-option -pu -t \"$TMUX_PANE\" @codex_mux_shell_prompt >/dev/null 2>&1\n  fi\n}\n";

pub const BASH_PIECE_6: &'static str =
    "if [[ $(declare -p PROMPT_COMMAND 2>/dev/null) == \"declare -a\"* ]]; then\n  __codex_mux_prompt_found=false\n";

pub const BASH_PIECE_7: &'static str =
    "  for __codex_mux_prompt_hook in \"${PROMPT_COMMAND[@]}\"; do\n";

pub const BASH_PIECE_8: &'static str =
    "    [[ $__codex_mux_prompt_hook == __codex_mux_prompt_on ]] && __codex_mux_prompt_found=true\n  done\n";

pub const BASH_PIECE_9: &'static str =
    "  $__codex_mux_prompt_found || PROMPT_COMMAND=(__codex_mux_prompt_on \"${PROMPT_COMMAND[@]}\")\n  unset __codex_mux_prompt_found __codex_mux_prompt_hook\n";

pub const BASH_PIECE_10: &'static str =
    "else\n  __codex_mux_previous_prompt_command=${PROMPT_COMMAND-}\n  PROMPT_COMMAND=(__codex_mux_prompt_on)\n";

pub const BASH_PIECE_11: &'static str =
    "  [[ -z $__codex_mux_previous_prompt_command ]] || PROMPT_COMMAND+=(\"$__codex_mux_previous_prompt_command\")\n";

pub const BASH_PIECE_12: &'static str =
    "  unset __codex_mux_previous_prompt_command\nfi\ncase ${PS0-} in\n  *'$(__codex_mux_prompt_off)'*) ;;\n  *) PS0='$(__codex_mux_prompt_off)'\"${PS0-}\" ;;\n";

pub const BASH_PIECE_13: &'static str =
    "esac\ncase ${PS2-} in\n  *'$(__codex_mux_prompt_off)'*) ;;\n  *) PS2='$(__codex_mux_prompt_off)'\"${PS2-}\" ;;\nesac\n";

/// The Bash hook.
pub open spec fn bash_hook() -> Seq<char> {
    BASH_PIECE_1@ + BASH_PIECE_2@ + BASH_PIECE_3@ + BASH_PIECE_4@ + BASH_PIECE_5@ + BASH_PIECE_6@ + BASH_PIECE_7@ + BASH_PIECE_8@ + BASH_PIECE_9@ + BASH_PIECE_10@ + BASH_PIECE_11@ + BASH_PIECE_12@ + BASH_PIECE_13@
}

proof fn bash_piece_1_is_unmarked()
    ensures
        unmarked(BASH_PIECE_1@),
        BASH_PIECE_1@.len() == 149,
        BASH_PIECE_1@[148] == '\n',
{
    reveal_strlit(
        "__codex_mux_prompt_on() {\n  local __codex_mux_status=$?\n  if ! shopt -q promptvars; then\n    __codex_mux_prompt_off\n    return \"$__codex_mux_status\"\n",
    );
    reveal_with_fuel(one_line::one_of, 150);
    assert forall|i: int| 0 <= i < 149 implies #[trigger] BASH_PIECE_1@[i] != '#' && BASH_PIECE_1@[i]
        != '\r' by {
        one_line::one_of_range(i, 149);
    }
}

proof fn bash_piece_2_is_unmarked()
    ensures
        unmarked(BASH_PIECE_2@),
        BASH_PIECE_2@.len() == 74,
        BASH_PIECE_2@[73] == '\n',
{
    reveal_strlit(
        "  fi\n  if [[ -n ${TMUX_PANE-} ]] && command -v tmux >/dev/null 2>&1; then\n",
    );
    reveal_with_fuel(one_line::one_of, 75);
    assert forall|i: int| 0 <= i < 74 implies #[trigger] BASH_PIECE_2@[i] != '#' && BASH_PIECE_2@[i]
        != '\r' by {
        one_line::one_of_range(i, 74);
    }
}

proof fn bash_piece_3_is_unmarked()
    ensures
        unmarked(BASH_PIECE_3@),
        BASH_PIECE_3@.len() == 127,
        BASH_PIECE_3@[126] == '\n',
{
    reveal_strlit(
        "    command tmux set-option -p -t \"$TMUX_PANE\" @codex_mux_shell_prompt 1 >/dev/null 2>&1\n  fi\n  return \"$__codex_mux_status\"\n}\n",
    );
    reveal_with_fuel(one_line::one_of, 128);
    assert forall|i: int| 0 <= i < 127 implies #[trigger] BASH_PIECE_3@[i] != '#' && BASH_PIECE_3@[i]
        != '\r' by {
        one_line::one_of_range(i, 127);
    }
}

proof fn bash_piece_4_is_unmarked()
    ensures
        unmarked(BASH_PIECE_4@),
        BASH_PIECE_4@.len() == 96,
        BASH_PIECE_4@[95] == '\n',
{
    reveal_strlit(
        "__codex_mux_prompt_off() {\n  if [[ -n ${TMUX_PANE-} ]] && command -v tmux >/dev/null 2>&1; then\n",
    );
    reveal_with_fuel(one_line::one_of, 97);
    assert forall|i: int| 0 <= i < 96 implies #[trigger] BASH_PIECE_4@[i] != '#' && BASH_PIECE_4@[i]
        != '\r' by {
        one_line::one_of_range(i, 96);
    }
}

proof fn bash_piece_5_is_unmarked()
    ensures
        unmarked(BASH_PIECE_5@),
        BASH_PIECE_5@.len() == 95,
        BASH_PIECE_5@[94] == '\n',
{
    reveal_strlit(
        "    command tmux set-option -pu -t \"$TMUX_PANE\" @codex_mux_shell_prompt >/dev/null 2>&1\n  fi\n}\n",
    );
    reveal_with_fuel(one_line::one_of, 96);
    assert forall|i: int| 0 <= i < 95 implies #[trigger] BASH_PIECE_5@[i] != '#' && BASH_PIECE_5@[i]
        != '\r' by {
        one_line::one_of_range(i, 95);
    }
}

proof fn bash_piece_6_is_unmarked()
    ensures
        unmarked(BASH_PIECE_6@),
        BASH_PIECE_6@.len() == 106,
        BASH_PIECE_6@[105] == '\n',
{
    reveal_strlit(
        "if [[ $(declare -p PROMPT_COMMAND 2>/dev/null) == \"declare -a\"* ]]; then\n  __codex_mux_prompt_found=false\n",
    );
    reveal_with_fuel(one_line::one_of, 107);
    assert forall|i: int| 0 <= i < 106 implies #[trigger] BASH_PIECE_6@[i] != '#' && BASH_PIECE_6@[i]
        != '\r' by {
        one_line::one_of_range(i, 106);
    }
}

proof fn bash_piece_7_is_unmarked()
    ensures
        unmarked(BASH_PIECE_7@),
        BASH_PIECE_7@.len() == 60,
        BASH_PIECE_7@[59] == '\n',
{
    reveal_strlit(
        "  for __codex_mux_prompt_hook in \"${PROMPT_COMMAND[@]}\"; do\n",
    );
    reveal_with_fuel(one_line::one_of, 61);
    assert forall|i: int| 0 <= i < 60 implies #[trigger] BASH_PIECE_7@[i] != '#' && BASH_PIECE_7@[i]
        != '\r' by {
        one_line::one_of_range(i, 60);
    }
}

proof fn bash_piece_8_is_unmarked()
    ensures
        unmarked(BASH_PIECE_8@),
        BASH_PIECE_8@.len() == 100,
        BASH_PIECE_8@[99] == '\n',
{
    reveal_strlit(
        "    [[ $__codex_mux_prompt_hook == __codex_mux_prompt_on ]] && __codex_mux_prompt_found=true\n  done\n",
    );
    reveal_with_fuel(one_line::one_of, 101);
    assert forall|i: int| 0 <= i < 100 implies #[trigger] BASH_PIECE_8@[i] != '#' && BASH_PIECE_8@[i]
        != '\r' by {
        one_line::one_of_range(i, 100);
    }
}

proof fn bash_piece_9_is_unmarked()
    ensures
        unmarked(BASH_PIECE_9@),
        BASH_PIECE_9@.len() == 150,
        BASH_PIECE_9@[149] == '\n',
{
    reveal_strlit(
        "  $__codex_mux_prompt_found || PROMPT_COMMAND=(__codex_mux_prompt_on \"${PROMPT_COMMAND[@]}\")\n  unset __codex_mux_prompt_found __codex_mux_prompt_hook\n",
    );
    reveal_with_fuel(one_line::one_of, 151);
    assert forall|i: int| 0 <= i < 150 implies #[trigger] BASH_PIECE_9@[i] != '#' && BASH_PIECE_9@[i]
        != '\r' by {
        one_line::one_of_range(i, 150);
    }
}

proof fn bash_piece_10_is_unmarked()
    ensures
        unmarked(BASH_PIECE_10@),
        BASH_PIECE_10@.len() == 103,
        BASH_PIECE_10@[102] == '\n',
{
    reveal_strlit(
        "else\n  __codex_mux_previous_prompt_command=${PROMPT_COMMAND-}\n  PROMPT_COMMAND=(__codex_mux_prompt_on)\n",
    );
    reveal_with_fuel(one_line::one_of, 104);
    assert forall|i: int| 0 <= i < 103 implies #[trigger] BASH_PIECE_10@[i] != '#' && BASH_PIECE_10@[i]
        != '\r' by {
        one_line::one_of_range(i, 103);
    }
}

proof fn bash_piece_11_is_unmarked()
    ensures
        unmarked(BASH_PIECE_11@),
        BASH_PIECE_11@.len() == 108,
        BASH_PIECE_11@[107] == '\n',
{
    reveal_strlit(
        "  [[ -z $__codex_mux_previous_prompt_command ]] || PROMPT_COMMAND+=(\"$__codex_mux_previous_prompt_command\")\n",
    );
    reveal_with_fuel(one_line::one_of, 109);
    assert forall|i: int| 0 <= i < 108 implies #[trigger] BASH_PIECE_11@[i] != '#' && BASH_PIECE_11@[i]
        != '\r' by {
        one_line::one_of_range(i, 108);
    }
}

proof fn bash_piece_12_is_unmarked()
    ensures
        unmarked(BASH_PIECE_12@),
        BASH_PIECE_12@.len() == 148,
        BASH_PIECE_12@[147] == '\n',
{
    reveal_strlit(
        "  unset __codex_mux_previous_prompt_command\nfi\ncase ${PS0-} in\n  *'$(__codex_mux_prompt_off)'*) ;;\n  *) PS0='$(__codex_mux_prompt_off)'\"${PS0-}\" ;;\n",
    );
    reveal_with_fuel(one_line::one_of, 149);
    assert forall|i: int| 0 <= i < 148 implies #[trigger] BASH_PIECE_12@[i] != '#' && BASH_PIECE_12@[i]
        != '\r' by {
        one_line::one_of_range(i, 148);
    }
}

proof fn bash_piece_13_is_unmarked()
    ensures
        unmarked(BASH_PIECE_13@),
        BASH_PIECE_13@.len() == 111,
        BASH_PIECE_13@[110] == '\n',
{
    reveal_strlit(
        "esac\ncase ${PS2-} in\n  *'$(__codex_mux_prompt_off)'*) ;;\n  *) PS2='$(__codex_mux_prompt_off)'\"${PS2-}\" ;;\nesac\n",
    );
    reveal_with_fuel(one_line::one_of, 112);
    assert forall|i: int| 0 <= i < 111 implies #[trigger] BASH_PIECE_13@[i] != '#' && BASH_PIECE_13@[i]
        != '\r' by {
        one_line::one_of_range(i, 111);
    }
}

/// The Bash hook holds no marker and ends its last line.
pub proof fn bash_hook_is_unmarked()
    ensures
        unmarked(bash_hook()),
        bash_hook().len() > 0,
        bash_hook().last() == '\n',
{
    bash_piece_1_is_unmarked();
    let s1 = BASH_PIECE_1@;
    bash_piece_2_is_unmarked();
    unmarked_append(s1, BASH_PIECE_2@);
    let s2 = s1 + BASH_PIECE_2@;
    bash_piece_3_is_unmarked();
    unmarked_append(s2, BASH_PIECE_3@);
    let s3 = s2 + BASH_PIECE_3@;
    bash_piece_4_is_unmarked();
    unmarked_append(s3, BASH_PIECE_4@);
    let s4 = s3 + BASH_PIECE_4@;
    bash_piece_5_is_unmarked();
    unmarked_append(s4, BASH_PIECE_5@);
    let s5 = s4 + BASH_PIECE_5@;
    bash_piece_6_is_unmarked();
    unmarked_append(s5, BASH_PIECE_6@);
    let s6 = s5 + BASH_PIECE_6@;
    bash_piece_7_is_unmarked();
    unmarked_append(s6, BASH_PIECE_7@);
    let s7 = s6 + BASH_PIECE_7@;
    bash_piece_8_is_unmarked();
    unmarked_append(s7, BASH_PIECE_8@);
    let s8 = s7 + BASH_PIECE_8@;
    bash_piece_9_is_unmarked();
    unmarked_append(s8, BASH_PIECE_9@);
    let s9 = s8 + BASH_PIECE_9@;
    bash_piece_10_is_unmarked();
    unmarked_append(s9, BASH_PIECE_10@);
    let s10 = s9 + BASH_PIECE_10@;
    bash_piece_11_is_unmarked();
    unmarked_append(s10, BASH_PIECE_11@);
    let s11 = s10 + BASH_PIECE_11@;
    bash_piece_12_is_unmarked();
    unmarked_append(s11, BASH_PIECE_12@);
    let s12 = s11 + BASH_PIECE_12@;
    bash_piece_13_is_unmarked();
    unmarked_append(s12, BASH_PIECE_13@);
    let s13 = s12 + BASH_PIECE_13@;
}

pub fn bash_hook_text() -> (r: String)
    ensures
        r@ == bash_hook(),
{
    let mut r = BASH_PIECE_1.to_owned();
    r.append(BASH_PIECE_2);
    r.append(BASH_PIECE_3);
    r.append(BASH_PIECE_4);
    r.append(BASH_PIECE_5);
    r.append(BASH_PIECE_6);
    r.append(BASH_PIECE_7);
    r.append(BASH_PIECE_8);
    r.append(BASH_PIECE_9);
    r.append(BASH_PIECE_10);
    r.append(BASH_PIECE_11);
    r.append(BASH_PIECE_12);
    r.append(BASH_PIECE_13);
    r
}

// ---------------------------------------------------------------------------
// Zsh
// ---------------------------------------------------------------------------

pub const ZSH_PIECE_1: &'static str =
    "__codex_mux_prompt_on() {\n  if [[ ${__codex_mux_prompt_marked-0} != 1 && -n ${TMUX_PANE-} ]] && (( $+commands[tmux] )); then\n";

pub const ZSH_PIECE_2: &'static str =
    "    command tmux set-option -p -t \"$TMUX_PANE\" @codex_mux_shell_prompt 1 >/dev/null 2>&1 && __codex_mux_prompt_marked=1\n  fi\n  return 0\n}\n";

pub const ZSH_PIECE_3: &'static str =
    "__codex_mux_prompt_off() {\n  if [[ ${__codex_mux_prompt_marked-0} == 1 && -n ${TMUX_PANE-} ]] && (( $+commands[tmux] )); then\n";

pub const ZSH_PIECE_4: &'static str =
    "    command tmux set-option -pu -t \"$TMUX_PANE\" @codex_mux_shell_prompt >/dev/null 2>&1 && __codex_mux_prompt_marked=0\n  fi\n}\n";

pub const ZSH_PIECE_5: &'static str =
    "autoload -Uz add-zsh-hook\nautoload -Uz add-zle-hook-widget\nzmodload zsh/zle\n__codex_mux_zle_prompt_state() {\n";

pub const ZSH_PIECE_6: &'static str =
    "  if [[ $CONTEXT == start && -z $PREBUFFER && $BUFFER != *$'\\n'* ]]; then\n    __codex_mux_prompt_on\n  else\n    __codex_mux_prompt_off\n  fi\n  return 0\n";

pub const ZSH_PIECE_7: &'static str =
    "}\n__codex_mux_zle_line_finish() {\n  __codex_mux_prompt_off\n  return 0\n}\nadd-zsh-hook -d precmd __codex_mux_prompt_on 2>/dev/null\n";

pub const ZSH_PIECE_8: &'static str =
    "add-zsh-hook -d preexec __codex_mux_prompt_off 2>/dev/null\nadd-zsh-hook precmd __codex_mux_prompt_on\nadd-zsh-hook preexec __codex_mux_prompt_off\n";

pub const ZSH_PIECE_9: &'static str =
    "add-zle-hook-widget -d line-init __codex_mux_zle_prompt_state 2>/dev/null\n";

pub const ZSH_PIECE_10: &'static str =
    "add-zle-hook-widget -d line-pre-redraw __codex_mux_zle_prompt_state 2>/dev/null\n";

pub const ZSH_PIECE_11: &'static str =
    "add-zle-hook-widget -d line-finish __codex_mux_zle_line_finish 2>/dev/null\nadd-zle-hook-widget line-init __codex_mux_zle_prompt_state\n";

pub const ZSH_PIECE_12: &'static str =
    "add-zle-hook-widget line-pre-redraw __codex_mux_zle_prompt_state\nadd-zle-hook-widget line-finish __codex_mux_zle_line_finish\n";

/// The Zsh hook.
pub open spec fn zsh_hook() -> Seq<char> {
    ZSH_PIECE_1@ + ZSH_PIECE_2@ + ZSH_PIECE_3@ + ZSH_PIECE_4@ + ZSH_PIECE_5@ + ZSH_PIECE_6@ + ZSH_PIECE_7@ + ZSH_PIECE_8@ + ZSH_PIECE_9@ + ZSH_PIECE_10@ + ZSH_PIECE_11@ + ZSH_PIECE_12@
}

proof fn zsh_piece_1_is_unmarked()
    ensures
        unmarked(ZSH_PIECE_1@),
        ZSH_PIECE_1@.len() == 125,
        ZSH_PIECE_1@[124] == '\n',
{
    reveal_strlit(
        "__codex_mux_prompt_on() {\n  if [[ ${__codex_mux_prompt_marked-0} != 1 && -n ${TMUX_PANE-} ]] && (( $+commands[tmux] )); then\n",
    );
    reveal_with_fuel(one_line::one_of, 126);
    assert forall|i: int| 0 <= i < 125 implies #[trigger] ZSH_PIECE_1@[i] != '#' && ZSH_PIECE_1@[i]
        != '\r' by {
        one_line::one_of_range(i, 125);
    }
}

proof fn zsh_piece_2_is_unmarked()
    ensures
        unmarked(ZSH_PIECE_2@),
        ZSH_PIECE_2@.len() == 138,
        ZSH_PIECE_2@[137] == '\n',
{
    reveal_strlit(
        "    command tmux set-option -p -t \"$TMUX_PANE\" @codex_mux_shell_prompt 1 >/dev/null 2>&1 && __codex_mux_prompt_marked=1\n  fi\n  return 0\n}\n",
    );
    reveal_with_fuel(one_line::one_of, 139);
    assert forall|i: int| 0 <= i < 138 implies #[trigger] ZSH_PIECE_2@[i] != '#' && ZSH_PIECE_2@[i]
        != '\r' by {
        one_line::one_of_range(i, 138);
    }
}

proof fn zsh_piece_3_is_unmarked()
    ensures
        unmarked(ZSH_PIECE_3@),
        ZSH_PIECE_3@.len() == 126,
        ZSH_PIECE_3@[125] == '\n',
{
    reveal_strlit(
        "__codex_mux_prompt_off() {\n  if [[ ${__codex_mux_prompt_marked-0} == 1 && -n ${TMUX_PANE-} ]] && (( $+commands[tmux] )); then\n",
    );
    reveal_with_fuel(one_line::one_of, 127);
    assert forall|i: int| 0 <= i < 126 implies #[trigger] ZSH_PIECE_3@[i] != '#' && ZSH_PIECE_3@[i]
        != '\r' by {
        one_line::one_of_range(i, 126);
    }
}

proof fn zsh_piece_4_is_unmarked()
    ensures
        unmarked(ZSH_PIECE_4@),
        ZSH_PIECE_4@.len() == 126,
        ZSH_PIECE_4@[125] == '\n',
{
    reveal_strlit(
        "    command tmux set-option -pu -t \"$TMUX_PANE\" @codex_mux_shell_prompt >/dev/null 2>&1 && __codex_mux_prompt_marked=0\n  fi\n}\n",
    );
    reveal_with_fuel(one_line::one_of, 127);
    assert forall|i: int| 0 <= i < 126 implies #[trigger] ZSH_PIECE_4@[i] != '#' && ZSH_PIECE_4@[i]
        != '\r' by {
        one_line::one_of_range(i, 126);
    }
}

proof fn zsh_piece_5_is_unmarked()
    ensures
        unmarked(ZSH_PIECE_5@),
        ZSH_PIECE_5@.len() == 109,
        ZSH_PIECE_5@[108] == '\n',
{
    reveal_strlit(
        "autoload -Uz add-zsh-hook\nautoload -Uz add-zle-hook-widget\nzmodload zsh/zle\n__codex_mux_zle_prompt_state() {\n",
    );
    reveal_with_fuel(one_line::one_of, 110);
    assert forall|i: int| 0 <= i < 109 implies #[trigger] ZSH_PIECE_5@[i] != '#' && ZSH_PIECE_5@[i]
        != '\r' by {
        one_line::one_of_range(i, 109);
    }
}

proof fn zsh_piece_6_is_unmarked()
    ensures
        unmarked(ZSH_PIECE_6@),
        ZSH_PIECE_6@.len() == 150,
        ZSH_PIECE_6@[149] == '\n',
{
    reveal_strlit(
        "  if [[ $CONTEXT == start && -z $PREBUFFER && $BUFFER != *$'\\n'* ]]; then\n    __codex_mux_prompt_on\n  else\n    __codex_mux_prompt_off\n  fi\n  return 0\n",
    );
    reveal_with_fuel(one_line::one_of, 151);
    assert forall|i: int| 0 <= i < 150 implies #[trigger] ZSH_PIECE_6@[i] != '#' && ZSH_PIECE_6@[i]
        != '\r' by {
        one_line::one_of_range(i, 150);
    }
}

proof fn zsh_piece_7_is_unmarked()
    ensures
        unmarked(ZSH_PIECE_7@),
        ZSH_PIECE_7@.len() == 129,
        ZSH_PIECE_7@[128] == '\n',
{
    reveal_strlit(
        "}\n__codex_mux_zle_line_finish() {\n  __codex_mux_prompt_off\n  return 0\n}\nadd-zsh-hook -d precmd __codex_mux_prompt_on 2>/dev/null\n",
    );
    reveal_with_fuel(one_line::one_of, 130);
    assert forall|i: int| 0 <= i < 129 implies #[trigger] ZSH_PIECE_7@[i] != '#' && ZSH_PIECE_7@[i]
        != '\r' by {
        one_line::one_of_range(i, 129);
    }
}

proof fn zsh_piece_8_is_unmarked()
    ensures
        unmarked(ZSH_PIECE_8@),
        ZSH_PIECE_8@.len() == 145,
        ZSH_PIECE_8@[144] == '\n',
{
    reveal_strlit(
        "add-zsh-hook -d preexec __codex_mux_prompt_off 2>/dev/null\nadd-zsh-hook precmd __codex_mux_prompt_on\nadd-zsh-hook preexec __codex_mux_prompt_off\n",
    );
    reveal_with_fuel(one_line::one_of, 146);
    assert forall|i: int| 0 <= i < 145 implies #[trigger] ZSH_PIECE_8@[i] != '#' && ZSH_PIECE_8@[i]
        != '\r' by {
        one_line::one_of_range(i, 145);
    }
}

proof fn zsh_piece_9_is_unmarked()
    ensures
        unmarked(ZSH_PIECE_9@),
        ZSH_PIECE_9@.len() == 74,
        ZSH_PIECE_9@[73] == '\n',
{
    reveal_strlit(
        "add-zle-hook-widget -d line-init __codex_mux_zle_prompt_state 2>/dev/null\n",
    );
    reveal_with_fuel(one_line::one_of, 75);
    assert forall|i: int| 0 <= i < 74 implies #[trigger] ZSH_PIECE_9@[i] != '#' && ZSH_PIECE_9@[i]
        != '\r' by {
        one_line::one_of_range(i, 74);
    }
}

proof fn zsh_piece_10_is_unmarked()
    ensures
        unmarked(ZSH_PIECE_10@),
        ZSH_PIECE_10@.len() == 80,
        ZSH_PIECE_10@[79] == '\n',
{
    reveal_strlit(
        "add-zle-hook-widget -d line-pre-redraw __codex_mux_zle_prompt_state 2>/dev/null\n",
    );
    reveal_with_fuel(one_line::one_of, 81);
    assert forall|i: int| 0 <= i < 80 implies #[trigger] ZSH_PIECE_10@[i] != '#' && ZSH_PIECE_10@[i]
        != '\r' by {
        one_line::one_of_range(i, 80);
    }
}

proof fn zsh_piece_11_is_unmarked()
    ensures
        unmarked(ZSH_PIECE_11@),
        ZSH_PIECE_11@.len() == 134,
        ZSH_PIECE_11@[133] == '\n',
{
    reveal_strlit(
        "add-zle-hook-widget -d line-finish __codex_mux_zle_line_finish 2>/dev/null\nadd-zle-hook-widget line-init __codex_mux_zle_prompt_state\n",
    );
    reveal_with_fuel(one_line::one_of, 135);
    assert forall|i: int| 0 <= i < 134 implies #[trigger] ZSH_PIECE_11@[i] != '#' && ZSH_PIECE_11@[i]
        != '\r' by {
        one_line::one_of_range(i, 134);
    }
}

proof fn zsh_piece_12_is_unmarked()
    ensures
        unmarked(ZSH_PIECE_12@),
        ZSH_PIECE_12@.len() == 125,
        ZSH_PIECE_12@[124] == '\n',
{
    reveal_strlit(
        "add-zle-hook-widget line-pre-redraw __codex_mux_zle_prompt_state\nadd-zle-hook-widget line-finish __codex_mux_zle_line_finish\n",
    );
    reveal_with_fuel(one_line::one_of, 126);
    assert forall|i: int| 0 <= i < 125 implies #[trigger] ZSH_PIECE_12@[i] != '#' && ZSH_PIECE_12@[i]
        != '\r' by {
        one_line::one_of_range(i, 125);
    }
}

/// The Zsh hook holds no marker and ends its last line.
pub proof fn zsh_hook_is_unmarked()
    ensures
        unmarked(zsh_hook()),
        zsh_hook().len() > 0,
        zsh_hook().last() == '\n',
{
    zsh_piece_1_is_unmarked();
    let s1 = ZSH_PIECE_1@;
    zsh_piece_2_is_unmarked();
    unmarked_append(s1, ZSH_PIECE_2@);
    let s2 = s1 + ZSH_PIECE_2@;
    zsh_piece_3_is_unmarked();
    unmarked_append(s2, ZSH_PIECE_3@);
    let s3 = s2 + ZSH_PIECE_3@;
    zsh_piece_4_is_unmarked();
    unmarked_append(s3, ZSH_PIECE_4@);
    let s4 = s3 + ZSH_PIECE_4@;
    zsh_piece_5_is_unmarked();
    unmarked_append(s4, ZSH_PIECE_5@);
    let s5 = s4 + ZSH_PIECE_5@;
    zsh_piece_6_is_unmarked();
    unmarked_append(s5, ZSH_PIECE_6@);
    let s6 = s5 + ZSH_PIECE_6@;
    zsh_piece_7_is_unmarked();
    unmarked_append(s6, ZSH_PIECE_7@);
    let s7 = s6 + ZSH_PIECE_7@;
    zsh_piece_8_is_unmarked();
    unmarked_append(s7, ZSH_PIECE_8@);
    let s8 = s7 + ZSH_PIECE_8@;
    zsh_piece_9_is_unmarked();
    unmarked_append(s8, ZSH_PIECE_9@);
    let s9 = s8 + ZSH_PIECE_9@;
    zsh_piece_10_is_unmarked();
    unmarked_append(s9, ZSH_PIECE_10@);
    let s10 = s9 + ZSH_PIECE_10@;
    zsh_piece_11_is_unmarked();
    unmarked_append(s10, ZSH_PIECE_11@);
    let s11 = s10 + ZSH_PIECE_11@;
    zsh_piece_12_is_unmarked();
    unmarked_append(s11, ZSH_PIECE_12@);
    let s12 = s11 + ZSH_PIECE_12@;
}

pub fn zsh_hook_text() -> (r: String)
    ensures
        r@ == zsh_hook(),
{
    let mut r = ZSH_PIECE_1.to_owned();
    r.append(ZSH_PIECE_2);
    r.append(ZSH_PIECE_3);
    r.append(ZSH_PIECE_4);
    r.append(ZSH_PIECE_5);
    r.append(ZSH_PIECE_6);
    r.append(ZSH_PIECE_7);
    r.append(ZSH_PIECE_8);
    r.append(ZSH_PIECE_9);
    r.append(ZSH_PIECE_10);
    r.append(ZSH_PIECE_11);
    r.append(ZSH_PIECE_12);
    r
}

} // verus!
