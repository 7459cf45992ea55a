//! The lines of a block stay lines: none of them breaks, none of them but the
//! first and the last is a marker, and each field is told from the others by its
//! prefix.

use vstd::prelude::*;
use crate::install::block;
use crate::install::block::PathsModel;
use crate::install::plan;
use crate::number;
use crate::one_line;
use crate::scan;
use crate::text;
use crate::tmux::quote;

verus! {

proof fn option_words_stay_on_one_line()
    ensures
        one_line::one_line("--codex"@),
        one_line::one_line("--launch-executable"@),
        one_line::one_line("--match-executable"@),
        one_line::one_line("--pane-command"@),
        one_line::one_line("--match-scope"@),
        one_line::one_line("--match-command-regex"@),
        one_line::one_line("--pane-command-regex"@),
        one_line::one_line("--client"@),
        one_line::one_line("--invoking-pane"@),
        one_line::one_line("--invoking-session"@),
        one_line::one_line("--invoking-path"@),
        one_line::one_line("smart-left"@),
        one_line::one_line(" "@),
{
    assert(one_line::one_line("--codex"@)) by {
        reveal_strlit("--codex");
        reveal_with_fuel(one_line::one_of, 8);
        assert forall|i: int| 0 <= i < 7 implies #[trigger] "--codex"@[i] != '\n' && "--codex"@[i]
            != '\r' by {
            one_line::one_of_range(i, 7);
        }
    }
    assert(one_line::one_line("--launch-executable"@)) by {
        reveal_strlit("--launch-executable");
        reveal_with_fuel(one_line::one_of, 20);
        assert forall|i: int| 0 <= i < 19 implies #[trigger] "--launch-executable"@[i] != '\n' && "--launch-executable"@[i]
            != '\r' by {
            one_line::one_of_range(i, 19);
        }
    }
    assert(one_line::one_line("--match-executable"@)) by {
        reveal_strlit("--match-executable");
        reveal_with_fuel(one_line::one_of, 19);
        assert forall|i: int| 0 <= i < 18 implies #[trigger] "--match-executable"@[i] != '\n' && "--match-executable"@[i]
            != '\r' by {
            one_line::one_of_range(i, 18);
        }
    }
    assert(one_line::one_line("--pane-command"@)) by {
        reveal_strlit("--pane-command");
        reveal_with_fuel(one_line::one_of, 15);
        assert forall|i: int| 0 <= i < 14 implies #[trigger] "--pane-command"@[i] != '\n' && "--pane-command"@[i]
            != '\r' by {
            one_line::one_of_range(i, 14);
        }
    }
    assert(one_line::one_line("--match-scope"@)) by {
        reveal_strlit("--match-scope");
        reveal_with_fuel(one_line::one_of, 14);
        assert forall|i: int| 0 <= i < 13 implies #[trigger] "--match-scope"@[i] != '\n' && "--match-scope"@[i]
            != '\r' by {
            one_line::one_of_range(i, 13);
        }
    }
    assert(one_line::one_line("--match-command-regex"@)) by {
        reveal_strlit("--match-command-regex");
        reveal_with_fuel(one_line::one_of, 22);
        assert forall|i: int| 0 <= i < 21 implies #[trigger] "--match-command-regex"@[i] != '\n' && "--match-command-regex"@[i]
            != '\r' by {
            one_line::one_of_range(i, 21);
        }
    }
    assert(one_line::one_line("--pane-command-regex"@)) by {
        reveal_strlit("--pane-command-regex");
        reveal_with_fuel(one_line::one_of, 21);
        assert forall|i: int| 0 <= i < 20 implies #[trigger] "--pane-command-regex"@[i] != '\n' && "--pane-command-regex"@[i]
            != '\r' by {
            one_line::one_of_range(i, 20);
        }
    }
    assert(one_line::one_line("--client"@)) by {
        reveal_strlit("--client");
        reveal_with_fuel(one_line::one_of, 9);
        assert forall|i: int| 0 <= i < 8 implies #[trigger] "--client"@[i] != '\n' && "--client"@[i]
            != '\r' by {
            one_line::one_of_range(i, 8);
        }
    }
    assert(one_line::one_line("--invoking-pane"@)) by {
        reveal_strlit("--invoking-pane");
        reveal_with_fuel(one_line::one_of, 16);
        assert forall|i: int| 0 <= i < 15 implies #[trigger] "--invoking-pane"@[i] != '\n' && "--invoking-pane"@[i]
            != '\r' by {
            one_line::one_of_range(i, 15);
        }
    }
    assert(one_line::one_line("--invoking-session"@)) by {
        reveal_strlit("--invoking-session");
        reveal_with_fuel(one_line::one_of, 19);
        assert forall|i: int| 0 <= i < 18 implies #[trigger] "--invoking-session"@[i] != '\n' && "--invoking-session"@[i]
            != '\r' by {
            one_line::one_of_range(i, 18);
        }
    }
    assert(one_line::one_line("--invoking-path"@)) by {
        reveal_strlit("--invoking-path");
        reveal_with_fuel(one_line::one_of, 16);
        assert forall|i: int| 0 <= i < 15 implies #[trigger] "--invoking-path"@[i] != '\n' && "--invoking-path"@[i]
            != '\r' by {
            one_line::one_of_range(i, 15);
        }
    }
    assert(one_line::one_line("smart-left"@)) by {
        reveal_strlit("smart-left");
        reveal_with_fuel(one_line::one_of, 11);
        assert forall|i: int| 0 <= i < 10 implies #[trigger] "smart-left"@[i] != '\n' && "smart-left"@[i]
            != '\r' by {
            one_line::one_of_range(i, 10);
        }
    }
    assert(one_line::one_line(" "@)) by {
        reveal_strlit(" ");
        reveal_with_fuel(one_line::one_of, 2);
        assert forall|i: int| 0 <= i < 1 implies #[trigger] " "@[i] != '\n' && " "@[i]
            != '\r' by {
            one_line::one_of_range(i, 1);
        }
    }
}

proof fn variable_words_stay_on_one_line()
    ensures
        one_line::one_line("#{q:"@),
        one_line::one_line("}"@),
        one_line::one_line("client_tty"@),
        one_line::one_line("pane_id"@),
        one_line::one_line("session_id"@),
        one_line::one_line("pane_current_path"@),
{
    assert(one_line::one_line("#{q:"@)) by {
        reveal_strlit("#{q:");
        reveal_with_fuel(one_line::one_of, 5);
        assert forall|i: int| 0 <= i < 4 implies #[trigger] "#{q:"@[i] != '\n' && "#{q:"@[i]
            != '\r' by {
            one_line::one_of_range(i, 4);
        }
    }
    assert(one_line::one_line("}"@)) by {
        reveal_strlit("}");
        reveal_with_fuel(one_line::one_of, 2);
        assert forall|i: int| 0 <= i < 1 implies #[trigger] "}"@[i] != '\n' && "}"@[i]
            != '\r' by {
            one_line::one_of_range(i, 1);
        }
    }
    assert(one_line::one_line("client_tty"@)) by {
        reveal_strlit("client_tty");
        reveal_with_fuel(one_line::one_of, 11);
        assert forall|i: int| 0 <= i < 10 implies #[trigger] "client_tty"@[i] != '\n' && "client_tty"@[i]
            != '\r' by {
            one_line::one_of_range(i, 10);
        }
    }
    assert(one_line::one_line("pane_id"@)) by {
        reveal_strlit("pane_id");
        reveal_with_fuel(one_line::one_of, 8);
        assert forall|i: int| 0 <= i < 7 implies #[trigger] "pane_id"@[i] != '\n' && "pane_id"@[i]
            != '\r' by {
            one_line::one_of_range(i, 7);
        }
    }
    assert(one_line::one_line("session_id"@)) by {
        reveal_strlit("session_id");
        reveal_with_fuel(one_line::one_of, 11);
        assert forall|i: int| 0 <= i < 10 implies #[trigger] "session_id"@[i] != '\n' && "session_id"@[i]
            != '\r' by {
            one_line::one_of_range(i, 10);
        }
    }
    assert(one_line::one_line("pane_current_path"@)) by {
        reveal_strlit("pane_current_path");
        reveal_with_fuel(one_line::one_of, 18);
        assert forall|i: int| 0 <= i < 17 implies #[trigger] "pane_current_path"@[i] != '\n' && "pane_current_path"@[i]
            != '\r' by {
            one_line::one_of_range(i, 17);
        }
    }
}

pub proof fn field_words_stay_on_one_line()
    ensures
        one_line::one_line("# codex-mux-key: "@),
        one_line::one_line("# codex-mux-binary: "@),
        one_line::one_line("# codex-executable: "@),
        one_line::one_line("# codex-launch-executable: "@),
        one_line::one_line("# codex-match-executable: "@),
        one_line::one_line("# codex-pane-command: "@),
        one_line::one_line("# codex-match-scope: "@),
        one_line::one_line("# codex-match-command-regex: "@),
        one_line::one_line("# codex-pane-command-regex: "@),
        one_line::one_line("# codex-mux-smart-left: "@),
        one_line::one_line("# codex-mux-owned-leading-newline: "@),
        one_line::one_line("true"@),
        one_line::one_line("false"@),
{
    assert(one_line::one_line("# codex-mux-key: "@)) by {
        reveal_strlit("# codex-mux-key: ");
        reveal_with_fuel(one_line::one_of, 18);
        assert forall|i: int| 0 <= i < 17 implies #[trigger] "# codex-mux-key: "@[i] != '\n' && "# codex-mux-key: "@[i]
            != '\r' by {
            one_line::one_of_range(i, 17);
        }
    }
    assert(one_line::one_line("# codex-mux-binary: "@)) by {
        reveal_strlit("# codex-mux-binary: ");
        reveal_with_fuel(one_line::one_of, 21);
        assert forall|i: int| 0 <= i < 20 implies #[trigger] "# codex-mux-binary: "@[i] != '\n' && "# codex-mux-binary: "@[i]
            != '\r' by {
            one_line::one_of_range(i, 20);
        }
    }
    assert(one_line::one_line("# codex-executable: "@)) by {
        reveal_strlit("# codex-executable: ");
        reveal_with_fuel(one_line::one_of, 21);
        assert forall|i: int| 0 <= i < 20 implies #[trigger] "# codex-executable: "@[i] != '\n' && "# codex-executable: "@[i]
            != '\r' by {
            one_line::one_of_range(i, 20);
        }
    }
    assert(one_line::one_line("# codex-launch-executable: "@)) by {
        reveal_strlit("# codex-launch-executable: ");
        reveal_with_fuel(one_line::one_of, 28);
        assert forall|i: int| 0 <= i < 27 implies #[trigger] "# codex-launch-executable: "@[i] != '\n' && "# codex-launch-executable: "@[i]
            != '\r' by {
            one_line::one_of_range(i, 27);
        }
    }
    assert(one_line::one_line("# codex-match-executable: "@)) by {
        reveal_strlit("# codex-match-executable: ");
        reveal_with_fuel(one_line::one_of, 27);
        assert forall|i: int| 0 <= i < 26 implies #[trigger] "# codex-match-executable: "@[i] != '\n' && "# codex-match-executable: "@[i]
            != '\r' by {
            one_line::one_of_range(i, 26);
        }
    }
    assert(one_line::one_line("# codex-pane-command: "@)) by {
        reveal_strlit("# codex-pane-command: ");
        reveal_with_fuel(one_line::one_of, 23);
        assert forall|i: int| 0 <= i < 22 implies #[trigger] "# codex-pane-command: "@[i] != '\n' && "# codex-pane-command: "@[i]
            != '\r' by {
            one_line::one_of_range(i, 22);
        }
    }
    assert(one_line::one_line("# codex-match-scope: "@)) by {
        reveal_strlit("# codex-match-scope: ");
        reveal_with_fuel(one_line::one_of, 22);
        assert forall|i: int| 0 <= i < 21 implies #[trigger] "# codex-match-scope: "@[i] != '\n' && "# codex-match-scope: "@[i]
            != '\r' by {
            one_line::one_of_range(i, 21);
        }
    }
    assert(one_line::one_line("# codex-match-command-regex: "@)) by {
        reveal_strlit("# codex-match-command-regex: ");
        reveal_with_fuel(one_line::one_of, 30);
        assert forall|i: int| 0 <= i < 29 implies #[trigger] "# codex-match-command-regex: "@[i] != '\n' && "# codex-match-command-regex: "@[i]
            != '\r' by {
            one_line::one_of_range(i, 29);
        }
    }
    assert(one_line::one_line("# codex-pane-command-regex: "@)) by {
        reveal_strlit("# codex-pane-command-regex: ");
        reveal_with_fuel(one_line::one_of, 29);
        assert forall|i: int| 0 <= i < 28 implies #[trigger] "# codex-pane-command-regex: "@[i] != '\n' && "# codex-pane-command-regex: "@[i]
            != '\r' by {
            one_line::one_of_range(i, 28);
        }
    }
    assert(one_line::one_line("# codex-mux-smart-left: "@)) by {
        reveal_strlit("# codex-mux-smart-left: ");
        reveal_with_fuel(one_line::one_of, 25);
        assert forall|i: int| 0 <= i < 24 implies #[trigger] "# codex-mux-smart-left: "@[i] != '\n' && "# codex-mux-smart-left: "@[i]
            != '\r' by {
            one_line::one_of_range(i, 24);
        }
    }
    assert(one_line::one_line("# codex-mux-owned-leading-newline: "@)) by {
        reveal_strlit("# codex-mux-owned-leading-newline: ");
        reveal_with_fuel(one_line::one_of, 36);
        assert forall|i: int| 0 <= i < 35 implies #[trigger] "# codex-mux-owned-leading-newline: "@[i] != '\n' && "# codex-mux-owned-leading-newline: "@[i]
            != '\r' by {
            one_line::one_of_range(i, 35);
        }
    }
    assert(one_line::one_line("true"@)) by {
        reveal_strlit("true");
        reveal_with_fuel(one_line::one_of, 5);
        assert forall|i: int| 0 <= i < 4 implies #[trigger] "true"@[i] != '\n' && "true"@[i]
            != '\r' by {
            one_line::one_of_range(i, 4);
        }
    }
    assert(one_line::one_line("false"@)) by {
        reveal_strlit("false");
        reveal_with_fuel(one_line::one_of, 6);
        assert forall|i: int| 0 <= i < 5 implies #[trigger] "false"@[i] != '\n' && "false"@[i]
            != '\r' by {
            one_line::one_of_range(i, 5);
        }
    }
}

pub proof fn fixed_lines_stay_on_one_line()
    ensures
        one_line::one_line("# >>> codex-mux >>>"@),
        one_line::one_line("# <<< codex-mux <<<"@),
        one_line::one_line("# Managed by codex-mux; changes inside this block are replaced."@),
        one_line::one_line("  set-option -p @codex_mux_smart_left_active 1"@),
        one_line::one_line("} {"@),
        one_line::one_line("  send-keys Left"@),
        one_line::one_line("}"@),
{
    assert(one_line::one_line("# >>> codex-mux >>>"@)) by {
        reveal_strlit("# >>> codex-mux >>>");
        reveal_with_fuel(one_line::one_of, 20);
        assert forall|i: int| 0 <= i < 19 implies #[trigger] "# >>> codex-mux >>>"@[i] != '\n' && "# >>> codex-mux >>>"@[i]
            != '\r' by {
            one_line::one_of_range(i, 19);
        }
    }
    assert(one_line::one_line("# <<< codex-mux <<<"@)) by {
        reveal_strlit("# <<< codex-mux <<<");
        reveal_with_fuel(one_line::one_of, 20);
        assert forall|i: int| 0 <= i < 19 implies #[trigger] "# <<< codex-mux <<<"@[i] != '\n' && "# <<< codex-mux <<<"@[i]
            != '\r' by {
            one_line::one_of_range(i, 19);
        }
    }
    assert(one_line::one_line("# Managed by codex-mux; changes inside this block are replaced."@)) by {
        reveal_strlit("# Managed by codex-mux; changes inside this block are replaced.");
        reveal_with_fuel(one_line::one_of, 64);
        assert forall|i: int| 0 <= i < 63 implies #[trigger] "# Managed by codex-mux; changes inside this block are replaced."@[i] != '\n' && "# Managed by codex-mux; changes inside this block are replaced."@[i]
            != '\r' by {
            one_line::one_of_range(i, 63);
        }
    }
    assert(one_line::one_line("  set-option -p @codex_mux_smart_left_active 1"@)) by {
        reveal_strlit("  set-option -p @codex_mux_smart_left_active 1");
        reveal_with_fuel(one_line::one_of, 47);
        assert forall|i: int| 0 <= i < 46 implies #[trigger] "  set-option -p @codex_mux_smart_left_active 1"@[i] != '\n' && "  set-option -p @codex_mux_smart_left_active 1"@[i]
            != '\r' by {
            one_line::one_of_range(i, 46);
        }
    }
    assert(one_line::one_line("} {"@)) by {
        reveal_strlit("} {");
        reveal_with_fuel(one_line::one_of, 4);
        assert forall|i: int| 0 <= i < 3 implies #[trigger] "} {"@[i] != '\n' && "} {"@[i]
            != '\r' by {
            one_line::one_of_range(i, 3);
        }
    }
    assert(one_line::one_line("  send-keys Left"@)) by {
        reveal_strlit("  send-keys Left");
        reveal_with_fuel(one_line::one_of, 17);
        assert forall|i: int| 0 <= i < 16 implies #[trigger] "  send-keys Left"@[i] != '\n' && "  send-keys Left"@[i]
            != '\r' by {
            one_line::one_of_range(i, 16);
        }
    }
    assert(one_line::one_line("}"@)) by {
        reveal_strlit("}");
        reveal_with_fuel(one_line::one_of, 2);
        assert forall|i: int| 0 <= i < 1 implies #[trigger] "}"@[i] != '\n' && "}"@[i]
            != '\r' by {
            one_line::one_of_range(i, 1);
        }
    }
}

proof fn popup_words_stay_on_one_line()
    ensures
        one_line::one_line("bind-key "@),
        one_line::one_line(" run-shell -C "@),
        one_line::one_line("display-popup -E -w '#{?"@),
        one_line::one_line("#{||:#{<:#{client_width},90},#{<:#{client_height},28}}"@),
        one_line::one_line(",100%,80%}' -h '#{?"@),
        one_line::one_line(",100%,70%}' "@),
{
    assert(one_line::one_line("bind-key "@)) by {
        reveal_strlit("bind-key ");
        reveal_with_fuel(one_line::one_of, 10);
        assert forall|i: int| 0 <= i < 9 implies #[trigger] "bind-key "@[i] != '\n' && "bind-key "@[i]
            != '\r' by {
            one_line::one_of_range(i, 9);
        }
    }
    assert(one_line::one_line(" run-shell -C "@)) by {
        reveal_strlit(" run-shell -C ");
        reveal_with_fuel(one_line::one_of, 15);
        assert forall|i: int| 0 <= i < 14 implies #[trigger] " run-shell -C "@[i] != '\n' && " run-shell -C "@[i]
            != '\r' by {
            one_line::one_of_range(i, 14);
        }
    }
    assert(one_line::one_line("display-popup -E -w '#{?"@)) by {
        reveal_strlit("display-popup -E -w '#{?");
        reveal_with_fuel(one_line::one_of, 25);
        assert forall|i: int| 0 <= i < 24 implies #[trigger] "display-popup -E -w '#{?"@[i] != '\n' && "display-popup -E -w '#{?"@[i]
            != '\r' by {
            one_line::one_of_range(i, 24);
        }
    }
    assert(one_line::one_line("#{||:#{<:#{client_width},90},#{<:#{client_height},28}}"@)) by {
        reveal_strlit("#{||:#{<:#{client_width},90},#{<:#{client_height},28}}");
        reveal_with_fuel(one_line::one_of, 55);
        assert forall|i: int| 0 <= i < 54 implies #[trigger] "#{||:#{<:#{client_width},90},#{<:#{client_height},28}}"@[i] != '\n' && "#{||:#{<:#{client_width},90},#{<:#{client_height},28}}"@[i]
            != '\r' by {
            one_line::one_of_range(i, 54);
        }
    }
    assert(one_line::one_line(",100%,80%}' -h '#{?"@)) by {
        reveal_strlit(",100%,80%}' -h '#{?");
        reveal_with_fuel(one_line::one_of, 20);
        assert forall|i: int| 0 <= i < 19 implies #[trigger] ",100%,80%}' -h '#{?"@[i] != '\n' && ",100%,80%}' -h '#{?"@[i]
            != '\r' by {
            one_line::one_of_range(i, 19);
        }
    }
    assert(one_line::one_line(",100%,70%}' "@)) by {
        reveal_strlit(",100%,70%}' ");
        reveal_with_fuel(one_line::one_of, 13);
        assert forall|i: int| 0 <= i < 12 implies #[trigger] ",100%,70%}' "@[i] != '\n' && ",100%,70%}' "@[i]
            != '\r' by {
            one_line::one_of_range(i, 12);
        }
    }
}

proof fn probe_words_stay_on_one_line()
    ensures
        one_line::one_line("owner="@),
        one_line::one_line("; if [ -x "@),
        one_line::one_line(" ]; then "@),
        one_line::one_line("; else tmux send-keys -t "@),
        one_line::one_line(" Left; fi; tmux set-option -pu -t "@),
        one_line::one_line(" @codex_mux_smart_left_active"@),
        one_line::one_line("  run-shell -b "@),
{
    assert(one_line::one_line("owner="@)) by {
        reveal_strlit("owner=");
        reveal_with_fuel(one_line::one_of, 7);
        assert forall|i: int| 0 <= i < 6 implies #[trigger] "owner="@[i] != '\n' && "owner="@[i]
            != '\r' by {
            one_line::one_of_range(i, 6);
        }
    }
    assert(one_line::one_line("; if [ -x "@)) by {
        reveal_strlit("; if [ -x ");
        reveal_with_fuel(one_line::one_of, 11);
        assert forall|i: int| 0 <= i < 10 implies #[trigger] "; if [ -x "@[i] != '\n' && "; if [ -x "@[i]
            != '\r' by {
            one_line::one_of_range(i, 10);
        }
    }
    assert(one_line::one_line(" ]; then "@)) by {
        reveal_strlit(" ]; then ");
        reveal_with_fuel(one_line::one_of, 10);
        assert forall|i: int| 0 <= i < 9 implies #[trigger] " ]; then "@[i] != '\n' && " ]; then "@[i]
            != '\r' by {
            one_line::one_of_range(i, 9);
        }
    }
    assert(one_line::one_line("; else tmux send-keys -t "@)) by {
        reveal_strlit("; else tmux send-keys -t ");
        reveal_with_fuel(one_line::one_of, 26);
        assert forall|i: int| 0 <= i < 25 implies #[trigger] "; else tmux send-keys -t "@[i] != '\n' && "; else tmux send-keys -t "@[i]
            != '\r' by {
            one_line::one_of_range(i, 25);
        }
    }
    assert(one_line::one_line(" Left; fi; tmux set-option -pu -t "@)) by {
        reveal_strlit(" Left; fi; tmux set-option -pu -t ");
        reveal_with_fuel(one_line::one_of, 35);
        assert forall|i: int| 0 <= i < 34 implies #[trigger] " Left; fi; tmux set-option -pu -t "@[i] != '\n' && " Left; fi; tmux set-option -pu -t "@[i]
            != '\r' by {
            one_line::one_of_range(i, 34);
        }
    }
    assert(one_line::one_line(" @codex_mux_smart_left_active"@)) by {
        reveal_strlit(" @codex_mux_smart_left_active");
        reveal_with_fuel(one_line::one_of, 30);
        assert forall|i: int| 0 <= i < 29 implies #[trigger] " @codex_mux_smart_left_active"@[i] != '\n' && " @codex_mux_smart_left_active"@[i]
            != '\r' by {
            one_line::one_of_range(i, 29);
        }
    }
    assert(one_line::one_line("  run-shell -b "@)) by {
        reveal_strlit("  run-shell -b ");
        reveal_with_fuel(one_line::one_of, 16);
        assert forall|i: int| 0 <= i < 15 implies #[trigger] "  run-shell -b "@[i] != '\n' && "  run-shell -b "@[i]
            != '\r' by {
            one_line::one_of_range(i, 15);
        }
    }
}

proof fn condition_words_stay_on_one_line()
    ensures
        one_line::one_line("bind-key -T root Left if-shell -F '"@),
        one_line::one_line("' {"@),
        one_line::one_line("#{||:"@),
        one_line::one_line(","@),
        one_line::one_line("#{&&:"@),
        one_line::one_line("#{==:#{"@),
        one_line::one_line("},"@),
        one_line::one_line("}"@),
        one_line::one_line("pane_current_command"@),
        one_line::one_line("0"@),
        one_line::one_line("1"@),
        one_line::one_line("#{!=:#{@codex_mux_smart_left_active},1}"@),
        one_line::one_line("#{&&:#{||:#{==:#{pane_current_command},bash},#{==:#{pane_current_command},zsh}},#{==:#{@codex_mux_shell_prompt},1}}"@),
{
    assert(one_line::one_line("bind-key -T root Left if-shell -F '"@)) by {
        reveal_strlit("bind-key -T root Left if-shell -F '");
        reveal_with_fuel(one_line::one_of, 36);
        assert forall|i: int| 0 <= i < 35 implies #[trigger] "bind-key -T root Left if-shell -F '"@[i] != '\n' && "bind-key -T root Left if-shell -F '"@[i]
            != '\r' by {
            one_line::one_of_range(i, 35);
        }
    }
    assert(one_line::one_line("' {"@)) by {
        reveal_strlit("' {");
        reveal_with_fuel(one_line::one_of, 4);
        assert forall|i: int| 0 <= i < 3 implies #[trigger] "' {"@[i] != '\n' && "' {"@[i]
            != '\r' by {
            one_line::one_of_range(i, 3);
        }
    }
    assert(one_line::one_line("#{||:"@)) by {
        reveal_strlit("#{||:");
        reveal_with_fuel(one_line::one_of, 6);
        assert forall|i: int| 0 <= i < 5 implies #[trigger] "#{||:"@[i] != '\n' && "#{||:"@[i]
            != '\r' by {
            one_line::one_of_range(i, 5);
        }
    }
    assert(one_line::one_line(","@)) by {
        reveal_strlit(",");
        reveal_with_fuel(one_line::one_of, 2);
        assert forall|i: int| 0 <= i < 1 implies #[trigger] ","@[i] != '\n' && ","@[i]
            != '\r' by {
            one_line::one_of_range(i, 1);
        }
    }
    assert(one_line::one_line("#{&&:"@)) by {
        reveal_strlit("#{&&:");
        reveal_with_fuel(one_line::one_of, 6);
        assert forall|i: int| 0 <= i < 5 implies #[trigger] "#{&&:"@[i] != '\n' && "#{&&:"@[i]
            != '\r' by {
            one_line::one_of_range(i, 5);
        }
    }
    assert(one_line::one_line("#{==:#{"@)) by {
        reveal_strlit("#{==:#{");
        reveal_with_fuel(one_line::one_of, 8);
        assert forall|i: int| 0 <= i < 7 implies #[trigger] "#{==:#{"@[i] != '\n' && "#{==:#{"@[i]
            != '\r' by {
            one_line::one_of_range(i, 7);
        }
    }
    assert(one_line::one_line("},"@)) by {
        reveal_strlit("},");
        reveal_with_fuel(one_line::one_of, 3);
        assert forall|i: int| 0 <= i < 2 implies #[trigger] "},"@[i] != '\n' && "},"@[i]
            != '\r' by {
            one_line::one_of_range(i, 2);
        }
    }
    assert(one_line::one_line("}"@)) by {
        reveal_strlit("}");
        reveal_with_fuel(one_line::one_of, 2);
        assert forall|i: int| 0 <= i < 1 implies #[trigger] "}"@[i] != '\n' && "}"@[i]
            != '\r' by {
            one_line::one_of_range(i, 1);
        }
    }
    assert(one_line::one_line("pane_current_command"@)) by {
        reveal_strlit("pane_current_command");
        reveal_with_fuel(one_line::one_of, 21);
        assert forall|i: int| 0 <= i < 20 implies #[trigger] "pane_current_command"@[i] != '\n' && "pane_current_command"@[i]
            != '\r' by {
            one_line::one_of_range(i, 20);
        }
    }
    assert(one_line::one_line("0"@)) by {
        reveal_strlit("0");
        reveal_with_fuel(one_line::one_of, 2);
        assert forall|i: int| 0 <= i < 1 implies #[trigger] "0"@[i] != '\n' && "0"@[i]
            != '\r' by {
            one_line::one_of_range(i, 1);
        }
    }
    assert(one_line::one_line("1"@)) by {
        reveal_strlit("1");
        reveal_with_fuel(one_line::one_of, 2);
        assert forall|i: int| 0 <= i < 1 implies #[trigger] "1"@[i] != '\n' && "1"@[i]
            != '\r' by {
            one_line::one_of_range(i, 1);
        }
    }
    assert(one_line::one_line("#{!=:#{@codex_mux_smart_left_active},1}"@)) by {
        reveal_strlit("#{!=:#{@codex_mux_smart_left_active},1}");
        reveal_with_fuel(one_line::one_of, 40);
        assert forall|i: int| 0 <= i < 39 implies #[trigger] "#{!=:#{@codex_mux_smart_left_active},1}"@[i] != '\n' && "#{!=:#{@codex_mux_smart_left_active},1}"@[i]
            != '\r' by {
            one_line::one_of_range(i, 39);
        }
    }
    assert(one_line::one_line("#{&&:#{||:#{==:#{pane_current_command},bash},#{==:#{pane_current_command},zsh}},#{==:#{@codex_mux_shell_prompt},1}}"@)) by {
        reveal_strlit("#{&&:#{||:#{==:#{pane_current_command},bash},#{==:#{pane_current_command},zsh}},#{==:#{@codex_mux_shell_prompt},1}}");
        reveal_with_fuel(one_line::one_of, 116);
        assert forall|i: int| 0 <= i < 115 implies #[trigger] "#{&&:#{||:#{==:#{pane_current_command},bash},#{==:#{pane_current_command},zsh}},#{==:#{@codex_mux_shell_prompt},1}}"@[i] != '\n' && "#{&&:#{||:#{==:#{pane_current_command},bash},#{==:#{pane_current_command},zsh}},#{==:#{@codex_mux_shell_prompt},1}}"@[i]
            != '\r' by {
            one_line::one_of_range(i, 115);
        }
    }
}

// ---------------------------------------------------------------------------
// The lines of a block
// ---------------------------------------------------------------------------

/// Values that can be installed.
pub open spec fn acceptable(key: Seq<char>, p: PathsModel) -> bool {
    &&& plan::is_key(key)
    &&& block::paths_problem(p) is None
    &&& one_line::one_line(p.match_scope)
}

proof fn path_is_one_line(b: Seq<u8>, field: Seq<char>)
    requires
        block::path_problem(b, field) is None,
    ensures
        one_line::one_line(block::path_text(b)),
        vstd::utf8::valid_utf8(b),
{
    one_line::no_control_one_line(text::utf8_decoded(b)->0);
}

proof fn visible_is_one_line(values: Seq<Seq<char>>)
    requires
        block::all_visible(values),
    ensures
        one_line::all_one_line(values),
{
    assert forall|i: int| 0 <= i < values.len() implies one_line::one_line(
        #[trigger] values[i],
    ) by {
        one_line::no_control_one_line(values[i]);
    }
}

proof fn key_is_one_line(key: Seq<char>)
    requires
        plan::is_key(key),
    ensures
        one_line::one_line(key),
{
    assert forall|i: int| 0 <= i < key.len() implies #[trigger] key[i] != '\n' && key[i]
        != '\r' by {
        assert(plan::is_key_char(key[i]));
    }
}

/// Every text of the values stays on one line.
pub open spec fn texts_on_one_line(p: PathsModel) -> bool {
    &&& one_line::one_line(block::path_text(p.mux))
    &&& one_line::one_line(block::path_text(p.codex))
    &&& one_line::all_one_line(block::path_texts(p.match_executables))
    &&& one_line::all_one_line(p.pane_commands)
    &&& one_line::one_line(p.match_scope)
    &&& one_line::all_one_line(p.match_command_regexes)
    &&& one_line::all_one_line(p.pane_command_regexes)
}

proof fn first_none(paths: Seq<Seq<u8>>, n: nat, field: Seq<char>, i: int)
    requires
        n <= paths.len(),
        block::first_path_problem(paths, n, field) is None,
        0 <= i < n,
    ensures
        block::path_problem(paths[i], field) is None,
    decreases n,
{
    if i < n - 1 {
        first_none(paths, (n - 1) as nat, field, i);
    }
}

pub proof fn acceptable_texts(key: Seq<char>, p: PathsModel)
    requires
        acceptable(key, p),
    ensures
        texts_on_one_line(p),
{
    path_is_one_line(p.mux, "codex-mux executable"@);
    path_is_one_line(p.codex, "Codex launch executable"@);
    let shown = block::path_texts(p.match_executables);
    assert forall|i: int| 0 <= i < shown.len() implies one_line::one_line(#[trigger] shown[i]) by {
        first_none(
            p.match_executables,
            p.match_executables.len(),
            "Codex match executable"@,
            i,
        );
        path_is_one_line(p.match_executables[i], "Codex match executable"@);
    }
    visible_is_one_line(p.pane_commands);
    visible_is_one_line(p.match_command_regexes);
    visible_is_one_line(p.pane_command_regexes);
}

proof fn each_is_one_line(option: Seq<char>, words: Seq<Seq<char>>)
    requires
        one_line::one_line(option),
        one_line::all_one_line(words),
    ensures
        one_line::all_one_line(block::each_with(option, words)),
    decreases words.len(),
{
    if words.len() > 0 {
        let head = words.drop_last();
        assert forall|i: int| 0 <= i < head.len() implies one_line::one_line(
            #[trigger] head[i],
        ) by {
            assert(head[i] == words[i]);
        }
        each_is_one_line(option, head);
        assert(one_line::one_line(words[words.len() - 1]));
        let all = block::each_with(option, words);
        let before = block::each_with(option, head);
        assert forall|i: int| 0 <= i < all.len() implies one_line::one_line(#[trigger] all[i]) by {
            if i < before.len() {
                assert(all[i] == before[i]);
            }
        }
    }
}

proof fn variable_is_one_line(name: Seq<char>)
    requires
        one_line::one_line(name),
    ensures
        one_line::one_line(block::shell_variable(name)),
{
    variable_words_stay_on_one_line();
    one_line::one_line_append("#{q:"@, name);
    one_line::one_line_append("#{q:"@ + name, "}"@);
}

proof fn process_words_one_line(p: PathsModel)
    requires
        texts_on_one_line(p),
    ensures
        one_line::all_one_line(block::process_words(p)),
{
    option_words_stay_on_one_line();
    one_line::one_line_quoted(block::path_text(p.codex));
    if !p.legacy_shorthand {
        let shown = block::path_texts(p.match_executables);
        let quoted = block::shell_paths(p.match_executables);
        assert forall|i: int| 0 <= i < quoted.len() implies one_line::one_line(
            #[trigger] quoted[i],
        ) by {
            assert(one_line::one_line(shown[i]));
            one_line::one_line_quoted(shown[i]);
        }
        let a = block::shell_literals(p.match_command_regexes);
        assert forall|i: int| 0 <= i < a.len() implies one_line::one_line(#[trigger] a[i]) by {
            assert(one_line::one_line(p.match_command_regexes[i]));
            one_line::one_line_quoted(p.match_command_regexes[i]);
        }
        let b = block::shell_literals(p.pane_command_regexes);
        assert forall|i: int| 0 <= i < b.len() implies one_line::one_line(#[trigger] b[i]) by {
            assert(one_line::one_line(p.pane_command_regexes[i]));
            one_line::one_line_quoted(p.pane_command_regexes[i]);
        }
        each_is_one_line("--match-executable"@, quoted);
        each_is_one_line("--pane-command"@, p.pane_commands);
        each_is_one_line("--match-command-regex"@, a);
        each_is_one_line("--pane-command-regex"@, b);
        let s0 = seq!["--launch-executable"@, block::shell_path(p.codex)];
        let s1 = s0 + block::each_with("--match-executable"@, quoted);
        let s2 = s1 + block::each_with("--pane-command"@, p.pane_commands);
        let s3 = s2 + seq!["--match-scope"@, p.match_scope];
        let s4 = s3 + block::each_with("--match-command-regex"@, a);
        one_line::all_one_line_append(s0, block::each_with("--match-executable"@, quoted));
        one_line::all_one_line_append(s1, block::each_with("--pane-command"@, p.pane_commands));
        one_line::all_one_line_append(s2, seq!["--match-scope"@, p.match_scope]);
        one_line::all_one_line_append(s3, block::each_with("--match-command-regex"@, a));
        one_line::all_one_line_append(s4, block::each_with("--pane-command-regex"@, b));
    }
}

proof fn invocation_one_line(p: PathsModel)
    requires
        texts_on_one_line(p),
    ensures
        one_line::all_one_line(block::invocation_words(p)),
        one_line::one_line(scan::join_with(block::invocation_words(p), " "@)),
        one_line::one_line(
            scan::join_with(block::invocation_words(p).push("smart-left"@), " "@),
        ),
{
    option_words_stay_on_one_line();
    variable_words_stay_on_one_line();
    process_words_one_line(p);
    one_line::one_line_quoted(block::path_text(p.mux));
    variable_is_one_line("client_tty"@);
    variable_is_one_line("pane_id"@);
    variable_is_one_line("session_id"@);
    variable_is_one_line("pane_current_path"@);
    let head = seq![block::shell_path(p.mux)];
    let tail = seq![
        "--client"@,
        block::shell_variable("client_tty"@),
        "--invoking-pane"@,
        block::shell_variable("pane_id"@),
        "--invoking-session"@,
        block::shell_variable("session_id"@),
        "--invoking-path"@,
        block::shell_variable("pane_current_path"@),
    ];
    one_line::all_one_line_append(head, block::process_words(p));
    one_line::all_one_line_append(head + block::process_words(p), tail);
    let words = block::invocation_words(p);
    let longer = words.push("smart-left"@);
    assert forall|i: int| 0 <= i < longer.len() implies one_line::one_line(
        #[trigger] longer[i],
    ) by {
        if i < words.len() {
            assert(longer[i] == words[i]);
        }
    }
    one_line::one_line_join(words, " "@);
    one_line::one_line_join(longer, " "@);
}

proof fn binding_one_line(key: Seq<char>, p: PathsModel)
    requires
        one_line::one_line(key),
        texts_on_one_line(p),
    ensures
        one_line::one_line("bind-key "@ + key + " run-shell -C "@ + block::popup_word(p)),
{
    popup_words_stay_on_one_line();
    invocation_one_line(p);
    let command = quote::double_quoted(scan::join_with(block::invocation_words(p), " "@));
    one_line::one_line_quoted(scan::join_with(block::invocation_words(p), " "@));
    let compact = block::COMPACT_CONDITION@;
    let a = "display-popup -E -w '#{?"@ + compact;
    let b = a + ",100%,80%}' -h '#{?"@;
    let c = b + compact;
    let d = c + ",100%,70%}' "@;
    one_line::one_line_append("display-popup -E -w '#{?"@, compact);
    one_line::one_line_append(a, ",100%,80%}' -h '#{?"@);
    one_line::one_line_append(b, compact);
    one_line::one_line_append(c, ",100%,70%}' "@);
    one_line::one_line_append(d, command);
    one_line::one_line_quoted(d + command);
    one_line::one_line_append("bind-key "@, key);
    one_line::one_line_append("bind-key "@ + key, " run-shell -C "@);
    one_line::one_line_append(
        "bind-key "@ + key + " run-shell -C "@,
        block::popup_word(p),
    );
}

proof fn either_one_line(a: Seq<char>, b: Seq<char>)
    requires
        one_line::one_line(a),
        one_line::one_line(b),
    ensures
        one_line::one_line(block::either_clause(a, b)),
        one_line::one_line(quote::both_clause(a, b)),
{
    condition_words_stay_on_one_line();
    one_line::one_line_append("#{||:"@, a);
    one_line::one_line_append("#{||:"@ + a, ","@);
    one_line::one_line_append("#{||:"@ + a + ","@, b);
    one_line::one_line_append("#{||:"@ + a + ","@ + b, "}"@);
    one_line::one_line_append("#{&&:"@, a);
    one_line::one_line_append("#{&&:"@ + a, ","@);
    one_line::one_line_append("#{&&:"@ + a + ","@, b);
    one_line::one_line_append("#{&&:"@ + a + ","@ + b, "}"@);
}

proof fn equals_one_line(value: Seq<char>)
    requires
        one_line::one_line(value),
    ensures
        one_line::one_line(quote::equals_clause("pane_current_command"@, value)),
{
    condition_words_stay_on_one_line();
    let name = "pane_current_command"@;
    one_line::one_line_append("#{==:#{"@, name);
    one_line::one_line_append("#{==:#{"@ + name, "},"@);
    one_line::one_line_append("#{==:#{"@ + name + "},"@, value);
    one_line::one_line_append("#{==:#{"@ + name + "},"@ + value, "}"@);
}

proof fn commands_one_line(commands: Seq<Seq<char>>)
    requires
        one_line::all_one_line(commands),
    ensures
        one_line::one_line(block::commands_clause(commands)),
    decreases commands.len(),
{
    if commands.len() > 0 {
        let head = commands.drop_last();
        assert forall|i: int| 0 <= i < head.len() implies one_line::one_line(
            #[trigger] head[i],
        ) by {
            assert(head[i] == commands[i]);
        }
        commands_one_line(head);
        assert(one_line::one_line(commands[commands.len() - 1]));
        equals_one_line(commands.last());
        either_one_line(
            block::commands_clause(head),
            quote::equals_clause("pane_current_command"@, commands.last()),
        );
    }
}

proof fn left_one_line(p: PathsModel)
    requires
        texts_on_one_line(p),
    ensures
        one_line::all_one_line(block::left_lines(p)),
{
    condition_words_stay_on_one_line();
    probe_words_stay_on_one_line();
    fixed_lines_stay_on_one_line();
    variable_words_stay_on_one_line();
    commands_one_line(p.pane_commands);
    either_one_line(block::commands_clause(p.pane_commands), "1"@);
    either_one_line(block::prefilter_clause(p), block::SHELL_AT_PROMPT@);
    either_one_line(
        block::either_clause(block::prefilter_clause(p), block::SHELL_AT_PROMPT@),
        "#{!=:#{@codex_mux_smart_left_active},1}"@,
    );
    let condition = block::left_condition(p);
    one_line::one_line_append("bind-key -T root Left if-shell -F '"@, condition);
    one_line::one_line_append("bind-key -T root Left if-shell -F '"@ + condition, "' {"@);
    invocation_one_line(p);
    one_line::one_line_hex(p.mux);
    one_line::one_line_quoted(block::path_text(p.mux));
    variable_is_one_line("pane_id"@);
    let pane = block::shell_variable("pane_id"@);
    let a = "owner="@ + number::hex(p.mux);
    let b = a + "; if [ -x "@;
    let c = b + block::shell_path(p.mux);
    let d = c + " ]; then "@;
    let words = scan::join_with(block::invocation_words(p).push("smart-left"@), " "@);
    let e = d + words;
    let f = e + "; else tmux send-keys -t "@;
    let g = f + pane;
    let h = g + " Left; fi; tmux set-option -pu -t "@;
    let i = h + pane;
    one_line::one_line_append("owner="@, number::hex(p.mux));
    one_line::one_line_append(a, "; if [ -x "@);
    one_line::one_line_append(b, block::shell_path(p.mux));
    one_line::one_line_append(c, " ]; then "@);
    one_line::one_line_append(d, words);
    one_line::one_line_append(e, "; else tmux send-keys -t "@);
    one_line::one_line_append(f, pane);
    one_line::one_line_append(g, " Left; fi; tmux set-option -pu -t "@);
    one_line::one_line_append(h, pane);
    one_line::one_line_append(i, " @codex_mux_smart_left_active"@);
    one_line::one_line_quoted(block::probe_text(p));
    one_line::one_line_append(
        "  run-shell -b "@,
        quote::double_quoted(block::probe_text(p)),
    );
}

proof fn tagged_one_line(field: Seq<char>, values: Seq<Seq<char>>)
    requires
        one_line::one_line(field),
        one_line::all_one_line(values),
    ensures
        one_line::all_one_line(block::tagged(field, values)),
{
    let all = block::tagged(field, values);
    assert forall|i: int| 0 <= i < all.len() implies one_line::one_line(#[trigger] all[i]) by {
        assert(one_line::one_line(values[i]));
        one_line::one_line_append(field, values[i]);
    }
}

pub proof fn block_one_line(key: Seq<char>, smart_left: bool, p: PathsModel, newline: bool)
    requires
        acceptable(key, p),
    ensures
        one_line::all_one_line(block::block_lines(key, smart_left, p, newline)),
{
    acceptable_texts(key, p);
    key_is_one_line(key);
    field_words_stay_on_one_line();
    fixed_lines_stay_on_one_line();
    let head = block::head_lines(key, p, newline);
    one_line::one_line_append(block::LEADING_NEWLINE_FIELD@, block::flag_text(newline));
    one_line::one_line_append(block::KEY_FIELD@, key);
    one_line::one_line_append(block::BINARY_FIELD@, block::path_text(p.mux));
    one_line::one_line_append(block::CODEX_FIELD@, block::path_text(p.codex));
    one_line::one_line_append(block::LAUNCH_FIELD@, block::path_text(p.codex));
    one_line::one_line_append(block::MATCH_SCOPE_FIELD@, p.match_scope);
    assert(one_line::all_one_line(head));
    let v1 = block::tagged(block::MATCH_FIELD@, block::path_texts(p.match_executables));
    let v2 = block::tagged(block::PANE_COMMAND_FIELD@, p.pane_commands);
    let v3 = block::tagged(block::MATCH_COMMAND_REGEX_FIELD@, p.match_command_regexes);
    let v4 = block::tagged(block::PANE_COMMAND_REGEX_FIELD@, p.pane_command_regexes);
    tagged_one_line(block::MATCH_FIELD@, block::path_texts(p.match_executables));
    tagged_one_line(block::PANE_COMMAND_FIELD@, p.pane_commands);
    tagged_one_line(block::MATCH_COMMAND_REGEX_FIELD@, p.match_command_regexes);
    tagged_one_line(block::PANE_COMMAND_REGEX_FIELD@, p.pane_command_regexes);
    one_line::all_one_line_append(v1, v2);
    one_line::all_one_line_append(v1 + v2, v3);
    one_line::all_one_line_append(v1 + v2 + v3, v4);
    one_line::one_line_append(block::SMART_LEFT_FIELD@, block::flag_text(smart_left));
    binding_one_line(key, p);
    left_one_line(p);
    let t1 = seq![
        block::SMART_LEFT_FIELD@ + block::flag_text(smart_left),
        "bind-key "@ + key + " run-shell -C "@ + block::popup_word(p),
    ];
    let t2 = if smart_left {
        block::left_lines(p)
    } else {
        Seq::empty()
    };
    one_line::all_one_line_append(t1, t2);
    one_line::all_one_line_append(t1 + t2, seq![block::END_MARKER@]);
    one_line::all_one_line_append(head, block::value_lines(p));
    one_line::all_one_line_append(
        head + block::value_lines(p),
        block::tail_lines(key, smart_left, p),
    );
}

/// A line that is no marker by its first characters.
pub open spec fn unlike_marker(s: Seq<char>) -> bool {
    s.len() < 3 || s[0] != '#' || (s[2] != '>' && s[2] != '<')
}

pub proof fn tagged_unlike_marker(field: Seq<char>, values: Seq<Seq<char>>)
    requires
        is_tag(field),
    ensures
        forall|i: int|
            0 <= i < values.len() ==> unlike_marker(#[trigger] block::tagged(field, values)[i]),
{
    assert forall|i: int| 0 <= i < values.len() implies unlike_marker(
        #[trigger] block::tagged(field, values)[i],
    ) by {
        assert(block::tagged(field, values)[i][2] == field[2]);
    }
}

/// A field prefix: `# c...: `, with its only colon before its last space.
pub open spec fn is_tag(t: Seq<char>) -> bool {
    &&& t.len() >= 5
    &&& t[0] == '#'
    &&& t[2] == 'c'
    &&& t[t.len() - 2] == ':'
    &&& forall|i: int| 0 <= i < t.len() - 2 ==> #[trigger] t[i] != ':'
}

pub proof fn fields_are_tags()
    ensures
        is_tag(block::KEY_FIELD@),
        is_tag(block::BINARY_FIELD@),
        is_tag(block::CODEX_FIELD@),
        is_tag(block::LAUNCH_FIELD@),
        is_tag(block::MATCH_FIELD@),
        is_tag(block::PANE_COMMAND_FIELD@),
        is_tag(block::MATCH_SCOPE_FIELD@),
        is_tag(block::MATCH_COMMAND_REGEX_FIELD@),
        is_tag(block::PANE_COMMAND_REGEX_FIELD@),
        is_tag(block::SMART_LEFT_FIELD@),
        is_tag(block::LEADING_NEWLINE_FIELD@),
{
    assert(is_tag("# codex-mux-key: "@)) by {
        reveal_strlit("# codex-mux-key: ");
        reveal_with_fuel(one_line::one_of, 18);
        assert forall|i: int| 0 <= i < 15 implies #[trigger] "# codex-mux-key: "@[i] != ':' by {
            one_line::one_of_range(i, 15);
        }
    }
    assert(is_tag("# codex-mux-binary: "@)) by {
        reveal_strlit("# codex-mux-binary: ");
        reveal_with_fuel(one_line::one_of, 21);
        assert forall|i: int| 0 <= i < 18 implies #[trigger] "# codex-mux-binary: "@[i] != ':' by {
            one_line::one_of_range(i, 18);
        }
    }
    assert(is_tag("# codex-executable: "@)) by {
        reveal_strlit("# codex-executable: ");
        reveal_with_fuel(one_line::one_of, 21);
        assert forall|i: int| 0 <= i < 18 implies #[trigger] "# codex-executable: "@[i] != ':' by {
            one_line::one_of_range(i, 18);
        }
    }
    assert(is_tag("# codex-launch-executable: "@)) by {
        reveal_strlit("# codex-launch-executable: ");
        reveal_with_fuel(one_line::one_of, 28);
        assert forall|i: int| 0 <= i < 25 implies #[trigger] "# codex-launch-executable: "@[i] != ':' by {
            one_line::one_of_range(i, 25);
        }
    }
    assert(is_tag("# codex-match-executable: "@)) by {
        reveal_strlit("# codex-match-executable: ");
        reveal_with_fuel(one_line::one_of, 27);
        assert forall|i: int| 0 <= i < 24 implies #[trigger] "# codex-match-executable: "@[i] != ':' by {
            one_line::one_of_range(i, 24);
        }
    }
    assert(is_tag("# codex-pane-command: "@)) by {
        reveal_strlit("# codex-pane-command: ");
        reveal_with_fuel(one_line::one_of, 23);
        assert forall|i: int| 0 <= i < 20 implies #[trigger] "# codex-pane-command: "@[i] != ':' by {
            one_line::one_of_range(i, 20);
        }
    }
    assert(is_tag("# codex-match-scope: "@)) by {
        reveal_strlit("# codex-match-scope: ");
        reveal_with_fuel(one_line::one_of, 22);
        assert forall|i: int| 0 <= i < 19 implies #[trigger] "# codex-match-scope: "@[i] != ':' by {
            one_line::one_of_range(i, 19);
        }
    }
    assert(is_tag("# codex-match-command-regex: "@)) by {
        reveal_strlit("# codex-match-command-regex: ");
        reveal_with_fuel(one_line::one_of, 30);
        assert forall|i: int| 0 <= i < 27 implies #[trigger] "# codex-match-command-regex: "@[i] != ':' by {
            one_line::one_of_range(i, 27);
        }
    }
    assert(is_tag("# codex-pane-command-regex: "@)) by {
        reveal_strlit("# codex-pane-command-regex: ");
        reveal_with_fuel(one_line::one_of, 29);
        assert forall|i: int| 0 <= i < 26 implies #[trigger] "# codex-pane-command-regex: "@[i] != ':' by {
            one_line::one_of_range(i, 26);
        }
    }
    assert(is_tag("# codex-mux-smart-left: "@)) by {
        reveal_strlit("# codex-mux-smart-left: ");
        reveal_with_fuel(one_line::one_of, 25);
        assert forall|i: int| 0 <= i < 22 implies #[trigger] "# codex-mux-smart-left: "@[i] != ':' by {
            one_line::one_of_range(i, 22);
        }
    }
    assert(is_tag("# codex-mux-owned-leading-newline: "@)) by {
        reveal_strlit("# codex-mux-owned-leading-newline: ");
        reveal_with_fuel(one_line::one_of, 36);
        assert forall|i: int| 0 <= i < 33 implies #[trigger] "# codex-mux-owned-leading-newline: "@[i] != ':' by {
            one_line::one_of_range(i, 33);
        }
    }
}

pub proof fn fields_differ()
    ensures
        block::KEY_FIELD@ != block::BINARY_FIELD@,
        block::KEY_FIELD@ != block::CODEX_FIELD@,
        block::KEY_FIELD@ != block::LAUNCH_FIELD@,
        block::KEY_FIELD@ != block::MATCH_FIELD@,
        block::KEY_FIELD@ != block::PANE_COMMAND_FIELD@,
        block::KEY_FIELD@ != block::MATCH_SCOPE_FIELD@,
        block::KEY_FIELD@ != block::MATCH_COMMAND_REGEX_FIELD@,
        block::KEY_FIELD@ != block::PANE_COMMAND_REGEX_FIELD@,
        block::KEY_FIELD@ != block::SMART_LEFT_FIELD@,
        block::KEY_FIELD@ != block::LEADING_NEWLINE_FIELD@,
        block::BINARY_FIELD@ != block::CODEX_FIELD@,
        block::BINARY_FIELD@ != block::LAUNCH_FIELD@,
        block::BINARY_FIELD@ != block::MATCH_FIELD@,
        block::BINARY_FIELD@ != block::PANE_COMMAND_FIELD@,
        block::BINARY_FIELD@ != block::MATCH_SCOPE_FIELD@,
        block::BINARY_FIELD@ != block::MATCH_COMMAND_REGEX_FIELD@,
        block::BINARY_FIELD@ != block::PANE_COMMAND_REGEX_FIELD@,
        block::BINARY_FIELD@ != block::SMART_LEFT_FIELD@,
        block::BINARY_FIELD@ != block::LEADING_NEWLINE_FIELD@,
        block::CODEX_FIELD@ != block::LAUNCH_FIELD@,
        block::CODEX_FIELD@ != block::MATCH_FIELD@,
        block::CODEX_FIELD@ != block::PANE_COMMAND_FIELD@,
        block::CODEX_FIELD@ != block::MATCH_SCOPE_FIELD@,
        block::CODEX_FIELD@ != block::MATCH_COMMAND_REGEX_FIELD@,
        block::CODEX_FIELD@ != block::PANE_COMMAND_REGEX_FIELD@,
        block::CODEX_FIELD@ != block::SMART_LEFT_FIELD@,
        block::CODEX_FIELD@ != block::LEADING_NEWLINE_FIELD@,
        block::LAUNCH_FIELD@ != block::MATCH_FIELD@,
        block::LAUNCH_FIELD@ != block::PANE_COMMAND_FIELD@,
        block::LAUNCH_FIELD@ != block::MATCH_SCOPE_FIELD@,
        block::LAUNCH_FIELD@ != block::MATCH_COMMAND_REGEX_FIELD@,
        block::LAUNCH_FIELD@ != block::PANE_COMMAND_REGEX_FIELD@,
        block::LAUNCH_FIELD@ != block::SMART_LEFT_FIELD@,
        block::LAUNCH_FIELD@ != block::LEADING_NEWLINE_FIELD@,
        block::MATCH_FIELD@ != block::PANE_COMMAND_FIELD@,
        block::MATCH_FIELD@ != block::MATCH_SCOPE_FIELD@,
        block::MATCH_FIELD@ != block::MATCH_COMMAND_REGEX_FIELD@,
        block::MATCH_FIELD@ != block::PANE_COMMAND_REGEX_FIELD@,
        block::MATCH_FIELD@ != block::SMART_LEFT_FIELD@,
        block::MATCH_FIELD@ != block::LEADING_NEWLINE_FIELD@,
        block::PANE_COMMAND_FIELD@ != block::MATCH_SCOPE_FIELD@,
        block::PANE_COMMAND_FIELD@ != block::MATCH_COMMAND_REGEX_FIELD@,
        block::PANE_COMMAND_FIELD@ != block::PANE_COMMAND_REGEX_FIELD@,
        block::PANE_COMMAND_FIELD@ != block::SMART_LEFT_FIELD@,
        block::PANE_COMMAND_FIELD@ != block::LEADING_NEWLINE_FIELD@,
        block::MATCH_SCOPE_FIELD@ != block::MATCH_COMMAND_REGEX_FIELD@,
        block::MATCH_SCOPE_FIELD@ != block::PANE_COMMAND_REGEX_FIELD@,
        block::MATCH_SCOPE_FIELD@ != block::SMART_LEFT_FIELD@,
        block::MATCH_SCOPE_FIELD@ != block::LEADING_NEWLINE_FIELD@,
        block::MATCH_COMMAND_REGEX_FIELD@ != block::PANE_COMMAND_REGEX_FIELD@,
        block::MATCH_COMMAND_REGEX_FIELD@ != block::SMART_LEFT_FIELD@,
        block::MATCH_COMMAND_REGEX_FIELD@ != block::LEADING_NEWLINE_FIELD@,
        block::PANE_COMMAND_REGEX_FIELD@ != block::SMART_LEFT_FIELD@,
        block::PANE_COMMAND_REGEX_FIELD@ != block::LEADING_NEWLINE_FIELD@,
        block::SMART_LEFT_FIELD@ != block::LEADING_NEWLINE_FIELD@,
{
    reveal_strlit("# codex-mux-key: ");
    reveal_strlit("# codex-mux-binary: ");
    reveal_strlit("# codex-executable: ");
    reveal_strlit("# codex-launch-executable: ");
    reveal_strlit("# codex-match-executable: ");
    reveal_strlit("# codex-pane-command: ");
    reveal_strlit("# codex-match-scope: ");
    reveal_strlit("# codex-match-command-regex: ");
    reveal_strlit("# codex-pane-command-regex: ");
    reveal_strlit("# codex-mux-smart-left: ");
    reveal_strlit("# codex-mux-owned-leading-newline: ");
    assert(block::KEY_FIELD@.len() == 17);
    assert(block::BINARY_FIELD@.len() == 20);
    assert(block::CODEX_FIELD@.len() == 20);
    assert(block::LAUNCH_FIELD@.len() == 27);
    assert(block::MATCH_FIELD@.len() == 26);
    assert(block::PANE_COMMAND_FIELD@.len() == 22);
    assert(block::MATCH_SCOPE_FIELD@.len() == 21);
    assert(block::MATCH_COMMAND_REGEX_FIELD@.len() == 29);
    assert(block::PANE_COMMAND_REGEX_FIELD@.len() == 28);
    assert(block::SMART_LEFT_FIELD@.len() == 24);
    assert(block::LEADING_NEWLINE_FIELD@.len() == 35);
    assert(block::BINARY_FIELD@[8] == 'm');
    assert(block::CODEX_FIELD@[8] == 'e');
}

} // verus!
