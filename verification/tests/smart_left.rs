//! The Smart Left gesture against a prepared tmux.

use codex_mux::domain::{
    ClientId, CodexExecutable, CommandOutput, InvocationContext, PaneId, PaneProcess, SessionId,
    TmuxCommandRunner, WindowId,
};
use codex_mux::error::MuxError;
use codex_mux::path::UnixPath;
use codex_mux::tmux::quote::shell_literal;
use codex_mux::tmux::smart_left::{
    split_fields, tmux_sleep_command, DirectCodexInspector, PaneState, ProbeSleeper, SmartLeftMatcher, SmartLeftOutcome,
    SmartLeftProbe,
};

struct FakeRunner {
    outputs: Vec<CommandOutput>,
    requests: Vec<Vec<Vec<u8>>>,
}

impl TmuxCommandRunner for FakeRunner {
    fn run(&mut self, arguments: &Vec<Vec<u8>>) -> Result<CommandOutput, MuxError> {
        self.requests.push(arguments.clone());
        match self.outputs.get(self.requests.len() - 1) {
            Some(output) => Ok(output.clone()),
            None => panic!("no reply is left"),
        }
    }
}

fn prepared(outputs: Vec<CommandOutput>) -> FakeRunner {
    FakeRunner {
        outputs,
        requests: Vec::new(),
    }
}

struct Inspector {
    codex: bool,
    shell: bool,
}

impl DirectCodexInspector for Inspector {
    fn is_direct_codex(&mut self, _pane: &PaneProcess) -> Result<bool, MuxError> {
        Ok(self.codex)
    }

    fn is_direct_shell(&mut self, _pid: u32, _command: &str) -> Result<bool, MuxError> {
        Ok(self.shell)
    }
}

#[derive(Default)]
struct Sleeper {
    calls: usize,
    elapsed_millis: u64,
}

impl ProbeSleeper for Sleeper {
    fn sleep(&mut self, millis: u64) {
        self.calls += 1;
        self.elapsed_millis += millis;
    }
}

fn output(stdout: &[u8]) -> CommandOutput {
    CommandOutput {
        stdout: stdout.to_vec(),
        stderr: Vec::new(),
        status: Some(0),
    }
}

fn state(x: u16, y: u16, cursor: bool, mode: bool) -> CommandOutput {
    output(
        format!(
            "42\x1f{x}\x1f{y}\x1f{}\x1f{}\x1fcodex\x1f0\n",
            u8::from(cursor),
            u8::from(mode)
        )
        .as_bytes(),
    )
}

fn shell_state(x: u16, y: u16, prompt: bool) -> CommandOutput {
    output(
        format!(
            "42\x1f{x}\x1f{y}\x1f1\x1f0\x1fbash\x1f{}\n",
            u8::from(prompt)
        )
        .as_bytes(),
    )
}

fn screen(row: usize, line: &str) -> CommandOutput {
    let mut rows: Vec<&str> = vec![""; row + 1];
    rows[row] = line;
    output(format!("{}\n", rows.join("\n")).as_bytes())
}

fn context() -> InvocationContext {
    InvocationContext {
        client_id: ClientId::new("/dev/pts/7").unwrap(),
        pane_id: PaneId::new("%4").unwrap(),
        session_id: SessionId::new("$2").unwrap(),
        window_id: WindowId::new("@3").unwrap(),
        current_path: UnixPath::new("/work/project's"),
    }
}

fn codex() -> CodexExecutable {
    CodexExecutable::new(UnixPath::new("/opt/codex")).unwrap()
}

type Probe = SmartLeftProbe<FakeRunner, Inspector, Sleeper>;

fn probe(outputs: Vec<CommandOutput>, inspector: Inspector) -> Probe {
    SmartLeftProbe::new(
        prepared(outputs),
        inspector,
        Sleeper::default(),
        UnixPath::new("/opt/codex mux/codex-mux"),
        codex(),
    )
}

fn calls(probe: &Probe) -> Vec<Vec<String>> {
    probe
        .port
        .runner()
        .requests
        .iter()
        .map(|call| {
            call.iter()
                .map(|word| String::from_utf8_lossy(word).into_owned())
                .collect()
        })
        .collect()
}

fn count(probe: &Probe, command: &str) -> usize {
    calls(probe).iter().filter(|call| call[0] == command).count()
}

const DIRECT: Inspector = Inspector {
    codex: true,
    shell: false,
};

const SHELL: Inspector = Inspector {
    codex: false,
    shell: true,
};

#[test]
fn parses_raw_and_tmux_34_escaped_state() {
    let raw = b"42\x1f2\x1f10\x1f1\x1f0\x1fcodex\x1f0\n";
    let escaped = b"42\\0372\\03710\\0371\\0370\\037codex\\0370\n";
    assert_eq!(
        PaneState::parse(raw).unwrap(),
        PaneState::parse(escaped).unwrap()
    );
}

#[test]
fn malformed_state_fails_closed() {
    assert!(PaneState::parse(b"42\x1f2\n").is_err());
    assert!(split_fields(b"not utf8 \xff").is_err());
}

#[test]
fn popup_shell_arguments_escape_single_quotes() {
    assert_eq!(shell_literal("project's"), "'project'\\''s'");
}

#[test]
fn cursor_outside_exact_boundary_forwards_without_waiting() {
    let mut probe = probe(
        vec![
            state(5, 10, true, false),
            output(b"not a composer\n"),
            output(b""),
        ],
        DIRECT,
    );

    let result = probe.run(&context()).unwrap();

    assert_eq!(result, SmartLeftOutcome::Forwarded);
    assert_eq!(probe.port.sleeper().calls, 0);
    assert_eq!(probe.port.sleeper().elapsed_millis, 0);
    assert_eq!(count(&probe, "send-keys"), 1);
    assert!(!calls(&probe).iter().any(|call| call[0] == "display-popup"));
}

#[test]
fn unchanged_composer_boundary_opens_exact_client_popup() {
    let mut probe = probe(
        vec![
            state(2, 10, true, false),
            screen(10, "› draft"),
            output(b""),
            state(2, 10, true, false),
            output(b"/dev/pts/8\x1f120\x1f40\n/dev/pts/7\x1f62\x1f35\n"),
            output(b""),
        ],
        DIRECT,
    );

    let result = probe.run(&context()).unwrap();

    assert_eq!(result, SmartLeftOutcome::Opened);
    assert_eq!(probe.port.sleeper().calls, 0);
    assert_eq!(probe.port.sleeper().elapsed_millis, 0);
    let calls = calls(&probe);
    assert_eq!(calls.len(), 6);
    assert_eq!(count(&probe, "send-keys"), 1);
    let popup = calls
        .iter()
        .find(|call| call[0] == "display-popup")
        .unwrap();
    assert!(popup.windows(2).any(|pair| pair == ["-c", "/dev/pts/7"]));
    assert!(calls.iter().any(|call| call[0] == "list-clients"));
    assert!(popup.windows(2).any(|pair| pair == ["-w", "100%"]));
    let command = popup.last().unwrap();
    assert!(command.contains("'/work/project'\\''s'"));
}

fn opens_at(column: u16) {
    let mut probe = probe(
        vec![
            state(column, 10, true, false),
            screen(10, "    › draft"),
            output(b""),
            state(column, 10, true, false),
            output(b"/dev/pts/7\x1f120\x1f40\n"),
            output(b""),
        ],
        DIRECT,
    );
    assert_eq!(probe.run(&context()).unwrap(), SmartLeftOutcome::Opened);
}

#[test]
fn indented_composer_boundary_used_by_reasoning_modes_opens_popup() {
    opens_at(6);
}

#[test]
fn indented_composer_prompt_glyph_boundary_opens_popup() {
    opens_at(4);
}

#[test]
fn indented_composer_post_glyph_boundary_used_by_ultra_and_max_opens_popup() {
    opens_at(5);
}

#[test]
fn indented_composer_row_at_the_wrong_cursor_column_forwards() {
    for cursor_x in [0, 3, 7] {
        let mut probe = probe(
            vec![
                state(cursor_x, 10, true, false),
                screen(10, "    › draft"),
                output(b""),
            ],
            DIRECT,
        );
        assert_eq!(probe.run(&context()).unwrap(), SmartLeftOutcome::Forwarded);
    }
}

#[test]
fn unchanged_marked_shell_boundary_opens_without_composer_glyph() {
    let mut probe = probe(
        vec![
            shell_state(8, 4, true),
            output(b""),
            shell_state(8, 4, true),
            output(b"/dev/pts/7\x1f120\x1f40\n"),
            output(b""),
        ],
        SHELL,
    );

    assert_eq!(probe.run(&context()).unwrap(), SmartLeftOutcome::Opened);
    assert_eq!(probe.port.sleeper().calls, 1);
    assert_eq!(probe.port.sleeper().elapsed_millis, 30);
    assert!(!calls(&probe).iter().any(|call| call[0] == "capture-pane"));
}

#[test]
fn unmarked_shell_always_forwards() {
    let mut probe = probe(vec![shell_state(0, 4, false), output(b"")], SHELL);

    assert_eq!(probe.run(&context()).unwrap(), SmartLeftOutcome::Forwarded);
}

#[test]
fn unchanged_cursor_outside_composer_fails_through() {
    let mut probe = probe(
        vec![
            state(2, 3, true, false),
            output(b"picker\nrow\nselected\nnot a composer\n"),
            output(b""),
        ],
        DIRECT,
    );

    assert_eq!(probe.run(&context()).unwrap(), SmartLeftOutcome::Forwarded);
    assert!(!calls(&probe).iter().any(|call| call[0] == "display-popup"));
}

#[test]
fn exact_boundary_that_moves_during_immediate_recheck_fails_through() {
    let mut probe = probe(
        vec![
            state(2, 10, true, false),
            screen(10, "› draft"),
            output(b""),
            state(3, 10, true, false),
            state(3, 10, true, false),
        ],
        DIRECT,
    );

    assert_eq!(probe.run(&context()).unwrap(), SmartLeftOutcome::Forwarded);
    assert_eq!(probe.port.sleeper().calls, 1);
    assert!(!calls(&probe).iter().any(|call| call[0] == "display-popup"));
}

#[test]
fn transient_ultra_redraw_settles_back_to_the_exact_boundary() {
    let mut probe = probe(
        vec![
            state(2, 10, true, false),
            screen(10, "› draft"),
            output(b""),
            state(54, 3, true, false),
            state(2, 10, true, false),
            output(b"/dev/pts/7\x1f120\x1f40\n"),
            output(b""),
        ],
        DIRECT,
    );

    assert_eq!(probe.run(&context()).unwrap(), SmartLeftOutcome::Opened);
    assert_eq!(probe.port.sleeper().calls, 1);
    assert_eq!(probe.port.sleeper().elapsed_millis, 30);
}

#[test]
fn wrappers_hidden_cursor_and_copy_mode_only_forward() {
    for (direct, cursor, mode) in [
        (false, true, false),
        (true, false, false),
        (true, true, true),
    ] {
        let mut probe = probe(
            vec![state(2, 10, cursor, mode), output(b"")],
            Inspector {
                codex: direct,
                shell: false,
            },
        );
        assert_eq!(probe.run(&context()).unwrap(), SmartLeftOutcome::Forwarded);
        assert_eq!(calls(&probe).len(), 2);
    }
}

#[test]
fn configured_pane_command_prefilter_controls_wrapper_aware_probe() {
    for (pane_commands, expected) in [
        (vec!["other".to_owned()], SmartLeftOutcome::Forwarded),
        (vec!["codex".to_owned()], SmartLeftOutcome::Opened),
    ] {
        let outputs = if expected == SmartLeftOutcome::Opened {
            vec![
                state(2, 10, true, false),
                screen(10, "› draft"),
                output(b""),
                state(2, 10, true, false),
                output(b"/dev/pts/7\x1f120\x1f40\n"),
                output(b""),
            ]
        } else {
            vec![state(2, 10, true, false), output(b"")]
        };
        let mut probe = SmartLeftProbe::with_pane_commands(
            prepared(outputs),
            DIRECT,
            Sleeper::default(),
            UnixPath::new("/opt/codex-mux"),
            codex(),
            pane_commands,
            vec![codex()],
        );
        assert_eq!(probe.run(&context()).unwrap(), expected);
    }
}

#[test]
fn pane_command_regex_prefilter_accepts_versioned_supervisor() {
    let outputs = vec![
        output(b"42\x1f2\x1f10\x1f1\x1f0\x1fsupervisor-v17\x1f0\n"),
        screen(10, "› draft"),
        output(b""),
        output(b"42\x1f2\x1f10\x1f1\x1f0\x1fsupervisor-v17\x1f0\n"),
        output(b"/dev/pts/7\x1f120\x1f40\n"),
        output(b""),
    ];
    let mut probe = SmartLeftProbe::with_process_matcher(
        prepared(outputs),
        DIRECT,
        Sleeper::default(),
        UnixPath::new("/opt/codex-mux"),
        codex(),
        SmartLeftMatcher {
            pane_commands: Vec::new(),
            match_executables: vec![codex()],
            pane_command_regexes: vec![r"^supervisor-v[0-9]+$".to_owned()],
            match_scope: "pane-tree".to_owned(),
            match_command_regexes: Vec::new(),
        },
    );

    assert_eq!(probe.run(&context()).unwrap(), SmartLeftOutcome::Opened);
}

#[test]
fn malformed_initial_state_still_forwards_exactly_once() {
    let mut probe = probe(vec![output(b"bad state\n"), output(b"")], DIRECT);

    assert_eq!(probe.run(&context()).unwrap(), SmartLeftOutcome::Forwarded);
    assert_eq!(count(&probe, "send-keys"), 1);
}

#[test]
fn a_wait_inside_tmux_is_told_in_seconds() {
    assert_eq!(tmux_sleep_command(0), "sleep 0.000");
    assert_eq!(tmux_sleep_command(25), "sleep 0.025");
    assert_eq!(tmux_sleep_command(12_345), "sleep 12.345");
}
