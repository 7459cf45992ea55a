//! Generated names in the pane-local options of tmux.

use codex_mux::domain::{
    AutoNameStatus, CommandOutput, Pane, PaneId, SessionId, TmuxCommandRunner,
};
use codex_mux::error::MuxError;
use codex_mux::path::UnixPath;
use codex_mux::smart_naming::names::GeneratedName;
use codex_mux::tmux::options::{
    AUTO_NAME_STARTED_OPTION, AUTO_NAME_STATUS_OPTION, AUTO_NAME_TOKEN_OPTION, GENERATED_AT_OPTION,
    IMMEDIATE_NAMING_OPTION, MANUAL_NAME_OPTION, OWNER_OPTION, SOURCE_CWD_OPTION, SOURCE_TITLE_OPTION,
    THREAD_OPTION, UNPIN_WAITING_OPTION, UNPIN_WAITING_TITLE_OPTION,
};
use codex_mux::tmux::owned_names::{NamedPane, OwnedTmuxNames};
use codex_mux::tmux::quote::{tmux_format_literal, tmux_quote};

const THREAD: &str = "12345678-1234-1234-1234-123456789abc";
const GENERATED_AT: u64 = 1_700_000_000;

struct FakeRunner {
    outputs: Vec<CommandOutput>,
    requests: Vec<Vec<Vec<u8>>>,
}

impl TmuxCommandRunner for FakeRunner {
    fn run(&mut self, arguments: &Vec<Vec<u8>>) -> Result<CommandOutput, MuxError> {
        self.requests.push(arguments.clone());
        match self.outputs.get(self.requests.len() - 1) {
            Some(output) => Ok(output.clone()),
            None => Ok(output("")),
        }
    }
}

fn output(stdout: &str) -> CommandOutput {
    CommandOutput {
        stdout: stdout.as_bytes().to_vec(),
        stderr: Vec::new(),
        status: Some(0),
    }
}

fn runner(states: &[&str]) -> FakeRunner {
    FakeRunner {
        outputs: states.iter().map(|state| output(state)).collect(),
        requests: Vec::new(),
    }
}

fn names(name: &str) -> Vec<NamedPane> {
    names_with_token(name, None)
}

fn names_with_token(name: &str, auto_name_token: Option<&str>) -> Vec<NamedPane> {
    vec![NamedPane {
        pane: PaneId::new("%7").unwrap(),
        name: GeneratedName {
            thread_id: THREAD.to_owned(),
            source_session: SessionId::new("$1").unwrap(),
            source_pane_pid: 77,
            stable_source_title: true,
            source_title: THREAD.to_owned(),
            source_cwd: UnixPath::new("/work/project"),
            name: name.to_owned(),
            generated_at_unix: GENERATED_AT,
            auto_name_token: auto_name_token.map(ToOwned::to_owned),
        },
    }]
}

fn state(
    title: &str,
    cwd: &str,
    thread: &str,
    name: &str,
    source_title: &str,
    source_cwd: &str,
    generated_at: &str,
) -> String {
    format!(
        "%7\x1f{title}\x1f{cwd}\x1f77\x1f$1\x1f{thread}\x1f{name}\x1f{source_title}\x1f{source_cwd}\x1f77\x1f$1\x1f{generated_at}\x1f\x1f\n"
    )
}

fn calls(names: &OwnedTmuxNames<FakeRunner>) -> Vec<Vec<String>> {
    names
        .runner
        .inner()
        .requests
        .iter()
        .map(|call| {
            call.iter()
                .map(|argument| String::from_utf8_lossy(argument).into_owned())
                .collect()
        })
        .collect()
}

fn if_shell(calls: &[Vec<String>]) -> (&str, &str) {
    let call = calls
        .iter()
        .find(|call| call.first().is_some_and(|command| command == "if-shell"))
        .expect("an atomic conditional mutation");
    (&call[4], &call[5])
}

#[test]
fn stores_entry_title_as_pane_metadata_without_touching_the_window() {
    let current = state(THREAD, "/work/project", "", "", "", "", "");
    let mut owned = OwnedTmuxNames::new(runner(&[&current]));
    owned.reconcile(&names("Fast inventory"));

    let calls = calls(&owned);
    assert_eq!(calls.len(), 2);
    let (condition, mutation) = if_shell(&calls);
    assert!(condition.contains(MANUAL_NAME_OPTION));
    assert!(condition.contains("#{pane_title}"));
    assert!(condition.contains("#{pane_current_path}"));
    assert!(mutation.contains("set-option -p"));
    assert!(mutation.contains(THREAD_OPTION));
    assert!(mutation.contains(OWNER_OPTION));
    assert!(mutation.contains(GENERATED_AT_OPTION));
    assert!(!mutation.contains("rename-window"));
    assert!(!mutation.contains("automatic-rename"));
    assert!(!calls.iter().flatten().any(|argument| argument == "-w"));
}

#[test]
fn unchanged_entry_metadata_requires_no_writes() {
    let current = state(
        THREAD,
        "/work/project",
        THREAD,
        "Stable title",
        THREAD,
        "/work/project",
        &GENERATED_AT.to_string(),
    );
    let mut owned = OwnedTmuxNames::new(runner(&[&current]));
    owned.reconcile(&names("Stable title"));
    assert_eq!(calls(&owned).len(), 1);
}

#[test]
fn successful_forced_request_records_a_terminal_status() {
    let base = state(THREAD, "/work/project", "", "", "", "", "");
    let prefix = base.strip_suffix("\x1f\x1f\n").unwrap();
    let current = format!("{prefix}\x1f1\x1f\x1fgenerating\x1f1000000000\x1frequest-token\n");
    let mut owned = OwnedTmuxNames::new(runner(&[&current]));
    owned.reconcile(&names_with_token(
        "Project workspace",
        Some("request-token"),
    ));

    let calls = calls(&owned);
    let (condition, mutation) = if_shell(&calls);
    assert!(condition.contains(IMMEDIATE_NAMING_OPTION));
    assert!(condition.contains(AUTO_NAME_STATUS_OPTION));
    assert!(condition.contains("generating"));
    assert!(condition.contains(AUTO_NAME_STARTED_OPTION));
    assert!(condition.contains("1000000000"));
    assert!(condition.contains(AUTO_NAME_TOKEN_OPTION));
    assert!(condition.contains("request-token"));
    assert!(mutation.contains(AUTO_NAME_STATUS_OPTION));
    assert!(mutation.contains("success"));
    assert!(mutation.contains(&format!("set-option -pu -t '%7' {AUTO_NAME_TOKEN_OPTION}")));
    assert!(mutation.contains(UNPIN_WAITING_OPTION));
    assert!(mutation.contains(UNPIN_WAITING_TITLE_OPTION));
}

#[test]
fn mismatched_request_token_cannot_complete_a_forced_request() {
    let base = state(THREAD, "/work/project", "", "", "", "", "");
    let prefix = base.strip_suffix("\x1f\x1f\n").unwrap();
    let current = format!("{prefix}\x1f1\x1f\x1fgenerating\x1f3000000000\x1fnew-token\n");
    let mut owned = OwnedTmuxNames::new(runner(&[&current]));

    assert!(owned.reconcile(&names_with_token("Cached title", Some("old-token"))));

    assert_eq!(calls(&owned).len(), 1);
}

#[test]
fn source_less_request_advances_after_exact_title_change() {
    let pane = Pane {
        id: PaneId::new("%7").unwrap(),
        session_id: SessionId::new("$1").unwrap(),
        title: Some(THREAD.to_owned()),
        generated_title: None,
        generated_thread_id: None,
        generated_source_stable: false,
        generated_at_unix: None,
        immediate_naming: true,
        auto_name_status: Some(AutoNameStatus::RecoveringIdentity),
        auto_name_started_at_unix_nanos: Some(GENERATED_AT),
        auto_name_token: Some("request-token".to_owned()),
        manual_name: false,
        manual_name_source: None,
        manual_name_pid: None,
        manual_name_pid_raw: String::new(),
        manual_name_session: None,
        manual_name_session_raw: String::new(),
        unpin_waiting: true,
        unpin_waiting_title: Some("Pinned title".to_owned()),
        unpin_waiting_pid: Some(77),
        unpin_waiting_session: Some(SessionId::new("$1").unwrap()),
        pane_pid: 77,
        current_path: UnixPath::new("/work/project"),
    };

    let mut owned = OwnedTmuxNames::new(runner(&[]));
    owned.mark_auto_name_generating(&vec![pane]);

    let calls = calls(&owned);
    let (condition, mutation) = if_shell(&calls);
    assert!(condition.contains(IMMEDIATE_NAMING_OPTION));
    assert!(condition.contains(AUTO_NAME_STATUS_OPTION));
    assert!(condition.contains("recovering"));
    assert!(condition.contains(AUTO_NAME_STARTED_OPTION));
    assert!(condition.contains(&GENERATED_AT.to_string()));
    assert!(condition.contains(AUTO_NAME_TOKEN_OPTION));
    assert!(condition.contains("request-token"));
    assert!(mutation.contains("generating"));
}

#[test]
fn stale_title_or_cwd_is_never_updated() {
    for current in [
        state(
            "aaaaaaaa-aaaa-aaaa-aaaa-aaaaaaaaaaaa",
            "/work/project",
            "",
            "",
            "",
            "",
            "",
        ),
        state(THREAD, "/work/other", "", "", "", "", ""),
    ] {
        let mut owned = OwnedTmuxNames::new(runner(&[&current]));
        owned.reconcile(&names("Wrong target"));
        assert_eq!(calls(&owned).len(), 1);
    }
}

#[test]
fn authoritative_recovery_accepts_a_volatile_title_for_the_same_pane_process() {
    let current = state("⠹ volatile title", "/work/project", "", "", "", "", "");
    let mut owned = OwnedTmuxNames::new(runner(&[&current]));
    let mut generated = names("Recovered conversation");
    generated[0].name.source_title = "⠸ earlier volatile title".to_owned();
    generated[0].name.stable_source_title = false;

    owned.reconcile_with_verified_volatile(&generated, &vec![PaneId::new("%7").unwrap()]);

    let calls = calls(&owned);
    assert_eq!(calls.len(), 2);
    let (condition, mutation) = if_shell(&calls);
    assert!(!condition.contains("earlier volatile title"));
    assert!(condition.contains("#{pane_pid}"));
    assert!(condition.contains("#{session_id}"));
    assert!(mutation.contains("Recovered conversation"));
}

#[test]
fn volatile_title_recovery_rejects_a_reused_pane_process_or_session() {
    for current in [
        "%7\x1f⠹ volatile title\x1f/work/project\x1f78\x1f$1\x1f\x1f\x1f\x1f\x1f\x1f\x1f\x1f\x1f\n",
        "%7\x1f⠹ volatile title\x1f/work/project\x1f77\x1f$2\x1f\x1f\x1f\x1f\x1f\x1f\x1f\x1f\x1f\n",
    ] {
        let mut owned = OwnedTmuxNames::new(runner(&[current]));
        let mut generated = names("Wrong conversation");
        generated[0].name.stable_source_title = false;

        owned.reconcile_with_verified_volatile(&generated, &vec![PaneId::new("%7").unwrap()]);
        assert_eq!(calls(&owned).len(), 1);
    }
}

#[test]
fn truncated_source_title_can_store_a_full_thread_marker() {
    let title = "12345678-1234-1234-1234-12345...";
    let cwd = "/work/#{hostile},path";
    let current = state(title, cwd, "", "", "", "", "");
    let mut owned = OwnedTmuxNames::new(runner(&[&current]));
    let mut generated = names("Resolved title");
    generated[0].name.source_title = title.to_owned();
    generated[0].name.source_cwd = UnixPath::new(cwd);

    owned.reconcile(&generated);

    let calls = calls(&owned);
    assert_eq!(calls.len(), 2);
    let (_, mutation) = if_shell(&calls);
    assert!(mutation.contains(THREAD));
    assert!(!mutation.contains("rename-window"));
}

#[test]
fn tmux_34_escaped_state_fields_are_supported() {
    let current = state(THREAD, "/work/project", "", "", "", "", "").replace('\x1f', "\\037");
    let mut owned = OwnedTmuxNames::new(runner(&[&current]));
    owned.reconcile(&names("Escaped fields"));
    assert_eq!(calls(&owned).len(), 2);
}

#[test]
fn pending_resume_marker_wakes_reconciliation_and_clears_after_safe_name_write() {
    let current = format!(
        "%7\x1f{THREAD}\x1f/work/project\x1f77\x1f$1\x1f\x1f\x1f\x1f\x1f\x1f\x1f\x1f1\x1f\n"
    );
    let mut owned = OwnedTmuxNames::new(runner(&[&current]));

    assert!(owned.reconcile(&names("Resumed work")));

    let calls = calls(&owned);
    let (_, mutation) = if_shell(&calls);
    assert!(mutation.contains("set-option -pu"));
    assert!(mutation.contains(IMMEDIATE_NAMING_OPTION));
}

#[test]
fn each_pane_is_asked_at_most_once_and_unfit_panes_never() {
    let row = |pane: &str, pid: &str, manual: &str| {
        format!(
            "{pane}\x1f{THREAD}\x1f/work/project\x1f{pid}\x1f$1\x1f\x1f\x1f\x1f\x1f\x1f\x1f\x1f\x1f{manual}\n"
        )
    };
    let listed = format!(
        "{}{}{}{}",
        row("%7", "77", ""),
        row("%8", "77", ""),
        row("%9", "78", ""),
        row("%10", "77", "1")
    );
    let mut all = Vec::new();
    for pane in ["%7", "%8", "%9", "%10", "%11"] {
        let mut named = names("A name").remove(0);
        named.pane = PaneId::new(pane).unwrap();
        all.push(named);
    }
    let mut owned = OwnedTmuxNames::new(runner(&[&listed]));

    assert!(!owned.reconcile(&all));

    let calls = calls(&owned);
    assert_eq!(calls.len(), 3);
    assert_eq!(calls[0][0], "list-panes");
    assert_eq!(calls[1][..4], ["if-shell", "-F", "-t", "%7"]);
    assert_eq!(calls[2][..4], ["if-shell", "-F", "-t", "%8"]);
    for call in &calls[1..] {
        assert!(call[5].split("; ").all(|command| command.starts_with("set-option -p")));
    }
}

#[test]
fn manual_marker_rejects_stale_generated_name_writes() {
    let current = format!(
        "%7\x1f{THREAD}\x1f/work/project\x1f77\x1f$1\x1f\x1f\x1f\x1f\x1f\x1f\x1f\x1f\x1f1\n"
    );
    let mut owned = OwnedTmuxNames::new(runner(&[&current]));

    assert!(!owned.reconcile(&names("Stale title")));
    assert_eq!(calls(&owned).len(), 1, "manual pane must not be mutated");
}

#[test]
fn legacy_owned_window_is_restored_despite_source_drift() {
    let legacy = format!(
        "%7\x1f@7\x1fchanged title\x1fOld smart title\x1f0\x1f1\x1f{THREAD}\x1fOld smart title\x1f{THREAD}\x1f/work/project\x1f\x1f/work/changed\n"
    );
    let mut owned = OwnedTmuxNames::new(runner(&[&legacy]));
    owned.migrate_legacy_window_names(GENERATED_AT);

    let calls = calls(&owned);
    assert_eq!(calls.len(), 2);
    let mutation = calls[1].join(" ");
    assert!(mutation.contains("if-shell -F -t @7"));
    assert!(mutation.contains("set-option -wu -t '@7'"));
    assert!(mutation.contains("set-option -p -t"));
    assert!(mutation.contains("%7"));
    assert!(mutation.contains(GENERATED_AT_OPTION));
    assert!(mutation.contains("automatic-rename on"));
    assert!(calls[1].join(" ").contains(THREAD));
}

#[test]
fn disabling_clears_only_pane_local_codex_mux_metadata() {
    let mut owned = OwnedTmuxNames::new(runner(&["%7\n"]));
    owned.clear_all();

    let calls = calls(&owned);
    assert_eq!(calls.len(), 2);
    for option in [
        THREAD_OPTION,
        OWNER_OPTION,
        SOURCE_TITLE_OPTION,
        SOURCE_CWD_OPTION,
        GENERATED_AT_OPTION,
    ] {
        assert!(calls[1].iter().any(|argument| argument == option));
    }
    assert!(!calls[1].iter().any(|argument| argument == "-w"));
}

#[test]
fn command_values_are_quoted_for_tmux_parser() {
    assert_eq!(tmux_quote("don't"), "'don'\\''t'");
    assert_eq!(tmux_format_literal("a#,}b"), "a###,#}b");
}
