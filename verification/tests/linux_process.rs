//! What procfs says of processes.

use codex_mux::config::MatchScope;
use codex_mux::domain::{CodexExecutable, PaneProcess};
use codex_mux::linux_process::command::{
    command_regex_matches, interactive_shell_arguments, interpreted_script_argument,
    interpreter_candidates, is_known_interpreter, normalized_argv,
};
use codex_mux::linux_process::evidence::{
    assemble, descendants, foreground_group, parse_entry, parse_stat, same_foreground_snapshot,
    same_process_evidence, split_arguments, terminal_processes, tty_number, ProcReads,
    ProcessEvidence, StatRead,
};
use codex_mux::linux_process::identity::{pid_matches_file_identities, IdentityFiles};
use codex_mux::linux_process::identity_log::LoggedIdentity;
use codex_mux::linux_process::inspector::{LinuxProcessInspector, ProcFiles};
use codex_mux::path::UnixPath;

fn evidence(pid: u32, parent_pid: u32) -> ProcessEvidence {
    ProcessEvidence {
        pid,
        parent_pid,
        pgrp: pid.into(),
        tty_nr: 34816,
        tpgid: pid.into(),
        start_time: u64::from(pid),
        executable: Some(UnixPath::new("/opt/process")),
        arguments: vec![b"/opt/process".to_vec()],
    }
}

#[test]
fn parses_stat_with_spaces_and_parentheses_in_comm() {
    let stat = b"42 (odd ) process) S 1 42 42 34816 42 0 0 0 0 0 0 0 0 0 0 0 0 0 1234";
    assert_eq!(parse_stat(stat), Some((1, 42, 34816, 42, 1234)));
}

#[test]
fn malformed_stat_is_ignored() {
    assert_eq!(parse_stat(b"42 incomplete"), None);
}

#[test]
fn foreground_snapshot_rejects_pid_reuse() {
    let at = |start_time| ProcessEvidence {
        pid: 42,
        parent_pid: 1,
        pgrp: 42,
        tty_nr: 34816,
        tpgid: 42,
        start_time,
        executable: Some(UnixPath::new("/opt/codex")),
        arguments: vec![b"/opt/codex".to_vec()],
    };

    assert!(same_foreground_snapshot(&at(100), &at(100)));
    assert!(!same_foreground_snapshot(&at(100), &at(101)));
}

#[test]
fn rebuilt_descendant_snapshot_rejects_a_reparented_chain() {
    let original = vec![evidence(10, 1), evidence(20, 10), evidence(30, 20)];
    let reparented = vec![evidence(10, 1), evidence(20, 1), evidence(30, 20)];

    assert!(descendants(&original, 10).iter().any(|item| item.pid == 30));
    assert!(!descendants(&reparented, 10).iter().any(|item| item.pid == 30));
}

#[test]
fn reparented_evidence_differs() {
    assert!(same_process_evidence(&evidence(20, 10), &evidence(20, 10)));
    assert!(!same_process_evidence(&evidence(20, 10), &evidence(20, 1)));
}

#[test]
fn a_cmdline_is_split_at_zero_bytes() {
    assert_eq!(
        split_arguments(b"codex\0--yolo\0\0"),
        vec![b"codex".to_vec(), b"--yolo".to_vec()]
    );
    assert!(split_arguments(b"").is_empty());
}

#[test]
fn only_numbers_are_process_entries() {
    assert_eq!(parse_entry(b"4711"), Some(4711));
    assert_eq!(parse_entry(b"self"), None);
    assert_eq!(parse_entry(b"99999999999"), None);
}

#[test]
fn a_process_that_changes_while_it_is_read_is_dropped() {
    let stat = b"42 (codex) S 1 42 42 34816 42 0 0 0 0 0 0 0 0 0 0 0 0 0 1234".to_vec();
    let later = b"42 (codex) S 1 42 42 34816 42 0 0 0 0 0 0 0 0 0 0 0 0 0 1235".to_vec();
    let reads = |second: Vec<u8>| ProcReads {
        stat: StatRead::Bytes(stat.clone()),
        executable: Some(UnixPath::new("/opt/codex")),
        cmdline: Some(b"codex\0".to_vec()),
        second_stat: Some(second),
    };
    let kept = assemble(42, reads(stat.clone())).unwrap().unwrap();
    assert_eq!(kept.start_time, 1234);
    assert_eq!(kept.arguments, vec![b"codex".to_vec()]);
    assert!(assemble(42, reads(later)).unwrap().is_none());
}

#[test]
fn an_unreadable_stat_is_an_error() {
    let reads = ProcReads {
        stat: StatRead::Failed("broken".to_owned()),
        executable: None,
        cmdline: None,
        second_stat: None,
    };
    assert_eq!(assemble(42, reads).unwrap_err(), "broken");
    let hidden =
        ProcReads { stat: StatRead::Hidden, executable: None, cmdline: None, second_stat: None };
    assert!(assemble(42, hidden).unwrap().is_none());
}

#[test]
fn device_numbers_become_terminal_numbers() {
    // Device 136:3, as /dev/pts/3 is encoded in a stat file.
    assert_eq!(tty_number((136 << 8) | 3), (136 << 8) | 3);
}

#[test]
fn groups_and_terminals_select_processes() {
    let mut shell = evidence(10, 1);
    shell.tpgid = 20;
    let mut child = evidence(20, 10);
    child.tpgid = 20;
    let mut stranger = evidence(30, 1);
    stranger.tty_nr = 7;
    let all = vec![shell.copy(), child, stranger];
    let group: Vec<u32> = foreground_group(&all, &shell).iter().map(|p| p.pid).collect();
    assert_eq!(group, vec![20]);
    let terminal: Vec<u32> = terminal_processes(&all, 34816).iter().map(|p| p.pid).collect();
    assert_eq!(terminal, vec![10, 20]);
}

fn words(list: &[&str]) -> Vec<Vec<u8>> {
    list.iter().map(|word| word.as_bytes().to_vec()).collect()
}

#[test]
fn a_shell_that_runs_a_command_is_not_interactive() {
    assert!(interactive_shell_arguments(&words(&["bash"]), "bash"));
    assert!(interactive_shell_arguments(&words(&["-zsh"]), "zsh"));
    assert!(!interactive_shell_arguments(&words(&["bash", "-c", "sleep 1"]), "bash"));
    assert!(!interactive_shell_arguments(&words(&["bash", "script.sh"]), "bash"));
}

#[test]
fn interpreters_name_their_script() {
    assert!(is_known_interpreter(&b"node".to_vec()));
    assert!(!is_known_interpreter(&b"codex".to_vec()));
    assert_eq!(
        interpreted_script_argument(
            &UnixPath::new("/usr/bin/node"),
            &words(&["node", "/opt/codex.js", "--help"])
        ),
        Some(UnixPath::new("/opt/codex.js"))
    );
    assert_eq!(
        interpreted_script_argument(&UnixPath::new("/usr/bin/node"), &words(&["node", "-e", "1"])),
        None
    );
}

#[test]
fn interpreters_are_looked_for_in_the_usual_places() {
    assert_eq!(
        interpreter_candidates(&UnixPath::new("/usr/bin/node"), &vec![UnixPath::new("/opt/bin")]),
        vec![
            UnixPath::new("/usr/bin/node"),
            UnixPath::new("/bin/node"),
            UnixPath::new("/opt/bin/node"),
        ]
    );
    assert!(interpreter_candidates(&UnixPath::new("/usr/bin/codex"), &Vec::new()).is_empty());
}

#[test]
fn command_lines_are_matched_by_regular_expressions() {
    let mut process = evidence(10, 1);
    process.arguments = words(&["/opt/supervisor", "codex", "run"]);
    assert_eq!(normalized_argv(&process.arguments), Some("/opt/supervisor codex run".to_owned()));
    assert!(command_regex_matches(&process, &vec!["codex (run|resume)$".to_owned()]));
    assert!(!command_regex_matches(&process, &vec!["^codex".to_owned()]));
    process.arguments = vec![vec![0xff]];
    assert_eq!(normalized_argv(&process.arguments), None);
    assert!(!command_regex_matches(&process, &vec![".*".to_owned()]));
}

// ---------------------------------------------------------------------------
// The inspector
// ---------------------------------------------------------------------------

struct FakeProc {
    processes: Vec<ProcessEvidence>,
}

fn stat_of(process: &ProcessEvidence) -> Vec<u8> {
    format!(
        "{} (name) S {} {} 1 {} {} 0 0 0 0 0 0 0 0 0 0 0 0 0 {}",
        process.pid,
        process.parent_pid,
        process.pgrp,
        process.tty_nr,
        process.tpgid,
        process.start_time
    )
    .into_bytes()
}

impl ProcFiles for FakeProc {
    fn read_process(&mut self, pid: u32) -> ProcReads {
        match self.processes.iter().find(|process| process.pid == pid) {
            None => ProcReads {
                stat: StatRead::Hidden,
                executable: None,
                cmdline: None,
                second_stat: None,
            },
            Some(process) => {
                let mut cmdline = Vec::new();
                for argument in &process.arguments {
                    cmdline.extend_from_slice(argument);
                    cmdline.push(0);
                }
                ProcReads {
                    stat: StatRead::Bytes(stat_of(process)),
                    executable: process.executable.clone(),
                    cmdline: Some(cmdline),
                    second_stat: Some(stat_of(process)),
                }
            }
        }
    }

    fn process_entries(&mut self) -> Result<Vec<Vec<u8>>, String> {
        let mut names = vec![b"self".to_vec()];
        names.extend(self.processes.iter().map(|process| process.pid.to_string().into_bytes()));
        Ok(names)
    }

    fn canonical(&mut self, path: &UnixPath) -> Option<UnixPath> {
        Some(path.clone())
    }

    fn is_file(&mut self, _path: &UnixPath) -> bool {
        true
    }

    fn search_path(&mut self) -> Vec<UnixPath> {
        vec![UnixPath::new("/bin")]
    }

    fn device(&mut self, _path: &UnixPath) -> Option<u64> {
        Some(34816)
    }
}

fn codex() -> CodexExecutable {
    CodexExecutable::new(UnixPath::new("/opt/codex")).unwrap()
}

fn pane_with_codex() -> Vec<ProcessEvidence> {
    let mut shell = evidence(10, 1);
    shell.executable = Some(UnixPath::new("/bin/bash"));
    shell.arguments = words(&["bash"]);
    shell.tpgid = 20;
    let mut child = evidence(20, 10);
    child.executable = Some(UnixPath::new("/opt/codex"));
    child.arguments = words(&["codex"]);
    child.tpgid = 20;
    vec![shell, child]
}

#[test]
fn the_foreground_program_of_a_pane_is_found() {
    let mut inspector = LinuxProcessInspector::with_proc_root(
        FakeProc { processes: pane_with_codex() },
        codex(),
        UnixPath::new("/proc"),
    );
    let found = inspector.inspect(10).unwrap().unwrap();
    assert!(found.proven_match);
    assert_eq!(found.path, UnixPath::new("/opt/codex"));
    assert_eq!(found.identity.pid, 20);
    assert_eq!(found.identity.start_time, 20);
    assert!(inspector.foreground_process_matches(10).unwrap());
    assert!(inspector.foreground_process_is_exact(10).unwrap());
    assert!(!inspector.foreground_process_is_exact(99).unwrap());
    assert!(!inspector.foreground_process_is_shell(10, "bash").unwrap());
}

#[test]
fn every_constructor_recognizes_what_it_is_given() {
    let files = || FakeProc { processes: pane_with_codex() };
    let mut one = LinuxProcessInspector::new(files(), codex());
    assert_eq!(one.proc_root, UnixPath::new("/proc"));
    assert!(one.foreground_process_matches(10).unwrap());
    let mut listed = LinuxProcessInspector::matching_executables(files(), vec![codex()]);
    assert!(listed.foreground_process_matches(10).unwrap());
    let mut none = LinuxProcessInspector::with_executables(files(), codex(), Vec::new());
    assert!(!none.foreground_process_matches(10).unwrap());
    let elsewhere = LinuxProcessInspector::with_proc_root_and_executables(
        files(),
        codex(),
        vec![codex()],
        UnixPath::new("/elsewhere"),
    );
    assert_eq!(elsewhere.proc_root, UnixPath::new("/elsewhere"));
    let scoped = LinuxProcessInspector::with_matcher(
        files(),
        vec![codex()],
        MatchScope::PaneTree,
        vec!["^codex".to_owned()],
    );
    assert_eq!(scoped.ok().unwrap().match_command_regexes, vec!["^codex".to_owned()]);
}

#[test]
fn a_pane_without_the_program_does_not_match() {
    let mut processes = pane_with_codex();
    processes[1].executable = Some(UnixPath::new("/usr/bin/codex"));
    let mut inspector =
        LinuxProcessInspector::with_proc_root(FakeProc { processes }, codex(), UnixPath::new("/proc"));
    assert!(!inspector.foreground_process_matches(10).unwrap());
    assert!(inspector.inspect(99).unwrap().is_none());
}

#[test]
fn a_prompt_is_a_shell() {
    let mut processes = pane_with_codex();
    processes.truncate(1);
    processes[0].tpgid = 10;
    let mut inspector =
        LinuxProcessInspector::with_proc_root(FakeProc { processes }, codex(), UnixPath::new("/proc"));
    assert!(inspector.foreground_process_is_shell(10, "bash").unwrap());
    assert!(!inspector.foreground_process_is_shell(10, "zsh").unwrap());
}

#[test]
fn many_panes_are_inspected_at_once() {
    let mut inspector = LinuxProcessInspector::with_proc_root(
        FakeProc { processes: pane_with_codex() },
        codex(),
        UnixPath::new("/proc"),
    );
    let found = inspector.inspect_batch(&vec![10, 99]);
    assert_eq!(found.len(), 2);
    assert_eq!(found[0].as_ref().unwrap(), &Some(UnixPath::new("/opt/codex")));
    assert_eq!(found[1].as_ref().unwrap(), &None);
}

#[test]
fn scopes_reach_beyond_the_foreground() {
    let mut processes = pane_with_codex();
    processes[0].tpgid = 10;
    let pane = PaneProcess { pid: 10, tty: UnixPath::new("/dev/pts/0") };
    let scoped = |scope: MatchScope| {
        LinuxProcessInspector::with_proc_root_and_matcher(
            FakeProc {
                processes: processes.iter().map(|process| process.copy()).collect(),
            },
            vec![codex()],
            scope,
            Vec::new(),
            UnixPath::new("/proc"),
        )
        .ok()
        .unwrap()
    };
    let found = |scope: MatchScope| {
        scoped(scope)
            .pane_process_match_identity(&pane)
            .unwrap()
            .map(|identity| (identity.pid, identity.start_time))
    };
    assert_eq!(found(MatchScope::Foreground), None);
    assert_eq!(found(MatchScope::PaneTree), Some((20, 20)));
    assert_eq!(found(MatchScope::PaneTty), Some((20, 20)));
    assert!(scoped(MatchScope::PaneTty).pane_process_matches(&pane).unwrap());
}

#[test]
fn bad_expressions_are_refused() {
    let refused = LinuxProcessInspector::with_proc_root_and_matcher(
        FakeProc { processes: Vec::new() },
        vec![codex()],
        MatchScope::Foreground,
        vec!["(".to_owned()],
        UnixPath::new("/proc"),
    );
    assert!(refused.is_err());
}

// ---------------------------------------------------------------------------
// Known files
// ---------------------------------------------------------------------------

struct FakeIdentity {
    executable: Option<UnixPath>,
    identities: Vec<Option<(u64, u64)>>,
    trusted: bool,
    lines: Vec<Vec<u8>>,
    script: Option<(u64, u64)>,
}

impl IdentityFiles for FakeIdentity {
    fn executable(&mut self) -> Option<UnixPath> {
        self.executable.clone()
    }

    fn executable_identity(&mut self) -> Option<(u64, u64)> {
        self.identities.remove(0)
    }

    fn is_trusted_interpreter(&mut self, _executable: &UnixPath) -> bool {
        self.trusted
    }

    fn command_line(&mut self, _limit: u64) -> (bool, Vec<u8>) {
        (true, self.lines.remove(0))
    }

    fn file_identity(&mut self, _path: &UnixPath) -> Option<(u64, u64)> {
        self.script
    }
}

fn interpreted(identities: Vec<Option<(u64, u64)>>, lines: Vec<Vec<u8>>) -> FakeIdentity {
    FakeIdentity {
        executable: Some(UnixPath::new("/usr/bin/node")),
        identities,
        trusted: true,
        lines,
        script: Some((1, 7)),
    }
}

#[test]
fn a_running_file_is_recognized_while_it_stays_the_same() {
    let run = |identities: Vec<Option<(u64, u64)>>| {
        pid_matches_file_identities(
            &mut LoggedIdentity::new(interpreted(identities, Vec::new())),
            &vec![(1, 2)],
            100,
        )
    };
    assert_eq!(run(vec![Some((1, 2)), Some((1, 2))]), (true, 0));
    assert_eq!(run(vec![Some((1, 2)), Some((1, 3))]), (false, 0));
}

#[test]
fn the_script_of_a_trusted_interpreter_is_recognized() {
    let line = b"node\0/opt/codex.js\0".to_vec();
    let run = |fake: FakeIdentity| {
        pid_matches_file_identities(&mut LoggedIdentity::new(fake), &vec![(1, 7)], 100)
    };
    let length = 2 * line.len() as u64;
    let same = vec![Some((1, 2)), Some((1, 2))];
    assert_eq!(
        run(interpreted(same.clone(), vec![line.clone(), line.clone()])),
        (true, length)
    );
    assert_eq!(
        run(interpreted(vec![Some((1, 2)), Some((1, 3))], vec![line.clone(), line.clone()])),
        (false, length)
    );
    let mut other = line.clone();
    other[0] = b'm';
    assert_eq!(run(interpreted(same.clone(), vec![line.clone(), other])), (false, length));
    let mut untrusted = interpreted(same, vec![line]);
    untrusted.trusted = false;
    assert_eq!(run(untrusted), (false, 0));
}
