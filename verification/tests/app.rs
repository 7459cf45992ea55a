//! What the program does with its arguments, its server and its daemon.

use codex_mux::app::context::{
    invocation_context, invocation_context_is_current, live_invocation_context,
};
use codex_mux::app::cycle::{
    advance_cursor, next_retry, reconcile_is_due, reconcile_round, retry_step,
    verify_volatile_generated_names, RetryStep,
};
use codex_mux::app::daemon::{
    descendants_of, force_stop_naming_daemon, identity_record, linux_flock_owner, lock_is_private,
    naming_lock_name, naming_runtime_root, parse_naming_server_identity, process_start_time,
    process_table, read_record, runtime_is_private, stop_is_allowed, stop_step,
    tmux_server_matches, DaemonHost, LockState, NamingServerIdentity, StopStep,
};
use codex_mux::app::daemon_log::LoggedDaemon;
use codex_mux::app::interactive::{
    coalesce_requests, handle_action, newest_snapshot, Action, Next, PopupHost, PopupState,
    RefreshCommand, ShutdownReply, UiUpdate,
};
use codex_mux::app::popup_log::LoggedPopup;
use codex_mux::app::daemon_loop::{DaemonAction, DaemonEvent, NamingDaemon};
use codex_mux::app::desk::{NamingDesk, RequestExpiry};
use codex_mux::app::names::{
    filter_names_by_authoritative_threads, verify_volatile_pane_titles, KnownThread,
};
use codex_mux::app::places::{
    absolute_path, absolute_target, bash_file, home_directory, validate_distinct_config_targets,
    zsh_file, ConfigTarget, FileIdentity,
};
use codex_mux::app::process::{
    choose_settings, configured_codex_executables, executable_paths, legacy_pane_command,
    process_arguments, process_cli_words, resolve_process, settings_to_save, shell_word,
    ProcessFiles,
};
use codex_mux::app::process_log::LoggedProcessFiles;
use codex_mux::app::published::{copy_names, join_names, same_names};
use codex_mux::app::reloader::{is_loaded, loaded_configs, SystemTmuxReloader};
use codex_mux::app::report::{
    install_lines, removal_lines, setup_lines, status_lines, uninstall_line, LogStatus,
};
use codex_mux::app::search::{discover_codex, SearchHost};
use codex_mux::app::search_log::LoggedSearch;
use codex_mux::app::setup::{run_remove, run_setup, RemovalReport, SetupHost};
use codex_mux::app::setup_log::LoggedSetup;
use codex_mux::app::targets::merge_targets;
use codex_mux::app::threads::ThreadVerifier;
use codex_mux::cli::Cli;
use codex_mux::config::{FileProbe, LaunchProfile, MatchScope, PermissionPreset, ProcessSettings};
use codex_mux::domain::{
    ClientId, CodexExecutable, CommandOutput, InvocationContext, LoggedRunner, Pane, PaneId,
    SessionId, ThemeId, TmuxCommandRunner, WindowId,
};
use codex_mux::error::MuxError;
use codex_mux::install::discover::ServerEvidence;
use codex_mux::install::failure::InstallError;
use codex_mux::install::plan::InstallOutcome;
use codex_mux::install::reload::TmuxReloader;
use codex_mux::install::status::InstallStatus;
use codex_mux::path::UnixPath;
use codex_mux::shell_integration::block::ShellKind;
use codex_mux::shell_integration::transaction::ShellOutcome;
use codex_mux::smart_naming::descriptors::{
    RolloutDescriptor, ServerFacts, SocketDescriptor, SocketFacts,
};
use codex_mux::smart_naming::names::GeneratedName;
use codex_mux::smart_naming::process_store::{ProcEntry, ProcessHost};
use codex_mux::smart_naming::rollout::EntryFacts;
use codex_mux::smart_naming::processes::{LiveProcesses, ProcessEntry};
use codex_mux::smart_naming::sockets::UnixSocketDiagnostics;
use codex_mux::tmux::actions::TmuxActions;
use codex_mux::tmux::owned_names::{NamedPane, OwnedTmuxNames};

struct ContextRunner(Vec<u8>);

impl TmuxCommandRunner for ContextRunner {
    fn run(&mut self, _arguments: &Vec<Vec<u8>>) -> Result<CommandOutput, MuxError> {
        Ok(CommandOutput { stdout: self.0.clone(), stderr: Vec::new(), status: Some(0) })
    }
}

fn runner(stdout: &[u8]) -> LoggedRunner<ContextRunner> {
    LoggedRunner::new(ContextRunner(stdout.to_vec()))
}

fn context() -> InvocationContext {
    InvocationContext {
        client_id: ClientId::new("/dev/pts/7").unwrap(),
        pane_id: PaneId::new("%4").unwrap(),
        session_id: SessionId::new("$2").unwrap(),
        window_id: WindowId::new("@3").unwrap(),
        current_path: UnixPath::new("/work"),
    }
}

#[test]
fn popup_child_context_preflight_fails_closed_on_client_movement() {
    let context = context();
    assert!(invocation_context_is_current(
        &mut runner(b"/dev/pts/7\x1f$2\x1f@3\x1f%4\n"),
        &context
    ));
    assert!(!invocation_context_is_current(
        &mut runner(b"/dev/pts/7\x1f$8\x1f@9\x1f%10\n"),
        &context
    ));
    assert!(!invocation_context_is_current(&mut runner(b"malformed\n"), &context));
}

#[test]
fn live_client_and_pane_authoritatively_recover_shell_corrupted_session_metadata() {
    let context = live_invocation_context(
        &mut runner(b"/dev/pts/7\x1f$2\x1f@3\x1f%4\x1f/work/project\n"),
        &ClientId::new("/dev/pts/7").unwrap(),
        &PaneId::new("%4").unwrap(),
    )
    .expect("exact client and pane recover a coherent context");

    assert_eq!(context.session_id.as_str(), "$2");
    assert_eq!(context.window_id.as_str(), "@3");
    assert_eq!(context.current_path, UnixPath::new("/work/project"));
}

fn generated(thread: &str, stable: bool) -> GeneratedName {
    GeneratedName {
        thread_id: thread.to_owned(),
        source_session: SessionId::new("$1").unwrap(),
        source_pane_pid: 77,
        stable_source_title: stable,
        source_title: "spinner".to_owned(),
        source_cwd: UnixPath::new("/work"),
        name: "Old conversation".to_owned(),
        generated_at_unix: 1,
        auto_name_token: None,
    }
}

#[test]
fn volatile_name_is_rejected_when_the_same_pane_now_resolves_another_thread() {
    let pane = PaneId::new("%9").unwrap();
    let names = vec![NamedPane {
        pane: pane.clone(),
        name: generated("aaaaaaaa-aaaa-aaaa-aaaa-aaaaaaaaaaaa", false),
    }];
    let authoritative = vec![KnownThread {
        pane: pane.clone(),
        thread: "bbbbbbbb-bbbb-bbbb-bbbb-bbbbbbbbbbbb".to_owned(),
    }];
    let (verified, invalid) = filter_names_by_authoritative_threads(names, &authoritative);
    assert!(verified.is_empty());
    assert_eq!(
        invalid
            .iter()
            .find(|named| named.pane.as_str() == pane.as_str())
            .map(|named| named.name.thread_id.as_str()),
        Some("aaaaaaaa-aaaa-aaaa-aaaa-aaaaaaaaaaaa")
    );
}

fn executable(path: &str) -> CodexExecutable {
    CodexExecutable::new(UnixPath::new(path)).unwrap()
}

#[test]
fn profile_executables_are_shared_by_inventory_and_volatile_title_verification() {
    let direct = executable("/bin/sh");
    let profile = LaunchProfile {
        name: "wrapped".to_owned(),
        key: 'w',
        executable: Some(UnixPath::new("/bin/bash")),
        permissions: PermissionPreset::Standard,
    };
    let identities =
        configured_codex_executables(vec![direct.clone()], &vec![profile]).unwrap();
    assert!(identities.iter().any(|item| item.as_path() == direct.as_path()));
    assert!(identities.iter().any(|item| *item.as_path() == UnixPath::new("/bin/bash")));
}

fn cli() -> Cli {
    Cli {
        codex: None,
        launch_executable: None,
        match_executable: Vec::new(),
        pane_command: Vec::new(),
        match_scope: None,
        match_command_regex: Vec::new(),
        pane_command_regex: Vec::new(),
        client: Some("/dev/pts/3".to_owned()),
        invoking_pane: Some("%4".to_owned()),
        invoking_session: Some("$2".to_owned()),
        invoking_window: Some("@3".to_owned()),
        invoking_path: Some(UnixPath::new("/work/project")),
        command: None,
    }
}

#[test]
fn interactive_context_requires_every_absolute_tmux_value() {
    let mut cli = cli();
    assert!(invocation_context(&cli, &mut runner(b"")).is_ok());
    cli.invoking_path = Some(UnixPath::new("relative"));
    assert!(invocation_context(&cli, &mut runner(b"")).is_err());
    cli.invoking_path = None;
    assert!(invocation_context(&cli, &mut runner(b"")).is_err());
}

#[test]
fn naming_identity_ignores_tmux_client_suffix() {
    let first = parse_naming_server_identity(b"/tmp/tmux/socket,4321,0").unwrap();
    let second = parse_naming_server_identity(b"/tmp/tmux/socket,4321,9").unwrap();
    assert_eq!(first, second);
    assert_ne!(first, parse_naming_server_identity(b"/tmp/tmux/socket,9876,0").unwrap());
}

#[test]
fn refresh_worker_starts_without_waiting_and_coalesces_generations() {
    assert_eq!(
        coalesce_requests(0, &vec![RefreshCommand::Request(1), RefreshCommand::Request(2)]),
        Some(2)
    );
    assert_eq!(coalesce_requests(0, &Vec::new()), Some(0));
    assert_eq!(
        coalesce_requests(0, &vec![RefreshCommand::Request(1), RefreshCommand::Stop]),
        None
    );
}

#[test]
fn the_newest_snapshot_that_is_new_enough_counts() {
    assert_eq!(newest_snapshot(&vec![0, 1, 2], 1), Some(2));
    assert_eq!(newest_snapshot(&vec![0, 1], 2), None);
    assert_eq!(newest_snapshot(&Vec::new(), 0), None);
}

// ---------------------------------------------------------------------------
// The daemon
// ---------------------------------------------------------------------------

/// The stat file of a process that started at the time of its number.
fn stat_line(pid: u32, parent: u32) -> String {
    format!("{pid} (codex) S {parent} 1 1 0 0 0 0 0 0 0 0 0 0 0 0 0 0 0 {pid} 0")
}

struct FakeDaemon {
    record: String,
    owner: u32,
    started: u64,
    log: Vec<String>,
    held: Vec<u32>,
}

impl DaemonHost for FakeDaemon {
    fn try_lock(&mut self) -> LockState {
        self.log.push("lock".to_owned());
        LockState::Held
    }

    fn read_record(&mut self) -> Result<String, MuxError> {
        Ok(self.record.clone())
    }

    fn lock_owner(&mut self) -> Result<u32, MuxError> {
        Ok(self.owner)
    }

    fn bind(&mut self, pid: u32) -> Result<(), String> {
        self.log.push(format!("bind {pid}"));
        Ok(())
    }

    fn start_time(&mut self, pid: u32) -> Result<u64, MuxError> {
        match pid {
            77 | 88 => Ok(self.started),
            82 => Ok(9999),
            _ => Ok(u64::from(pid)),
        }
    }

    fn suspend(&mut self) -> Result<(), String> {
        self.log.push("suspend".to_owned());
        Ok(())
    }

    fn process_entries(&mut self) -> Vec<ProcEntry> {
        [(77, 1), (80, 77), (81, 80), (82, 77), (83, 77), (90, 1)]
            .iter()
            .map(|(pid, parent)| ProcEntry {
                name: format!("{pid}").into_bytes(),
                stat: Some(stat_line(*pid, *parent)),
            })
            .collect()
    }

    fn hold(&mut self, pid: u32) -> bool {
        if pid == 83 {
            return false;
        }
        self.held.push(pid);
        true
    }

    fn release(&mut self) {
        self.held.pop();
    }

    fn kill_held(&mut self) {
        for pid in self.held.drain(..) {
            self.log.push(format!("kill {pid}"));
        }
    }

    fn kill(&mut self) -> Result<(), String> {
        self.log.push("kill".to_owned());
        Ok(())
    }
}

fn daemon(record: &str, owner: u32, started: u64) -> LoggedDaemon<FakeDaemon> {
    LoggedDaemon::new(FakeDaemon {
        record: record.to_owned(),
        owner,
        started,
        log: Vec::new(),
        held: Vec::new(),
    })
}

#[test]
fn forced_daemon_stop_uses_a_pidfd_bound_to_the_recorded_start_time() {
    let mut host = daemon("v1 77 1234\n", 77, 1234);
    force_stop_naming_daemon(&mut host).unwrap();
    let log = &host.inner().log;
    assert!(log.contains(&"bind 77".to_owned()));
    assert_eq!(log.last().unwrap(), "kill");
    let suspend = log.iter().position(|entry| entry == "suspend").unwrap();
    assert_eq!(log[suspend + 1..], ["kill 81", "kill 80", "kill"]);
}

#[test]
fn processes_are_read_from_their_entries() {
    let entries = vec![
        ProcEntry { name: b"20".to_vec(), stat: Some(stat_line(20, 10)) },
        ProcEntry { name: b"self".to_vec(), stat: Some(stat_line(20, 10)) },
        ProcEntry { name: b"21".to_vec(), stat: None },
        ProcEntry { name: b"22".to_vec(), stat: Some("22 (short) S 1".to_owned()) },
    ];
    let table = process_table(&entries);
    assert_eq!(table.len(), 1);
    assert_eq!((table[0].pid, table[0].parent, table[0].started), (20, 10, 20));
}

fn published(pane: &str, title: &str) -> NamedPane {
    NamedPane {
        pane: PaneId::new(pane).ok().unwrap(),
        name: GeneratedName {
            thread_id: "thread".to_owned(),
            source_session: SessionId::new("$1").ok().unwrap(),
            source_pane_pid: 7,
            stable_source_title: true,
            source_title: "title".to_owned(),
            source_cwd: UnixPath::new("/work"),
            name: title.to_owned(),
            generated_at_unix: 5,
            auto_name_token: None,
        },
    }
}

#[test]
fn a_later_lane_has_the_last_word_on_a_pane() {
    let first = vec![published("%1", "one"), published("%2", "two")];
    let second = vec![published("%2", "newer"), published("%3", "three")];
    let all = join_names(copy_names(&first), &second);
    let shown: Vec<(&str, &str)> =
        all.iter().map(|named| (named.pane.as_str(), named.name.name.as_str())).collect();
    assert_eq!(shown, vec![("%1", "one"), ("%2", "newer"), ("%3", "three")]);
}

#[test]
fn lists_of_names_are_compared_without_their_order() {
    let list = vec![published("%1", "one"), published("%2", "two")];
    let turned = vec![published("%2", "two"), published("%1", "one")];
    assert!(same_names(&list, &turned));
    assert!(same_names(&Vec::new(), &Vec::new()));
    assert!(!same_names(&list, &vec![published("%1", "one")]));
    assert!(!same_names(&list, &vec![published("%1", "one"), published("%2", "other")]));
    let mut moved = copy_names(&list);
    moved[0].name.source_cwd = UnixPath::new("/work/");
    assert!(same_names(&list, &moved));
    moved[0].name.source_cwd = UnixPath::new("/elsewhere");
    assert!(!same_names(&list, &moved));
    moved[0].name.source_cwd = UnixPath::new("/work");
    moved[0].name.auto_name_token = Some("token".to_owned());
    assert!(!same_names(&list, &moved));
}

#[test]
fn forced_daemon_stop_rejects_a_reused_or_mismatched_pid_identity() {
    let mut host = daemon("v1 77 1235\n", 77, 1234);
    let error = force_stop_naming_daemon(&mut host).unwrap_err().to_text();
    assert!(error.contains("identity changed"));
    assert!(!host.inner().log.contains(&"kill".to_owned()));
}

#[test]
fn forced_daemon_stop_rejects_a_valid_identity_that_does_not_own_the_flock() {
    let mut host = daemon("v1 88 1234\n", 77, 1234);
    let error = force_stop_naming_daemon(&mut host).unwrap_err().to_text();
    assert!(error.contains("does not own"));
    assert!(!host.inner().log.contains(&"kill".to_owned()));
}

#[test]
fn a_stop_waits_then_forces_then_gives_up() {
    assert!(matches!(stop_step(true, 0, None), StopStep::ClearNames));
    assert!(matches!(stop_step(false, 0, None), StopStep::Sleep(25)));
    assert!(matches!(stop_step(false, 500, None), StopStep::Force));
    assert!(matches!(stop_step(false, 2000, Some(1000)), StopStep::GiveUp));
    assert!(stop_is_allowed(false).is_ok());
    assert!(stop_is_allowed(true).is_err());
}

#[test]
fn records_and_lock_tables_are_read() {
    assert_eq!(identity_record(77, 1234), "v1 77 1234\n");
    assert_eq!(read_record("v1 77 1234\n").unwrap(), (77, "1234".to_owned()));
    assert!(read_record("v2 77 1234\n").is_err());
    let locks = "1: FLOCK  ADVISORY  WRITE 4242 08:02:99 0 EOF\n\
                 2: POSIX  ADVISORY  WRITE 17 08:02:99 0 EOF\n";
    assert_eq!(linux_flock_owner(locks, 8, 2, 99).unwrap(), 4242);
    assert!(linux_flock_owner(locks, 8, 2, 98).is_err());
}

#[test]
fn runtime_places_are_private() {
    assert!(lock_is_private(true, 5, 5, 0o600, 1).is_ok());
    assert!(lock_is_private(true, 5, 5, 0o644, 1).is_err());
    assert!(lock_is_private(true, 6, 5, 0o600, 1).is_err());
    assert!(lock_is_private(true, 5, 5, 0o600, 2).is_err());
    assert!(runtime_is_private(true, 5, 5, 0o700).is_ok());
    assert!(runtime_is_private(true, 5, 5, 0o755).is_err());
    assert_eq!(
        naming_runtime_root(&Some(UnixPath::new("/run/user/5")), &UnixPath::new("/tmp"), 5),
        UnixPath::new("/run/user/5")
    );
    assert!(naming_lock_name(255).contains("00000000000000ff"));
}

#[test]
fn servers_are_told_apart_by_socket_and_start() {
    let server = NamingServerIdentity {
        socket: UnixPath::new("/tmp/tmux/socket"),
        pid: 4,
        socket_device: 1,
        socket_inode: 2,
        process_start_time: 3,
    };
    assert!(tmux_server_matches(&server, Some((1, 2)), Some(3)));
    assert!(!tmux_server_matches(&server, Some((1, 9)), Some(3)));
    assert!(!tmux_server_matches(&server, Some((1, 2)), Some(4)));
    assert!(!tmux_server_matches(&server, None, Some(3)));
    let stat = "42 (odd ) name) S 1 42 42 34816 42 0 0 0 0 0 0 0 0 0 0 0 0 0 1234";
    assert_eq!(process_start_time(stat, &UnixPath::new("/proc/42/stat")).unwrap(), 1234);
}

#[test]
fn deeper_descendants_are_listed_first() {
    let entry = |pid: u32, parent: u32| ProcessEntry { pid, parent, started: u64::from(pid) };
    let table = vec![entry(10, 1), entry(20, 10), entry(30, 20), entry(40, 1)];
    let found: Vec<(u32, usize)> =
        descendants_of(&table, 10).iter().map(|item| (item.pid, item.depth)).collect();
    assert_eq!(found.iter().map(|item| item.0).collect::<Vec<u32>>(), vec![30, 20]);
    assert!(found[0].1 > found[1].1);
}

#[test]
fn retries_grow_to_a_limit() {
    assert_eq!(next_retry(100), 200);
    assert_eq!(next_retry(4000), 5000);
    assert!(matches!(retry_step(false, true, 10), RetryStep::GiveUp));
    assert!(matches!(retry_step(true, false, 10), RetryStep::GiveUp));
    assert!(matches!(retry_step(true, true, 0), RetryStep::Restart));
    assert!(matches!(retry_step(true, true, 70), RetryStep::Sleep(50)));
    assert!(reconcile_is_due(true, 0));
    assert!(reconcile_is_due(false, 2000));
    assert!(!reconcile_is_due(false, 1999));
}

#[test]
fn the_daemon_goes_round_until_it_may_not_go_on() {
    let mut daemon = NamingDaemon::new(true);
    assert_eq!(daemon.action(), DaemonAction::Look);
    daemon.advance(DaemonEvent::Looked { enabled: true, same_server: true, due: true });
    assert_eq!(daemon.action(), DaemonAction::Reconcile);
    daemon.advance(DaemonEvent::Done);
    assert_eq!(daemon.action(), DaemonAction::Reconcile);
    daemon.advance(DaemonEvent::Reconciled { pending: true });
    assert_eq!(daemon.action(), DaemonAction::Wake);
    daemon.advance(DaemonEvent::Done);
    assert_eq!(daemon.action(), DaemonAction::Inspect);
    daemon.advance(DaemonEvent::Inspected { finished: false });
    assert_eq!(daemon.action(), DaemonAction::Pause(100));
    daemon.advance(DaemonEvent::Done);
    assert_eq!(daemon.action(), DaemonAction::Look);
    daemon.advance(DaemonEvent::Looked { enabled: true, same_server: false, due: true });
    assert_eq!(daemon.action(), DaemonAction::Stop);
    daemon.advance(DaemonEvent::Stopped { enabled: true });
    assert_eq!(daemon.action(), DaemonAction::Leave);
}

#[test]
fn a_finished_worker_is_replaced_after_growing_waits() {
    let mut daemon = NamingDaemon::new(true);
    for wait in [100, 200, 400, 800, 1600, 3200, 5000, 5000] {
        daemon.advance(DaemonEvent::Looked { enabled: true, same_server: true, due: false });
        daemon.advance(DaemonEvent::Inspected { finished: true });
        assert_eq!(daemon.action(), DaemonAction::Wait(wait));
        daemon.advance(DaemonEvent::Waited { over: true });
        assert_eq!(daemon.action(), DaemonAction::Restart);
        daemon.advance(DaemonEvent::Done);
        daemon.advance(DaemonEvent::Done);
    }
    daemon.advance(DaemonEvent::Looked { enabled: true, same_server: true, due: false });
    daemon.advance(DaemonEvent::Inspected { finished: true });
    daemon.advance(DaemonEvent::Waited { over: false });
    assert_eq!(daemon.action(), DaemonAction::Stop);
    daemon.advance(DaemonEvent::Stopped { enabled: false });
    assert_eq!(daemon.action(), DaemonAction::Clear);
    daemon.advance(DaemonEvent::Done);
    assert_eq!(daemon.action(), DaemonAction::Leave);
    assert_eq!(NamingDaemon::new(false).action(), DaemonAction::Clear);
}

// ---------------------------------------------------------------------------
// Names and processes
// ---------------------------------------------------------------------------

#[derive(Default)]
struct FakeExpiry(Vec<(Vec<String>, u64)>);

impl RequestExpiry for FakeExpiry {
    fn expire_auto_name_requests(&mut self, panes: &Vec<Pane>, now_unix_nanos: u64) {
        let ids = panes.iter().map(|pane| pane.id.as_str().to_owned()).collect();
        self.0.push((ids, now_unix_nanos));
    }
}

struct NoHost;

impl LiveProcesses for NoHost {
    fn identity(&mut self, _pid: u32) -> Option<(u32, u64)> {
        None
    }
}

impl ProcessHost for NoHost {
    fn is_cancelled(&mut self) -> bool {
        false
    }

    fn user(&mut self) -> u32 {
        0
    }

    fn executable(&mut self, _pid: u32) -> Option<(u64, u64)> {
        None
    }

    fn socket_descriptors(&mut self, _pid: u32) -> Result<Vec<SocketDescriptor>, MuxError> {
        Ok(Vec::new())
    }

    fn descriptor_targets(&mut self, _pid: u32) -> Option<Vec<Option<Vec<u8>>>> {
        None
    }

    fn rollout_descriptors(
        &mut self,
        _pid: u32,
        _root: &UnixPath,
    ) -> Result<Vec<RolloutDescriptor>, MuxError> {
        Ok(Vec::new())
    }

    fn server(&mut self, _pid: u32) -> ServerFacts {
        ServerFacts { executable: None, file: None, running: None, command: None }
    }

    fn socket(&mut self, _path: &UnixPath) -> Option<SocketFacts> {
        None
    }

    fn directories(&mut self, _paths: &Vec<UnixPath>) -> Vec<Option<EntryFacts>> {
        Vec::new()
    }

    fn process_entries(&mut self) -> Result<Vec<ProcEntry>, MuxError> {
        Ok(Vec::new())
    }

    fn unix_sockets(&mut self) -> Result<UnixSocketDiagnostics, MuxError> {
        Ok(UnixSocketDiagnostics::new())
    }

    fn unix_list(&mut self) -> Result<Vec<u8>, MuxError> {
        Ok(Vec::new())
    }
}

fn pane(id: &str, title: &str) -> Pane {
    Pane {
        id: PaneId::new(id).unwrap(),
        session_id: SessionId::new("$1").unwrap(),
        title: Some(title.to_owned()),
        generated_title: None,
        generated_thread_id: None,
        generated_source_stable: false,
        generated_at_unix: None,
        immediate_naming: false,
        manual_name: false,
        manual_name_source: None,
        manual_name_pid: None,
        manual_name_pid_raw: String::new(),
        manual_name_session: None,
        manual_name_session_raw: String::new(),
        unpin_waiting: false,
        unpin_waiting_title: None,
        unpin_waiting_pid: None,
        unpin_waiting_session: None,
        auto_name_status: None,
        auto_name_started_at_unix_nanos: None,
        auto_name_token: None,
        pane_pid: 77,
        current_path: UnixPath::new("/work"),
    }
}

#[test]
fn unproven_volatile_titles_are_hidden() {
    let mut panes = vec![pane("%1", "spinner")];
    panes[0].generated_title = Some("A name".to_owned());
    panes[0].generated_thread_id = Some("aaaaaaaa-aaaa-aaaa-aaaa-aaaaaaaaaaaa".to_owned());
    verify_volatile_pane_titles(&mut panes, &mut ThreadVerifier::<NoHost>::new(None));
    assert_eq!(panes[0].generated_title, None);
}

#[test]
fn panes_become_targets_unless_they_are_named_by_hand() {
    let thread = "aaaaaaaa-aaaa-aaaa-aaaa-aaaaaaaaaaaa";
    let mut manual = pane("%2", thread);
    manual.manual_name = true;
    let targets = merge_targets(&vec![pane("%1", thread), manual], &None);
    assert_eq!(targets.len(), 1);
    assert_eq!(targets[0].pane_id.as_str(), "%1");
    assert_eq!(targets[0].thread_hint, thread);
}

#[test]
fn a_round_without_names_asks_for_the_state_only() {
    let owned = OwnedTmuxNames::new(ContextRunner(Vec::new()));
    let mut desk = NamingDesk::new(owned, ThreadVerifier::<NoHost>::new(None), FakeExpiry::default());
    let round = reconcile_round(&mut desk, Vec::new(), &vec![pane("%1", "spinner")], 3, 77);
    assert_eq!(desk.expiry().0, vec![(vec!["%1".to_owned()], 77)]);
    assert!(!round.pending);
    assert!(round.verdicts.is_empty());
    assert_eq!(advance_cursor(3, 10), 7);
    assert_eq!(advance_cursor(8, 10), 2);
}

struct FakeProcessFiles;

impl ProcessFiles for FakeProcessFiles {
    fn discover_codex(&mut self) -> Result<UnixPath, MuxError> {
        Ok(UnixPath::new("/opt/codex"))
    }

    fn probe(&mut self, _location: &UnixPath) -> FileProbe {
        FileProbe::Found { is_file: true, mode: 0o755 }
    }
}

#[test]
fn a_found_program_is_started_and_recognized() {
    let arguments = process_arguments(&cli());
    let resolved =
        resolve_process(&arguments, None, &mut LoggedProcessFiles::new(FakeProcessFiles)).unwrap();
    assert_eq!(*resolved.launch.as_path(), UnixPath::new("/opt/codex"));
    assert_eq!(resolved.matches.len(), 1);
    assert_eq!(resolved.pane_commands, vec!["codex".to_owned()]);
    assert!(matches!(resolved.match_scope, MatchScope::Foreground));
    let words = process_cli_words(&resolved).unwrap();
    assert!(words.contains(&"'/opt/codex'".to_owned()));
    assert_eq!(settings_to_save(&resolved).launch_executable, UnixPath::new("/opt/codex"));
    let paths = executable_paths(UnixPath::new("/opt/mux"), &resolved).unwrap();
    assert_eq!(paths.mux, UnixPath::new("/opt/mux"));
    assert_eq!(paths.codex, UnixPath::new("/opt/codex"));
}

#[test]
fn the_shorthand_goes_before_everything_else() {
    let mut mixed = cli();
    mixed.codex = Some(UnixPath::new("/opt/bin/agent"));
    mixed.launch_executable = Some(UnixPath::new("/opt/other"));
    let resolved = resolve_process(
        &process_arguments(&mixed),
        None,
        &mut LoggedProcessFiles::new(FakeProcessFiles),
    )
    .unwrap();
    assert!(resolved.legacy_shorthand);
    assert_eq!(*resolved.launch.as_path(), UnixPath::new("/opt/bin/agent"));
    assert_eq!(resolved.pane_commands, vec!["agent".to_owned()]);
}

#[test]
fn stored_settings_are_used_unless_arguments_say_otherwise() {
    let stored = ProcessSettings {
        launch_executable: UnixPath::new("/stored"),
        match_executables: vec![UnixPath::new("/stored")],
        pane_commands: vec!["stored".to_owned()],
        match_scope: MatchScope::PaneTree,
        match_command_regexes: Vec::new(),
        pane_command_regexes: Vec::new(),
    };
    let chosen = choose_settings(
        &process_arguments(&cli()),
        &Some(stored),
        Err(MuxError::Unavailable("codex")),
    )
    .unwrap();
    assert_eq!(chosen.launch_executable, UnixPath::new("/stored"));
    assert!(choose_settings(
        &process_arguments(&cli()),
        &None,
        Err(MuxError::Unavailable("codex")),
    )
    .is_err());
}

#[test]
fn words_for_the_shell_are_quoted() {
    assert_eq!(shell_word(&UnixPath::new("/opt/it's")).unwrap(), "'/opt/it'\\''s'");
    assert!(shell_word(&UnixPath::from_bytes(&[0xff])).is_err());
    assert_eq!(legacy_pane_command(&UnixPath::new("/opt/codex")).unwrap(), "codex");
}

// ---------------------------------------------------------------------------
// Places
// ---------------------------------------------------------------------------

#[test]
fn shell_files_stand_in_the_usual_places() {
    let home = UnixPath::new("/home/me");
    assert_eq!(bash_file(&home, &None), UnixPath::new("/home/me/.bashrc"));
    assert_eq!(
        zsh_file(&home, &Some(UnixPath::new("/zsh")), &None),
        UnixPath::new("/zsh/.zshrc")
    );
    assert_eq!(zsh_file(&home, &None, &None), UnixPath::new("/home/me/.zshrc"));
    assert_eq!(bash_file(&home, &Some(UnixPath::new("/x"))), UnixPath::new("/x"));
    assert!(home_directory(&None).is_err());
    assert_eq!(home_directory(&Some(home)).unwrap(), UnixPath::new("/home/me"));
}

#[test]
fn relative_paths_are_made_absolute() {
    assert_eq!(
        absolute_path(&UnixPath::new("x"), Ok(UnixPath::new("/work"))).unwrap(),
        UnixPath::new("/work/x")
    );
    assert_eq!(
        absolute_path(&UnixPath::new("/x"), Err("gone".to_owned())).unwrap(),
        UnixPath::new("/x")
    );
    assert!(absolute_path(&UnixPath::new("x"), Err("gone".to_owned())).is_err());
    assert_eq!(
        absolute_target(&UnixPath::new("/link/x"), Ok(UnixPath::new("/real"))).unwrap(),
        UnixPath::new("/real/x")
    );
}

#[test]
fn one_file_cannot_serve_twice() {
    let target = |name: &'static str, path: &str, inode: u64| ConfigTarget {
        name,
        path: UnixPath::new(path),
        identity: FileIdentity::Present { device: 1, inode },
    };
    assert!(validate_distinct_config_targets(&vec![
        target("tmux", "/a", 1),
        target("bash", "/b", 2)
    ])
    .is_ok());
    assert!(validate_distinct_config_targets(&vec![
        target("tmux", "/a", 1),
        target("bash", "/b", 1)
    ])
    .is_err());
    assert!(validate_distinct_config_targets(&vec![
        ConfigTarget { name: "tmux", path: UnixPath::new("/a"), identity: FileIdentity::Missing },
        ConfigTarget { name: "bash", path: UnixPath::new("/a"), identity: FileIdentity::Missing },
    ])
    .is_err());
}

// ---------------------------------------------------------------------------
// Setup
// ---------------------------------------------------------------------------

struct FakeSetup {
    log: Vec<&'static str>,
    fail_tmux: bool,
}

impl SetupHost for FakeSetup {
    fn save_process(&mut self) -> Result<(), MuxError> {
        self.log.push("save");
        Ok(())
    }

    fn restore_process(&mut self) -> Result<(), MuxError> {
        self.log.push("restore");
        Ok(())
    }

    fn install_title(&mut self) -> Result<bool, MuxError> {
        self.log.push("title");
        Ok(true)
    }

    fn rollback_title(&mut self) -> Result<(), MuxError> {
        self.log.push("title back");
        Ok(())
    }

    fn remove_title(&mut self) -> Result<bool, MuxError> {
        self.log.push("title away");
        Ok(true)
    }

    fn prepare_shells(&mut self) -> Result<(), InstallError> {
        self.log.push("prepare");
        Ok(())
    }

    fn apply_shells(&mut self) -> Result<Vec<ShellOutcome>, InstallError> {
        self.log.push("shells");
        Ok(Vec::new())
    }

    fn rollback_shells(&mut self) -> Result<(), InstallError> {
        self.log.push("shells back");
        Ok(())
    }

    fn install_tmux(&mut self) -> Result<InstallOutcome, InstallError> {
        self.log.push("tmux");
        if self.fail_tmux {
            return Err(InstallError::Discovery("nothing".to_owned()));
        }
        Ok(outcome())
    }

    fn uninstall_tmux(&mut self) -> Result<bool, InstallError> {
        self.log.push("tmux away");
        Ok(true)
    }

    fn tmux_is_unchanged(&mut self) -> Result<bool, InstallError> {
        Ok(true)
    }

    fn restore_tmux(&mut self) -> Result<(), InstallError> {
        self.log.push("tmux back");
        Ok(())
    }

    fn server_is_running(&mut self) -> bool {
        false
    }

    fn reload_tmux(&mut self) -> Result<(), String> {
        self.log.push("reload");
        Ok(())
    }
}

fn outcome() -> InstallOutcome {
    InstallOutcome {
        path: UnixPath::new("/home/me/.tmux.conf"),
        backup: None,
        changed: true,
        reloaded: false,
    }
}

#[test]
fn setup_goes_through_every_stage() {
    let mut host = LoggedSetup::new(FakeSetup { log: Vec::new(), fail_tmux: false });
    let report = run_setup(&mut host, true).ok().unwrap();
    assert!(report.title_changed);
    assert_eq!(host.inner().log[0], "save");
    for step in ["title", "prepare", "shells", "tmux"] {
        assert!(host.inner().log.contains(&step));
    }
    assert!(!host.inner().log.contains(&"restore"));
    assert!(setup_lines(&report).iter().any(|line| line.contains("/home/me/.tmux.conf")));
}

#[test]
fn a_failed_setup_is_taken_back() {
    let mut host = LoggedSetup::new(FakeSetup { log: Vec::new(), fail_tmux: true });
    assert!(run_setup(&mut host, true).is_err());
    for step in ["shells back", "title back", "restore"] {
        assert!(host.inner().log.contains(&step), "{step} is missing");
    }
}

#[test]
fn removal_goes_through_every_stage() {
    let mut host = LoggedSetup::new(FakeSetup { log: Vec::new(), fail_tmux: false });
    let report = run_remove(&mut host).ok().unwrap();
    assert!(report.removed);
    assert!(report.title_restored);
    for step in ["prepare", "shells", "tmux away", "title away"] {
        assert!(host.inner().log.contains(&step), "{step} is missing");
    }
}

// ---------------------------------------------------------------------------
// The server
// ---------------------------------------------------------------------------

#[test]
fn loaded_files_are_listed() {
    match loaded_configs(&mut runner(b"/etc/tmux.conf,/home/me/.tmux.conf\n")).ok().unwrap() {
        ServerEvidence::Running(list) => {
            assert_eq!(
                list,
                vec![UnixPath::new("/etc/tmux.conf"), UnixPath::new("/home/me/.tmux.conf")]
            );
            assert!(is_loaded(&UnixPath::new("/etc/tmux.conf"), &list));
            assert!(!is_loaded(&UnixPath::new("/etc/other.conf"), &list));
        }
        ServerEvidence::NotRunning => panic!("a server answered"),
    }
}

#[test]
fn a_server_that_loaded_the_file_is_reloaded() {
    let mut reloader = SystemTmuxReloader::new(ContextRunner(Vec::new()), true);
    assert!(reloader.is_running());
    assert!(reloader.reload(&UnixPath::new("/etc/tmux.conf")).is_ok());
    assert!(reloader.unbind("u").is_ok());
    let mut other = SystemTmuxReloader::new(ContextRunner(Vec::new()), false);
    assert!(!other.is_running());
}

// ---------------------------------------------------------------------------
// Reports
// ---------------------------------------------------------------------------

#[test]
fn reports_name_what_happened() {
    assert!(install_lines(&outcome()).iter().any(|line| line.contains("/home/me/.tmux.conf")));
    assert!(uninstall_line(true, &UnixPath::new("/x")).contains("/x"));
    assert_ne!(
        uninstall_line(true, &UnixPath::new("/x")),
        uninstall_line(false, &UnixPath::new("/x"))
    );
    let report = RemovalReport {
        shells: vec![ShellOutcome {
            kind: ShellKind::Bash,
            path: UnixPath::new("/home/me/.bashrc"),
            changed: true,
            backup: None,
        }],
        removed: true,
        title_restored: true,
    };
    let lines = removal_lines(&report, &UnixPath::new("/home/me/.tmux.conf"));
    assert!(lines.iter().any(|line| line.contains("/home/me/.bashrc")));
    let status = InstallStatus {
        path: UnixPath::new("/home/me/.tmux.conf"),
        installed: true,
        key: Some("u".to_owned()),
        mux: Some(UnixPath::new("/opt/mux")),
        codex: Some(UnixPath::new("/opt/codex")),
        match_executables: vec![UnixPath::new("/opt/codex")],
        pane_commands: vec!["codex".to_owned()],
        match_scope: Some("foreground".to_owned()),
        match_command_regexes: Vec::new(),
        pane_command_regexes: Vec::new(),
        smart_left: false,
        drift: vec!["key changed".to_owned()],
    };
    let log = LogStatus { path: UnixPath::new("/log"), latest: Some("code".to_owned()) };
    let lines = status_lines(&status, &Ok(Some(true)), &Some(log), &None);
    assert!(lines.iter().any(|line| line.contains("key changed")));
    assert!(lines.iter().any(|line| line.contains("/log")));
}

// ---------------------------------------------------------------------------
// The popup
// ---------------------------------------------------------------------------

struct FakePopup {
    log: Vec<String>,
}

impl PopupHost for FakePopup {
    fn save_profiles(&mut self, profiles: &Vec<LaunchProfile>) -> Result<(), MuxError> {
        self.log.push(format!("profiles {}", profiles.len()));
        Ok(())
    }

    fn save_smart_naming(&mut self, enabled: bool) -> Result<(), MuxError> {
        self.log.push(format!("naming {enabled}"));
        Ok(())
    }

    fn save_theme(&mut self, theme: ThemeId) -> Result<(), MuxError> {
        self.log.push(format!("theme {}", theme.as_str()));
        Ok(())
    }

    fn ensure_naming_daemon(&mut self) -> Result<(), MuxError> {
        self.log.push("ensure".to_owned());
        Ok(())
    }

    fn begin_shutdown(&mut self) {
        self.log.push("shutdown".to_owned());
    }

    fn request_refresh(&mut self, generation: u64) {
        self.log.push(format!("refresh {generation}"));
    }

    fn request_auto_name(&mut self, pane: &Pane) -> Result<(), MuxError> {
        self.log.push(format!("name {}", pane.id.as_str()));
        Ok(())
    }

    fn token(&mut self) -> String {
        "token".to_owned()
    }
}

fn act(action: Action, state: &mut PopupState) -> (Result<Next, MuxError>, Vec<String>) {
    let codex = executable("/opt/codex");
    let mut services = TmuxActions::new(ContextRunner(b"0\n".to_vec()), codex.clone());
    let mut host = LoggedPopup::new(FakePopup { log: Vec::new() });
    let panes = vec![pane("%1", "title")];
    let next = handle_action(
        action,
        state,
        &panes,
        None,
        None,
        &context(),
        &mut services,
        &codex,
        &mut host,
    );
    (next, host.inner().log.clone())
}

#[test]
fn a_closed_pane_is_refreshed() {
    let mut state = PopupState::new();
    let before = state.minimum_refresh_generation;
    let (next, log) = act(Action::Close(PaneId::new("%1").unwrap()), &mut state);
    match next.ok().unwrap() {
        Next::Stay(updates) => {
            assert!(updates.iter().any(|update| matches!(update, UiUpdate::PaneClosed(_))));
        }
        Next::Leave => panic!("the popup stays open"),
    }
    assert_eq!(state.minimum_refresh_generation, before + 1);
    assert!(log.contains(&format!("refresh {}", before + 1)));
}

#[test]
fn turning_naming_off_shuts_the_daemon_down() {
    let mut state = PopupState::new();
    let (next, log) = act(Action::PersistSmartNaming(false), &mut state);
    assert!(next.is_ok());
    assert!(log.contains(&"naming false".to_owned()));
    assert!(log.contains(&"shutdown".to_owned()));
    assert!(state.shutdown_pending);
    assert!(state.shutdown_replied(ShutdownReply::Waiting).is_none());
    assert!(state.shutdown_pending);
    let _ = state.shutdown_replied(ShutdownReply::Stopped);
    assert!(!state.shutdown_pending);
}

#[test]
fn turning_naming_on_starts_the_daemon() {
    let mut state = PopupState::new();
    let (_, log) = act(Action::PersistSmartNaming(true), &mut state);
    assert_eq!(log, vec!["naming true".to_owned(), "ensure".to_owned()]);
}

#[test]
fn quitting_leaves_the_popup() {
    let mut state = PopupState::new();
    let (next, _) = act(Action::Quit, &mut state);
    assert!(matches!(next.ok().unwrap(), Next::Leave));
}

#[test]
fn a_theme_is_saved() {
    let mut state = PopupState::new();
    let (_, log) = act(Action::PersistTheme(ThemeId::EmberOrange), &mut state);
    assert_eq!(log, vec!["theme ember-orange".to_owned()]);
}

// ---------------------------------------------------------------------------
// The search path
// ---------------------------------------------------------------------------

struct Shelf {
    file: &'static str,
    canonical: Result<UnixPath, String>,
}

impl SearchHost for Shelf {
    fn directories(&mut self) -> Vec<UnixPath> {
        vec![UnixPath::new("/bin"), UnixPath::new("/opt/bin"), UnixPath::new("/usr/bin")]
    }

    fn is_file(&mut self, path: &UnixPath) -> bool {
        path.display() == self.file || path.display() == "/usr/bin/codex"
    }

    fn canonical(&mut self, path: &UnixPath) -> Result<UnixPath, String> {
        assert_eq!(path.display(), self.file);
        self.canonical.clone()
    }
}

#[test]
fn the_first_codex_on_the_search_path_is_taken() {
    let found = Shelf { file: "/opt/bin/codex", canonical: Ok(UnixPath::new("/opt/codex/2/codex")) };
    assert_eq!(
        discover_codex(&mut LoggedSearch::new(found)).unwrap(),
        UnixPath::new("/opt/codex/2/codex")
    );
    let broken = Shelf { file: "/bin/codex", canonical: Err("loop".to_owned()) };
    assert_eq!(
        discover_codex(&mut LoggedSearch::new(broken)).unwrap_err().to_text(),
        "filesystem operation failed for /bin/codex: loop"
    );
}

struct EmptyShelf;

impl SearchHost for EmptyShelf {
    fn directories(&mut self) -> Vec<UnixPath> {
        vec![UnixPath::new("/bin")]
    }

    fn is_file(&mut self, _path: &UnixPath) -> bool {
        false
    }

    fn canonical(&mut self, path: &UnixPath) -> Result<UnixPath, String> {
        Ok(path.clone())
    }
}

#[test]
fn a_missing_codex_is_reported() {
    assert_eq!(
        discover_codex(&mut LoggedSearch::new(EmptyShelf)).unwrap_err().to_text(),
        "invalid Codex executable: pass --codex /absolute/path or place codex on PATH"
    );
}

#[test]
fn names_without_proof_are_parted_from_the_others() {
    let stable = NamedPane {
        pane: PaneId::new("%1").unwrap(),
        name: generated("aaaaaaaa-aaaa-aaaa-aaaa-aaaaaaaaaaaa", true),
    };
    let volatile = NamedPane {
        pane: PaneId::new("%2").unwrap(),
        name: generated("bbbbbbbb-bbbb-bbbb-bbbb-bbbbbbbbbbbb", false),
    };
    let owned = OwnedTmuxNames::new(ContextRunner(Vec::new()));
    let mut desk = NamingDesk::new(owned, ThreadVerifier::<NoHost>::new(None), FakeExpiry::default());
    let (verified, refused) =
        verify_volatile_generated_names(vec![stable, volatile], &Vec::new(), &mut desk);
    assert_eq!(verified.len(), 1);
    assert_eq!(verified[0].pane.as_str(), "%1");
    assert_eq!(refused.len(), 1);
    assert_eq!(refused[0].pane.as_str(), "%2");
}
