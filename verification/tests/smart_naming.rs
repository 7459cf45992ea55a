//! Finding conversations and naming them.

use std::cell::{Cell, RefCell};

use codex_mux::domain::{Pane, PaneId, SessionId};
use codex_mux::error::MuxError;
use codex_mux::json::{empty_object, number, put_member, read_json, singleton, text, Json};
use codex_mux::path::UnixPath;
use codex_mux::smart_naming::conversation::{
    completed_output, AppServerNamer, AppServerSession, NamingConversation,
};
use codex_mux::smart_naming::descriptors::{
    descriptor_socket, descriptor_thread, fd_info, owns_control_socket, parse_octal, socket_inode,
    FdInfo, OpenedFile, RolloutDescriptor, ServerFacts, SocketDescriptor, SocketFacts,
};
use codex_mux::smart_naming::event_log::{LogFacts, LogFiles, LoggedLog};
use codex_mux::smart_naming::diagnostics::{
    event_line, is_known_code, latest_event, rotates, safe_diagnostics_metadata,
    NamingDiagnostics, NAMING_LOG_MAX_BYTES,
};
use codex_mux::smart_naming::history::{
    bounded_cursor, read_item_page, read_thread_page, read_turn_page, take_history_request,
    thread_list_params,
};
use codex_mux::smart_naming::lane::{
    drain_commands, transcript_fingerprint, wait_for_stop, wait_for_stop_ignoring_wakes,
    CommandSignal, ConversationNamer, CooldownStep, DiscoveryPhase, LaneHost, NamingCommand,
    PublishedName, WaitEnd,
};
use codex_mux::smart_naming::lanes::{
    lane_count, lane_for, needs_discovery, start_if_enabled, targets_of_lane, DiscoveryCache,
};
use codex_mux::smart_naming::messages::{
    app_server_command, frame_is_fatal, is_wanted, on_arrival, read_app_server_message,
    request_message, response_result, retain_pending, should_retain, take_pending, Arrival,
    FrameRead, Message, Waited, Wanted,
};
use codex_mux::smart_naming::process_store::{
    ProcEntry, ProcessHost, ProcessRolloutStore,
};
use codex_mux::smart_naming::processes::{
    descends_from, process_stat_identity, LiveProcesses, ProcessEntry, ProcessScanBudget,
};
use codex_mux::smart_naming::rollout::{
    read_rollout_transcript, rollout_identity_matches, rollout_is_root_identity,
    rollout_thread_id, transcript_start, validate_rollout_directory, validate_rollout_file,
    EntryFacts,
};
use codex_mux::smart_naming::rollout_store::{EntryKind, RolloutFiles, RolloutStore, TreeEntry};
use codex_mux::smart_naming::shell_snapshot::{
    process_identity_environment, shell_snapshot_literal, snapshot_thread_id, EnvironmentHost,
    ProcessEnvironmentStore, ShellSnapshotStore, SnapshotFiles,
};
use codex_mux::smart_naming::netlink_log::LoggedNetlink;
use codex_mux::smart_naming::sockets::{
    socket_request, unix_socket_diagnostics, ByteOrder, NetlinkSource, UnixSocketDiagnostics,
};
use codex_mux::smart_naming::target::{
    naming_is_due, NamingTarget, NAMING_RETRY_SECONDS,
};
use codex_mux::smart_naming::thread::{
    looks_like_thread_id, thread_hint, thread_marker_matches_title,
};
use codex_mux::smart_naming::title::validate_name;
use codex_mux::smart_naming::transcript::{RecentTranscript, MAX_CONVERSATION_BYTES};
use codex_mux::smart_naming::worker::{
    group_targets, AttemptOutcome, CycleEnd, GroupEnd, Intervals, NamingLane,
};

const THREAD: &str = "01a01001-2dbb-74e2-86ab-996b31234567";
const OTHER: &str = "01a01001-2dbb-74e2-86ab-996b37654321";

fn pane(title: &str) -> Pane {
    Pane {
        id: PaneId::new("%4242").unwrap(),
        session_id: SessionId::new("$1").unwrap(),
        title: Some(title.to_owned()),
        generated_title: None,
        generated_thread_id: None,
        generated_source_stable: false,
        generated_at_unix: None,
        immediate_naming: false,
        manual_name: false,
        manual_name_source: None,
        manual_name_pid: None,
        manual_name_pid_raw: String::new(),
        manual_name_session: None,
        manual_name_session_raw: String::new(),
        unpin_waiting: false,
        unpin_waiting_title: None,
        unpin_waiting_pid: None,
        unpin_waiting_session: None,
        auto_name_status: None,
        auto_name_started_at_unix_nanos: None,
        auto_name_token: None,
        pane_pid: 10,
        current_path: UnixPath::new("/work/project"),
    }
}

#[test]
fn transcript_budget_retains_recent_messages_in_chronological_order() {
    let mut chronological = RecentTranscript::default();
    chronological.push("User", &"old-one ".repeat(MAX_CONVERSATION_BYTES));
    chronological.push("Assistant", &"old-two ".repeat(MAX_CONVERSATION_BYTES));
    chronological.push("User", &format!("recent question {}", "q".repeat(4_000)));
    chronological.push("Assistant", &format!("recent answer {}", "a".repeat(4_000)));
    chronological.push("User", &format!("recent followup {}", "f".repeat(4_000)));
    let rendered = chronological.render();
    assert!(!rendered.contains("old-one"));
    assert!(!rendered.contains("old-two"));
    assert!(rendered.find("recent question") < rendered.find("recent answer"));

    let mut newest_first = RecentTranscript::default();
    newest_first.push_newest_first("Assistant", &format!("newest answer {}", "a".repeat(4_000)));
    newest_first.push_newest_first("User", &format!("newest question {}", "q".repeat(4_000)));
    newest_first.push_newest_first(
        "Assistant",
        &format!("older answer {}", "o".repeat(MAX_CONVERSATION_BYTES)),
    );
    let rendered = newest_first.render_reversed();
    assert!(!rendered.contains("older answer"));
    assert!(rendered.find("newest question") < rendered.find("newest answer"));
}

#[test]
fn a_row_of_messages_leaves_its_longest_end() {
    let mut transcript = RecentTranscript::new();
    transcript.push("User", &"a".repeat(3_000));
    transcript.push("Assistant", "   ");
    transcript.push("Assistant", &"b".repeat(4_000));
    transcript.push("User", &"c".repeat(8_000));
    let b = format!("Assistant: {}\n", "b".repeat(4_000));
    let c = format!("User: {}\n", "c".repeat(6 * 1024 - 7));
    assert_eq!(c.len(), 6 * 1024);
    assert_eq!(transcript.render(), format!("{b}{c}"));
    transcript.push("User", &"\u{e9}".repeat(1_000));
    let d = format!("User: {}\n", "\u{e9}".repeat(1_000));
    assert_eq!(transcript.render(), format!("{b}{c}{d}"));
    transcript.push("User", &"\u{e9}".repeat(4_000));
    let e = format!("User: {}\n", "\u{e9}".repeat(3_068));
    assert_eq!(transcript.render(), format!("{d}{e}"));
}

// ---------------------------------------------------------------------------
// Shell snapshots
// ---------------------------------------------------------------------------

struct FakeSnapshots {
    files: Vec<(String, u32, Vec<String>)>,
}

fn facts(directory: bool, mode: u32) -> EntryFacts {
    EntryFacts {
        is_file: !directory,
        is_directory: directory,
        owner: 5,
        links: 1,
        mode,
        size: 100,
    }
}

impl SnapshotFiles for FakeSnapshots {
    fn user(&mut self) -> u32 {
        5
    }

    fn started(&mut self, _pid: u32) -> Result<u64, MuxError> {
        Ok(1000)
    }

    fn open_root(&mut self, _root: &UnixPath) -> Result<Option<EntryFacts>, MuxError> {
        Ok(Some(facts(true, 0o700)))
    }

    fn entries(&mut self, _root: &UnixPath) -> Result<Vec<Result<TreeEntry, MuxError>>, MuxError> {
        Ok(self
            .files
            .iter()
            .map(|file| {
                Ok(TreeEntry { name: file.0.clone().into_bytes(), kind: EntryKind::File })
            })
            .collect())
    }

    fn open_file(&mut self, name: &Vec<u8>) -> Result<(EntryFacts, i64), MuxError> {
        let file = self.files.iter().find(|file| file.0.as_bytes() == name.as_slice()).unwrap();
        Ok((facts(false, file.1), 2000))
    }

    fn lines(&mut self, name: &Vec<u8>) -> Result<Vec<String>, MuxError> {
        let file = self.files.iter().find(|file| file.0.as_bytes() == name.as_slice()).unwrap();
        Ok(file.2.clone())
    }
}

fn snapshot(thread: &str, mode: u32) -> (String, u32, Vec<String>) {
    (
        format!("{thread}.123.sh"),
        mode,
        vec!["export OTHER='private'".to_owned(), "export TMUX_PANE='%4242'".to_owned()],
    )
}

fn snapshots(files: Vec<(String, u32, Vec<String>)>) -> ShellSnapshotStore<FakeSnapshots> {
    ShellSnapshotStore::at(FakeSnapshots { files }, UnixPath::new("/snapshots"))
}

#[test]
fn shell_snapshot_resolves_arbitrary_title_to_exact_thread() {
    let mut store = snapshots(vec![snapshot(THREAD, 0o600)]);
    let pane = pane("c");
    assert_eq!(store.resolve(&pane).unwrap().as_deref(), Some(THREAD));
    let target =
        NamingTarget::from_verified_thread(&pane, store.resolve(&pane).unwrap().unwrap()).unwrap();
    assert_eq!(target.thread_hint, THREAD);
}

#[test]
fn shell_snapshot_rejects_ambiguous_or_untrusted_evidence() {
    let mut store = snapshots(vec![snapshot(THREAD, 0o600), snapshot(OTHER, 0o600)]);
    assert!(store.resolve(&pane("c")).is_err());
    let mut store = snapshots(vec![snapshot(THREAD, 0o666)]);
    assert_eq!(store.resolve(&pane("c")).unwrap(), None);
}

#[test]
fn snapshot_files_name_their_thread() {
    assert_eq!(
        snapshot_thread_id(format!("{THREAD}.123.sh").as_bytes()),
        Some(THREAD.to_owned())
    );
    assert_eq!(snapshot_thread_id(b"else.123.sh"), None);
    assert_eq!(shell_snapshot_literal(" '%42' "), Some("%42".to_owned()));
    assert_eq!(shell_snapshot_literal("%42"), Some("%42".to_owned()));
    assert_eq!(shell_snapshot_literal("'it'\\''s'"), None);
    assert_eq!(shell_snapshot_literal("'open"), None);
}

// ---------------------------------------------------------------------------
// Environments
// ---------------------------------------------------------------------------

struct FakeEnvironments {
    processes: Vec<(u32, u32, Vec<u8>)>,
}

fn stat(pid: u32, parent: u32) -> String {
    format!("{pid} (sleep) S {parent} 1 1 1 1 0 0 0 0 0 0 0 0 0 0 0 0 0 {pid}")
}

impl LiveProcesses for FakeEnvironments {
    fn identity(&mut self, pid: u32) -> Option<(u32, u64)> {
        self.processes.iter().find(|p| p.0 == pid).map(|p| (p.1, u64::from(p.0)))
    }
}

impl EnvironmentHost for FakeEnvironments {
    fn process_entries(&mut self) -> Result<Vec<ProcEntry>, MuxError> {
        Ok(self
            .processes
            .iter()
            .map(|p| ProcEntry {
                name: p.0.to_string().into_bytes(),
                stat: Some(stat(p.0, p.1)),
            })
            .collect())
    }

    fn environment(&mut self, pid: u32) -> Result<Option<Vec<u8>>, MuxError> {
        Ok(self.processes.iter().find(|p| p.0 == pid).map(|p| p.2.clone()))
    }
}

fn environment(thread: &str) -> Vec<u8> {
    format!("TMUX_PANE=%4242\0CODEX_SESSION_ID={thread}\0").into_bytes()
}

#[test]
fn descendant_environment_is_only_an_untrusted_identity_claim() {
    let mut store = ProcessEnvironmentStore::new(FakeEnvironments {
        processes: vec![(10, 1, Vec::new()), (20, 10, environment(THREAD))],
    });
    let pane = pane("c");
    assert_eq!(store.resolve(&pane).unwrap().as_deref(), Some(THREAD));
    let mut trusted = ProcessRolloutStore::at(
        fake_host(Vec::new()),
        vec![(1, 2)],
        UnixPath::new("/nonexistent-codex-mux-rollouts"),
    );
    assert_eq!(trusted.resolve(&pane).unwrap(), None);
    assert!(NamingTarget::from_pane(&pane).is_none());
}

#[test]
fn descendant_environment_fails_closed_on_conflicting_sessions() {
    let mut store = ProcessEnvironmentStore::new(FakeEnvironments {
        processes: vec![
            (10, 1, Vec::new()),
            (20, 10, environment(THREAD)),
            (30, 10, environment(OTHER)),
        ],
    });
    assert!(store.resolve(&pane("c")).is_err());
    assert_eq!(
        process_identity_environment(&environment(THREAD)),
        Some(("%4242".to_owned(), THREAD.to_owned()))
    );
    assert_eq!(process_identity_environment(b"TMUX_PANE=%4242\0"), None);
}

// ---------------------------------------------------------------------------
// Rollouts of processes
// ---------------------------------------------------------------------------

struct FakeHost {
    rollouts: Vec<RolloutDescriptor>,
    cancelled: bool,
}

fn fake_host(rollouts: Vec<RolloutDescriptor>) -> FakeHost {
    FakeHost { rollouts, cancelled: false }
}

impl LiveProcesses for FakeHost {
    fn identity(&mut self, pid: u32) -> Option<(u32, u64)> {
        match pid {
            10 => Some((1, 10)),
            20 => Some((10, 20)),
            _ => None,
        }
    }
}

impl ProcessHost for FakeHost {
    fn is_cancelled(&mut self) -> bool {
        self.cancelled
    }

    fn user(&mut self) -> u32 {
        5
    }

    fn executable(&mut self, pid: u32) -> Option<(u64, u64)> {
        if pid == 20 {
            Some((1, 2))
        } else {
            Some((1, 1))
        }
    }

    fn socket_descriptors(&mut self, _pid: u32) -> Result<Vec<SocketDescriptor>, MuxError> {
        Ok(Vec::new())
    }

    fn descriptor_targets(&mut self, _pid: u32) -> Option<Vec<Option<Vec<u8>>>> {
        Some(Vec::new())
    }

    fn rollout_descriptors(
        &mut self,
        pid: u32,
        _root: &UnixPath,
    ) -> Result<Vec<RolloutDescriptor>, MuxError> {
        if pid == 20 {
            Ok(self.rollouts.iter().map(copy_descriptor).collect())
        } else {
            Ok(Vec::new())
        }
    }

    fn server(&mut self, _pid: u32) -> ServerFacts {
        ServerFacts { executable: None, file: None, running: None, command: None }
    }

    fn socket(&mut self, _path: &UnixPath) -> Option<SocketFacts> {
        None
    }

    fn directories(&mut self, _paths: &Vec<UnixPath>) -> Vec<Option<EntryFacts>> {
        Vec::new()
    }

    fn process_entries(&mut self) -> Result<Vec<ProcEntry>, MuxError> {
        Ok(vec![
            ProcEntry { name: b"10".to_vec(), stat: Some(stat(10, 1)) },
            ProcEntry { name: b"20".to_vec(), stat: Some(stat(20, 10)) },
            ProcEntry { name: b"self".to_vec(), stat: None },
        ])
    }

    fn unix_sockets(&mut self) -> Result<UnixSocketDiagnostics, MuxError> {
        Ok(UnixSocketDiagnostics::new())
    }

    fn unix_list(&mut self) -> Result<Vec<u8>, MuxError> {
        Ok(Vec::new())
    }
}

fn copy_descriptor(d: &RolloutDescriptor) -> RolloutDescriptor {
    RolloutDescriptor {
        before: d.before.as_ref().map(|i| FdInfo { flags: i.flags, ino: i.ino }),
        file: d.file.as_ref().map(|f| OpenedFile {
            ino: f.ino,
            actual: f.actual.clone(),
            facts: facts(false, f.facts.mode),
            start: f.start.clone(),
        }),
        after: d.after.as_ref().map(|i| FdInfo { flags: i.flags, ino: i.ino }),
    }
}

fn rollout_name(thread: &str) -> String {
    format!("rollout-2026-08-21T00-00-00-{thread}.jsonl")
}

fn session_meta(thread: &str) -> Vec<u8> {
    format!(
        "{{\"type\":\"session_meta\",\"payload\":{{\"id\":\"{thread}\",\"source\":\"cli\"}}}}\n"
    )
    .into_bytes()
}

fn descriptor(flags: u32) -> RolloutDescriptor {
    RolloutDescriptor {
        before: Some(FdInfo { flags, ino: 7 }),
        file: Some(OpenedFile {
            ino: Some(7),
            actual: Some(UnixPath::new(&format!("/rollouts/{}", rollout_name(THREAD)))),
            facts: facts(false, 0o600),
            start: session_meta(THREAD),
        }),
        after: Some(FdInfo { flags, ino: 7 }),
    }
}

/// Opened for reading and appending, and not passed on to other programs.
const RECORDING: u32 = 0o2002002;

#[test]
fn exact_descendant_rollout_fd_resolves_only_the_root_thread() {
    let mut store = ProcessRolloutStore::at(
        fake_host(vec![descriptor(RECORDING)]),
        vec![(1, 2)],
        UnixPath::new("/rollouts"),
    );
    assert_eq!(store.resolve(&pane("c")).unwrap().as_deref(), Some(THREAD));

    let mut inherited = ProcessRolloutStore::at(
        fake_host(vec![descriptor(0o2002)]),
        vec![(1, 2)],
        UnixPath::new("/rollouts"),
    );
    assert_eq!(inherited.resolve(&pane("c")).unwrap(), None);

    let mut cancelled = ProcessRolloutStore::at(
        FakeHost { rollouts: Vec::new(), cancelled: true },
        vec![(1, 2)],
        UnixPath::new("/rollouts"),
    );
    assert!(matches!(cancelled.resolve(&pane("c")), Err(MuxError::Cancelled)));
}

#[test]
fn a_descriptor_names_a_thread_only_of_a_root_rollout() {
    let root = UnixPath::new("/rollouts");
    assert_eq!(
        descriptor_thread(&descriptor(RECORDING), &root, 5).unwrap(),
        Some(THREAD.to_owned())
    );
    assert_eq!(
        descriptor_thread(&descriptor(RECORDING), &UnixPath::new("/else"), 5).unwrap(),
        None
    );
}

#[test]
fn descriptors_and_sockets_are_read() {
    assert_eq!(parse_octal("2002002"), Some(RECORDING));
    assert_eq!(parse_octal("8"), None);
    let info = fd_info("pos:\t0\nflags:\t02000002\nmnt_id:\t9\nino:\t77\n").unwrap();
    assert_eq!(info.flags, 0o2000002);
    assert_eq!(info.ino, 77);
    assert!(fd_info("pos:\t0\n").is_none());
    assert_eq!(socket_inode("socket:[4242]"), Some(4242));
    assert_eq!(socket_inode("pipe:[4242]"), None);
    let socket = SocketDescriptor {
        before: Some(FdInfo { flags: 0o2000002, ino: 4242 }),
        target: Some(b"socket:[4242]".to_vec()),
        after: Some(FdInfo { flags: 0o2000002, ino: 4242 }),
    };
    assert_eq!(descriptor_socket(&socket), Some(4242));
    let list = "Num       RefCount Protocol Flags    Type St Inode Path\n\
                0000000000000000: 00000002 00000000 00010000 0001 01 99 /home/me/control.sock\n\
                0000000000000000: 00000003 00000000 00000000 0001 03 55 /home/me/control.sock\n";
    assert!(owns_control_socket(list, &UnixPath::new("/home/me/control.sock"), &vec![99, 55], 55));
    assert!(!owns_control_socket(list, &UnixPath::new("/home/me/control.sock"), &vec![55], 55));
}

#[test]
fn process_tables_follow_parents() {
    assert_eq!(process_stat_identity(&stat(20, 10)).unwrap(), (10, 20));
    assert!(process_stat_identity("broken").is_err());
    let entry = |pid: u32, parent: u32| ProcessEntry { pid, parent, started: 1 };
    let table = vec![entry(10, 1), entry(20, 10), entry(30, 20)];
    assert!(descends_from(30, 10, &table));
    assert!(descends_from(10, 10, &table));
    assert!(!descends_from(10, 30, &table));
    let mut budget = ProcessScanBudget::new();
    assert!(budget.fd(false).is_ok());
    assert!(matches!(budget.fd(true), Err(MuxError::Cancelled)));
    assert!(budget.bytes(false, 33 * 1024 * 1024).is_err());
}

// ---------------------------------------------------------------------------
// Netlink
// ---------------------------------------------------------------------------

struct FakeNetlink {
    datagrams: Vec<Vec<u8>>,
}

impl NetlinkSource for FakeNetlink {
    fn is_cancelled(&mut self) -> bool {
        false
    }

    fn receive(&mut self) -> Result<Vec<u8>, MuxError> {
        Ok(self.datagrams.remove(0))
    }
}

fn attribute(kind: u16, value: &[u8]) -> Vec<u8> {
    let mut bytes = ((value.len() + 4) as u16).to_le_bytes().to_vec();
    bytes.extend_from_slice(&kind.to_le_bytes());
    bytes.extend_from_slice(value);
    while bytes.len() % 4 != 0 {
        bytes.push(0);
    }
    bytes
}

fn netlink_message(kind: u16, body: &[u8]) -> Vec<u8> {
    let mut bytes = ((body.len() + 16) as u32).to_le_bytes().to_vec();
    bytes.extend_from_slice(&kind.to_le_bytes());
    bytes.extend_from_slice(&[0; 10]);
    bytes.extend_from_slice(body);
    while bytes.len() % 4 != 0 {
        bytes.push(0);
    }
    bytes
}

#[test]
fn unix_sockets_are_listed_with_names_and_peers() {
    let mut body = vec![1, 1, 1, 0];
    body.extend_from_slice(&4242u32.to_le_bytes());
    body.extend_from_slice(&[0; 8]);
    body.extend_from_slice(&attribute(0, b"/run/control\0"));
    body.extend_from_slice(&attribute(2, &55u32.to_le_bytes()));
    let mut first = netlink_message(20, &body);
    first.extend_from_slice(&netlink_message(3, &[0; 4]));
    let mut source = LoggedNetlink::new(FakeNetlink { datagrams: vec![first] });
    let listed = unix_socket_diagnostics(&mut source, ByteOrder::Little);
    let listed = listed.ok().unwrap();
    assert_eq!(listed.peers.get(&4242), Some(&55));
    assert!(listed.names.get(&4242).unwrap().starts_with(b"/run/control"));

    let mut failing =
        LoggedNetlink::new(FakeNetlink { datagrams: vec![netlink_message(2, &[1, 0, 0, 0])] });
    assert!(unix_socket_diagnostics(&mut failing, ByteOrder::Little).is_err());
    assert_eq!(socket_request(ByteOrder::Little).len(), 40);
    assert_eq!(socket_request(ByteOrder::Little)[0..6], [40, 0, 0, 0, 20, 0]);
}

// ---------------------------------------------------------------------------
// Rollout files
// ---------------------------------------------------------------------------

#[test]
fn rollouts_name_their_thread() {
    assert_eq!(
        rollout_thread_id(&UnixPath::new(&format!("/x/{}", rollout_name(THREAD)))),
        Some(THREAD.to_owned())
    );
    assert_eq!(rollout_thread_id(&UnixPath::new("/x/rollout-else.jsonl")), None);
    assert!(rollout_identity_matches(&session_meta(THREAD), THREAD).unwrap());
    assert!(!rollout_identity_matches(&session_meta(THREAD), OTHER).unwrap());
    assert!(rollout_is_root_identity(&session_meta(THREAD), THREAD).unwrap());
    let child = format!(
        "{{\"type\":\"session_meta\",\"payload\":{{\"id\":\"{THREAD}\",\"source\":{{\"subagent\":1}}}}}}\n"
    );
    assert!(!rollout_is_root_identity(child.as_bytes(), THREAD).unwrap());
}

#[test]
fn rollouts_are_private() {
    assert!(validate_rollout_file(facts(false, 0o600), 5).is_ok());
    assert!(validate_rollout_file(facts(false, 0o622), 5).is_err());
    assert!(validate_rollout_file(facts(false, 0o600), 6).is_err());
    assert!(validate_rollout_directory(facts(true, 0o700), 5).is_ok());
    assert!(validate_rollout_directory(facts(true, 0o722), 5).is_err());
    assert!(validate_rollout_directory(facts(false, 0o700), 5).is_err());
    assert_eq!(transcript_start(10), 0);
    assert_eq!(transcript_start(16 * 1024 * 1024 + 5), 5);
}

#[test]
fn a_rollout_is_read_as_a_transcript() {
    let mut bytes = session_meta(THREAD);
    bytes.extend_from_slice(
        b"{\"type\":\"event_msg\",\"payload\":{\"type\":\"user_message\",\"message\":\"a question\"}}\n",
    );
    bytes.extend_from_slice(
        b"{\"type\":\"response_item\",\"payload\":{\"type\":\"message\",\"role\":\"assistant\",\"content\":[{\"type\":\"output_text\",\"text\":\"an answer\"}]}}\n",
    );
    let transcript = read_rollout_transcript(&bytes, false);
    assert!(transcript.find("a question").unwrap() < transcript.find("an answer").unwrap());
    let mut cut = b"cut off}\n".to_vec();
    cut.extend_from_slice(&bytes);
    assert_eq!(read_rollout_transcript(&cut, true), transcript);
}

struct FakeRollouts {
    cancelled: bool,
    opened: Vec<String>,
    bytes: Vec<u8>,
}

impl RolloutFiles for FakeRollouts {
    fn is_cancelled(&mut self) -> bool {
        self.cancelled
    }

    fn user(&mut self) -> u32 {
        5
    }

    fn open_root(&mut self, _root: &UnixPath) -> Result<Option<EntryFacts>, MuxError> {
        self.opened.push("root".to_owned());
        Ok(Some(facts(true, 0o700)))
    }

    fn open_directory(&mut self, directory: &UnixPath) -> Result<EntryFacts, MuxError> {
        self.opened.push(directory.display());
        Ok(facts(true, 0o700))
    }

    fn entries(
        &mut self,
        directory: &UnixPath,
    ) -> Result<Vec<Result<TreeEntry, MuxError>>, MuxError> {
        if *directory == UnixPath::new("/rollouts") {
            Ok(vec![Ok(TreeEntry { name: b"2026".to_vec(), kind: EntryKind::Directory })])
        } else {
            Ok(vec![Ok(TreeEntry {
                name: rollout_name(THREAD).into_bytes(),
                kind: EntryKind::File,
            })])
        }
    }

    fn open_file(&mut self, file: &UnixPath) -> Result<EntryFacts, MuxError> {
        self.opened.push(file.display());
        Ok(facts(false, 0o600))
    }

    fn read(&mut self, _file: &UnixPath, from: u64, _limit: u64) -> Result<Vec<u8>, MuxError> {
        Ok(self.bytes[from as usize..].to_vec())
    }
}

fn rollouts(cancelled: bool) -> RolloutStore<FakeRollouts> {
    let mut bytes = session_meta(THREAD);
    bytes.extend_from_slice(
        b"{\"type\":\"event_msg\",\"payload\":{\"type\":\"user_message\",\"message\":\"a question\"}}\n",
    );
    RolloutStore::at(
        FakeRollouts { cancelled, opened: Vec::new(), bytes },
        UnixPath::new("/rollouts"),
    )
}

#[test]
fn cancelled_rollout_scan_stops_before_traversal() {
    let mut store = rollouts(true);
    assert!(matches!(store.resolve_prefix("01a01001"), Err(MuxError::Cancelled)));
    assert!(!store.files.inner().opened.iter().any(|name| name.contains("2026")));
}

#[test]
fn rollouts_are_found_by_prefix_and_read() {
    let mut store = rollouts(false);
    assert_eq!(store.resolve_prefix("01a01001").unwrap(), Some(THREAD.to_owned()));
    assert_eq!(store.resolve_prefix("ffffffff").unwrap(), None);
    let conversation = store.read_completed(THREAD).unwrap();
    assert_eq!(conversation.thread_id, THREAD);
    assert!(conversation.transcript.contains("a question"));
}

// ---------------------------------------------------------------------------
// Diagnostics
// ---------------------------------------------------------------------------

#[derive(Clone, Copy, PartialEq)]
enum NodeKind {
    File,
    Directory,
    Link,
    Pipe,
}

struct LogNode {
    path: UnixPath,
    kind: NodeKind,
    contents: String,
    mode: u32,
}

/// A file system in memory that opens neither links nor directories.
struct MemoryLog {
    nodes: Vec<LogNode>,
    open: Option<UnixPath>,
    seconds: u64,
}

impl MemoryLog {
    fn place(&self, path: &UnixPath) -> Option<usize> {
        self.nodes.iter().position(|node| &node.path == path)
    }

    fn facts(&self, path: &UnixPath) -> Option<LogFacts> {
        let node = &self.nodes[self.place(path)?];
        Some(LogFacts {
            is_file: node.kind == NodeKind::File,
            owner: 5,
            links: 1,
            size: node.contents.len() as u64,
        })
    }

    fn opened(&mut self, path: &UnixPath) -> Option<LogFacts> {
        let node = &self.nodes[self.place(path)?];
        if matches!(node.kind, NodeKind::Link | NodeKind::Directory) {
            return None;
        }
        self.open = Some(path.clone());
        self.facts(path)
    }

    fn node(&mut self) -> &mut LogNode {
        let place = self.place(&self.open.clone().unwrap()).unwrap();
        &mut self.nodes[place]
    }
}

impl LogFiles for MemoryLog {
    fn unix_seconds(&mut self) -> u64 {
        self.seconds += 1;
        self.seconds
    }

    fn user(&mut self) -> u32 {
        5
    }

    fn make_directories(&mut self, _path: &UnixPath) -> bool {
        true
    }

    fn entry(&mut self, path: &UnixPath) -> Option<LogFacts> {
        self.facts(path)
    }

    fn rename(&mut self, from: &UnixPath, to: &UnixPath) -> bool {
        if let Some(old) = self.place(to) {
            if self.nodes[old].kind == NodeKind::Directory {
                return false;
            }
            self.nodes.remove(old);
        }
        let place = self.place(from).unwrap();
        self.nodes[place].path = to.clone();
        true
    }

    fn open_to_append(&mut self, path: &UnixPath, mode: u32) -> Option<LogFacts> {
        if self.place(path).is_none() {
            self.nodes.push(LogNode {
                path: path.clone(),
                kind: NodeKind::File,
                contents: String::new(),
                mode,
            });
        }
        self.opened(path)
    }

    fn set_mode(&mut self, mode: u32) {
        self.node().mode = mode;
    }

    fn append(&mut self, line: &String) {
        self.node().contents.push_str(line);
    }

    fn open_to_read(&mut self, path: &UnixPath) -> Option<LogFacts> {
        self.opened(path)
    }

    fn read(&mut self, _limit: u64) -> Option<String> {
        Some(self.node().contents.clone())
    }
}

fn memory_log(kind: NodeKind, contents: &str) -> LoggedLog<MemoryLog> {
    let mut nodes = vec![LogNode {
        path: UnixPath::new("/state/smart-naming.log"),
        kind,
        contents: contents.to_owned(),
        mode: 0o644,
    }];
    if contents.is_empty() {
        nodes.clear();
    }
    LoggedLog::new(MemoryLog { nodes, open: None, seconds: 99 })
}

#[test]
fn diagnostics_are_private_bounded_and_contain_only_reason_codes() {
    let log = NamingDiagnostics::at(UnixPath::new("/state/smart-naming.log"));
    let mut files = memory_log(NodeKind::File, "");
    log.event("provider_ready", &mut files);
    log.event("thread_state_db_miss", &mut files);
    assert_eq!(
        log.latest(&mut files).unwrap().split_whitespace().last(),
        Some("thread_state_db_miss")
    );
    assert_eq!(files.inner().nodes[0].mode, 0o600);
    assert_eq!(files.inner().nodes[0].contents, "100 provider_ready\n101 thread_state_db_miss\n");
    log.event("01a01001-2dbb-74e2-86ab-996b31234567", &mut files);
    assert!(!files.inner().nodes[0].contents.contains("01a01001-2dbb-74e2-86ab-996b31234567"));

    let full = "x".repeat(NAMING_LOG_MAX_BYTES as usize);
    let rotated = log.path().with_extension("log.1");
    let mut files = memory_log(NodeKind::File, &full);
    log.event("provider_ready", &mut files);
    assert!(files.inner().place(&rotated).is_some());
    let place = files.inner().place(log.path()).unwrap();
    assert!(files.inner().nodes[place].contents.len() < 100);

    let mut disk = MemoryLog { nodes: Vec::new(), open: None, seconds: 99 };
    for (path, kind, contents) in [
        (log.path().clone(), NodeKind::File, full.clone()),
        (rotated, NodeKind::Directory, String::new()),
    ] {
        disk.nodes.push(LogNode { path, kind, contents, mode: 0o600 });
    }
    let mut files = LoggedLog::new(disk);
    log.event("provider_ready", &mut files);
    assert_eq!(files.inner().nodes[0].contents.len() as u64, NAMING_LOG_MAX_BYTES);

    let mut files = memory_log(NodeKind::Link, "sensitive-last-line\n");
    assert_eq!(log.latest(&mut files), None);
    log.event("provider_ready", &mut files);
    assert_eq!(files.inner().nodes[0].contents, "sensitive-last-line\n");

    let mut files = memory_log(NodeKind::Pipe, "100 provider_ready\n");
    log.event("provider_ready", &mut files);
    assert_eq!(files.inner().nodes[0].contents, "100 provider_ready\n");
    assert_eq!(log.latest(&mut files), None);

    let mut files = memory_log(NodeKind::File, "123 provider_ready\x1b[2J\n");
    assert_eq!(log.latest(&mut files), None);
    let mut files = memory_log(NodeKind::File, &format!("{full}\n100 provider_ready\n"));
    assert_eq!(log.latest(&mut files), None);
}

#[test]
fn events_and_log_places_are_read() {
    let mut contents = event_line(122, "provider_ready").unwrap();
    contents.push_str(&event_line(123, "thread_state_db_miss").unwrap());
    assert_eq!(
        latest_event(&contents).unwrap().split_whitespace().last(),
        Some("thread_state_db_miss")
    );
    assert!(!contents.contains(THREAD));
    assert!(event_line(123, THREAD).is_none());
    assert!(!is_known_code("sensitive-last-line"));
    assert!(rotates(NAMING_LOG_MAX_BYTES));
    assert!(!rotates(1));
    assert!(safe_diagnostics_metadata(true, 5, 5, 1));
    assert!(!safe_diagnostics_metadata(false, 5, 5, 1));
    assert!(!safe_diagnostics_metadata(true, 6, 5, 1));
    assert!(!safe_diagnostics_metadata(true, 5, 5, 2));
    assert_eq!(latest_event("sensitive-last-line\n"), None);
    assert_eq!(latest_event("123 provider_ready\x1b[2J\n"), None);
    let log = NamingDiagnostics::discover(&Some(UnixPath::new("/state")), &None).unwrap();
    assert!(log.path().starts_with(&UnixPath::new("/state")));
    assert!(NamingDiagnostics::discover(&None, &None).is_err());
}

// ---------------------------------------------------------------------------
// Messages
// ---------------------------------------------------------------------------

#[test]
fn app_server_uses_the_configured_launch_executable() {
    let launcher = UnixPath::new("/opt/codex/bin/codex-launcher");
    let command = app_server_command(&launcher);

    assert_eq!(command.program, launcher);
    assert_eq!(command.arguments, ["app-server", "--listen", "stdio://"]);
}

fn message(value: &str) -> Message {
    match read_app_server_message(&FrameRead::Line(format!("{value}\n").into_bytes())) {
        Some(Ok(message)) => message,
        _ => panic!("not a message: {value}"),
    }
}

#[test]
fn accepts_thread_read_responses_larger_than_the_old_transport_limit() {
    let payload = "x".repeat(512 * 1024);
    let mut input = format!("{{\"id\":7,\"result\":{{\"payload\":\"{payload}\"}}}}").into_bytes();
    input.push(b'\n');

    let message = match read_app_server_message(&FrameRead::Line(input)) {
        Some(Ok(message)) => message,
        _ => panic!("a large reply is a message"),
    };
    assert!(message.value.number_is("id", 7));
    assert_eq!(
        message.value.get("result").unwrap().text_at("payload").unwrap().len(),
        512 * 1024
    );
}

#[test]
fn noisy_multi_turn_traffic_retains_only_future_consumers() {
    let mut pending = Vec::new();
    for index in 0..500 {
        let delta = message(&format!(
            "{{\"method\":\"item/agentMessage/delta\",\"params\":{{\"threadId\":\"naming\",\"delta\":{index}}}}}"
        ));
        assert!(!should_retain(&delta.value));
    }
    assert!(!should_retain(
        &message(
            "{\"id\":91,\"method\":\"item/commandExecution/requestApproval\",\"params\":{\"threadId\":\"naming\"}}"
        )
        .value
    ));
    for value in [
        "{\"id\":7,\"result\":{}}",
        "{\"method\":\"turn/completed\",\"params\":{\"threadId\":\"other\"}}",
    ] {
        let message = message(value);
        if should_retain(&message.value) {
            retain_pending(&mut pending, message).unwrap();
        }
    }
    assert_eq!(pending.len(), 2);
    pending.retain(|message| {
        message.value.get("params").and_then(|params| params.text_at("threadId")) != Some("other")
    });
    assert_eq!(pending.len(), 1);
    assert!(pending[0].value.number_is("id", 7));
}

#[test]
fn fatal_frame_marks_transport_unhealthy_before_delivery() {
    assert!(frame_is_fatal(&Err("fatal framing error".to_owned())));
    assert!(!frame_is_fatal(&Ok(message("{\"id\":7}"))));
    let read = read_app_server_message(&FrameRead::Failed("fatal framing error".to_owned()));
    assert!(frame_is_fatal(&read.unwrap()));
    assert!(read_app_server_message(&FrameRead::Closed).is_none());
    let mut pending = Vec::new();
    assert!(matches!(
        on_arrival(
            &mut pending,
            &Wanted::Reply(7),
            Arrival::Fatal("fatal framing error".to_owned()),
        ),
        Waited::Failed { .. }
    ));
}

#[test]
fn a_reply_is_taken_by_its_number() {
    let mut pending = vec![message("{\"id\":7,\"result\":{\"a\":1}}"), message("{\"id\":8}")];
    assert!(is_wanted(&Wanted::Reply(7), &pending[0].value));
    let taken = take_pending(&mut pending, &Wanted::Reply(7)).unwrap();
    assert_eq!(pending.len(), 1);
    assert!(response_result(&taken).unwrap().number_is("a", 1));
    let failed = message("{\"id\":9,\"error\":{\"message\":\"no\"}}");
    assert!(response_result(&failed).is_err());
    let request = request_message(3, "thread/list", empty_object());
    assert!(request.number_is("id", 3));
    assert!(request.text_is("method", "thread/list"));
    assert!(matches!(
        on_arrival(&mut pending, &Wanted::Reply(10), Arrival::Message(message("{\"id\":10}"))),
        Waited::Found(_)
    ));
    assert!(matches!(
        on_arrival(&mut pending, &Wanted::Reply(10), Arrival::Cancelled),
        Waited::Failed { error: MuxError::Cancelled, .. }
    ));
}

// ---------------------------------------------------------------------------
// History
// ---------------------------------------------------------------------------

fn json(value: &str) -> Json {
    read_json(value.as_bytes()).unwrap()
}

#[test]
fn pages_of_history_are_read() {
    let page = json(&format!(
        "{{\"data\":[{{\"id\":\"{THREAD}\"}}],\"nextCursor\":\"more\"}}"
    ));
    let (matched, cursor) =
        read_thread_page(&page, "01a01001-2dbb-74e2-86ab-996b3123", None, &Vec::new()).unwrap();
    assert_eq!(matched, Some(THREAD.to_owned()));
    assert_eq!(cursor, Some("more".to_owned()));
    assert!(read_thread_page(&json("{}"), "01a01001", None, &Vec::new()).is_err());
    assert!(thread_list_params(&None, true).get("useStateDbOnly").is_some());
    assert_eq!(bounded_cursor(&json("null")).unwrap(), None);
    assert_eq!(bounded_cursor(&json("\"more\"")).unwrap(), Some("more".to_owned()));
    assert!(bounded_cursor(&json("7")).is_err());
    let mut left: usize = 1;
    assert!(take_history_request(&mut left).is_ok());
    assert!(take_history_request(&mut left).is_err());
    let mut turns = Vec::new();
    let page = json("{\"data\":[{\"id\":\"t1\",\"status\":\"completed\"}],\"nextCursor\":null}");
    assert_eq!(read_turn_page(&page, &mut turns, &Vec::new()).unwrap(), None);
    assert_eq!(turns, vec!["t1".to_owned()]);
    let mut transcript = RecentTranscript::new();
    let items = json("{\"data\":[],\"nextCursor\":null}");
    assert_eq!(read_item_page(&items, &turns, &mut transcript, &Vec::new()).unwrap(), None);
    assert_eq!(transcript.len(), 0);
}

#[test]
fn json_is_read_and_built() {
    let built = put_member(
        put_member(empty_object(), "a", number(7)),
        "b",
        singleton(text("x")),
    );
    assert!(built.number_is("a", 7));
    assert_eq!(built.array_at("b").unwrap()[0].as_text(), Some("x"));
    assert!(read_json(b"{").is_err());
    assert_eq!(json("{\"a\":\"\\u0041\"}").text_at("a"), Some("A"));
}

// ---------------------------------------------------------------------------
// Threads and titles
// ---------------------------------------------------------------------------

#[test]
fn threads_are_recognized_in_titles() {
    assert!(looks_like_thread_id(THREAD));
    assert!(!looks_like_thread_id("c"));
    assert_eq!(thread_hint(THREAD), Some(THREAD.to_owned()));
    assert_eq!(thread_hint("a title"), None);
    assert!(thread_marker_matches_title(THREAD, THREAD));
    assert!(!thread_marker_matches_title(THREAD, OTHER));
}

#[test]
fn names_are_short_plain_titles() {
    assert_eq!(validate_name("  Fix the parser ").unwrap(), "Fix the parser");
    assert!(validate_name("").is_err());
    assert!(validate_name("...").is_err());
    assert!(validate_name("two\nlines").is_err());
    assert!(validate_name(&"x".repeat(49)).is_err());
    assert!(validate_name("hidden\u{202e}text").is_err());
}

// ---------------------------------------------------------------------------
// The namer
// ---------------------------------------------------------------------------

struct FakeSession {
    methods: Vec<String>,
}

impl AppServerSession for FakeSession {
    fn request(&mut self, method: &str, _params: &Json) -> Result<Json, MuxError> {
        self.methods.push(method.to_owned());
        match method {
            "thread/list" => Ok(json(&format!(
                "{{\"data\":[{{\"id\":\"{THREAD}\"}}],\"nextCursor\":null}}"
            ))),
            "thread/start" => Ok(json("{\"thread\":{\"id\":\"naming\"}}")),
            "turn/start" => Ok(json("{\"turn\":{\"id\":\"turn\"}}")),
            _ => Ok(json("{}")),
        }
    }

    fn wait_for(&mut self, method: &str, _thread_id: &str) -> Result<Json, MuxError> {
        self.methods.push(method.to_owned());
        Ok(json(
            "{\"turn\":{\"status\":\"completed\",\"items\":[{\"type\":\"agentMessage\",\"text\":\"{\\\"title\\\":\\\"Fix the parser\\\"}\"}]}}",
        ))
    }

    fn read_title(&mut self, _output: &str) -> Option<String> {
        Some("Fix the parser".to_owned())
    }

    fn log(&mut self, _diagnostics: &NamingDiagnostics, _code: &'static str) {}

    fn is_healthy(&mut self) -> bool {
        true
    }
}

#[test]
fn a_target_is_resolved_by_its_listed_thread() {
    let mut namer: AppServerNamer<FakeSession, FakeRollouts> =
        AppServerNamer::new(FakeSession { methods: Vec::new() });
    let mut target = target_created_at(0);
    target.thread_hint = "01a01001-2dbb-74e2-86ab-996b3123".to_owned();
    assert_eq!(namer.resolve_thread_id(&target).unwrap(), THREAD);
    assert_eq!(namer.session.inner().methods[0], "thread/list");
}

#[test]
fn a_silent_app_server_leaves_the_reading_to_the_rollouts() {
    let mut namer = AppServerNamer::new(FakeSession { methods: Vec::new() })
        .with_rollouts(rollouts(false));
    let conversation = namer.read_with_fallback(THREAD).unwrap();
    assert_eq!(conversation.thread_id, THREAD);
    assert!(conversation.transcript.contains("a question"));
    assert_eq!(namer.session.inner().methods[0], "thread/turns/list");

    let mut alone: AppServerNamer<FakeSession, FakeRollouts> =
        AppServerNamer::new(FakeSession { methods: Vec::new() });
    assert!(alone.read_with_fallback(THREAD).is_err());

    let mut given_up = AppServerNamer::new(FakeSession { methods: Vec::new() })
        .with_rollouts(rollouts(true));
    assert!(matches!(given_up.read_with_fallback(THREAD), Err(MuxError::Cancelled)));
}

#[test]
fn a_title_is_asked_for_and_taken_only_where_it_is_valid() {
    let mut namer: AppServerNamer<FakeSession, FakeRollouts> =
        AppServerNamer::new(FakeSession { methods: Vec::new() });
    let said = |transcript: &str| NamingConversation {
        thread_id: THREAD.to_owned(),
        transcript: transcript.to_owned(),
    };
    assert_eq!(namer.generate_name(&said("a question")).unwrap(), "Fix the parser");
    assert_eq!(namer.session.inner().methods, vec!["thread/start", "turn/start", "turn/completed"]);
    assert!(namer.generate_name(&said("  ")).is_err());
    assert_eq!(namer.session.inner().methods.len(), 3);
    let found = namer.find_thread_id("01a01001-2dbb-74e2-86ab-996b3123", true, None).unwrap();
    assert_eq!(found.as_deref(), Some(THREAD));
}

#[test]
fn a_completed_turn_shows_its_output() {
    let completed = json(
        "{\"turn\":{\"status\":\"completed\",\"items\":[{\"type\":\"agentMessage\",\"text\":\"done\"}]}}",
    );
    assert_eq!(completed_output(&completed), Some("done".to_owned()));
    assert_eq!(completed_output(&json("{}")), None);
}

// ---------------------------------------------------------------------------
// The worker
// ---------------------------------------------------------------------------

fn target_created_at(created_at_unix: u64) -> NamingTarget {
    let milliseconds = created_at_unix * 1000;
    let thread = format!(
        "{:08x}-{:04x}-7000-8000-000000000000",
        milliseconds >> 16,
        milliseconds & 0xffff
    );
    NamingTarget {
        pane_id: PaneId::new("%1").unwrap(),
        session_id: SessionId::new("$1").unwrap(),
        pane_pid: 10,
        pane_title: thread.clone(),
        stable_title: true,
        thread_hint: thread,
        cwd: UnixPath::new("/work/project"),
        generated_name: None,
        generated_at_unix: None,
        immediate_naming: false,
        auto_name_token: None,
    }
}

#[test]
fn new_titles_are_due_immediately_and_existing_titles_refresh_every_thirty_minutes() {
    let now = 1_800_000_000;
    assert!(naming_is_due(&target_created_at(now), now));

    let mut existing = target_created_at(now);
    existing.generated_name = Some("Existing title".to_owned());
    existing.generated_at_unix = Some(now - 1_799);
    assert!(!naming_is_due(&existing, now));
    existing.generated_at_unix = Some(now - 1_800);
    assert!(naming_is_due(&existing, now));
}

/// A host whose clock moves only while the lane waits.
struct FakeLane {
    now: u64,
    waits: Vec<u64>,
    cooled: Vec<u64>,
    logs: Vec<&'static str>,
    shared: Vec<(String, String)>,
    targets: RefCell<Vec<NamingTarget>>,
    revalidation_fails: Cell<bool>,
}

impl LaneHost for FakeLane {
    fn signal(&mut self) -> CommandSignal {
        CommandSignal::Quiet
    }

    fn discover(&mut self, phase: DiscoveryPhase) -> Result<Vec<NamingTarget>, MuxError> {
        if self.revalidation_fails.get() && matches!(phase, DiscoveryPhase::Revalidate) {
            return Err(MuxError::Command("final discovery failed".to_owned()));
        }
        Ok(self.targets.borrow().clone())
    }

    fn unix_seconds(&mut self) -> u64 {
        1_800_000_000
    }

    fn millis(&mut self) -> u64 {
        self.now
    }

    fn log(&mut self, code: &'static str) {
        self.logs.push(code);
    }

    fn wait(&mut self, millis: u64) -> bool {
        self.waits.push(millis);
        self.now += millis;
        false
    }

    fn cool_down(&mut self, millis: u64) {
        self.cooled.push(millis);
        self.now += millis;
    }

    fn share(&mut self, names: &Vec<PublishedName>) {
        self.shared = names
            .iter()
            .map(|name| (name.pane_id.as_str().to_owned(), name.generated.name.clone()))
            .collect();
    }
}

struct FakeNamer {
    reads: usize,
    names: usize,
    outcomes: Vec<Result<&'static str, &'static str>>,
    resolved: RefCell<Option<String>>,
    healthy: Cell<bool>,
}

impl ConversationNamer for FakeNamer {
    fn resolve(&mut self, target: &NamingTarget) -> Result<String, MuxError> {
        match &*self.resolved.borrow() {
            Some(thread) => Ok(thread.clone()),
            None => Ok(target.thread_hint.clone()),
        }
    }

    fn read(&mut self, target: &NamingTarget) -> Result<NamingConversation, MuxError> {
        let outcome = self.outcomes[self.reads.min(self.outcomes.len() - 1)];
        self.reads += 1;
        match outcome {
            Ok(transcript) => Ok(NamingConversation {
                thread_id: target.thread_hint.clone(),
                transcript: transcript.to_owned(),
            }),
            Err(message) => Err(MuxError::Command(message.to_owned())),
        }
    }

    fn name(&mut self, _conversation: &NamingConversation) -> Result<String, MuxError> {
        self.names += 1;
        Ok("Generated title".to_owned())
    }

    fn is_healthy(&mut self) -> bool {
        self.healthy.get()
    }
}

fn lane(
    outcomes: Vec<Result<&'static str, &'static str>>,
    intervals: Intervals,
) -> NamingLane<FakeNamer, FakeLane> {
    NamingLane::new(
        FakeNamer { reads: 0, names: 0, outcomes, resolved: RefCell::new(None), healthy: Cell::new(true) },
        FakeLane {
            now: 0,
            waits: Vec::new(),
            cooled: Vec::new(),
            logs: Vec::new(),
            shared: Vec::new(),
            targets: RefCell::new(vec![target_created_at(0)]),
            revalidation_fails: Cell::new(false),
        },
        intervals,
    )
}

/// When each read happened, over some cycles.
fn reads_over(lane: &mut NamingLane<FakeNamer, FakeLane>, cycles: usize) -> Vec<u64> {
    let mut at = Vec::new();
    for _ in 0..cycles {
        let before = lane.port.namer().reads;
        let now = lane.port.host().now;
        if matches!(lane.cycle(), CycleEnd::Stop) {
            break;
        }
        if lane.port.namer().reads > before {
            at.push(now);
        }
    }
    at
}

#[test]
fn unhealthy_worker_exits_after_one_cooldown() {
    let mut lane = lane(
        vec![Err("fatal transport failure")],
        Intervals { poll: 1, refresh: 5, retry: 10, pending: 10 },
    );
    lane.port.namer().healthy.set(false);
    assert!(matches!(lane.cycle(), CycleEnd::Stop));
    assert_eq!(lane.port.host().cooled, vec![10]);
}

#[test]
fn wake_does_not_shorten_an_unhealthy_provider_cooldown() {
    assert!(matches!(
        wait_for_stop_ignoring_wakes(WaitEnd::Command(NamingCommand::Wake), 100),
        CooldownStep::Wait
    ));
    assert!(matches!(
        wait_for_stop_ignoring_wakes(WaitEnd::Timeout, 0),
        CooldownStep::Expired
    ));
    assert!(matches!(
        wait_for_stop_ignoring_wakes(WaitEnd::Command(NamingCommand::Stop), 100),
        CooldownStep::Stopped
    ));
}

#[test]
fn transient_failures_wait_for_the_retry_interval() {
    assert_eq!(NAMING_RETRY_SECONDS, 60 * 60);
    let mut lane = lane(
        vec![Err("transient failure")],
        Intervals { poll: 1, refresh: 10, retry: 40, pending: 10 },
    );
    let at = reads_over(&mut lane, 100);
    assert!(at.len() >= 2);
    assert!(at[1] - at[0] >= 40);
}

#[test]
fn pending_conversations_retry_before_the_failure_interval() {
    let mut lane = lane(
        vec![Ok(""), Ok("completed chat")],
        Intervals { poll: 1, refresh: 10, retry: 40, pending: 10 },
    );
    let at = reads_over(&mut lane, 30);
    assert!(at.len() >= 2);
    assert!(at[1] - at[0] < 40);
    assert_eq!(lane.port.host().shared, vec![("%1".to_owned(), "Generated title".to_owned())]);
}

#[test]
fn trigger_discovers_a_resumed_thread_without_waiting_for_the_normal_poll() {
    assert!(matches!(
        drain_commands(&vec![NamingCommand::Wake]),
        CommandSignal::Wake
    ));
    assert!(!wait_for_stop(WaitEnd::Command(NamingCommand::Wake)));
    let mut lane = lane(
        vec![Ok("completed resumed chat")],
        Intervals { poll: 60_000, refresh: 60_000, retry: 60_000, pending: 60_000 },
    );
    lane.port.host().targets.replace(Vec::new());
    assert!(matches!(lane.cycle(), CycleEnd::Again));
    assert!(lane.port.host().shared.is_empty());
    lane.port.host().targets.replace(vec![target_created_at(0)]);
    assert!(matches!(lane.cycle(), CycleEnd::Again));
    assert!(!lane.port.host().shared.is_empty());
}

#[test]
fn successful_attempts_wait_for_the_refresh_interval() {
    let mut lane = lane(
        vec![Ok("completed chat")],
        Intervals { poll: 1, refresh: 40, retry: 2000, pending: 10 },
    );
    let at = reads_over(&mut lane, 100);
    assert!(at.len() >= 2);
    assert!(at[1] - at[0] >= 40);
}

#[test]
fn stale_resolution_waits_for_the_retry_interval() {
    let mut lane = lane(
        vec![Ok("completed chat")],
        Intervals { poll: 1, refresh: 10, retry: 40, pending: 10 },
    );
    let other = "00000000-0000-7000-8000-000000000001".to_owned();
    lane.port.namer().resolved.replace(Some(other));
    let at = reads_over(&mut lane, 100);
    assert!(at.len() >= 2);
    assert!(at[1] - at[0] >= 40);
    assert!(lane.port.host().shared.is_empty());
}

#[test]
fn final_discovery_failure_waits_for_the_retry_interval() {
    let mut lane = lane(
        vec![Ok("completed chat")],
        Intervals { poll: 1, refresh: 10, retry: 40, pending: 10 },
    );
    lane.port.host().revalidation_fails.set(true);
    let at = reads_over(&mut lane, 100);
    assert!(at.len() >= 2);
    assert!(at[1] - at[0] >= 40);
    assert!(lane.port.host().shared.is_empty());
}

#[test]
fn an_attempt_that_is_not_due_asks_nobody() {
    let mut lane = lane(
        vec![Ok("completed chat")],
        Intervals { poll: 1, refresh: 40, retry: 40, pending: 10 },
    );
    let mut named = target_created_at(0);
    named.generated_name = Some("A name".to_owned());
    named.generated_at_unix = Some(1_800_000_000);
    let end = lane.attempt(&vec![named]);
    assert!(matches!(end, (GroupEnd::Next, AttemptOutcome::Skipped)));
    assert_eq!(lane.port.namer().reads, 0);
    let end = lane.attempt(&vec![target_created_at(0)]);
    assert!(matches!(end, (GroupEnd::Next, AttemptOutcome::Published)));
    assert_eq!(lane.port.host().logs, vec!["name_published"]);
    let again = lane.attempt(&vec![target_created_at(0)]);
    assert!(matches!(again, (GroupEnd::Next, AttemptOutcome::Skipped)));
    assert_eq!(lane.port.namer().reads, 1);
}

#[test]
fn an_unchanged_conversation_is_named_once() {
    let mut lane = lane(
        vec![Ok("completed chat")],
        Intervals { poll: 1, refresh: 0, retry: 0, pending: 0 },
    );
    for _ in 0..3 {
        lane.cycle();
    }
    assert_eq!(lane.port.namer().reads, 3);
    assert_eq!(lane.port.namer().names, 1);
}

#[test]
fn commands_are_drained_to_one_signal() {
    assert!(matches!(drain_commands(&Vec::new()), CommandSignal::Quiet));
    assert!(matches!(
        drain_commands(&vec![NamingCommand::Wake, NamingCommand::Stop]),
        CommandSignal::Stop
    ));
    assert!(wait_for_stop(WaitEnd::Disconnected));
    assert!(!wait_for_stop(WaitEnd::Timeout));
}

#[test]
fn lanes_share_a_discovery_until_each_has_had_it() {
    let mut cache = DiscoveryCache::new();
    assert!(cache.is_due(DiscoveryPhase::Scan, 2));
    let target = target_created_at(5);
    let lane = lane_for(&target.thread_hint, 2);
    cache.refresh(vec![target]);
    assert!(!cache.is_due(DiscoveryPhase::Scan, 2));
    assert!(cache.is_due(DiscoveryPhase::Revalidate, 2));
    assert_eq!(cache.serve(lane, 2).len(), 1);
    assert_eq!(cache.serve(lane, 2).len(), 1);
    assert!(!cache.is_due(DiscoveryPhase::Scan, 2));
    assert_eq!(cache.serve(1 - lane, 2).len(), 0);
    assert!(cache.is_due(DiscoveryPhase::Scan, 2));
    cache.refresh(Vec::new());
    assert!(!cache.is_due(DiscoveryPhase::Scan, 2));
    assert_eq!(cache.serve(lane, 2).len(), 0);
}

#[test]
fn targets_are_grouped_and_dealt_to_lanes() {
    let first = target_created_at(0);
    let mut second = target_created_at(0);
    second.pane_id = PaneId::new("%2").unwrap();
    let third = target_created_at(1_800_000_000);
    let groups = group_targets(&vec![first.clone(), second, third.clone()]);
    assert_eq!(groups.len(), 2);
    let lanes = lane_count(20);
    assert_eq!(lanes, 8);
    let mine = lane_for(&first.thread_hint, lanes);
    let dealt = targets_of_lane(&vec![first.clone(), third], mine, lanes);
    assert!(dealt.iter().any(|target| target.thread_hint == first.thread_hint));
    assert!(needs_discovery(DiscoveryPhase::Revalidate, true, 0, lanes));
    assert_ne!(transcript_fingerprint("a"), transcript_fingerprint("b"));
}

#[test]
fn nothing_starts_while_naming_is_off() {
    let off: Result<Option<u8>, MuxError> = start_if_enabled(false, || Ok(1));
    assert_eq!(off.unwrap(), None);
    let on: Result<Option<u8>, MuxError> = start_if_enabled(true, || Ok(1));
    assert_eq!(on.unwrap(), Some(1));
}
