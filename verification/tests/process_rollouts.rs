//! Threads that the processes of a pane prove, and what a search may spend.

use std::collections::HashMap;

use codex_mux::domain::{Pane, PaneId, SessionId};
use codex_mux::error::MuxError;
use codex_mux::path::UnixPath;
use codex_mux::smart_naming::descriptors::{
    are_private, directories_to, has_release_shape, is_private_socket,
    private_control_server_matches, process_rollouts, process_socket_inodes, FdInfo, OpenedFile,
    RolloutDescriptor, ServerFacts, SocketDescriptor, SocketFacts,
};
use codex_mux::smart_naming::process_store::{
    process_snapshot, sole, ProcEntry, ProcessHost, ProcessRolloutStore,
};
use codex_mux::smart_naming::processes::{
    chain_links, find_identity, revalidate_descendant, LiveProcesses, ProcessEntry,
    ProcessScanBudget, MAX_PROCESS_SCAN_BYTES, MAX_PROCESS_SCAN_FDS,
};
use codex_mux::smart_naming::rollout::{searched_bytes, EntryFacts};
use codex_mux::smart_naming::shell_snapshot::linux_process_started_unix;
use codex_mux::smart_naming::sockets::UnixSocketDiagnostics;

const THREAD: &str = "01a01001-2dbb-74e2-86ab-996b31234567";
const SOCKET: &str = "/home/me/.codex/app-server-control/app-server-control.sock";

fn private(is_directory: bool) -> EntryFacts {
    EntryFacts {
        is_directory,
        is_file: !is_directory,
        owner: 5,
        mode: 0o600,
        links: 1,
        size: 100,
    }
}

/// A client (20) whose socket 500 leads to socket 600 of a control server (30).
struct ControlHost {
    names_control_socket: bool,
    gone: Vec<u32>,
}

impl LiveProcesses for ControlHost {
    fn identity(&mut self, pid: u32) -> Option<(u32, u64)> {
        if self.gone.contains(&pid) {
            return None;
        }
        match pid {
            20 | 30 => Some((1, pid as u64)),
            _ => None,
        }
    }
}

fn held(inode: u64) -> SocketDescriptor {
    SocketDescriptor {
        before: Some(FdInfo { flags: 0o2000002, ino: inode }),
        target: Some(format!("socket:[{inode}]").into_bytes()),
        after: Some(FdInfo { flags: 0o2000002, ino: inode }),
    }
}

fn recording() -> RolloutDescriptor {
    let info = || Some(FdInfo { flags: 0o2002002, ino: 7 });
    RolloutDescriptor {
        before: info(),
        file: Some(OpenedFile {
            ino: Some(7),
            actual: Some(UnixPath::new(&format!(
                "/home/me/.codex/sessions/rollout-2026-08-21T00-00-00-{THREAD}.jsonl"
            ))),
            facts: private(false),
            start: session_meta(),
        }),
        after: info(),
    }
}

fn session_meta() -> Vec<u8> {
    format!(
        "{{\"type\":\"session_meta\",\"payload\":{{\"id\":\"{THREAD}\",\"source\":\"cli\"}}}}\n"
    )
    .into_bytes()
}

fn stat(pid: u32, started: u64) -> String {
    format!("{pid} (codex) S 1 {}{started} 0 0", "0 ".repeat(17))
}

impl ProcessHost for ControlHost {
    fn is_cancelled(&mut self) -> bool {
        false
    }

    fn user(&mut self) -> u32 {
        5
    }

    fn executable(&mut self, pid: u32) -> Option<(u64, u64)> {
        Some((1, pid as u64))
    }

    fn socket_descriptors(&mut self, pid: u32) -> Result<Vec<SocketDescriptor>, MuxError> {
        Ok(match pid {
            20 => vec![held(500)],
            30 => vec![held(600), held(601)],
            _ => Vec::new(),
        })
    }

    fn descriptor_targets(&mut self, pid: u32) -> Option<Vec<Option<Vec<u8>>>> {
        match pid {
            30 => Some(vec![
                None,
                Some(b"socket:[600]".to_vec()),
                Some(b"socket:[601]".to_vec()),
            ]),
            _ => None,
        }
    }

    fn rollout_descriptors(
        &mut self,
        pid: u32,
        _root: &UnixPath,
    ) -> Result<Vec<RolloutDescriptor>, MuxError> {
        Ok(if pid == 30 { vec![recording()] } else { Vec::new() })
    }

    fn server(&mut self, _pid: u32) -> ServerFacts {
        ServerFacts { executable: None, file: None, running: None, command: None }
    }

    fn socket(&mut self, path: &UnixPath) -> Option<SocketFacts> {
        assert_eq!(*path, UnixPath::new(SOCKET));
        Some(SocketFacts { is_socket: true, owner: 5, mode: 0o600 })
    }

    fn directories(&mut self, paths: &Vec<UnixPath>) -> Vec<Option<EntryFacts>> {
        assert_eq!(
            *paths,
            vec![
                UnixPath::new("/home/me/.codex"),
                UnixPath::new("/home/me/.codex/app-server-control"),
            ]
        );
        vec![Some(private(true)), Some(private(true))]
    }

    fn process_entries(&mut self) -> Result<Vec<ProcEntry>, MuxError> {
        Ok(vec![
            ProcEntry { name: b"20".to_vec(), stat: Some(stat(20, 20)) },
            ProcEntry { name: b"30".to_vec(), stat: Some(stat(30, 30)) },
            ProcEntry { name: b"self".to_vec(), stat: Some(stat(1, 1)) },
        ])
    }

    fn unix_sockets(&mut self) -> Result<UnixSocketDiagnostics, MuxError> {
        let mut names = HashMap::new();
        if self.names_control_socket {
            names.insert(600, SOCKET.as_bytes().to_vec());
        }
        Ok(UnixSocketDiagnostics {
            peers: HashMap::from([(500, 600), (600, 500)]),
            names,
            scanned_bytes: 64,
        })
    }

    fn unix_list(&mut self) -> Result<Vec<u8>, MuxError> {
        Ok(format!(
            "Num RefCount Protocol Flags Type St Inode Path\n\
             0: 2 0 10000 1 01 601 {SOCKET}\n\
             1: 3 0 0 1 03 600 {SOCKET}\n"
        )
        .into_bytes())
    }
}

fn pane(pid: u32) -> Pane {
    Pane {
        id: PaneId::new("%1").unwrap(),
        session_id: SessionId::new("$1").unwrap(),
        title: Some("c".to_owned()),
        generated_title: None,
        generated_thread_id: None,
        generated_source_stable: false,
        generated_at_unix: None,
        immediate_naming: false,
        manual_name: false,
        manual_name_source: None,
        manual_name_pid: None,
        manual_name_pid_raw: String::new(),
        manual_name_session: None,
        manual_name_session_raw: String::new(),
        unpin_waiting: false,
        unpin_waiting_title: None,
        unpin_waiting_pid: None,
        unpin_waiting_session: None,
        auto_name_status: None,
        auto_name_started_at_unix_nanos: None,
        auto_name_token: None,
        pane_pid: pid,
        current_path: UnixPath::new("/work"),
    }
}

fn store(
    names_control_socket: bool,
    executables: Vec<(u64, u64)>,
    gone: Vec<u32>,
) -> ProcessRolloutStore<ControlHost> {
    ProcessRolloutStore::at(
        ControlHost { names_control_socket, gone },
        executables,
        UnixPath::new("/home/me/.codex/sessions"),
    )
}

#[test]
fn private_control_socket_peer_resolves_a_legacy_client_thread() {
    // A peer that merely lives in the control server proves nothing unless this very
    // connection names the private control socket.
    let mut unrelated = store(false, vec![(1, 20), (1, 30)], Vec::new());
    assert_eq!(unrelated.resolve(&pane(20)).unwrap(), None);

    let mut untrusted = store(true, vec![(1, 20)], Vec::new());
    assert_eq!(untrusted.resolve(&pane(20)).unwrap(), None);

    let mut trusted = store(true, vec![(1, 20), (1, 30)], Vec::new());
    assert_eq!(trusted.resolve(&pane(20)).unwrap().as_deref(), Some(THREAD));

    // A leader that is gone by then has no thread.
    let mut gone = store(true, vec![(1, 20), (1, 30)], vec![20]);
    assert_eq!(gone.resolve(&pane(20)).unwrap(), None);
}

#[test]
fn several_panes_are_searched_in_one_snapshot() {
    let mut trusted = store(true, vec![(1, 20), (1, 30)], Vec::new());
    let found = trusted.resolve_panes(&vec![20, 99]).unwrap();
    assert_eq!(found, vec![Some(THREAD.to_owned()), None]);
    let mut budget = ProcessScanBudget::new();
    let snapshot = trusted.take_snapshot(&vec![20], &mut budget).unwrap();
    assert_eq!(snapshot.table.len(), 2);
    assert!(snapshot.fresh.is_some());
    assert_eq!(
        trusted.resolve_in_snapshot(20, &snapshot, &mut budget).unwrap().as_deref(),
        Some(THREAD)
    );
    assert_eq!(
        trusted.resolve_all(&vec![99], &snapshot, &mut budget).unwrap(),
        vec![None]
    );
    let sockets = snapshot.sockets.as_ref().unwrap();
    assert!(trusted
        .has_peer_candidates(&vec![20], &snapshot.table, sockets, &mut budget)
        .unwrap());
    assert!(!trusted
        .has_peer_candidates(&vec![99], &snapshot.table, sockets, &mut budget)
        .unwrap());
}

#[test]
fn a_search_keeps_its_budget() {
    let mut budget = ProcessScanBudget::new();
    for _ in 0..MAX_PROCESS_SCAN_FDS {
        budget.fd(false).unwrap();
    }
    assert!(budget.fd(false).unwrap_err().to_text().contains("descriptor budget"));
    let mut bytes = ProcessScanBudget::new();
    bytes.bytes(false, MAX_PROCESS_SCAN_BYTES).unwrap();
    assert!(bytes.bytes(false, 1).unwrap_err().to_text().contains("byte budget"));
    assert!(matches!(bytes.bytes(true, 0), Err(MuxError::Cancelled)));

    let mut sockets = ProcessScanBudget::new();
    assert_eq!(
        process_socket_inodes(&vec![held(500), held(501)], false, &mut sockets).unwrap(),
        vec![500, 501]
    );
    let many: Vec<SocketDescriptor> = (0..600).map(held).collect();
    assert!(process_socket_inodes(&many, false, &mut ProcessScanBudget::new())
        .unwrap_err()
        .to_text()
        .contains("process exceeded the descriptor scan limit"));
    let root = UnixPath::new("/home/me/.codex/sessions");
    assert_eq!(
        process_rollouts(&vec![recording()], &root, 5, false, &mut ProcessScanBudget::new())
            .unwrap(),
        vec![THREAD.to_owned()]
    );
}

#[test]
fn only_the_bytes_up_to_the_session_record_are_searched() {
    let mut bytes = session_meta();
    let record = bytes.len();
    bytes.extend_from_slice(b"{\"type\":\"event_msg\"}\n");
    assert_eq!(searched_bytes(&bytes) as usize, record);
}

struct Live(Vec<ProcessEntry>);

impl LiveProcesses for Live {
    fn identity(&mut self, pid: u32) -> Option<(u32, u64)> {
        self.0.iter().find(|entry| entry.pid == pid).map(|entry| (entry.parent, entry.started))
    }
}

#[test]
fn a_chain_is_followed_as_the_table_has_it() {
    let table = vec![
        ProcessEntry { pid: 10, parent: 1, started: 5 },
        ProcessEntry { pid: 20, parent: 10, started: 6 },
        ProcessEntry { pid: 21, parent: 20, started: 7 },
    ];
    assert_eq!(find_identity(&table, 20), Some((10, 6)));
    let links = chain_links(21, (20, 7), 10, (1, 5), &table).unwrap();
    assert_eq!(
        links.iter().map(|link| link.pid).collect::<Vec<_>>(),
        vec![21, 20, 10]
    );
    assert!(chain_links(21, (20, 8), 10, (1, 5), &table).is_none());
    assert!(chain_links(21, (20, 7), 10, (1, 6), &table).is_none());

    assert!(revalidate_descendant(21, (20, 7), 10, (1, 5), &table, &mut Live(table.clone())));
    let mut changed = table.clone();
    changed[1].started = 60;
    assert!(!revalidate_descendant(21, (20, 7), 10, (1, 5), &table, &mut Live(changed)));
}

#[test]
fn process_entries_are_read_from_their_stat_files() {
    let table = process_snapshot(&vec![
        ProcEntry { name: b"20".to_vec(), stat: Some(stat(20, 44)) },
        ProcEntry { name: b"21".to_vec(), stat: None },
        ProcEntry { name: b"net".to_vec(), stat: Some(stat(1, 1)) },
    ])
    .unwrap();
    assert_eq!(table, vec![ProcessEntry { pid: 20, parent: 1, started: 44 }]);
    assert_eq!(
        linux_process_started_unix(&stat(20, 250), "cpu 1\nbtime 1000\n", 100).unwrap(),
        1002
    );
    assert!(linux_process_started_unix(&stat(20, 250), "cpu 1\n", 100).is_err());
    assert!(linux_process_started_unix("20 codex", "btime 1000\n", 100).is_err());
}

#[test]
fn only_one_proved_thread_is_taken() {
    assert_eq!(sole(&Vec::new()).unwrap(), None);
    assert_eq!(sole(&vec![THREAD.to_owned()]).unwrap().as_deref(), Some(THREAD));
    assert!(sole(&vec!["a".to_owned(), "b".to_owned()])
        .unwrap_err()
        .to_text()
        .contains("pane Codex processes hold multiple root conversation rollouts"));
}

#[test]
fn a_control_socket_is_private_to_its_user() {
    let facts = |is_socket, owner, mode| Some(SocketFacts { is_socket, owner, mode });
    assert!(is_private_socket(&facts(true, 5, 0o600), 5));
    assert!(!is_private_socket(&facts(false, 5, 0o600), 5));
    assert!(!is_private_socket(&facts(true, 6, 0o600), 5));
    assert!(!is_private_socket(&facts(true, 5, 0o622), 5));
    assert!(!is_private_socket(&None, 5));
    let home = UnixPath::new("/home/me/.codex");
    assert!(!has_release_shape(&UnixPath::new("/usr/bin/codex"), &home));
}

#[test]
fn a_control_server_is_a_private_release_that_serves_its_socket() {
    let home = UnixPath::new("/home/me/.codex");
    let program = "/home/me/.codex/packages/standalone/releases/1.2.3/bin/codex";
    let paths = directories_to(&UnixPath::new(program), &home).unwrap();
    let expected = [
        "/home/me/.codex",
        "/home/me/.codex/packages",
        "/home/me/.codex/packages/standalone",
        "/home/me/.codex/packages/standalone/releases",
        "/home/me/.codex/packages/standalone/releases/1.2.3",
        "/home/me/.codex/packages/standalone/releases/1.2.3/bin",
    ];
    assert_eq!(paths, expected.iter().map(|path| UnixPath::new(path)).collect::<Vec<_>>());
    assert!(has_release_shape(&UnixPath::new(program), &home));
    assert!(!has_release_shape(&UnixPath::new("/usr/bin/codex"), &home));
    assert_eq!(directories_to(&UnixPath::new("/"), &home), None);

    assert!(are_private(&vec![Some(private(true)), Some(private(true))], 2, 5));
    assert!(!are_private(&vec![Some(private(true))], 2, 5));
    assert!(!are_private(&vec![Some(private(true)), None], 2, 5));
    assert!(!are_private(&vec![Some(private(true)), Some(private(false))], 2, 5));
    assert!(!are_private(&vec![Some(private(true))], 1, 6));

    let facts = |mode: u32, command: &[u8]| {
        let mut file = private(false);
        file.mode = mode;
        ServerFacts {
            executable: Some(UnixPath::new(program)),
            file: Some((file, 1, 2)),
            running: Some((1, 2)),
            command: Some(command.to_vec()),
        }
    };
    let serving = b"codex\0app-server\0--listen\0unix://\0";
    assert!(private_control_server_matches(&facts(0o755, serving), 5));
    assert!(!private_control_server_matches(&facts(0o755, serving), 6));
    assert!(!private_control_server_matches(&facts(0o775, serving), 5));
    assert!(!private_control_server_matches(&facts(0o644, serving), 5));
    assert!(!private_control_server_matches(&facts(0o755, b"codex\0app-server\0"), 5));
    let mut long = serving.to_vec();
    long.resize(64 * 1024 + 1, b'x');
    assert!(!private_control_server_matches(&facts(0o755, &long), 5));
    let mut other = facts(0o755, serving);
    other.running = Some((1, 3));
    assert!(!private_control_server_matches(&other, 5));
    other.running = None;
    assert!(!private_control_server_matches(&other, 5));
}
