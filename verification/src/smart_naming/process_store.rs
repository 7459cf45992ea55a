//! The thread of a pane, as the rollouts held by its processes prove it.

use vstd::prelude::*;
use crate::domain;
use crate::domain::Pane;
use crate::error;
use crate::error::{command_error, ErrorModel, MuxError};
use crate::number;
use crate::path;
use crate::path::UnixPath;
use crate::smart_naming::descriptors;
use crate::smart_naming::descriptors::{
    are_private, directories_to, has_release_shape, holds_inode, is_private_socket, owned_socket,
    owns_control_socket, private_control_server_matches, process_rollouts, process_socket_inodes,
    RolloutDescriptor, ServerFacts, SocketDescriptor, SocketFacts, MAX_COMMAND_LINE_BYTES,
};
use crate::smart_naming::host_log::LoggedHost;
use crate::smart_naming::processes;
use crate::smart_naming::processes::{
    chain_links, descends_from, find_identity, process_stat_identity, LiveProcesses, ProcessEntry,
    ProcessScanBudget, Spent, MAX_PROCESS_ENTRIES,
};
use crate::smart_naming::rollout::EntryFacts;
use crate::smart_naming::rollout_store;
use crate::smart_naming::rollout_store::codex_home_path;
use crate::smart_naming::sockets::{SocketsModel, UnixSocketDiagnostics};
use crate::smart_naming::store_replay;
use crate::smart_naming::store_replay::{HostEvent, Quarry, SnapshotModel, StoreModel};
use crate::smart_naming::title;
use crate::smart_naming::title::protocol;
use crate::text;
use crate::text::{bytes_equal, put, read_utf8};

verus! {

broadcast use vstd::std_specs::hash::group_hash_axioms;

/// What the system says of processes and their descriptors now.
pub trait ProcessHost: LiveProcesses {
    fn is_cancelled(&mut self) -> bool;

    fn user(&mut self) -> u32;

    /// The device and inode of the program that a process runs.
    fn executable(&mut self, pid: u32) -> Option<(u64, u64)>;

    /// The descriptors of a process, looked at for sockets. A process that is gone or
    /// closed to this user has none.
    fn socket_descriptors(&mut self, pid: u32) -> Result<Vec<SocketDescriptor>, MuxError>;

    /// Where the descriptors of a process lead; `None` where they cannot be listed.
    fn descriptor_targets(&mut self, pid: u32) -> Option<Vec<Option<Vec<u8>>>>;

    /// The descriptors of a process, looked at for rollouts below a root.
    fn rollout_descriptors(&mut self, pid: u32, root: &UnixPath) -> Result<
        Vec<RolloutDescriptor>,
        MuxError,
    >;

    /// What is known of the program of a process.
    fn server(&mut self, pid: u32) -> ServerFacts;

    /// The entry of a socket, where there is one.
    fn socket(&mut self, path: &UnixPath) -> Option<SocketFacts>;

    /// The entries of some directories, each where there is one.
    fn directories(&mut self, paths: &Vec<UnixPath>) -> Vec<Option<EntryFacts>>;

    /// The entries of the process file system.
    fn process_entries(&mut self) -> Result<Vec<ProcEntry>, MuxError>;

    /// The unix sockets of the system.
    fn unix_sockets(&mut self) -> Result<UnixSocketDiagnostics, MuxError>;

    /// The kernel's list of unix sockets, one byte more than is allowed at most.
    fn unix_list(&mut self) -> Result<Vec<u8>, MuxError>;
}

/// An entry of the process file system, with its stat file where that can be read.
#[derive(Debug)]
pub struct ProcEntry {
    pub name: Vec<u8>,
    pub stat: Option<String>,
}

/// The process that an entry is.
pub open spec fn entry_process(entry: ProcEntry) -> Option<ProcessEntry> {
    match (text::utf8_decoded(entry.name@), entry.stat) {
        (Some(name), Some(stat)) => match (
            number::unsigned_value(name, u32::MAX as nat),
            processes::stat_identity(stat@),
        ) {
            (Some(pid), Ok((parent, started))) => Some(
                ProcessEntry { pid: pid as u32, parent, started },
            ),
            _ => None,
        },
        _ => None,
    }
}

/// The processes of some entries.
pub open spec fn table_of(entries: Seq<ProcEntry>) -> Seq<ProcessEntry>
    decreases entries.len(),
{
    if entries.len() == 0 {
        Seq::empty()
    } else {
        let before = table_of(entries.drop_last());
        match entry_process(entries.last()) {
            Some(entry) => before.push(entry),
            None => before,
        }
    }
}

fn read_entry(entry: &ProcEntry) -> (r: Option<ProcessEntry>)
    ensures
        r == entry_process(*entry),
{
    let Some(name) = read_utf8(&entry.name) else {
        return None;
    };
    let Some(stat) = &entry.stat else {
        return None;
    };
    let Some(pid) = number::parse_u32(&name) else {
        return None;
    };
    match process_stat_identity(stat) {
        Ok((parent, started)) => Some(ProcessEntry { pid, parent, started }),
        Err(_) => None,
    }
}

/// The processes of some entries, where these are not too many.
pub fn process_snapshot(entries: &Vec<ProcEntry>) -> (r: Result<Vec<ProcessEntry>, MuxError>)
    ensures
        match r {
            Ok(table) => entries@.len() <= MAX_PROCESS_ENTRIES && table@ == table_of(entries@),
            Err(e) => entries@.len() > MAX_PROCESS_ENTRIES && e@ == title::protocol_error(
                "process discovery exceeded its entry limit"@,
            ),
        },
{
    if entries.len() > MAX_PROCESS_ENTRIES {
        return Err(protocol("process discovery exceeded its entry limit"));
    }
    let mut table: Vec<ProcessEntry> = Vec::new();
    let mut i: usize = 0;
    assert(entries@.take(0) =~= Seq::<ProcEntry>::empty());
    while i < entries.len()
        invariant
            i <= entries.len(),
            table@ == table_of(entries@.take(i as int)),
        decreases entries.len() - i,
    {
        assert(entries@.take(i + 1).drop_last() =~= entries@.take(i as int));
        if let Some(entry) = read_entry(&entries[i]) {
            table.push(entry);
        }
        i += 1;
    }
    assert(entries@.take(entries@.len() as int) =~= entries@);
    Ok(table)
}

// ---------------------------------------------------------------------------
// What was seen
// ---------------------------------------------------------------------------

/// Something that the system said.
#[verifier::ext_equal]
pub enum Sighting {
    /// The program that a process runs.
    Executable { pid: u32, file: Option<(u64, u64)> },
    /// The threads of the rollouts that a process records.
    Rollouts { pid: u32, threads: Seq<Seq<char>> },
    /// The sockets of a process.
    Sockets { pid: u32, inodes: Seq<u32> },
    /// A process serves a peer socket as the private control server.
    Control { pid: u32, inode: u32 },
}

/// The record shows from a place on which program a process runs.
pub open spec fn shows_program(
    log: Seq<HostEvent>,
    k: int,
    n: int,
    pid: u32,
    file: Option<(u64, u64)>,
) -> bool {
    forall|w: Seq<HostEvent>|
        store_replay::agrees(w, log) ==> #[trigger] store_replay::program_at(w, k, pid) == Some(
            (file, n),
        )
}

/// The record shows from a place on which rollouts a process records.
pub open spec fn shows_rollouts(
    log: Seq<HostEvent>,
    k: int,
    n: int,
    before: Spent,
    after: Spent,
    pid: u32,
    settings: StoreModel,
    threads: Seq<Seq<char>>,
) -> bool {
    forall|w: Seq<HostEvent>|
        store_replay::agrees(w, log) ==> #[trigger] store_replay::rollouts_at(
            w,
            k,
            before,
            pid,
            settings,
        ) == Some((Ok::<Seq<Seq<char>>, ErrorModel>(threads), n, after))
}

/// The record shows from a place on which sockets a process has.
pub open spec fn shows_sockets(
    log: Seq<HostEvent>,
    k: int,
    n: int,
    before: Spent,
    after: Spent,
    pid: u32,
    inodes: Seq<u32>,
) -> bool {
    forall|w: Seq<HostEvent>|
        store_replay::agrees(w, log) ==> #[trigger] store_replay::sockets_at(w, k, before, pid)
            == Some((Ok::<Seq<u32>, ErrorModel>(inodes), n, after))
}

/// The record shows from a place on that a process serves a peer socket as the private
/// control server, as a list of unix sockets has it.
pub open spec fn shows_control(
    log: Seq<HostEvent>,
    k: int,
    n: int,
    before: Spent,
    after: Spent,
    pid: u32,
    inode: u32,
    names: Map<u32, Seq<u8>>,
    proc_unix: Seq<char>,
    settings: StoreModel,
) -> bool {
    forall|w: Seq<HostEvent>|
        store_replay::agrees(w, log) ==> #[trigger] store_replay::control_at(
            w,
            k,
            before,
            pid,
            inode,
            names,
            proc_unix,
            settings,
        ) == Some((Ok::<bool, ErrorModel>(true), n, after))
}

/// The record shows something.
pub open spec fn shown(log: Seq<HostEvent>, settings: StoreModel, s: Sighting) -> bool {
    match s {
        Sighting::Executable { pid, file } => exists|k: int, n: int| #[trigger]
            shows_program(log, k, n, pid, file),
        Sighting::Rollouts { pid, threads } => exists|
            k: int,
            n: int,
            before: Spent,
            after: Spent,
        | #[trigger]
            shows_rollouts(log, k, n, before, after, pid, settings, threads),
        Sighting::Sockets { pid, inodes } => exists|k: int, n: int, before: Spent, after: Spent|
         #[trigger]
            shows_sockets(log, k, n, before, after, pid, inodes),
        Sighting::Control { pid, inode } => exists|
            k: int,
            n: int,
            before: Spent,
            after: Spent,
            names: Map<u32, Seq<u8>>,
            proc_unix: Seq<char>,
        | #[trigger]
            shows_control(log, k, n, before, after, pid, inode, names, proc_unix, settings),
    }
}

/// Everything that the record shows.
#[verifier::opaque]
pub open spec fn seen_in(log: Seq<HostEvent>, settings: StoreModel) -> Set<Sighting> {
    Set::new(|s: Sighting| shown(log, settings, s))
}

proof fn program_is_seen(
    log: Seq<HostEvent>,
    settings: StoreModel,
    k: int,
    n: int,
    pid: u32,
    file: Option<(u64, u64)>,
)
    requires
        shows_program(log, k, n, pid, file),
    ensures
        seen_in(log, settings).contains(Sighting::Executable { pid, file }),
{
    reveal(seen_in);
    let s = Sighting::Executable { pid, file };
    assert(shown(log, settings, s)) by {
        match s {
            Sighting::Executable { pid, file } => {
                assert(shows_program(log, k, n, pid, file));
            },
            _ => {},
        }
    }
}

proof fn rollouts_are_seen(
    log: Seq<HostEvent>,
    settings: StoreModel,
    k: int,
    n: int,
    before: Spent,
    after: Spent,
    pid: u32,
    threads: Seq<Seq<char>>,
)
    requires
        shows_rollouts(log, k, n, before, after, pid, settings, threads),
    ensures
        seen_in(log, settings).contains(Sighting::Rollouts { pid, threads }),
{
    reveal(seen_in);
    let s = Sighting::Rollouts { pid, threads };
    assert(shown(log, settings, s)) by {
        match s {
            Sighting::Rollouts { pid, threads } => {
                assert(shows_rollouts(log, k, n, before, after, pid, settings, threads));
            },
            _ => {},
        }
    }
}

proof fn sockets_are_seen(
    log: Seq<HostEvent>,
    settings: StoreModel,
    k: int,
    n: int,
    before: Spent,
    after: Spent,
    pid: u32,
    inodes: Seq<u32>,
)
    requires
        shows_sockets(log, k, n, before, after, pid, inodes),
    ensures
        seen_in(log, settings).contains(Sighting::Sockets { pid, inodes }),
{
    reveal(seen_in);
    let s = Sighting::Sockets { pid, inodes };
    assert(shown(log, settings, s)) by {
        match s {
            Sighting::Sockets { pid, inodes } => {
                assert(shows_sockets(log, k, n, before, after, pid, inodes));
            },
            _ => {},
        }
    }
}

proof fn control_is_seen(
    log: Seq<HostEvent>,
    settings: StoreModel,
    k: int,
    n: int,
    before: Spent,
    after: Spent,
    pid: u32,
    inode: u32,
    names: Map<u32, Seq<u8>>,
    proc_unix: Seq<char>,
)
    requires
        shows_control(log, k, n, before, after, pid, inode, names, proc_unix, settings),
    ensures
        seen_in(log, settings).contains(Sighting::Control { pid, inode }),
{
    reveal(seen_in);
    let s = Sighting::Control { pid, inode };
    assert(shown(log, settings, s)) by {
        match s {
            Sighting::Control { pid, inode } => {
                assert(shows_control(log, k, n, before, after, pid, inode, names, proc_unix, settings));
            },
            _ => {},
        }
    }
}

/// What a record shows, a longer one shows too.
pub proof fn seen_grows(earlier: Seq<HostEvent>, later: Seq<HostEvent>, settings: StoreModel)
    requires
        store_replay::agrees(later, earlier),
    ensures
        extends(seen_in(later, settings), seen_in(earlier, settings)),
{
    reveal(seen_in);
    assert forall|w: Seq<HostEvent>| store_replay::agrees(w, later) implies store_replay::agrees(
        w,
        earlier,
    ) by {
        assert forall|i: int| 0 <= i < earlier.len() implies #[trigger] w[i] == earlier[i] by {
            assert(w[i] == later[i]);
            assert(later[i] == earlier[i]);
        }
    }
    assert forall|s: Sighting| seen_in(earlier, settings).contains(s) implies #[trigger] seen_in(
        later,
        settings,
    ).contains(s) by {
        match s {
            Sighting::Executable { pid, file } => {
                let (k, n) = choose|k: int, n: int| #[trigger]
                    shows_program(earlier, k, n, pid, file);
                assert(shows_program(later, k, n, pid, file));
            },
            Sighting::Rollouts { pid, threads } => {
                let (k, n, before, after) = choose|k: int, n: int, before: Spent, after: Spent|
                 #[trigger]
                    shows_rollouts(earlier, k, n, before, after, pid, settings, threads);
                assert(shows_rollouts(later, k, n, before, after, pid, settings, threads));
            },
            Sighting::Sockets { pid, inodes } => {
                let (k, n, before, after) = choose|k: int, n: int, before: Spent, after: Spent|
                 #[trigger]
                    shows_sockets(earlier, k, n, before, after, pid, inodes);
                assert(shows_sockets(later, k, n, before, after, pid, inodes));
            },
            Sighting::Control { pid, inode } => {
                let (k, n, before, after, names, proc_unix) = choose|
                    k: int,
                    n: int,
                    before: Spent,
                    after: Spent,
                    names: Map<u32, Seq<u8>>,
                    proc_unix: Seq<char>,
                | #[trigger]
                    shows_control(
                        earlier,
                        k,
                        n,
                        before,
                        after,
                        pid,
                        inode,
                        names,
                        proc_unix,
                        settings,
                    );
                assert(shows_control(
                    later,
                    k,
                    n,
                    before,
                    after,
                    pid,
                    inode,
                    names,
                    proc_unix,
                    settings,
                ));
            },
        }
    }
}

/// A process of a pane runs a configured program.
pub open spec fn is_candidate(
    seen: Set<Sighting>,
    table: Seq<ProcessEntry>,
    pane: u32,
    programs: Seq<(u64, u64)>,
    pid: u32,
) -> bool {
    &&& processes::is_descendant(table, pid, pane)
    &&& exists|file: (u64, u64)| #[trigger]
        seen.contains(Sighting::Executable { pid, file: Some(file) }) && programs.contains(file)
}

/// A process records the rollout of a thread.
pub open spec fn records(seen: Set<Sighting>, pid: u32, id: Seq<char>) -> bool {
    exists|threads: Seq<Seq<char>>| #[trigger]
        seen.contains(Sighting::Rollouts { pid, threads }) && threads.contains(id)
}

/// A process holds a socket whose peer is served by the private control server.
pub open spec fn controls(
    seen: Set<Sighting>,
    peers: Map<u32, u32>,
    pid: u32,
    server: u32,
) -> bool {
    exists|inodes: Seq<u32>, inode: u32|
        #![trigger seen.contains(Sighting::Sockets { pid, inodes }), inodes.contains(inode)]
        seen.contains(Sighting::Sockets { pid, inodes }) && inodes.contains(inode)
            && peers.contains_key(inode) && seen.contains(
            Sighting::Control { pid: server, inode: peers[inode] },
        )
}

/// What proves a thread: a candidate process records its rollout, or the private
/// control server of a candidate does.
pub open spec fn proves(
    seen: Set<Sighting>,
    table: Seq<ProcessEntry>,
    pane: u32,
    programs: Seq<(u64, u64)>,
    peers: Map<u32, u32>,
    pid: u32,
    holder: u32,
    id: Seq<char>,
) -> bool {
    &&& is_candidate(seen, table, pane, programs, pid)
    &&& records(seen, holder, id)
    &&& holder == pid || controls(seen, peers, pid, holder)
}

/// A thread is proved by some process.
pub open spec fn is_proven(
    seen: Set<Sighting>,
    table: Seq<ProcessEntry>,
    pane: u32,
    programs: Seq<(u64, u64)>,
    peers: Map<u32, u32>,
    id: Seq<char>,
) -> bool {
    exists|pid: u32, holder: u32| #[trigger]
        proves(seen, table, pane, programs, peers, pid, holder, id)
}

/// A thread is proved by some process of some table, with some peers of its sockets.
pub open spec fn is_proven_somewhere(
    seen: Set<Sighting>,
    pane: u32,
    programs: Seq<(u64, u64)>,
    id: Seq<char>,
) -> bool {
    exists|table: Seq<ProcessEntry>, peers: Map<u32, u32>| #[trigger]
        is_proven(seen, table, pane, programs, peers, id)
}

/// Every thread of a list is proved.
pub open spec fn all_proven(
    seen: Set<Sighting>,
    table: Seq<ProcessEntry>,
    pane: u32,
    programs: Seq<(u64, u64)>,
    peers: Map<u32, u32>,
    ids: Seq<Seq<char>>,
) -> bool {
    forall|i: int|
        0 <= i < ids.len() ==> is_proven(seen, table, pane, programs, peers, #[trigger] ids[i])
}

/// What was seen stays seen.
pub open spec fn extends(later: Set<Sighting>, earlier: Set<Sighting>) -> bool {
    forall|s: Sighting| earlier.contains(s) ==> #[trigger] later.contains(s)
}

/// What was proved stays proved, whatever is seen later.
pub proof fn proved_threads_stay(
    later: Set<Sighting>,
    earlier: Set<Sighting>,
    pane: u32,
    programs: Seq<(u64, u64)>,
    id: Seq<char>,
)
    requires
        extends(later, earlier),
        is_proven_somewhere(earlier, pane, programs, id),
    ensures
        is_proven_somewhere(later, pane, programs, id),
{
    let (table, peers) = choose|table: Seq<ProcessEntry>, peers: Map<u32, u32>| #[trigger]
        is_proven(earlier, table, pane, programs, peers, id);
    let (pid, holder) = choose|pid: u32, holder: u32| #[trigger]
        proves(earlier, table, pane, programs, peers, pid, holder, id);
    proves_stays(later, earlier, table, pane, programs, peers, pid, holder, id);
    assert(is_proven(later, table, pane, programs, peers, id));
}

proof fn proof_stays(
    later: Set<Sighting>,
    earlier: Set<Sighting>,
    table: Seq<ProcessEntry>,
    pane: u32,
    programs: Seq<(u64, u64)>,
    peers: Map<u32, u32>,
    ids: Seq<Seq<char>>,
)
    requires
        extends(later, earlier),
        all_proven(earlier, table, pane, programs, peers, ids),
    ensures
        all_proven(later, table, pane, programs, peers, ids),
{
    assert forall|i: int| 0 <= i < ids.len() implies is_proven(
        later,
        table,
        pane,
        programs,
        peers,
        #[trigger] ids[i],
    ) by {
        let id = ids[i];
        let (pid, holder) = choose|pid: u32, holder: u32| #[trigger]
            proves(earlier, table, pane, programs, peers, pid, holder, id);
        proves_stays(later, earlier, table, pane, programs, peers, pid, holder, id);
    }
}

proof fn proves_stays(
    later: Set<Sighting>,
    earlier: Set<Sighting>,
    table: Seq<ProcessEntry>,
    pane: u32,
    programs: Seq<(u64, u64)>,
    peers: Map<u32, u32>,
    pid: u32,
    holder: u32,
    id: Seq<char>,
)
    requires
        extends(later, earlier),
        proves(earlier, table, pane, programs, peers, pid, holder, id),
    ensures
        proves(later, table, pane, programs, peers, pid, holder, id),
{
    candidate_stays(later, earlier, table, pane, programs, pid);
    let threads = choose|threads: Seq<Seq<char>>| #[trigger]
        earlier.contains(Sighting::Rollouts { pid: holder, threads }) && threads.contains(id);
    assert(later.contains(Sighting::Rollouts { pid: holder, threads }));
    if holder != pid {
        controls_stays(later, earlier, peers, pid, holder);
    }
}

proof fn candidate_stays(
    later: Set<Sighting>,
    earlier: Set<Sighting>,
    table: Seq<ProcessEntry>,
    pane: u32,
    programs: Seq<(u64, u64)>,
    pid: u32,
)
    requires
        extends(later, earlier),
        is_candidate(earlier, table, pane, programs, pid),
    ensures
        is_candidate(later, table, pane, programs, pid),
{
    let file = choose|file: (u64, u64)| #[trigger]
        earlier.contains(Sighting::Executable { pid, file: Some(file) }) && programs.contains(file);
    assert(later.contains(Sighting::Executable { pid, file: Some(file) }));
}

proof fn controls_stays(
    later: Set<Sighting>,
    earlier: Set<Sighting>,
    peers: Map<u32, u32>,
    pid: u32,
    server: u32,
)
    requires
        extends(later, earlier),
        controls(earlier, peers, pid, server),
    ensures
        controls(later, peers, pid, server),
{
    let (inodes, inode) = choose|inodes: Seq<u32>, inode: u32|
        #![trigger earlier.contains(Sighting::Sockets { pid, inodes }), inodes.contains(inode)]
        earlier.contains(Sighting::Sockets { pid, inodes }) && inodes.contains(inode)
            && peers.contains_key(inode) && earlier.contains(
            Sighting::Control { pid: server, inode: peers[inode] },
        );
    assert(later.contains(Sighting::Sockets { pid, inodes }));
    assert(later.contains(Sighting::Control { pid: server, inode: peers[inode] }));
    assert(inodes.contains(inode));
}

// ---------------------------------------------------------------------------
// The store
// ---------------------------------------------------------------------------

/// The inodes of one process that owns a wanted socket.
#[derive(Clone, Copy, Debug, PartialEq, Eq, Structural)]
pub struct SocketOwner {
    pub inode: u32,
    pub pid: u32,
}

/// What a search finds out before it looks at single panes.
pub struct Snapshot {
    pub table: Vec<ProcessEntry>,
    pub sockets: Option<UnixSocketDiagnostics>,
    /// The sockets once more, asked for where a process has a peer.
    pub fresh: Option<UnixSocketDiagnostics>,
    /// The kernel's list of unix sockets, read with it.
    pub proc_unix: Option<String>,
}

impl View for Snapshot {
    type V = SnapshotModel;

    open spec fn view(&self) -> SnapshotModel {
        SnapshotModel {
            table: self.table@,
            sockets: sockets_view(self.sockets),
            fresh: sockets_view(self.fresh),
            proc_unix: text::option_view(self.proc_unix),
        }
    }
}

pub open spec fn sockets_view(sockets: Option<UnixSocketDiagnostics>) -> Option<SocketsModel> {
    match sockets {
        Some(sockets) => Some(sockets@),
        None => None,
    }
}

/// A list, or the error in its place.
pub open spec fn listed<T>(r: Result<Vec<T>, MuxError>) -> Result<Seq<T>, ErrorModel> {
    match r {
        Ok(list) => Ok(list@),
        Err(e) => Err(e@),
    }
}

/// Where descriptors lead, as values.
pub open spec fn targets_view(targets: Option<Vec<Option<Vec<u8>>>>) -> Option<
    Seq<Option<Vec<u8>>>,
> {
    match targets {
        Some(list) => Some(list@),
        None => None,
    }
}

/// The unix sockets and what it took to find them out.
pub open spec fn diagnosed(r: Result<UnixSocketDiagnostics, MuxError>) -> Result<
    (SocketsModel, nat),
    ErrorModel,
> {
    match r {
        Ok(sockets) => Ok((sockets@, sockets.scanned_bytes as nat)),
        Err(e) => Err(e@),
    }
}

/// The unix sockets, where they could be asked for.
pub open spec fn asked(r: Result<Option<UnixSocketDiagnostics>, MuxError>) -> Result<
    Option<SocketsModel>,
    ErrorModel,
> {
    match r {
        Ok(sockets) => Ok(sockets_view(sockets)),
        Err(e) => Err(e@),
    }
}

/// A text, or the error in its place.
pub open spec fn read(r: Result<String, MuxError>) -> Result<Seq<char>, ErrorModel> {
    match r {
        Ok(t) => Ok(t@),
        Err(e) => Err(e@),
    }
}

pub open spec fn snapshot_view(r: Result<Snapshot, MuxError>) -> Result<SnapshotModel, ErrorModel> {
    match r {
        Ok(snapshot) => Ok(snapshot@),
        Err(e) => Err(e@),
    }
}

/// What a first look at some candidates gave, as values.
pub open spec fn looked(r: Result<(Vec<String>, Vec<ProcessEntry>), MuxError>) -> Result<
    (Seq<Seq<char>>, Seq<ProcessEntry>),
    ErrorModel,
> {
    match r {
        Ok((found, direct)) => Ok((text::texts(found@), direct@)),
        Err(e) => Err(e@),
    }
}

/// The threads of some panes, as values.
pub open spec fn panes_view(found: Seq<Option<String>>) -> Seq<Option<Seq<char>>> {
    Seq::new(found.len(), |i: int| text::option_view(found[i]))
}

pub open spec fn panes_outcome(r: Result<Vec<Option<String>>, MuxError>) -> Result<
    Seq<Option<Seq<char>>>,
    ErrorModel,
> {
    match r {
        Ok(found) => Ok(panes_view(found@)),
        Err(e) => Err(e@),
    }
}

/// The peers that a snapshot knows of.
pub open spec fn known_peers(snapshot: Snapshot) -> Map<u32, u32> {
    match snapshot.sockets {
        Some(sockets) => sockets.peers@,
        None => Map::empty(),
    }
}

/// Resolver for the root rollout that a configured Codex process of a pane records.
pub struct ProcessRolloutStore<H> {
    /// The system, with what it was asked and what it answered.
    pub host: LoggedHost<H>,
    pub executables: Vec<(u64, u64)>,
    pub rollout_root: UnixPath,
}

/// Adds the texts of a list that are not there yet.
fn merge(found: &mut Vec<String>, more: &Vec<String>)
    ensures
        forall|t: Seq<char>| #[trigger]
            text::texts(final(found)@).contains(t) <==> text::texts(old(found)@).contains(t)
                || text::texts(more@).contains(t),
        text::texts(old(found)@).no_duplicates() ==> text::texts(final(found)@).no_duplicates(),
        text::texts(final(found)@) == store_replay::merged(
            text::texts(old(found)@),
            text::texts(more@),
        ),
{
    let ghost start = text::texts(found@);
    let ghost extra = text::texts(more@);
    let mut i: usize = 0;
    assert(extra.take(0) =~= Seq::<Seq<char>>::empty());
    while i < more.len()
        invariant
            i <= more.len(),
            extra == text::texts(more@),
            forall|t: Seq<char>| #[trigger]
                text::texts(found@).contains(t) <==> start.contains(t) || extra.take(
                    i as int,
                ).contains(t),
            start.no_duplicates() ==> text::texts(found@).no_duplicates(),
            store_replay::merged(start, extra) == store_replay::merged_from(
                text::texts(found@),
                extra,
                i as int,
            ),
        decreases more.len() - i,
    {
        let ghost before = text::texts(found@);
        assert(extra[i as int] == more@[i as int]@);
        if !text::holds_text(found, &more[i]) {
            put(found, &more[i]);
        }
        proof {
            let now = text::texts(found@);
            let x = extra[i as int];
            let short = extra.take(i as int);
            let long = extra.take(i + 1);
            assert forall|t: Seq<char>| #[trigger] now.contains(t) <==> start.contains(t)
                || long.contains(t) by {
                if short.contains(t) {
                    let k = choose|k: int| 0 <= k < short.len() && short[k] == t;
                    assert(long[k] == t);
                }
                if long.contains(t) {
                    let k = choose|k: int| 0 <= k < long.len() && long[k] == t;
                    if k < i {
                        assert(short[k] == t);
                    }
                }
                assert(long[i as int] == x);
                if before.contains(t) {
                    let k = choose|k: int| 0 <= k < before.len() && before[k] == t;
                    assert(now[k] == t);
                }
                if now.contains(t) {
                    let k = choose|k: int| 0 <= k < now.len() && now[k] == t;
                    if k < before.len() {
                        assert(before[k] == t);
                    }
                }
                if !before.contains(x) {
                    assert(now[before.len() as int] == x);
                }
            }
        }
        i += 1;
    }
    assert(extra.take(extra.len() as int) =~= extra);
}

/// The one thread of a list: none, that one, or a refusal where there are several.
pub open spec fn sole_thread(ids: Seq<Seq<char>>) -> Result<Option<Seq<char>>, ErrorModel> {
    if ids.len() == 0 {
        Ok(None)
    } else if ids.len() == 1 {
        Ok(Some(ids[0]))
    } else {
        Err(
            title::protocol_error(
                "pane Codex processes hold multiple root conversation rollouts"@,
            ),
        )
    }
}

pub fn sole(ids: &Vec<String>) -> (r: Result<Option<String>, MuxError>)
    ensures
        descriptors::thread_outcome(r) == sole_thread(text::texts(ids@)),
{
    if ids.len() == 0 {
        Ok(None)
    } else if ids.len() == 1 {
        Ok(Some(ids[0].clone()))
    } else {
        Err(protocol("pane Codex processes hold multiple root conversation rollouts"))
    }
}

impl<H: ProcessHost> ProcessRolloutStore<H> {
    /// A store made with the same, that was asked no less.
    pub open spec fn same_store(&self, other: &Self) -> bool {
        &&& self.executables == other.executables
        &&& self.rollout_root == other.rollout_root
        &&& store_replay::agrees(self.host.events(), other.host.events())
    }

    pub open spec fn settings(&self) -> StoreModel {
        StoreModel { programs: self.executables@, root: self.rollout_root@ }
    }

    /// Everything that was seen so far.
    pub open spec fn seen(&self) -> Set<Sighting> {
        seen_in(self.host.events(), self.settings())
    }

    /// Uses the device and inode of each configured program, and an explicit root.
    pub fn at(host: H, executables: Vec<(u64, u64)>, rollout_root: UnixPath) -> (r: Self)
        ensures
            r.host.wrapped() == host,
            r.executables == executables,
            r.rollout_root == rollout_root,
            r.host.events() == Seq::<HostEvent>::empty(),
    {
        ProcessRolloutStore {
            host: LoggedHost::new(host),
            executables,
            rollout_root,
        }
    }

    /// Uses the sessions below the directory of Codex.
    pub fn discover(
        host: H,
        executables: Vec<(u64, u64)>,
        configured: &Option<UnixPath>,
        home: &Option<UnixPath>,
    ) -> (r: Result<Self, MuxError>)
        ensures
            match rollout_store::codex_home(
                domain::path_view(*configured),
                domain::path_view(*home),
            ) {
                Some(base) => r is Ok && r->Ok_0.rollout_root@ == path::joined(
                    base,
                    text::utf8("sessions"@),
                ) && r->Ok_0.host.wrapped() == host && r->Ok_0.executables == executables,
                None => r is Err && r->Err_0@ == ErrorModel::Command(
                    "HOME and CODEX_HOME are unset"@,
                ),
            },
    {
        match codex_home_path(configured, home) {
            Some(base) => Ok(
                ProcessRolloutStore::at(host, executables, base.join(&UnixPath::new("sessions"))),
            ),
            None => Err(command_error("HOME and CODEX_HOME are unset")),
        }
    }

    /// Whether the search was called off.
    fn is_cancelled(&mut self) -> (r: bool)
        ensures
            final(self).same_store(old(self)),
            extends(final(self).seen(), old(self).seen()),
            forall|w: Seq<HostEvent>|
                store_replay::agrees(w, final(self).host.events()) ==> #[trigger] store_replay::cancelled_at(
                    w,
                    old(self).host.events().len() as int,
                ) == Some((r, final(self).host.events().len() as int)),
    {
        let r = self.host.is_cancelled();
        proof {
            seen_grows(old(self).host.events(), self.host.events(), self.settings());
        }
        r
    }

    /// The user that searches.
    fn user(&mut self) -> (r: u32)
        ensures
            final(self).same_store(old(self)),
            extends(final(self).seen(), old(self).seen()),
            forall|w: Seq<HostEvent>|
                store_replay::agrees(w, final(self).host.events()) ==> #[trigger] store_replay::user_at(
                    w,
                    old(self).host.events().len() as int,
                ) == Some((r, final(self).host.events().len() as int)),
    {
        let r = self.host.user();
        proof {
            seen_grows(old(self).host.events(), self.host.events(), self.settings());
        }
        r
    }

    /// Who a process is now.
    fn identity(&mut self, pid: u32) -> (r: Option<(u32, u64)>)
        ensures
            final(self).same_store(old(self)),
            extends(final(self).seen(), old(self).seen()),
            forall|w: Seq<HostEvent>|
                store_replay::agrees(w, final(self).host.events()) ==> #[trigger] store_replay::identity_at(
                    w,
                    old(self).host.events().len() as int,
                    pid,
                ) == Some((r, final(self).host.events().len() as int)),
    {
        let r = self.host.identity(pid);
        proof {
            seen_grows(old(self).host.events(), self.host.events(), self.settings());
        }
        r
    }

    /// The program that a process runs.
    fn program(&mut self, pid: u32) -> (r: Option<(u64, u64)>)
        ensures
            final(self).same_store(old(self)),
            extends(final(self).seen(), old(self).seen()),
            forall|w: Seq<HostEvent>|
                store_replay::agrees(w, final(self).host.events()) ==> #[trigger] store_replay::program_at(
                    w,
                    old(self).host.events().len() as int,
                    pid,
                ) == Some((r, final(self).host.events().len() as int)),
    {
        let r = self.host.executable(pid);
        proof {
            seen_grows(old(self).host.events(), self.host.events(), self.settings());
        }
        r
    }

    /// The descriptors of a process, looked at for sockets.
    fn socket_descriptors(&mut self, pid: u32) -> (r: Result<Vec<SocketDescriptor>, MuxError>)
        ensures
            final(self).same_store(old(self)),
            extends(final(self).seen(), old(self).seen()),
            forall|w: Seq<HostEvent>|
                store_replay::agrees(w, final(self).host.events()) ==> #[trigger] store_replay::socket_descriptors_at(
                    w,
                    old(self).host.events().len() as int,
                    pid,
                ) == Some((listed(r), final(self).host.events().len() as int)),
    {
        let r = self.host.socket_descriptors(pid);
        proof {
            seen_grows(old(self).host.events(), self.host.events(), self.settings());
        }
        r
    }

    /// Where the descriptors of a process lead.
    fn targets(&mut self, pid: u32) -> (r: Option<Vec<Option<Vec<u8>>>>)
        ensures
            final(self).same_store(old(self)),
            extends(final(self).seen(), old(self).seen()),
            forall|w: Seq<HostEvent>|
                store_replay::agrees(w, final(self).host.events()) ==> #[trigger] store_replay::targets_at(
                    w,
                    old(self).host.events().len() as int,
                    pid,
                ) == Some((targets_view(r), final(self).host.events().len() as int)),
    {
        let r = self.host.descriptor_targets(pid);
        proof {
            seen_grows(old(self).host.events(), self.host.events(), self.settings());
        }
        r
    }

    /// The descriptors of a process, looked at for rollouts.
    fn rollout_descriptors(&mut self, pid: u32, root: &UnixPath) -> (r: Result<Vec<RolloutDescriptor>, MuxError>)
        ensures
            final(self).same_store(old(self)),
            extends(final(self).seen(), old(self).seen()),
            forall|w: Seq<HostEvent>|
                store_replay::agrees(w, final(self).host.events()) ==> #[trigger] store_replay::rollout_descriptors_at(
                    w,
                    old(self).host.events().len() as int,
                    pid,
                    root@,
                ) == Some((listed(r), final(self).host.events().len() as int)),
    {
        let r = self.host.rollout_descriptors(pid, root);
        proof {
            seen_grows(old(self).host.events(), self.host.events(), self.settings());
        }
        r
    }

    /// What is known of the program of a process.
    fn server(&mut self, pid: u32) -> (r: ServerFacts)
        ensures
            final(self).same_store(old(self)),
            extends(final(self).seen(), old(self).seen()),
            forall|w: Seq<HostEvent>|
                store_replay::agrees(w, final(self).host.events()) ==> #[trigger] store_replay::server_facts_at(
                    w,
                    old(self).host.events().len() as int,
                    pid,
                ) == Some((r, final(self).host.events().len() as int)),
    {
        let r = self.host.server(pid);
        proof {
            seen_grows(old(self).host.events(), self.host.events(), self.settings());
        }
        r
    }

    /// The entry of a socket.
    fn socket(&mut self, path: &UnixPath) -> (r: Option<SocketFacts>)
        ensures
            final(self).same_store(old(self)),
            extends(final(self).seen(), old(self).seen()),
            forall|w: Seq<HostEvent>|
                store_replay::agrees(w, final(self).host.events()) ==> #[trigger] store_replay::socket_facts_at(
                    w,
                    old(self).host.events().len() as int,
                    path@,
                ) == Some((r, final(self).host.events().len() as int)),
    {
        let r = self.host.socket(path);
        proof {
            seen_grows(old(self).host.events(), self.host.events(), self.settings());
        }
        r
    }

    /// The entries of some directories.
    fn directories(&mut self, paths: &Vec<UnixPath>) -> (r: Vec<Option<EntryFacts>>)
        ensures
            final(self).same_store(old(self)),
            extends(final(self).seen(), old(self).seen()),
            forall|w: Seq<HostEvent>|
                store_replay::agrees(w, final(self).host.events()) ==> #[trigger] store_replay::directories_at(
                    w,
                    old(self).host.events().len() as int,
                    descriptors::paths_of(paths@),
                ) == Some((r@, final(self).host.events().len() as int)),
    {
        let r = self.host.directories(paths);
        proof {
            seen_grows(old(self).host.events(), self.host.events(), self.settings());
        }
        r
    }

    /// The entries of the process file system.
    fn process_entries(&mut self) -> (r: Result<Vec<ProcEntry>, MuxError>)
        ensures
            final(self).same_store(old(self)),
            extends(final(self).seen(), old(self).seen()),
            forall|w: Seq<HostEvent>|
                store_replay::agrees(w, final(self).host.events()) ==> #[trigger] store_replay::entries_at(
                    w,
                    old(self).host.events().len() as int,
                ) == Some((listed(r), final(self).host.events().len() as int)),
    {
        let r = self.host.process_entries();
        proof {
            seen_grows(old(self).host.events(), self.host.events(), self.settings());
        }
        r
    }

    /// The unix sockets of the system.
    fn unix_sockets(&mut self) -> (r: Result<UnixSocketDiagnostics, MuxError>)
        ensures
            final(self).same_store(old(self)),
            extends(final(self).seen(), old(self).seen()),
            forall|w: Seq<HostEvent>|
                store_replay::agrees(w, final(self).host.events()) ==> #[trigger] store_replay::diagnostics_at(
                    w,
                    old(self).host.events().len() as int,
                ) == Some((diagnosed(r), final(self).host.events().len() as int)),
    {
        let r = self.host.unix_sockets();
        proof {
            seen_grows(old(self).host.events(), self.host.events(), self.settings());
        }
        r
    }

    /// The kernel's list of unix sockets.
    fn unix_list(&mut self) -> (r: Result<Vec<u8>, MuxError>)
        ensures
            final(self).same_store(old(self)),
            extends(final(self).seen(), old(self).seen()),
            forall|w: Seq<HostEvent>|
                store_replay::agrees(w, final(self).host.events()) ==> #[trigger] store_replay::unix_list_at(
                    w,
                    old(self).host.events().len() as int,
                ) == Some((listed(r), final(self).host.events().len() as int)),
    {
        let r = self.host.unix_list();
        proof {
            seen_grows(old(self).host.events(), self.host.events(), self.settings());
        }
        r
    }

    /// Whether a process runs a configured program.
    fn executable_matches(&mut self, pid: u32) -> (r: bool)
        ensures
            final(self).same_store(old(self)),
            extends(final(self).seen(), old(self).seen()),
            r ==> exists|file: (u64, u64)| #[trigger]
                final(self).seen().contains(Sighting::Executable { pid, file: Some(file) })
                    && old(self).executables@.contains(file),
            forall|w: Seq<HostEvent>|
                store_replay::agrees(w, final(self).host.events()) ==> #[trigger] store_replay::matches_at(
                    w,
                    old(self).host.events().len() as int,
                    pid,
                    old(self).settings(),
                ) == Some((r, final(self).host.events().len() as int)),
    {
        let file = self.program(pid);
        proof {
            program_is_seen(
                self.host.events(),
                self.settings(),
                old(self).host.events().len() as int,
                self.host.events().len() as int,
                pid,
                file,
            );
        }
        let Some((device, inode)) = file else {
            return false;
        };
        let mut i: usize = 0;
        while i < self.executables.len()
            invariant
                i <= self.executables.len(),
                forall|k: int|
                    0 <= k < i ==> #[trigger] self.executables@[k] != (device, inode),
            decreases self.executables.len() - i,
        {
            if self.executables[i].0 == device && self.executables[i].1 == inode {
                proof {
                    assert(self.executables@[i as int] == (device, inode));
                    assert(self.executables@.contains((device, inode)));
                }
                return true;
            }
            i += 1;
        }
        false
    }

    /// The sockets of a process.
    fn sockets_of(&mut self, pid: u32, budget: &mut ProcessScanBudget) -> (r: Result<
        Vec<u32>,
        MuxError,
    >)
        requires
            old(budget).kept(),
        ensures
            final(budget).kept(),
            final(self).same_store(old(self)),
            extends(final(self).seen(), old(self).seen()),
            r matches Ok(inodes) ==> final(self).seen().contains(
                Sighting::Sockets { pid, inodes: inodes@ },
            ),
            forall|w: Seq<HostEvent>|
                store_replay::agrees(w, final(self).host.events()) ==> #[trigger] store_replay::sockets_at(
                    w,
                    old(self).host.events().len() as int,
                    old(budget).spent(),
                    pid,
                ) == Some((descriptors::inodes_outcome(r), final(self).host.events().len() as int, final(budget).spent())),
    {
        let descriptors = match self.socket_descriptors(pid) {
            Ok(descriptors) => descriptors,
            Err(e) => return Err(e),
        };
        let cancelled = self.is_cancelled();
        match process_socket_inodes(&descriptors, cancelled, budget) {
            Ok(inodes) => {
                proof {
                            sockets_are_seen(
                                self.host.events(),
                                self.settings(),
                                old(self).host.events().len() as int,
                                self.host.events().len() as int,
                                old(budget).spent(),
                                budget.spent(),
                                pid,
                                inodes@,
                            );
                }
                Ok(inodes)
            },
            Err(e) => Err(e),
        }
    }

    /// The threads of the rollouts that a process records.
    fn rollouts_of(&mut self, pid: u32, budget: &mut ProcessScanBudget) -> (r: Result<
        Vec<String>,
        MuxError,
    >)
        requires
            old(budget).kept(),
        ensures
            final(budget).kept(),
            final(self).same_store(old(self)),
            extends(final(self).seen(), old(self).seen()),
            r matches Ok(threads) ==> final(self).seen().contains(
                Sighting::Rollouts { pid, threads: text::texts(threads@) },
            ),
            forall|w: Seq<HostEvent>|
                store_replay::agrees(w, final(self).host.events()) ==> #[trigger] store_replay::rollouts_at(
                    w,
                    old(self).host.events().len() as int,
                    old(budget).spent(),
                    pid,
                    old(self).settings(),
                ) == Some((descriptors::threads_outcome(r), final(self).host.events().len() as int, final(budget).spent())),
    {
        let root = self.rollout_root.clone();
        let descriptors = match self.rollout_descriptors(pid, &root) {
            Ok(descriptors) => descriptors,
            Err(e) => return Err(e),
        };
        let cancelled = self.is_cancelled();
        let user: u32 = self.user();
        match process_rollouts(&descriptors, &root, user, cancelled, budget) {
            Ok(threads) => {
                proof {
                            let found = text::texts(threads@);
                    assert(self.settings() == old(self).settings());
                    rollouts_are_seen(
                        self.host.events(),
                        self.settings(),
                        old(self).host.events().len() as int,
                        self.host.events().len() as int,
                        old(budget).spent(),
                        budget.spent(),
                        pid,
                        found,
                    );
                }
                Ok(threads)
            },
            Err(e) => Err(e),
        }
    }

    /// Whether a program is a configured one or the private control server.
    fn is_server(&mut self, pid: u32, home: &UnixPath, budget: &mut ProcessScanBudget) -> (r:
        Result<bool, MuxError>)
        requires
            old(budget).kept(),
        ensures
            final(budget).kept(),
            final(self).same_store(old(self)),
            extends(final(self).seen(), old(self).seen()),
            forall|w: Seq<HostEvent>|
                store_replay::agrees(w, final(self).host.events()) ==> #[trigger] store_replay::server_at(
                    w,
                    old(self).host.events().len() as int,
                    old(budget).spent(),
                    pid,
                    home@,
                    old(self).settings(),
                ) == Some((error::outcome(r), final(self).host.events().len() as int, final(budget).spent())),
    {
        if self.executable_matches(pid) {
            return Ok(true);
        }
        let facts = self.server(pid);
        let Some(executable) = &facts.executable else {
            return Ok(false);
        };
        if !has_release_shape(executable, home) {
            return Ok(false);
        }
        let cancelled = self.is_cancelled();
        match budget.bytes(cancelled, MAX_COMMAND_LINE_BYTES + 1) {
            Ok(_) => {},
            Err(e) => return Err(e),
        }
        let user: u32 = self.user();
        let Some(paths) = directories_to(executable, home) else {
            return Ok(false);
        };
        let found = self.directories(&paths);
        Ok(are_private(&found, paths.len(), user) && private_control_server_matches(&facts, user))
    }

    /// Whether a process serves a peer socket as the private control server.
    fn serves_control(
        &mut self,
        pid: u32,
        peer: u32,
        sockets: &UnixSocketDiagnostics,
        proc_unix: &str,
        budget: &mut ProcessScanBudget,
    ) -> (r: Result<bool, MuxError>)
        requires
            old(budget).kept(),
        ensures
            final(budget).kept(),
            final(self).same_store(old(self)),
            extends(final(self).seen(), old(self).seen()),
            r == Ok::<bool, MuxError>(true) ==> final(self).seen().contains(
                Sighting::Control { pid, inode: peer },
            ),
            forall|w: Seq<HostEvent>|
                store_replay::agrees(w, final(self).host.events()) ==> #[trigger] store_replay::control_at(
                    w,
                    old(self).host.events().len() as int,
                    old(budget).spent(),
                    pid,
                    peer,
                    sockets@.names,
                    proc_unix@,
                    old(self).settings(),
                ) == Some((error::outcome(r), final(self).host.events().len() as int, final(budget).spent())),
    {
        let r = self.looks_like_control(pid, peer, sockets, proc_unix, budget);
        proof {
            if r == Ok::<bool, MuxError>(true) {
                assert(self.settings() == old(self).settings());
                control_is_seen(
                    self.host.events(),
                    self.settings(),
                    old(self).host.events().len() as int,
                    self.host.events().len() as int,
                    old(budget).spent(),
                    budget.spent(),
                    pid,
                    peer,
                    sockets@.names,
                    proc_unix@,
                );
            }
        }
        r
    }

    /// Whether everything that can be asked of a process says that it serves a peer
    /// socket as the private control server.
    fn looks_like_control(
        &mut self,
        pid: u32,
        peer: u32,
        sockets: &UnixSocketDiagnostics,
        proc_unix: &str,
        budget: &mut ProcessScanBudget,
    ) -> (r: Result<bool, MuxError>)
        requires
            old(budget).kept(),
        ensures
            final(budget).kept(),
            final(self).same_store(old(self)),
            extends(final(self).seen(), old(self).seen()),
            forall|w: Seq<HostEvent>|
                store_replay::agrees(w, final(self).host.events()) ==> #[trigger] store_replay::control_at(
                    w,
                    old(self).host.events().len() as int,
                    old(budget).spent(),
                    pid,
                    peer,
                    sockets@.names,
                    proc_unix@,
                    old(self).settings(),
                ) == Some((error::outcome(r), final(self).host.events().len() as int, final(budget).spent())),
    {
        let Some(home) = self.rollout_root.parent() else {
            return Ok(false);
        };
        let socket = home.join(&UnixPath::new("app-server-control/app-server-control.sock"));
        let entry = self.socket(&socket);
        let user: u32 = self.user();
        if !is_private_socket(&entry, user) {
            return Ok(false);
        }
        match self.is_server(pid, &home, budget) {
            Ok(true) => {},
            Ok(false) => return Ok(false),
            Err(e) => return Err(e),
        }
        let Some(above) = socket.parent() else {
            return Ok(false);
        };
        let mut paths: Vec<UnixPath> = Vec::new();
        paths.push(home.clone());
        paths.push(above);
        assert(descriptors::paths_of(paths@) =~= seq![home@, paths@[1]@]);
        let found = self.directories(&paths);
        if !are_private(&found, 2, user) {
            return Ok(false);
        }
        let named = match sockets.names.get(&peer) {
            Some(name) => bytes_equal(name, &socket.bytes),
            None => false,
        };
        if !named {
            return Ok(false);
        }
        let held = match self.sockets_of(pid, budget) {
            Ok(held) => held,
            Err(e) => return Err(e),
        };
        if !owns_control_socket(proc_unix, &socket, &held, peer) {
            return Ok(false);
        }
        match self.is_server(pid, &home, budget) {
            Ok(true) => {},
            Ok(false) => return Ok(false),
            Err(e) => return Err(e),
        }
        Ok(true)
    }

    /// The processes of a table that run a configured program below some pane leaders.
    fn candidates(&mut self, pane: u32, table: &Vec<ProcessEntry>) -> (r: Vec<ProcessEntry>)
        ensures
            final(self).same_store(old(self)),
            extends(final(self).seen(), old(self).seen()),
            forall|i: int|
                0 <= i < r@.len() ==> is_candidate(
                    final(self).seen(),
                    table@,
                    pane,
                    old(self).executables@,
                    (#[trigger] r@[i]).pid,
                ),
            forall|w: Seq<HostEvent>|
                store_replay::agrees(w, final(self).host.events()) ==> #[trigger] store_replay::candidates_from(
                    w,
                    old(self).host.events().len() as int,
                    pane,
                    table@,
                    0,
                    old(self).settings(),
                    Seq::empty(),
                ) == Some((r@, final(self).host.events().len() as int)),
    {
        let mut found: Vec<ProcessEntry> = Vec::new();
        let mut i: usize = 0;
        while i < table.len()
            invariant
                i <= table.len(),
                self.same_store(old(self)),
                extends(self.seen(), old(self).seen()),
                forall|w: Seq<HostEvent>|
                    store_replay::agrees(w, self.host.events()) ==> #[trigger] store_replay::candidates_from(
                        w,
                        old(self).host.events().len() as int,
                        pane,
                        table@,
                        0,
                        old(self).settings(),
                        Seq::empty(),
                    ) == store_replay::candidates_from(
                        w,
                        self.host.events().len() as int,
                        pane,
                        table@,
                        i as int,
                        old(self).settings(),
                        found@,
                    ),
                forall|k: int|
                    0 <= k < found@.len() ==> is_candidate(
                        self.seen(),
                        table@,
                        pane,
                        old(self).executables@,
                        (#[trigger] found@[k]).pid,
                    ),
            decreases table.len() - i,
        {
            let entry = table[i];
            if descends_from(entry.pid, pane, table) {
                let ghost before = self.seen();
                if self.executable_matches(entry.pid) {
                    found.push(entry);
                }
                proof {
                    assert forall|k: int| 0 <= k < found@.len() implies is_candidate(
                        self.seen(),
                        table@,
                        pane,
                        old(self).executables@,
                        (#[trigger] found@[k]).pid,
                    ) by {
                        if is_candidate(
                            before,
                            table@,
                            pane,
                            old(self).executables@,
                            found@[k].pid,
                        ) {
                            candidate_stays(
                                self.seen(),
                                before,
                                table@,
                                pane,
                                old(self).executables@,
                                found@[k].pid,
                            );
                        }
                    }
                }
            }
            i += 1;
        }
        found
    }

    /// The peers of the sockets that some processes hold.
    fn peer_inodes(
        &mut self,
        candidates: &Vec<ProcessEntry>,
        sockets: &UnixSocketDiagnostics,
        budget: &mut ProcessScanBudget,
    ) -> (r: Result<Vec<u32>, MuxError>)
        requires
            old(budget).kept(),
        ensures
            final(budget).kept(),
            final(self).same_store(old(self)),
            extends(final(self).seen(), old(self).seen()),
            forall|w: Seq<HostEvent>|
                store_replay::agrees(w, final(self).host.events()) ==> #[trigger] store_replay::peer_inodes_from(
                    w,
                    old(self).host.events().len() as int,
                    old(budget).spent(),
                    candidates@,
                    0,
                    sockets@.peers,
                    Seq::empty(),
                ) == Some((descriptors::inodes_outcome(r), final(self).host.events().len() as int, final(budget).spent())),
    {
        let mut peers: Vec<u32> = Vec::new();
        let mut i: usize = 0;
        while i < candidates.len()
            invariant
                i <= candidates.len(),
                budget.kept(),
                self.same_store(old(self)),
                extends(self.seen(), old(self).seen()),
                forall|w: Seq<HostEvent>|
                    store_replay::agrees(w, self.host.events()) ==> #[trigger] store_replay::peer_inodes_from(
                        w,
                        old(self).host.events().len() as int,
                        old(budget).spent(),
                        candidates@,
                        0,
                        sockets@.peers,
                        Seq::empty(),
                    ) == store_replay::peer_inodes_from(
                        w,
                        self.host.events().len() as int,
                        budget.spent(),
                        candidates@,
                        i as int,
                        sockets@.peers,
                        peers@,
                    ),
            decreases candidates.len() - i,
        {
            let held = match self.sockets_of(candidates[i].pid, budget) {
                Ok(held) => held,
                Err(e) => return Err(e),
            };
            let ghost before = peers@;
            let mut k: usize = 0;
            while k < held.len()
                invariant
                    k <= held.len(),
                    store_replay::peers_from(held@, 0, sockets@.peers, before)
                        == store_replay::peers_from(held@, k as int, sockets@.peers, peers@),
                decreases held.len() - k,
            {
                if let Some(peer) = sockets.peers.get(&held[k]) {
                    if !holds_inode(&peers, *peer) {
                        peers.push(*peer);
                    }
                }
                k += 1;
            }
            i += 1;
        }
        Ok(peers)
    }

    /// The processes that hold one of some sockets.
    fn owners(
        &mut self,
        table: &Vec<ProcessEntry>,
        wanted: &Vec<u32>,
        budget: &mut ProcessScanBudget,
    ) -> (r: Result<Vec<SocketOwner>, MuxError>)
        requires
            old(budget).kept(),
        ensures
            final(budget).kept(),
            final(self).same_store(old(self)),
            extends(final(self).seen(), old(self).seen()),
            r matches Ok(found) ==> forall|i: int|
                0 <= i < found@.len() ==> wanted@.contains((#[trigger] found@[i]).inode),
            forall|w: Seq<HostEvent>|
                store_replay::agrees(w, final(self).host.events()) ==> #[trigger] store_replay::owners_from(
                    w,
                    old(self).host.events().len() as int,
                    old(budget).spent(),
                    table@,
                    0,
                    wanted@,
                    0,
                    Seq::empty(),
                ) == Some((listed(r), final(self).host.events().len() as int, final(budget).spent())),
    {
        let mut found: Vec<SocketOwner> = Vec::new();
        let mut visited: usize = 0;
        let mut i: usize = 0;
        while i < table.len()
            invariant
                i <= table.len(),
                budget.kept(),
                visited <= MAX_PROCESS_ENTRIES,
                self.same_store(old(self)),
                extends(self.seen(), old(self).seen()),
                forall|k: int|
                    0 <= k < found@.len() ==> wanted@.contains((#[trigger] found@[k]).inode),
                forall|w: Seq<HostEvent>|
                    store_replay::agrees(w, self.host.events()) ==> #[trigger] store_replay::owners_from(
                        w,
                        old(self).host.events().len() as int,
                        old(budget).spent(),
                        table@,
                        0,
                        wanted@,
                        0,
                        Seq::empty(),
                    ) == store_replay::owners_from(
                        w,
                        self.host.events().len() as int,
                        budget.spent(),
                        table@,
                        i as int,
                        wanted@,
                        visited as int,
                        found@,
                    ),
            decreases table.len() - i,
        {
            let pid: u32 = table[i].pid;
            if let Some(targets) = self.targets(pid) {
                let ghost here = self.host.events();
                let ghost paid = budget.spent();
                let ghost counted = visited as int;
                let ghost had = found@;
                let mut k: usize = 0;
                while k < targets.len()
                    invariant
                        k <= targets.len(),
                        budget.kept(),
                        visited <= MAX_PROCESS_ENTRIES,
                        self.same_store(old(self)),
                        store_replay::agrees(self.host.events(), here),
                        extends(self.seen(), old(self).seen()),
                        forall|w: Seq<HostEvent>|
                            store_replay::agrees(w, self.host.events()) ==> #[trigger] store_replay::owned_from(
                                w,
                                here.len() as int,
                                paid,
                                targets@,
                                0,
                                pid,
                                wanted@,
                                counted,
                                had,
                            ) == store_replay::owned_from(
                                w,
                                self.host.events().len() as int,
                                budget.spent(),
                                targets@,
                                k as int,
                                pid,
                                wanted@,
                                visited as int,
                                found@,
                            ),
                        forall|m: int|
                            0 <= m < found@.len() ==> wanted@.contains(
                                (#[trigger] found@[m]).inode,
                            ),
                    decreases targets.len() - k,
                {
                    let cancelled = self.is_cancelled();
                    if let Err(e) = budget.fd(cancelled) {
                        return Err(e);
                    }
                    if visited >= MAX_PROCESS_ENTRIES {
                        return Err(protocol("socket owner discovery exceeded its entry limit"));
                    }
                    visited += 1;
                    if let Some(inode) = owned_socket(&targets[k]) {
                        if holds_inode(wanted, inode) {
                            found.push(SocketOwner { inode, pid });
                        }
                    }
                    k += 1;
                }
            }
            i += 1;
        }
        Ok(found)
    }

    /// Whether a process is still who a table says it is.
    fn is_same(&mut self, pid: u32, identity: (u32, u64)) -> (r: bool)
        ensures
            final(self).same_store(old(self)),
            extends(final(self).seen(), old(self).seen()),
            forall|w: Seq<HostEvent>|
                store_replay::agrees(w, final(self).host.events()) ==> #[trigger] store_replay::same_at(
                    w,
                    old(self).host.events().len() as int,
                    pid,
                    identity,
                ) == Some((r, final(self).host.events().len() as int)),
    {
        match self.identity(pid) {
            Some(found) => found.0 == identity.0 && found.1 == identity.1,
            None => false,
        }
    }

    /// Whether a process still descends from the leader of a pane as a table has it.
    fn still_descends(
        &mut self,
        candidate: ProcessEntry,
        pane: u32,
        pane_identity: (u32, u64),
        table: &Vec<ProcessEntry>,
    ) -> (r: bool)
        ensures
            final(self).same_store(old(self)),
            extends(final(self).seen(), old(self).seen()),
            forall|w: Seq<HostEvent>|
                store_replay::agrees(w, final(self).host.events()) ==> #[trigger] store_replay::lineage_at(
                    w,
                    old(self).host.events().len() as int,
                    candidate,
                    pane,
                    pane_identity,
                    table@,
                ) == Some((r, final(self).host.events().len() as int)),
    {
        let identity = (candidate.parent, candidate.started);
        let Some(links) = chain_links(candidate.pid, identity, pane, pane_identity, table) else {
            return false;
        };
        let mut i: usize = 0;
        while i < links.len()
            invariant
                i <= links.len(),
                self.same_store(old(self)),
                extends(self.seen(), old(self).seen()),
                forall|w: Seq<HostEvent>|
                    store_replay::agrees(w, self.host.events()) ==> #[trigger] store_replay::links_hold_from(
                        w,
                        old(self).host.events().len() as int,
                        links@,
                        0,
                    ) == store_replay::links_hold_from(
                        w,
                        self.host.events().len() as int,
                        links@,
                        i as int,
                    ),
            decreases links.len() - i,
        {
            let link = links[i];
            if !self.is_same(link.pid, (link.parent, link.started)) {
                return false;
            }
            i += 1;
        }
        true
    }

    /// Whether a process still descends from the leader of a pane and runs a configured
    /// program.
    fn is_current(
        &mut self,
        candidate: ProcessEntry,
        pane: u32,
        pane_identity: (u32, u64),
        table: &Vec<ProcessEntry>,
    ) -> (r: bool)
        ensures
            final(self).same_store(old(self)),
            extends(final(self).seen(), old(self).seen()),
            forall|w: Seq<HostEvent>|
                store_replay::agrees(w, final(self).host.events()) ==> #[trigger] store_replay::current_at(
                    w,
                    old(self).host.events().len() as int,
                    candidate,
                    pane,
                    pane_identity,
                    table@,
                    old(self).settings(),
                ) == Some((r, final(self).host.events().len() as int)),
    {
        self.still_descends(candidate, pane, pane_identity, table) && self.executable_matches(
            candidate.pid,
        )
    }

    /// Whether a candidate and the process behind its socket are still connected as
    /// they were seen.
    fn still_connected(
        &mut self,
        candidate: ProcessEntry,
        peer: SocketOwner,
        peer_identity: (u32, u64),
        inode: u32,
        pane: u32,
        root_identity: (u32, u64),
        snapshot: &Snapshot,
        budget: &mut ProcessScanBudget,
    ) -> (r: Result<bool, MuxError>)
        requires
            old(budget).kept(),
        ensures
            final(budget).kept(),
            final(self).same_store(old(self)),
            extends(final(self).seen(), old(self).seen()),
            r == Ok::<bool, MuxError>(true) ==> exists|inodes: Seq<u32>| #[trigger]
                final(self).seen().contains(
                    Sighting::Sockets { pid: candidate.pid, inodes },
                ) && inodes.contains(inode),
            forall|w: Seq<HostEvent>|
                store_replay::agrees(w, final(self).host.events()) ==> #[trigger] store_replay::connected_at(
                    w,
                    old(self).host.events().len() as int,
                    old(budget).spent(),
                    (Quarry { candidate, pane, pane_identity: root_identity }),
                    peer,
                    peer_identity,
                    inode,
                    snapshot.table@,
                ) == Some((error::outcome(r), final(self).host.events().len() as int, final(budget).spent())),
    {
        if !self.is_same(peer.pid, peer_identity) {
            return Ok(false);
        }
        if !self.still_descends(candidate, pane, root_identity, &snapshot.table) {
            return Ok(false);
        }
        let mine = match self.sockets_of(candidate.pid, budget) {
            Ok(mine) => mine,
            Err(e) => return Err(e),
        };
        if !holds_inode(&mine, inode) {
            return Ok(false);
        }
        let theirs = match self.sockets_of(peer.pid, budget) {
            Ok(theirs) => theirs,
            Err(e) => return Err(e),
        };
        proof {
            assert(self.seen().contains(
                Sighting::Sockets { pid: candidate.pid, inodes: mine@ },
            ));
        }
        Ok(holds_inode(&theirs, peer.inode))
    }

    /// The threads that the owner of a peer socket records, where it serves the control
    /// socket and stays connected to a candidate.
    #[verifier::spinoff_prover]
    #[verifier::rlimit(60)]
    fn behind_peer(
        &mut self,
        candidate: ProcessEntry,
        owner: SocketOwner,
        owner_identity: (u32, u64),
        inode: u32,
        pane: u32,
        root_identity: (u32, u64),
        snapshot: &Snapshot,
        fresh: &UnixSocketDiagnostics,
        proc_unix: &str,
        budget: &mut ProcessScanBudget,
    ) -> (r: Result<Vec<String>, MuxError>)
        requires
            old(budget).kept(),
            is_candidate(
                old(self).seen(),
                snapshot.table@,
                pane,
                old(self).executables@,
                candidate.pid,
            ),
            known_peers(*snapshot).contains_key(inode),
            known_peers(*snapshot)[inode] == owner.inode,
            exists|inodes: Seq<u32>| #[trigger]
                old(self).seen().contains(
                    Sighting::Sockets { pid: candidate.pid, inodes },
                ) && inodes.contains(inode),
            snapshot@.fresh == Some(fresh@),
            snapshot@.proc_unix == Some(proc_unix@),
        ensures
            final(budget).kept(),
            final(self).same_store(old(self)),
            extends(final(self).seen(), old(self).seen()),
            r matches Ok(threads) ==> all_proven(
                final(self).seen(),
                snapshot.table@,
                pane,
                old(self).executables@,
                known_peers(*snapshot),
                text::texts(threads@),
            ),
            forall|w: Seq<HostEvent>|
                store_replay::agrees(w, final(self).host.events()) ==> #[trigger] store_replay::behind_peer_at(
                    w,
                    old(self).host.events().len() as int,
                    old(budget).spent(),
                    (Quarry { candidate, pane, pane_identity: root_identity }),
                    owner,
                    owner_identity,
                    inode,
                    snapshot@,
                    old(self).settings(),
                ) == Some((descriptors::threads_outcome(r), final(self).host.events().len() as int, final(budget).spent())),
    {
        let none = text::no_texts();
        match self.serves_control(owner.pid, owner.inode, fresh, proc_unix, budget) {
            Ok(true) => {},
            Ok(false) => return Ok(none),
            Err(e) => return Err(e),
        }
        let threads = match self.rollouts_of(owner.pid, budget) {
            Ok(threads) => threads,
            Err(e) => return Err(e),
        };
        match self.still_connected(
            candidate,
            owner,
            owner_identity,
            inode,
            pane,
            root_identity,
            snapshot,
            budget,
        ) {
            Ok(true) => {},
            Ok(false) => return Ok(none),
            Err(e) => return Err(e),
        }
        match self.serves_control(owner.pid, owner.inode, fresh, proc_unix, budget) {
            Ok(true) => {},
            Ok(false) => return Ok(none),
            Err(e) => return Err(e),
        }
        proof {
            server_proves(
                self.seen(),
                old(self).seen(),
                snapshot.table@,
                pane,
                old(self).executables@,
                known_peers(*snapshot),
                candidate.pid,
                owner,
                inode,
                text::texts(threads@),
            );
        }
        Ok(threads)
    }

    /// The threads that the control server behind one socket of a candidate records.
    fn behind_socket(
        &mut self,
        candidate: ProcessEntry,
        owner: SocketOwner,
        inode: u32,
        pane: u32,
        root_identity: (u32, u64),
        snapshot: &Snapshot,
        budget: &mut ProcessScanBudget,
    ) -> (r: Result<Vec<String>, MuxError>)
        requires
            old(budget).kept(),
            is_candidate(
                old(self).seen(),
                snapshot.table@,
                pane,
                old(self).executables@,
                candidate.pid,
            ),
            known_peers(*snapshot).contains_key(inode),
            known_peers(*snapshot)[inode] == owner.inode,
        ensures
            final(budget).kept(),
            final(self).same_store(old(self)),
            extends(final(self).seen(), old(self).seen()),
            r matches Ok(threads) ==> all_proven(
                final(self).seen(),
                snapshot.table@,
                pane,
                old(self).executables@,
                known_peers(*snapshot),
                text::texts(threads@),
            ),
            forall|w: Seq<HostEvent>|
                store_replay::agrees(w, final(self).host.events()) ==> #[trigger] store_replay::behind_at(
                    w,
                    old(self).host.events().len() as int,
                    old(budget).spent(),
                    (Quarry { candidate, pane, pane_identity: root_identity }),
                    owner,
                    inode,
                    snapshot@,
                    old(self).settings(),
                ) == Some((descriptors::threads_outcome(r), final(self).host.events().len() as int, final(budget).spent())),
    {
        let none = text::no_texts();
        let Some(owner_identity) = find_identity(&snapshot.table, owner.pid) else {
            return Ok(none);
        };
        let (Some(fresh), Some(proc_unix)) = (&snapshot.fresh, &snapshot.proc_unix) else {
            return Ok(none);
        };
        match self.still_connected(
            candidate,
            owner,
            owner_identity,
            inode,
            pane,
            root_identity,
            snapshot,
            budget,
        ) {
            Ok(true) => {},
            Ok(false) => return Ok(none),
            Err(e) => return Err(e),
        }
        let same_peer = match fresh.peers.get(&inode) {
            Some(peer) => *peer == owner.inode,
            None => false,
        };
        if !same_peer {
            return Ok(none);
        }
        proof {
            candidate_stays(
                self.seen(),
                old(self).seen(),
                snapshot.table@,
                pane,
                self.executables@,
                candidate.pid,
            );
        }
        self.behind_peer(
            candidate,
            owner,
            owner_identity,
            inode,
            pane,
            root_identity,
            snapshot,
            fresh,
            proc_unix,
            budget,
        )
    }

    /// Adds the threads behind one socket of a candidate, over the owners of its peer.
    #[verifier::spinoff_prover]
    #[verifier::rlimit(60)]
    fn behind_owners(
        &mut self,
        candidate: ProcessEntry,
        owners: &Vec<SocketOwner>,
        inode: u32,
        peer: u32,
        pane: u32,
        root_identity: (u32, u64),
        snapshot: &Snapshot,
        found: Vec<String>,
        budget: &mut ProcessScanBudget,
    ) -> (r: Result<Vec<String>, MuxError>)
        requires
            old(budget).kept(),
            is_candidate(
                old(self).seen(),
                snapshot.table@,
                pane,
                old(self).executables@,
                candidate.pid,
            ),
            known_peers(*snapshot).contains_key(inode),
            known_peers(*snapshot)[inode] == peer,
            all_proven(
                old(self).seen(),
                snapshot.table@,
                pane,
                old(self).executables@,
                known_peers(*snapshot),
                text::texts(found@),
            ),
            text::texts(found@).no_duplicates(),
        ensures
            final(budget).kept(),
            final(self).same_store(old(self)),
            extends(final(self).seen(), old(self).seen()),
            r matches Ok(threads) ==> all_proven(
                final(self).seen(),
                snapshot.table@,
                pane,
                old(self).executables@,
                known_peers(*snapshot),
                text::texts(threads@),
            ) && text::texts(threads@).no_duplicates(),
            forall|w: Seq<HostEvent>|
                store_replay::agrees(w, final(self).host.events()) ==> #[trigger] store_replay::behind_owners_from(
                    w,
                    old(self).host.events().len() as int,
                    old(budget).spent(),
                    (Quarry { candidate, pane, pane_identity: root_identity }),
                    owners@,
                    0,
                    inode,
                    peer,
                    snapshot@,
                    old(self).settings(),
                    text::texts(found@),
                ) == Some((descriptors::threads_outcome(r), final(self).host.events().len() as int, final(budget).spent())),
    {
        let ghost programs = self.executables@;
        let ghost peers = known_peers(*snapshot);
        let ghost q = Quarry { candidate, pane, pane_identity: root_identity };
        let mut all = found;
        let mut k: usize = 0;
        while k < owners.len()
            invariant
                k <= owners.len(),
                budget.kept(),
                self.same_store(old(self)),
                extends(self.seen(), old(self).seen()),
                programs == old(self).executables@,
                peers == known_peers(*snapshot),
                forall|w: Seq<HostEvent>|
                    store_replay::agrees(w, self.host.events()) ==> #[trigger] store_replay::behind_owners_from(
                        w,
                        old(self).host.events().len() as int,
                        old(budget).spent(),
                        q,
                        owners@,
                        0,
                        inode,
                        peer,
                        snapshot@,
                        old(self).settings(),
                        text::texts(found@),
                    ) == store_replay::behind_owners_from(
                        w,
                        self.host.events().len() as int,
                        budget.spent(),
                        q,
                        owners@,
                        k as int,
                        inode,
                        peer,
                        snapshot@,
                        old(self).settings(),
                        text::texts(all@),
                    ),
                is_candidate(self.seen(), snapshot.table@, pane, programs, candidate.pid),
                all_proven(
                    self.seen(),
                    snapshot.table@,
                    pane,
                    programs,
                    peers,
                    text::texts(all@),
                ),
                text::texts(all@).no_duplicates(),
            decreases owners.len() - k,
        {
            if owners[k].inode == peer {
                let ghost before = self.seen();
                let ghost earlier = text::texts(all@);
                let threads = match self.behind_socket(
                    candidate,
                    owners[k],
                    inode,
                    pane,
                    root_identity,
                    snapshot,
                    budget,
                ) {
                    Ok(threads) => threads,
                    Err(e) => return Err(e),
                };
                merge(&mut all, &threads);
                proof {
                    candidate_stays(
                        self.seen(),
                        before,
                        snapshot.table@,
                        pane,
                        programs,
                        candidate.pid,
                    );
                    proof_stays(
                        self.seen(),
                        before,
                        snapshot.table@,
                        pane,
                        programs,
                        peers,
                        earlier,
                    );
                    merged_proven(
                        self.seen(),
                        snapshot.table@,
                        pane,
                        programs,
                        peers,
                        earlier,
                        text::texts(threads@),
                        text::texts(all@),
                    );
                }
            }
            k += 1;
        }
        Ok(all)
    }

    /// The threads that the control servers behind the sockets of a candidate record.
    #[verifier::spinoff_prover]
    #[verifier::rlimit(60)]
    fn behind_sockets(
        &mut self,
        candidate: ProcessEntry,
        owners: &Vec<SocketOwner>,
        pane: u32,
        root_identity: (u32, u64),
        snapshot: &Snapshot,
        budget: &mut ProcessScanBudget,
    ) -> (r: Result<Vec<String>, MuxError>)
        requires
            old(budget).kept(),
            is_candidate(
                old(self).seen(),
                snapshot.table@,
                pane,
                old(self).executables@,
                candidate.pid,
            ),
        ensures
            final(budget).kept(),
            final(self).same_store(old(self)),
            extends(final(self).seen(), old(self).seen()),
            r matches Ok(threads) ==> all_proven(
                final(self).seen(),
                snapshot.table@,
                pane,
                old(self).executables@,
                known_peers(*snapshot),
                text::texts(threads@),
            ) && text::texts(threads@).no_duplicates(),
            forall|w: Seq<HostEvent>|
                store_replay::agrees(w, final(self).host.events()) ==> #[trigger] store_replay::behind_sockets_at(
                    w,
                    old(self).host.events().len() as int,
                    old(budget).spent(),
                    (Quarry { candidate, pane, pane_identity: root_identity }),
                    owners@,
                    snapshot@,
                    old(self).settings(),
                ) == Some((descriptors::threads_outcome(r), final(self).host.events().len() as int, final(budget).spent())),
    {
        let Some(sockets) = &snapshot.sockets else {
            return Ok(text::no_texts());
        };
        let held = match self.sockets_of(candidate.pid, budget) {
            Ok(held) => held,
            Err(e) => return Err(e),
        };
        let ghost programs = self.executables@;
        let ghost peers = known_peers(*snapshot);
        let ghost q = Quarry { candidate, pane, pane_identity: root_identity };
        let ghost here = self.host.events();
        let ghost paid = budget.spent();
        proof {
            candidate_stays(
                self.seen(),
                old(self).seen(),
                snapshot.table@,
                pane,
                programs,
                candidate.pid,
            );
        }
        let mut found = text::no_texts();
        let mut i: usize = 0;
        while i < held.len()
            invariant
                i <= held.len(),
                budget.kept(),
                self.same_store(old(self)),
                store_replay::agrees(self.host.events(), here),
                extends(self.seen(), old(self).seen()),
                programs == old(self).executables@,
                peers == known_peers(*snapshot),
                peers == sockets.peers@,
                forall|w: Seq<HostEvent>|
                    store_replay::agrees(w, self.host.events()) ==> #[trigger] store_replay::behind_held_from(
                        w,
                        here.len() as int,
                        paid,
                        q,
                        held@,
                        0,
                        owners@,
                        snapshot@,
                        old(self).settings(),
                        Seq::empty(),
                    ) == store_replay::behind_held_from(
                        w,
                        self.host.events().len() as int,
                        budget.spent(),
                        q,
                        held@,
                        i as int,
                        owners@,
                        snapshot@,
                        old(self).settings(),
                        text::texts(found@),
                    ),
                is_candidate(self.seen(), snapshot.table@, pane, programs, candidate.pid),
                all_proven(
                    self.seen(),
                    snapshot.table@,
                    pane,
                    programs,
                    peers,
                    text::texts(found@),
                ),
                text::texts(found@).no_duplicates(),
            decreases held.len() - i,
        {
            let inode: u32 = held[i];
            let peer: Option<u32> = match sockets.peers.get(&inode) {
                Some(peer) => Some(*peer),
                None => None,
            };
            if let Some(peer) = peer {
                let ghost before = self.seen();
                found = match self.behind_owners(
                    candidate,
                    owners,
                    inode,
                    peer,
                    pane,
                    root_identity,
                    snapshot,
                    found,
                    budget,
                ) {
                    Ok(found) => found,
                    Err(e) => return Err(e),
                };
                proof {
                    candidate_stays(
                        self.seen(),
                        before,
                        snapshot.table@,
                        pane,
                        programs,
                        candidate.pid,
                    );
                }
            }
            i += 1;
        }
        Ok(found)
    }

    /// The threads of the rollouts that a candidate records itself, where it is still
    /// the same process before and after they are read.
    fn recorded_by(
        &mut self,
        candidate: ProcessEntry,
        pane: u32,
        root_identity: (u32, u64),
        snapshot: &Snapshot,
        budget: &mut ProcessScanBudget,
    ) -> (r: Result<Vec<String>, MuxError>)
        requires
            old(budget).kept(),
            is_candidate(
                old(self).seen(),
                snapshot.table@,
                pane,
                old(self).executables@,
                candidate.pid,
            ),
        ensures
            final(budget).kept(),
            final(self).same_store(old(self)),
            extends(final(self).seen(), old(self).seen()),
            r matches Ok(threads) ==> all_proven(
                final(self).seen(),
                snapshot.table@,
                pane,
                old(self).executables@,
                known_peers(*snapshot),
                text::texts(threads@),
            ),
            forall|w: Seq<HostEvent>|
                store_replay::agrees(w, final(self).host.events()) ==> #[trigger] store_replay::recorded_at(
                    w,
                    old(self).host.events().len() as int,
                    old(budget).spent(),
                    (Quarry { candidate, pane, pane_identity: root_identity }),
                    snapshot.table@,
                    old(self).settings(),
                ) == Some((descriptors::threads_outcome(r), final(self).host.events().len() as int, final(budget).spent())),
    {
        let none = text::no_texts();
        if !self.is_current(candidate, pane, root_identity, &snapshot.table) {
            return Ok(none);
        }
        let threads = match self.rollouts_of(candidate.pid, budget) {
            Ok(threads) => threads,
            Err(e) => return Err(e),
        };
        if !self.is_current(candidate, pane, root_identity, &snapshot.table) {
            return Ok(none);
        }
        proof {
            let now = self.seen();
            let programs = old(self).executables@;
            let peers = known_peers(*snapshot);
            candidate_stays(
                now,
                old(self).seen(),
                snapshot.table@,
                pane,
                programs,
                candidate.pid,
            );
            let ids = text::texts(threads@);
            assert(now.contains(Sighting::Rollouts { pid: candidate.pid, threads: ids }));
            assert forall|i: int| 0 <= i < ids.len() implies is_proven(
                now,
                snapshot.table@,
                pane,
                programs,
                peers,
                #[trigger] ids[i],
            ) by {
                assert(ids.contains(ids[i]));
                assert(records(now, candidate.pid, ids[i]));
                assert(proves(
                    now,
                    snapshot.table@,
                    pane,
                    programs,
                    peers,
                    candidate.pid,
                    candidate.pid,
                    ids[i],
                ));
            }
        }
        Ok(threads)
    }

    /// The processes that own the peers of the sockets of some candidates.
    fn owners_behind(
        &mut self,
        candidates: &Vec<ProcessEntry>,
        snapshot: &Snapshot,
        budget: &mut ProcessScanBudget,
    ) -> (r: Result<Vec<SocketOwner>, MuxError>)
        requires
            old(budget).kept(),
        ensures
            final(budget).kept(),
            final(self).same_store(old(self)),
            extends(final(self).seen(), old(self).seen()),
            forall|w: Seq<HostEvent>|
                store_replay::agrees(w, final(self).host.events()) ==> #[trigger] store_replay::owners_at(
                    w,
                    old(self).host.events().len() as int,
                    old(budget).spent(),
                    candidates@,
                    snapshot@,
                ) == Some((listed(r), final(self).host.events().len() as int, final(budget).spent())),
    {
        let Some(sockets) = &snapshot.sockets else {
            return Ok(Vec::new());
        };
        let wanted = match self.peer_inodes(candidates, sockets, budget) {
            Ok(wanted) => wanted,
            Err(e) => return Err(e),
        };
        if wanted.len() == 0 {
            return Ok(Vec::new());
        }
        self.owners(&snapshot.table, &wanted, budget)
    }

    /// The threads behind the sockets of some candidates, and the candidates that
    /// record something themselves.
    #[verifier::spinoff_prover]
    #[verifier::rlimit(60)]
    fn first_look(
        &mut self,
        candidates: &Vec<ProcessEntry>,
        leader: u32,
        identity: (u32, u64),
        owners: &Vec<SocketOwner>,
        snapshot: &Snapshot,
        budget: &mut ProcessScanBudget,
    ) -> (r: Result<(Vec<String>, Vec<ProcessEntry>), MuxError>)
        requires
            old(budget).kept(),
            forall|k: int|
                0 <= k < candidates@.len() ==> is_candidate(
                    old(self).seen(),
                    snapshot.table@,
                    leader,
                    old(self).executables@,
                    (#[trigger] candidates@[k]).pid,
                ),
        ensures
            final(budget).kept(),
            final(self).same_store(old(self)),
            extends(final(self).seen(), old(self).seen()),
            r matches Ok((found, direct)) ==> all_proven(
                final(self).seen(),
                snapshot.table@,
                leader,
                old(self).executables@,
                known_peers(*snapshot),
                text::texts(found@),
            ) && text::texts(found@).no_duplicates() && forall|k: int|
                0 <= k < direct@.len() ==> is_candidate(
                    old(self).seen(),
                    snapshot.table@,
                    leader,
                    old(self).executables@,
                    (#[trigger] direct@[k]).pid,
                ),
            forall|w: Seq<HostEvent>|
                store_replay::agrees(w, final(self).host.events()) ==> #[trigger] store_replay::first_look_from(
                    w,
                    old(self).host.events().len() as int,
                    old(budget).spent(),
                    candidates@,
                    0,
                    leader,
                    identity,
                    owners@,
                    snapshot@,
                    old(self).settings(),
                    Seq::empty(),
                    Seq::empty(),
                ) == Some((looked(r), final(self).host.events().len() as int, final(budget).spent())),
    {
        let ghost programs = self.executables@;
        let mut found = text::no_texts();
        let mut direct: Vec<ProcessEntry> = Vec::new();
        let mut i: usize = 0;
        while i < candidates.len()
            invariant
                i <= candidates.len(),
                budget.kept(),
                self.same_store(old(self)),
                extends(self.seen(), old(self).seen()),
                programs == old(self).executables@,
                forall|w: Seq<HostEvent>|
                    store_replay::agrees(w, self.host.events()) ==> #[trigger] store_replay::first_look_from(
                        w,
                        old(self).host.events().len() as int,
                        old(budget).spent(),
                        candidates@,
                        0,
                        leader,
                        identity,
                        owners@,
                        snapshot@,
                        old(self).settings(),
                        Seq::empty(),
                        Seq::empty(),
                    ) == store_replay::first_look_from(
                        w,
                        self.host.events().len() as int,
                        budget.spent(),
                        candidates@,
                        i as int,
                        leader,
                        identity,
                        owners@,
                        snapshot@,
                        old(self).settings(),
                        text::texts(found@),
                        direct@,
                    ),
                forall|k: int|
                    0 <= k < direct@.len() ==> is_candidate(
                        old(self).seen(),
                        snapshot.table@,
                        leader,
                        programs,
                        (#[trigger] direct@[k]).pid,
                    ),
                all_proven(
                    self.seen(),
                    snapshot.table@,
                    leader,
                    programs,
                    known_peers(*snapshot),
                    text::texts(found@),
                ),
                text::texts(found@).no_duplicates(),
            decreases candidates.len() - i,
        {
            let candidate = candidates[i];
            let ghost before = self.seen();
            let ghost earlier = text::texts(found@);
            let held = match self.rollouts_of(candidate.pid, budget) {
                Ok(held) => held,
                Err(e) => return Err(e),
            };
            if self.is_current(candidate, leader, identity, &snapshot.table) {
                proof {
                    candidate_stays(
                        self.seen(),
                        old(self).seen(),
                        snapshot.table@,
                        leader,
                        programs,
                        candidate.pid,
                    );
                }
                let threads = match self.behind_sockets(
                    candidate,
                    owners,
                    leader,
                    identity,
                    snapshot,
                    budget,
                ) {
                    Ok(threads) => threads,
                    Err(e) => return Err(e),
                };
                if held.len() > 0 {
                    direct.push(candidate);
                }
                merge(&mut found, &threads);
                proof {
                    proof_stays(
                        self.seen(),
                        before,
                        snapshot.table@,
                        leader,
                        programs,
                        known_peers(*snapshot),
                        earlier,
                    );
                    merged_proven(
                        self.seen(),
                        snapshot.table@,
                        leader,
                        programs,
                        known_peers(*snapshot),
                        earlier,
                        text::texts(threads@),
                        text::texts(found@),
                    );
                }
            } else {
                proof {
                    proof_stays(
                        self.seen(),
                        before,
                        snapshot.table@,
                        leader,
                        programs,
                        known_peers(*snapshot),
                        earlier,
                    );
                }
            }
            i += 1;
        }
        Ok((found, direct))
    }

    /// Adds what some candidates record themselves.
    #[verifier::spinoff_prover]
    #[verifier::rlimit(60)]
    fn add_direct(
        &mut self,
        direct: &Vec<ProcessEntry>,
        leader: u32,
        identity: (u32, u64),
        snapshot: &Snapshot,
        found: Vec<String>,
        budget: &mut ProcessScanBudget,
    ) -> (r: Result<Vec<String>, MuxError>)
        requires
            old(budget).kept(),
            forall|k: int|
                0 <= k < direct@.len() ==> is_candidate(
                    old(self).seen(),
                    snapshot.table@,
                    leader,
                    old(self).executables@,
                    (#[trigger] direct@[k]).pid,
                ),
            all_proven(
                old(self).seen(),
                snapshot.table@,
                leader,
                old(self).executables@,
                known_peers(*snapshot),
                text::texts(found@),
            ),
            text::texts(found@).no_duplicates(),
        ensures
            final(budget).kept(),
            final(self).same_store(old(self)),
            extends(final(self).seen(), old(self).seen()),
            r matches Ok(all) ==> all_proven(
                final(self).seen(),
                snapshot.table@,
                leader,
                old(self).executables@,
                known_peers(*snapshot),
                text::texts(all@),
            ) && text::texts(all@).no_duplicates(),
            forall|w: Seq<HostEvent>|
                store_replay::agrees(w, final(self).host.events()) ==> #[trigger] store_replay::direct_from(
                    w,
                    old(self).host.events().len() as int,
                    old(budget).spent(),
                    direct@,
                    0,
                    leader,
                    identity,
                    snapshot.table@,
                    old(self).settings(),
                    text::texts(found@),
                ) == Some((descriptors::threads_outcome(r), final(self).host.events().len() as int, final(budget).spent())),
    {
        let ghost programs = self.executables@;
        let mut all = found;
        let mut k: usize = 0;
        while k < direct.len()
            invariant
                k <= direct.len(),
                budget.kept(),
                self.same_store(old(self)),
                extends(self.seen(), old(self).seen()),
                programs == old(self).executables@,
                forall|w: Seq<HostEvent>|
                    store_replay::agrees(w, self.host.events()) ==> #[trigger] store_replay::direct_from(
                        w,
                        old(self).host.events().len() as int,
                        old(budget).spent(),
                        direct@,
                        0,
                        leader,
                        identity,
                        snapshot.table@,
                        old(self).settings(),
                        text::texts(found@),
                    ) == store_replay::direct_from(
                        w,
                        self.host.events().len() as int,
                        budget.spent(),
                        direct@,
                        k as int,
                        leader,
                        identity,
                        snapshot.table@,
                        old(self).settings(),
                        text::texts(all@),
                    ),
                all_proven(
                    self.seen(),
                    snapshot.table@,
                    leader,
                    programs,
                    known_peers(*snapshot),
                    text::texts(all@),
                ),
                text::texts(all@).no_duplicates(),
            decreases direct.len() - k,
        {
            let ghost before = self.seen();
            let ghost earlier = text::texts(all@);
            proof {
                candidate_stays(
                    before,
                    old(self).seen(),
                    snapshot.table@,
                    leader,
                    programs,
                    direct@[k as int].pid,
                );
            }
            let threads = match self.recorded_by(direct[k], leader, identity, snapshot, budget) {
                Ok(threads) => threads,
                Err(e) => return Err(e),
            };
            merge(&mut all, &threads);
            proof {
                proof_stays(
                    self.seen(),
                    before,
                    snapshot.table@,
                    leader,
                    programs,
                    known_peers(*snapshot),
                    earlier,
                );
                merged_proven(
                    self.seen(),
                    snapshot.table@,
                    leader,
                    programs,
                    known_peers(*snapshot),
                    earlier,
                    text::texts(threads@),
                    text::texts(all@),
                );
            }
            k += 1;
        }
        Ok(all)
    }

    /// The thread of a pane, in a snapshot of the processes.
    #[verifier::spinoff_prover]
    #[verifier::rlimit(60)]
    pub fn resolve_in_snapshot(
        &mut self,
        leader: u32,
        snapshot: &Snapshot,
        budget: &mut ProcessScanBudget,
    ) -> (r: Result<Option<String>, MuxError>)
        requires
            old(budget).kept(),
        ensures
            final(budget).kept(),
            final(self).same_store(old(self)),
            extends(final(self).seen(), old(self).seen()),
            forall|w: Seq<HostEvent>|
                store_replay::agrees(w, final(self).host.events()) ==> #[trigger] store_replay::thread_at(
                    w,
                    old(self).host.events().len() as int,
                    old(budget).spent(),
                    leader,
                    snapshot@,
                    old(self).settings(),
                ) == Some((descriptors::thread_outcome(r), final(self).host.events().len() as int, final(budget).spent())),
            r matches Ok(Some(id)) ==> is_proven(
                final(self).seen(),
                snapshot.table@,
                leader,
                old(self).executables@,
                known_peers(*snapshot),
                id@,
            ),
    {
        let Some(identity) = find_identity(&snapshot.table, leader) else {
            return Ok(None);
        };
        let candidates = self.candidates(leader, &snapshot.table);
        let ghost at_start = self.seen();
        let owners = match self.owners_behind(&candidates, snapshot, budget) {
            Ok(owners) => owners,
            Err(e) => return Err(e),
        };
        proof {
            assert forall|k: int| 0 <= k < candidates@.len() implies is_candidate(
                self.seen(),
                snapshot.table@,
                leader,
                self.executables@,
                (#[trigger] candidates@[k]).pid,
            ) by {
                candidate_stays(
                    self.seen(),
                    at_start,
                    snapshot.table@,
                    leader,
                    self.executables@,
                    candidates@[k].pid,
                );
            }
        }
        let ghost looked_from = self.seen();
        let (found, direct) = match self.first_look(
            &candidates,
            leader,
            identity,
            &owners,
            snapshot,
            budget,
        ) {
            Ok((found, direct)) => (found, direct),
            Err(e) => return Err(e),
        };
        proof {
            assert forall|k: int| 0 <= k < direct@.len() implies is_candidate(
                self.seen(),
                snapshot.table@,
                leader,
                self.executables@,
                (#[trigger] direct@[k]).pid,
            ) by {
                candidate_stays(
                    self.seen(),
                    looked_from,
                    snapshot.table@,
                    leader,
                    self.executables@,
                    direct@[k].pid,
                );
            }
        }
        let all = match self.add_direct(&direct, leader, identity, snapshot, found, budget) {
            Ok(all) => all,
            Err(e) => return Err(e),
        };
        let ghost proved = self.seen();
        if self.is_cancelled() {
            return Err(MuxError::Cancelled);
        }
        if !self.is_same(leader, identity) {
            return Ok(None);
        }
        let r = sole(&all);
        proof {
            proof_stays(
                self.seen(),
                proved,
                snapshot.table@,
                leader,
                self.executables@,
                known_peers(*snapshot),
                text::texts(all@),
            );
            if r is Ok && r->Ok_0 is Some {
                assert(r->Ok_0->0@ == text::texts(all@)[0]);
            }
        }
        r
    }

    /// Whether some process of some panes has a socket with a known peer.
    pub fn has_peer_candidates(
        &mut self,
        leaders: &Vec<u32>,
        table: &Vec<ProcessEntry>,
        sockets: &UnixSocketDiagnostics,
        budget: &mut ProcessScanBudget,
    ) -> (r: Result<bool, MuxError>)
        requires
            old(budget).kept(),
        ensures
            final(budget).kept(),
            final(self).same_store(old(self)),
            extends(final(self).seen(), old(self).seen()),
            r == Ok::<bool, MuxError>(true) ==> exists|pid: u32, inodes: Seq<u32>, inode: u32|
                #![trigger final(self).seen().contains(Sighting::Sockets { pid, inodes }),
                    inodes.contains(inode)]
                final(self).seen().contains(Sighting::Sockets { pid, inodes }) && inodes.contains(
                    inode,
                ) && sockets.peers@.contains_key(inode),
            forall|w: Seq<HostEvent>|
                store_replay::agrees(w, final(self).host.events()) ==> #[trigger] store_replay::has_peer_from(
                    w,
                    old(self).host.events().len() as int,
                    old(budget).spent(),
                    leaders@,
                    table@,
                    0,
                    sockets@.peers,
                    old(self).settings(),
                ) == Some((error::outcome(r), final(self).host.events().len() as int, final(budget).spent())),
    {
        let mut i: usize = 0;
        while i < table.len()
            invariant
                i <= table.len(),
                budget.kept(),
                self.same_store(old(self)),
                extends(self.seen(), old(self).seen()),
                forall|w: Seq<HostEvent>|
                    store_replay::agrees(w, self.host.events()) ==> #[trigger] store_replay::has_peer_from(
                        w,
                        old(self).host.events().len() as int,
                        old(budget).spent(),
                        leaders@,
                        table@,
                        0,
                        sockets@.peers,
                        old(self).settings(),
                    ) == store_replay::has_peer_from(
                        w,
                        self.host.events().len() as int,
                        budget.spent(),
                        leaders@,
                        table@,
                        i as int,
                        sockets@.peers,
                        old(self).settings(),
                    ),
            decreases table.len() - i,
        {
            let pid: u32 = table[i].pid;
            if in_some_pane(pid, leaders, table) && self.executable_matches(pid) {
                let held = match self.sockets_of(pid, budget) {
                    Ok(held) => held,
                    Err(e) => return Err(e),
                };
                let mut k: usize = 0;
                while k < held.len()
                    invariant
                        k <= held.len(),
                        forall|m: int|
                            0 <= m < k ==> !sockets@.peers.contains_key(#[trigger] held@[m]),
                    decreases held.len() - k,
                {
                    if sockets.peers.contains_key(&held[k]) {
                        proof {
                            assert(self.seen().contains(
                                Sighting::Sockets { pid, inodes: held@ },
                            ));
                            assert(held@.contains(held@[k as int]));
                        }
                        return Ok(true);
                    }
                    k += 1;
                }
            }
            i += 1;
        }
        Ok(false)
    }

    /// The unix sockets, where they can be asked for.
    fn ask_sockets(&mut self, budget: &mut ProcessScanBudget) -> (r: Result<
        Option<UnixSocketDiagnostics>,
        MuxError,
    >)
        requires
            old(budget).kept(),
        ensures
            final(budget).kept(),
            final(self).same_store(old(self)),
            extends(final(self).seen(), old(self).seen()),
            forall|w: Seq<HostEvent>|
                store_replay::agrees(w, final(self).host.events()) ==> #[trigger] store_replay::ask_at(
                    w,
                    old(self).host.events().len() as int,
                    old(budget).spent(),
                ) == Some((asked(r), final(self).host.events().len() as int, final(budget).spent())),
    {
        match self.unix_sockets() {
            Ok(sockets) => {
                let cancelled = self.is_cancelled();
                match budget.bytes(cancelled, sockets.scanned_bytes) {
                    Ok(_) => Ok(Some(sockets)),
                    Err(e) => Err(e),
                }
            },
            Err(MuxError::Cancelled) => Err(MuxError::Cancelled),
            Err(_) => Ok(None),
        }
    }

    /// The kernel's list of unix sockets.
    fn read_unix_list(&mut self, budget: &mut ProcessScanBudget) -> (r: Result<String, MuxError>)
        requires
            old(budget).kept(),
        ensures
            final(budget).kept(),
            final(self).same_store(old(self)),
            extends(final(self).seen(), old(self).seen()),
            forall|w: Seq<HostEvent>|
                store_replay::agrees(w, final(self).host.events()) ==> #[trigger] store_replay::list_at(
                    w,
                    old(self).host.events().len() as int,
                    old(budget).spent(),
                ) == Some((read(r), final(self).host.events().len() as int, final(budget).spent())),
    {
        let bytes = match self.unix_list() {
            Ok(bytes) => bytes,
            Err(e) => return Err(e),
        };
        let cancelled = self.is_cancelled();
        if let Err(e) = budget.bytes(cancelled, bytes.len() as u64) {
            return Err(e);
        }
        match read_utf8(&bytes) {
            Some(t) => Ok(t),
            None => Err(protocol("/proc/net/unix was not valid UTF-8")),
        }
    }

    /// Takes a snapshot for some panes. The sockets are asked for once more, with the
    /// kernel's list of them, only where a process of the panes has a peer.
    pub fn take_snapshot(&mut self, leaders: &Vec<u32>, budget: &mut ProcessScanBudget) -> (r: Result<
        Snapshot,
        MuxError,
    >)
        requires
            old(budget).kept(),
        ensures
            final(budget).kept(),
            final(self).same_store(old(self)),
            extends(final(self).seen(), old(self).seen()),
            r matches Ok(snapshot) ==> (snapshot.proc_unix is Some <==> snapshot.fresh is Some)
                && (snapshot.sockets is None ==> snapshot.fresh is None),
            forall|w: Seq<HostEvent>|
                store_replay::agrees(w, final(self).host.events()) ==> #[trigger] store_replay::snapshot_at(
                    w,
                    old(self).host.events().len() as int,
                    old(budget).spent(),
                    leaders@,
                    old(self).settings(),
                ) == Some((snapshot_view(r), final(self).host.events().len() as int, final(budget).spent())),
    {
        if self.is_cancelled() {
            return Err(MuxError::Cancelled);
        }
        let entries = match self.process_entries() {
            Ok(entries) => entries,
            Err(e) => return Err(e),
        };
        let table = match process_snapshot(&entries) {
            Ok(table) => table,
            Err(e) => return Err(e),
        };
        let sockets = match self.ask_sockets(budget) {
            Ok(sockets) => sockets,
            Err(e) => return Err(e),
        };
        let needed = match &sockets {
            Some(sockets) => match self.has_peer_candidates(leaders, &table, sockets, budget) {
                Ok(needed) => needed,
                Err(e) => return Err(e),
            },
            None => false,
        };
        if !needed {
            return Ok(Snapshot { table, sockets, fresh: None, proc_unix: None });
        }
        match self.ask_sockets(budget) {
            Err(e) => Err(e),
            Ok(None) => Ok(Snapshot { table, sockets, fresh: None, proc_unix: None }),
            Ok(Some(fresh)) => match self.read_unix_list(budget) {
                Err(e) => Err(e),
                Ok(list) => Ok(
                    Snapshot { table, sockets, fresh: Some(fresh), proc_unix: Some(list) },
                ),
            },
        }
    }

    /// The threads of some panes.
    pub fn resolve_panes(&mut self, leaders: &Vec<u32>) -> (r: Result<Vec<Option<String>>, MuxError>)
        ensures
            final(self).same_store(old(self)),
            extends(final(self).seen(), old(self).seen()),
            r matches Ok(found) ==> found@.len() == leaders@.len() && forall|i: int|
                0 <= i < leaders@.len() ==> (#[trigger] found@[i] matches Some(id)
                    ==> is_proven_somewhere(
                    final(self).seen(),
                    leaders@[i],
                    old(self).executables@,
                    id@,
                )),
            forall|w: Seq<HostEvent>|
                store_replay::agrees(w, final(self).host.events()) ==> #[trigger] store_replay::panes_at(
                    w,
                    old(self).host.events().len() as int,
                    leaders@,
                    old(self).settings(),
                ) == Some((panes_outcome(r), final(self).host.events().len() as int)),
    {
        let mut budget = ProcessScanBudget::new();
        let snapshot = match self.take_snapshot(leaders, &mut budget) {
            Ok(snapshot) => snapshot,
            Err(e) => return Err(e),
        };
        let r = self.resolve_all(leaders, &snapshot, &mut budget);
        proof {
            if r is Ok {
                let found = r->Ok_0@;
                assert forall|i: int| 0 <= i < leaders@.len() implies (#[trigger] found[i] matches Some(
                    id,
                ) ==> is_proven_somewhere(
                    self.seen(),
                    leaders@[i],
                    old(self).executables@,
                    id@,
                )) by {
                    if found[i] is Some {
                        assert(is_proven(
                            self.seen(),
                            snapshot.table@,
                            leaders@[i],
                            old(self).executables@,
                            known_peers(snapshot),
                            found[i]->0@,
                        ));
                    }
                }
            }
        }
        r
    }

    /// The thread of a pane: the one root conversation that its processes record.
    pub fn resolve(&mut self, pane: &Pane) -> (r: Result<Option<String>, MuxError>)
        ensures
            final(self).same_store(old(self)),
            extends(final(self).seen(), old(self).seen()),
            r matches Ok(Some(id)) ==> is_proven_somewhere(
                final(self).seen(),
                pane.pane_pid,
                old(self).executables@,
                id@,
            ),
            forall|w: Seq<HostEvent>|
                store_replay::agrees(w, final(self).host.events()) ==> #[trigger] store_replay::pane_at(
                    w,
                    old(self).host.events().len() as int,
                    pane.pane_pid,
                    old(self).settings(),
                ) == Some((descriptors::thread_outcome(r), final(self).host.events().len() as int)),
    {
        let mut leaders: Vec<u32> = Vec::new();
        leaders.push(pane.pane_pid);
        match self.resolve_panes(&leaders) {
            Err(e) => Err(e),
            Ok(mut found) => {
                let ghost all = found@;
                let last = found.pop();
                proof {
                    assert(all[0] == last->0);
                    assert(leaders@ =~= seq![pane.pane_pid]);
                    assert(panes_view(all)[0] == text::option_view(last->0));
                }
                match last {
                    Some(id) => Ok(id),
                    None => Ok(None),
                }
            },
        }
    }

    /// The threads of some panes, in one snapshot of the processes.
    pub fn resolve_all(
        &mut self,
        leaders: &Vec<u32>,
        snapshot: &Snapshot,
        budget: &mut ProcessScanBudget,
    ) -> (r: Result<Vec<Option<String>>, MuxError>)
        requires
            old(budget).kept(),
        ensures
            final(budget).kept(),
            final(self).same_store(old(self)),
            extends(final(self).seen(), old(self).seen()),
            r matches Ok(found) ==> found@.len() == leaders@.len() && forall|i: int|
                0 <= i < leaders@.len() ==> (#[trigger] found@[i] matches Some(id) ==> is_proven(
                    final(self).seen(),
                    snapshot.table@,
                    leaders@[i],
                    old(self).executables@,
                    known_peers(*snapshot),
                    id@,
                )),
            forall|w: Seq<HostEvent>|
                store_replay::agrees(w, final(self).host.events()) ==> #[trigger] store_replay::threads_from(
                    w,
                    old(self).host.events().len() as int,
                    old(budget).spent(),
                    leaders@,
                    0,
                    snapshot@,
                    old(self).settings(),
                    Seq::empty(),
                ) == Some((panes_outcome(r), final(self).host.events().len() as int, final(budget).spent())),
    {
        let mut found: Vec<Option<String>> = Vec::new();
        assert(panes_view(found@) =~= Seq::empty());
        let mut i: usize = 0;
        while i < leaders.len()
            invariant
                i <= leaders.len(),
                found@.len() == i,
                budget.kept(),
                self.same_store(old(self)),
                extends(self.seen(), old(self).seen()),
                forall|w: Seq<HostEvent>|
                    store_replay::agrees(w, self.host.events()) ==> #[trigger] store_replay::threads_from(
                        w,
                        old(self).host.events().len() as int,
                        old(budget).spent(),
                        leaders@,
                        0,
                        snapshot@,
                        old(self).settings(),
                        Seq::empty(),
                    ) == store_replay::threads_from(
                        w,
                        self.host.events().len() as int,
                        budget.spent(),
                        leaders@,
                        i as int,
                        snapshot@,
                        old(self).settings(),
                        panes_view(found@),
                    ),
                forall|k: int|
                    0 <= k < i ==> (#[trigger] found@[k] matches Some(id) ==> is_proven(
                        self.seen(),
                        snapshot.table@,
                        leaders@[k],
                        old(self).executables@,
                        known_peers(*snapshot),
                        id@,
                    )),
            decreases leaders.len() - i,
        {
            let ghost before = self.seen();
            match self.resolve_in_snapshot(leaders[i], snapshot, budget) {
                Err(e) => return Err(e),
                Ok(id) => {
                    proof {
                        assert forall|k: int| 0 <= k < i implies (#[trigger] found@[k] matches Some(
                            id,
                        ) ==> is_proven(
                            self.seen(),
                            snapshot.table@,
                            leaders@[k],
                            old(self).executables@,
                            known_peers(*snapshot),
                            id@,
                        )) by {
                            if let Some(id) = found@[k] {
                                let ids = seq![id@];
                                assert(is_proven(
                                    before,
                                    snapshot.table@,
                                    leaders@[k],
                                    old(self).executables@,
                                    known_peers(*snapshot),
                                    ids[0],
                                ));
                                proof_stays(
                                    self.seen(),
                                    before,
                                    snapshot.table@,
                                    leaders@[k],
                                    old(self).executables@,
                                    known_peers(*snapshot),
                                    ids,
                                );
                                assert(is_proven(
                                    self.seen(),
                                    snapshot.table@,
                                    leaders@[k],
                                    old(self).executables@,
                                    known_peers(*snapshot),
                                    ids[0],
                                ));
                            }
                        }
                    }
                    let ghost had = panes_view(found@);
                    let ghost view = text::option_view(id);
                    found.push(id);
                    assert(panes_view(found@) =~= had.push(view));
                },
            }
            i += 1;
        }
        Ok(found)
    }
}

fn in_some_pane(pid: u32, leaders: &Vec<u32>, table: &Vec<ProcessEntry>) -> (r: bool)
    ensures
        r == store_replay::in_some_pane(table@, pid, leaders@),
{
    let mut i: usize = 0;
    while i < leaders.len()
        invariant
            i <= leaders.len(),
            forall|k: int|
                0 <= k < i ==> !processes::is_descendant(
                    table@,
                    pid,
                    #[trigger] leaders@[k],
                ),
        decreases leaders.len() - i,
    {
        if descends_from(pid, leaders[i], table) {
            return true;
        }
        i += 1;
    }
    false
}

proof fn server_proves(
    now: Set<Sighting>,
    earlier: Set<Sighting>,
    table: Seq<ProcessEntry>,
    pane: u32,
    programs: Seq<(u64, u64)>,
    peers: Map<u32, u32>,
    candidate: u32,
    owner: SocketOwner,
    inode: u32,
    ids: Seq<Seq<char>>,
)
    requires
        extends(now, earlier),
        is_candidate(earlier, table, pane, programs, candidate),
        exists|inodes: Seq<u32>| #[trigger]
            earlier.contains(Sighting::Sockets { pid: candidate, inodes }) && inodes.contains(
                inode,
            ),
        peers.contains_key(inode),
        peers[inode] == owner.inode,
        now.contains(Sighting::Control { pid: owner.pid, inode: owner.inode }),
        now.contains(Sighting::Rollouts { pid: owner.pid, threads: ids }),
    ensures
        all_proven(now, table, pane, programs, peers, ids),
{
    candidate_stays(now, earlier, table, pane, programs, candidate);
    let inodes = choose|inodes: Seq<u32>| #[trigger]
        earlier.contains(Sighting::Sockets { pid: candidate, inodes }) && inodes.contains(inode);
    assert(now.contains(Sighting::Sockets { pid: candidate, inodes }));
    assert(inodes.contains(inode));
    assert(controls(now, peers, candidate, owner.pid));
    assert forall|i: int| 0 <= i < ids.len() implies is_proven(
        now,
        table,
        pane,
        programs,
        peers,
        #[trigger] ids[i],
    ) by {
        assert(ids.contains(ids[i]));
        assert(records(now, owner.pid, ids[i]));
        assert(proves(now, table, pane, programs, peers, candidate, owner.pid, ids[i]));
    }
}

proof fn merged_proven(
    seen: Set<Sighting>,
    table: Seq<ProcessEntry>,
    pane: u32,
    programs: Seq<(u64, u64)>,
    peers: Map<u32, u32>,
    a: Seq<Seq<char>>,
    b: Seq<Seq<char>>,
    both: Seq<Seq<char>>,
)
    requires
        all_proven(seen, table, pane, programs, peers, a),
        all_proven(seen, table, pane, programs, peers, b),
        forall|t: Seq<char>| #[trigger] both.contains(t) <==> a.contains(t) || b.contains(t),
    ensures
        all_proven(seen, table, pane, programs, peers, both),
{
    assert forall|i: int| 0 <= i < both.len() implies is_proven(
        seen,
        table,
        pane,
        programs,
        peers,
        #[trigger] both[i],
    ) by {
        let t = both[i];
        assert(both.contains(t));
        if a.contains(t) {
            let k = choose|k: int| 0 <= k < a.len() && a[k] == t;
            assert(is_proven(seen, table, pane, programs, peers, a[k]));
        } else {
            let k = choose|k: int| 0 <= k < b.len() && b[k] == t;
            assert(is_proven(seen, table, pane, programs, peers, b[k]));
        }
    }
}

} // verus!
