//! Identities that shells and tools of a session carry: weaker evidence than a rollout
//! that is being recorded.

use vstd::prelude::*;
use crate::domain;
use crate::domain::Pane;
use crate::error;
use crate::error::{ErrorModel, MuxError};
use crate::number;
use crate::path;
use crate::path::UnixPath;
use crate::scan;
use crate::scan::{bytes_start_with, split_bytes, split_whitespace, strip_prefix, text_lines, trim};
use crate::smart_naming::descriptors;
use crate::smart_naming::process_store;
use crate::smart_naming::process_store::{process_snapshot, ProcEntry};
use crate::smart_naming::processes;
use crate::smart_naming::processes::{descends_from, find_identity, LiveProcesses};
use crate::smart_naming::rollout;
use crate::smart_naming::rollout::EntryFacts;
use crate::smart_naming::rollout_store;
use crate::smart_naming::rollout_store::{codex_home_path, EntryKind, TreeEntry};
use crate::smart_naming::snapshot_log::{LoggedEnvironments, LoggedSnapshots};
use crate::smart_naming::snapshot_replay;
use crate::smart_naming::snapshot_replay::SnapshotEvent;
use crate::smart_naming::thread;
use crate::smart_naming::thread::looks_like_thread_id;
use crate::smart_naming::title;
use crate::smart_naming::title::protocol;
use crate::text;
use crate::text::{put, read_utf8, slice_bytes, slice_text, text_equal, to_chars};

verus! {

/// Most entries of the snapshot directory that are looked at.
pub const MAX_SNAPSHOT_ENTRIES: usize = 10_000;

/// Most lines of a snapshot that are looked at.
pub const MAX_SNAPSHOT_LINES: usize = 20_000;

/// Largest snapshot that is read.
pub const MAX_SNAPSHOT_BYTES: u64 = 1024 * 1024;

/// Largest process environment that is read.
pub const MAX_ENVIRONMENT_BYTES: usize = 1024 * 1024;

// ---------------------------------------------------------------------------
// One snapshot
// ---------------------------------------------------------------------------

/// The part of a text before its first dot.
pub open spec fn before_dot(s: Seq<char>, i: int) -> Option<Seq<char>>
    decreases s.len() - i,
{
    if i < 0 || i >= s.len() {
        None
    } else if s[i] == '.' {
        Some(s.take(i))
    } else {
        before_dot(s, i + 1)
    }
}

/// The thread that a snapshot file is named after.
pub open spec fn snapshot_thread(name: Seq<u8>) -> Option<Seq<char>> {
    match text::utf8_decoded(name) {
        None => None,
        Some(t) => match before_dot(t, 0) {
            Some(id) => if thread::is_thread_id(id) {
                Some(id)
            } else {
                None
            },
            None => None,
        },
    }
}

pub fn snapshot_thread_id(name: &[u8]) -> (r: Option<String>)
    ensures
        text::option_view(r) == snapshot_thread(name@),
{
    let Some(t) = read_utf8(name) else {
        return None;
    };
    let v = to_chars(&t);
    let mut i: usize = 0;
    while i < v.len()
        invariant
            i <= v.len(),
            v@ == t@,
            before_dot(t@, 0) == before_dot(t@, i as int),
        decreases v.len() - i,
    {
        if v[i] == '.' {
            let id = slice_text(&v, 0, i);
            assert(id@ =~= t@.take(i as int));
            return if looks_like_thread_id(&id) {
                Some(id)
            } else {
                None
            };
        }
        i += 1;
    }
    None
}

/// A character that a shell word has without quotes.
pub open spec fn is_plain_word_char(c: char) -> bool {
    text::is_ascii_alphanumeric(c) || c == '%' || c == '_' || c == '-'
}

/// The value of a shell word that is quoted whole or needs no quotes.
pub open spec fn literal(value: Seq<char>) -> Option<Seq<char>> {
    let v = scan::trimmed(value);
    if v.len() > 1 && v[0] == '\'' && v.last() == '\'' {
        let inner = v.subrange(1, v.len() - 1);
        if inner.contains('\'') {
            None
        } else {
            Some(inner)
        }
    } else if forall|i: int| 0 <= i < v.len() ==> is_plain_word_char(#[trigger] v[i]) {
        Some(v)
    } else {
        None
    }
}

pub fn shell_snapshot_literal(value: &str) -> (r: Option<String>)
    ensures
        text::option_view(r) == literal(value@),
{
    let t = trim(value);
    let v = to_chars(&t);
    let len: usize = v.len();
    if len > 1 && v[0] == '\'' && v[len - 1] == '\'' {
        let inner = slice_text(&v, 1, len - 1);
        return if scan::contains_char(&inner, '\'') {
            None
        } else {
            Some(inner)
        };
    }
    let mut i: usize = 0;
    while i < len
        invariant
            i <= len == v@.len(),
            v@ == t@,
            forall|k: int| 0 <= k < i ==> is_plain_word_char(#[trigger] v@[k]),
        decreases len - i,
    {
        let c: char = v[i];
        let plain = ('0' <= c && c <= '9') || ('a' <= c && c <= 'z') || ('A' <= c && c <= 'Z') || c
            == '%' || c == '_' || c == '-';
        if !plain {
            assert(!is_plain_word_char(v@[i as int]));
            return None;
        }
        i += 1;
    }
    Some(t)
}

/// The pane that the lines of a snapshot name: the value behind the first
/// `export TMUX_PANE=`.
pub open spec fn pane_in(lines: Seq<Seq<char>>, i: int) -> Option<Seq<char>>
    decreases lines.len() - i,
{
    if i < 0 || i >= lines.len() || i >= MAX_SNAPSHOT_LINES {
        None
    } else if "export TMUX_PANE="@.is_prefix_of(lines[i]) {
        literal(lines[i].skip("export TMUX_PANE="@.len() as int))
    } else {
        pane_in(lines, i + 1)
    }
}

/// The pane that the lines of a snapshot name.
pub fn snapshot_pane(lines: &Vec<String>) -> (r: Option<String>)
    ensures
        text::option_view(r) == pane_in(text::texts(lines@), 0),
{
    let ghost all = text::texts(lines@);
    let mut i: usize = 0;
    while i < lines.len() && i < MAX_SNAPSHOT_LINES
        invariant
            i <= lines.len(),
            all == text::texts(lines@),
            pane_in(all, 0) == pane_in(all, i as int),
        decreases lines.len() - i,
    {
        assert(all[i as int] == lines@[i as int]@);
        if let Some(value) = strip_prefix(&lines[i], "export TMUX_PANE=") {
            return shell_snapshot_literal(&value);
        }
        i += 1;
    }
    None
}

/// A snapshot that can be trusted: a small private file, written after the pane leader
/// started.
pub open spec fn is_safe_snapshot(facts: EntryFacts, modified: i64, user: u32, started: u64) -> bool {
    rollout::is_private_file(facts, user) && facts.size <= MAX_SNAPSHOT_BYTES && 0 <= modified
        && modified >= started
}

pub fn safe_snapshot_metadata(facts: EntryFacts, modified: i64, user: u32, started: u64) -> (r: bool)
    ensures
        r == is_safe_snapshot(facts, modified, user, started),
{
    facts.is_file && facts.owner == user && facts.links == 1 && facts.mode & 0o022 == 0
        && facts.size <= MAX_SNAPSHOT_BYTES && modified >= 0 && modified as u64 >= started
}

/// The first line with a prefix, without it.
pub open spec fn line_after(lines: Seq<Seq<char>>, prefix: Seq<char>, i: int) -> Option<Seq<char>>
    decreases lines.len() - i,
{
    if i < 0 || i >= lines.len() {
        None
    } else if prefix.is_prefix_of(lines[i]) {
        Some(lines[i].skip(prefix.len() as int))
    } else {
        line_after(lines, prefix, i + 1)
    }
}

/// When a process started, in seconds: the boot time and the ticks since.
pub open spec fn started_at(stat: Seq<char>, system: Seq<char>, ticks: u64) -> Result<
    u64,
    ErrorModel,
> {
    match processes::after_last_close(stat, stat.len() - 1) {
        None => Err(title::protocol_error("pane process stat is malformed"@)),
        Some(rest) => {
            let fields = scan::words(rest);
            let start = if fields.len() > 19 {
                number::unsigned_value(fields[19], u64::MAX as nat)
            } else {
                None
            };
            let boot = match line_after(scan::lines(system), "btime "@, 0) {
                Some(t) => number::unsigned_value(t, u64::MAX as nat),
                None => None,
            };
            if start is None {
                Err(title::protocol_error("pane process start time is malformed"@))
            } else if boot is None {
                Err(title::protocol_error("system boot time is unavailable"@))
            } else if boot->0 + start->0 as int / ticks as int > u64::MAX {
                Ok(u64::MAX)
            } else {
                Ok((boot->0 + start->0 as int / ticks as int) as u64)
            }
        },
    }
}

/// When a process started, in seconds since the epoch.
pub fn linux_process_started_unix(stat: &str, system: &str, ticks: u64) -> (r: Result<u64, MuxError>)
    requires
        ticks > 0,
    ensures
        error::outcome(r) == started_at(stat@, system@, ticks),
{
    let Some(rest) = processes::stat_rest(stat) else {
        return Err(protocol("pane process stat is malformed"));
    };
    let fields = split_whitespace(&rest);
    let ghost all = scan::words(rest@);
    assert(all.len() == fields.len());
    let start: Option<u64> = if fields.len() > 19 {
        assert(all[19] == fields@[19]@);
        number::parse_u64(&fields[19])
    } else {
        None
    };
    let Some(start) = start else {
        return Err(protocol("pane process start time is malformed"));
    };
    let lines = text_lines(system);
    let ghost listed = text::texts(lines@);
    let mut found: Option<String> = None;
    let mut i: usize = 0;
    while i < lines.len() && found.is_none()
        invariant
            i <= lines.len(),
            listed == text::texts(lines@),
            match found {
                Some(t) => line_after(listed, "btime "@, 0) == Some(t@),
                None => line_after(listed, "btime "@, 0) == line_after(
                    listed,
                    "btime "@,
                    i as int,
                ),
            },
        decreases lines.len() - i,
    {
        assert(listed[i as int] == lines@[i as int]@);
        if let Some(t) = strip_prefix(&lines[i], "btime ") {
            found = Some(t);
        }
        i += 1;
    }
    let boot: Option<u64> = match &found {
        Some(t) => number::parse_u64(t),
        None => None,
    };
    let Some(boot) = boot else {
        return Err(protocol("system boot time is unavailable"));
    };
    let since: u64 = start / ticks;
    if since > u64::MAX - boot {
        Ok(u64::MAX)
    } else {
        Ok(boot + since)
    }
}

// ---------------------------------------------------------------------------
// The snapshot directory
// ---------------------------------------------------------------------------

/// The file system behind the snapshot directory. No call follows a symbolic link.
pub trait SnapshotFiles {
    fn user(&mut self) -> u32;

    /// When a process started, in seconds since the epoch.
    fn started(&mut self, pid: u32) -> Result<u64, MuxError>;

    /// Opens the directory, `None` where it does not exist.
    fn open_root(&mut self, root: &UnixPath) -> Result<Option<EntryFacts>, MuxError>;

    fn entries(&mut self, root: &UnixPath) -> Result<Vec<Result<TreeEntry, MuxError>>, MuxError>;

    /// Opens a file of the directory; its facts and when it was modified.
    fn open_file(&mut self, name: &Vec<u8>) -> Result<(EntryFacts, i64), MuxError>;

    /// The lines of an opened file.
    fn lines(&mut self, name: &Vec<u8>) -> Result<Vec<String>, MuxError>;
}

/// Source of identities in the snapshots that Codex shells leave.
pub struct ShellSnapshotStore<F> {
    /// The files, with what was asked of them and what they answered.
    pub files: LoggedSnapshots<F>,
    pub root: UnixPath,
}

/// The lines of a file, or the error in their place.
pub open spec fn lines_outcome(r: Result<Vec<String>, MuxError>) -> Result<
    Seq<Seq<char>>,
    ErrorModel,
> {
    match r {
        Ok(lines) => Ok(text::texts(lines@)),
        Err(e) => Err(e@),
    }
}

/// The bytes of an environment, or the error in their place.
pub open spec fn environment_outcome(r: Result<Option<Vec<u8>>, MuxError>) -> Result<
    Option<Seq<u8>>,
    ErrorModel,
> {
    match r {
        Ok(Some(bytes)) => Ok(Some(bytes@)),
        Ok(None) => Ok(None),
        Err(e) => Err(e@),
    }
}

impl<F: SnapshotFiles> ShellSnapshotStore<F> {
    /// Uses the snapshots below the directory of Codex.
    pub fn discover(
        files: F,
        configured: &Option<UnixPath>,
        home: &Option<UnixPath>,
    ) -> (r: Result<Self, MuxError>)
        ensures
            match rollout_store::codex_home(
                domain::path_view(*configured),
                domain::path_view(*home),
            ) {
                Some(base) => r is Ok && r->Ok_0.root@ == path::joined(
                    base,
                    text::utf8("shell_snapshots"@),
                ) && r->Ok_0.files.wrapped() == files,
                None => r is Err && r->Err_0@ == title::protocol_error(
                    "Codex home is unavailable"@,
                ),
            },
    {
        match codex_home_path(configured, home) {
            Some(base) => Ok(
                ShellSnapshotStore::at(files, base.join(&UnixPath::new("shell_snapshots"))),
            ),
            None => Err(protocol("Codex home is unavailable")),
        }
    }

    /// Uses an explicit directory.
    pub fn at(files: F, root: UnixPath) -> (r: Self)
        ensures
            r.files.wrapped() == files,
            r.root == root,
            r.files.events() == Seq::<SnapshotEvent>::empty(),
    {
        ShellSnapshotStore {
            files: LoggedSnapshots::new(files),
            root,
        }
    }

    /// The user that searches.
    fn user(&mut self) -> (r: u32)
        ensures
            final(self).root == old(self).root,
            snapshot_replay::agrees(final(self).files.events(), old(self).files.events()),
            forall|w: Seq<SnapshotEvent>|
                snapshot_replay::agrees(w, final(self).files.events()) ==> #[trigger] snapshot_replay::user_at(
                    w,
                    old(self).files.events().len() as int,
                ) == Some((r, final(self).files.events().len() as int)),
    {
        self.files.user()
    }

    /// When a process started.
    fn started(&mut self, pid: u32) -> (r: Result<u64, MuxError>)
        ensures
            final(self).root == old(self).root,
            snapshot_replay::agrees(final(self).files.events(), old(self).files.events()),
            forall|w: Seq<SnapshotEvent>|
                snapshot_replay::agrees(w, final(self).files.events()) ==> #[trigger] snapshot_replay::started_at(
                    w,
                    old(self).files.events().len() as int,
                    pid,
                ) == Some((error::outcome(r), final(self).files.events().len() as int)),
    {
        self.files.started(pid)
    }

    /// Opens the directory.
    fn open_root(&mut self, root: &UnixPath) -> (r: Result<Option<EntryFacts>, MuxError>)
        ensures
            final(self).root == old(self).root,
            snapshot_replay::agrees(final(self).files.events(), old(self).files.events()),
            forall|w: Seq<SnapshotEvent>|
                snapshot_replay::agrees(w, final(self).files.events()) ==> #[trigger] snapshot_replay::root_at(
                    w,
                    old(self).files.events().len() as int,
                    root@,
                ) == Some((error::outcome(r), final(self).files.events().len() as int)),
    {
        self.files.open_root(root)
    }

    /// The entries of the directory.
    fn entries(&mut self, root: &UnixPath) -> (r: Result<
        Vec<Result<TreeEntry, MuxError>>,
        MuxError,
    >)
        ensures
            final(self).root == old(self).root,
            snapshot_replay::agrees(final(self).files.events(), old(self).files.events()),
            forall|w: Seq<SnapshotEvent>|
                snapshot_replay::agrees(w, final(self).files.events()) ==> #[trigger] snapshot_replay::entries_at(
                    w,
                    old(self).files.events().len() as int,
                    root@,
                ) == Some((rollout_store::entries_outcome(r), final(self).files.events().len() as int)),
    {
        self.files.entries(root)
    }

    /// Opens a file of the directory.
    fn open_file(&mut self, name: &Vec<u8>) -> (r: Result<(EntryFacts, i64), MuxError>)
        ensures
            final(self).root == old(self).root,
            snapshot_replay::agrees(final(self).files.events(), old(self).files.events()),
            forall|w: Seq<SnapshotEvent>|
                snapshot_replay::agrees(w, final(self).files.events()) ==> #[trigger] snapshot_replay::file_at(
                    w,
                    old(self).files.events().len() as int,
                    name@,
                ) == Some((error::outcome(r), final(self).files.events().len() as int)),
    {
        self.files.open_file(name)
    }

    /// The lines of an opened file.
    fn lines(&mut self, name: &Vec<u8>) -> (r: Result<Vec<String>, MuxError>)
        ensures
            final(self).root == old(self).root,
            snapshot_replay::agrees(final(self).files.events(), old(self).files.events()),
            forall|w: Seq<SnapshotEvent>|
                snapshot_replay::agrees(w, final(self).files.events()) ==> #[trigger] snapshot_replay::lines_at(
                    w,
                    old(self).files.events().len() as int,
                    name@,
                ) == Some((lines_outcome(r), final(self).files.events().len() as int)),
    {
        self.files.lines(name)
    }

    /// The thread of a pane, where every trusted snapshot that names the pane agrees.
    pub fn resolve(&mut self, pane: &Pane) -> (r: Result<Option<String>, MuxError>)
        ensures
            final(self).root == old(self).root,
            r matches Ok(Some(id)) ==> thread::is_thread_id(id@),
            snapshot_replay::agrees(final(self).files.events(), old(self).files.events()),
            forall|w: Seq<SnapshotEvent>|
                snapshot_replay::agrees(w, final(self).files.events()) ==> #[trigger] snapshot_replay::snapshot_at(
                    w,
                    old(self).files.events().len() as int,
                    old(self).root@,
                    pane.id@,
                    pane.pane_pid,
                ) == Some((descriptors::thread_outcome(r), final(self).files.events().len() as int)),
    {
        let started: u64 = match self.started(pane.pane_pid) {
            Ok(started) => started,
            Err(e) => return Err(e),
        };
        let root = self.root.clone();
        let user: u32 = self.user();
        match self.open_root(&root) {
            Err(e) => return Err(e),
            Ok(None) => return Ok(None),
            Ok(Some(facts)) => {
                if !facts.is_directory || facts.owner != user || facts.mode & 0o022 != 0 {
                    return Err(protocol("shell snapshot directory is not trusted"));
                }
            },
        }
        let entries = match self.entries(&root) {
            Ok(entries) => entries,
            Err(e) => return Err(e),
        };
        let ghost all = rollout_store::entries_view(entries@);
        let ghost here = self.files.events();
        let mut matched: Option<String> = None;
        let mut i: usize = 0;
        while i < entries.len()
            invariant
                i <= entries.len(),
                all == rollout_store::entries_view(entries@),
                self.root == old(self).root,
                snapshot_replay::agrees(self.files.events(), old(self).files.events()),
                snapshot_replay::agrees(self.files.events(), here),
                forall|w: Seq<SnapshotEvent>|
                    snapshot_replay::agrees(w, self.files.events()) ==> #[trigger] snapshot_replay::claims_from(
                        w,
                        here.len() as int,
                        all,
                        0,
                        pane.id@,
                        user,
                        started,
                        None,
                    ) == snapshot_replay::claims_from(
                        w,
                        self.files.events().len() as int,
                        all,
                        i as int,
                        pane.id@,
                        user,
                        started,
                        text::option_view(matched),
                    ),
                matched matches Some(id) ==> thread::is_thread_id(id@),
            decreases entries.len() - i,
        {
            if i >= MAX_SNAPSHOT_ENTRIES {
                return Err(protocol("shell snapshot discovery exceeded its entry limit"));
            }
            assert(all[i as int] == rollout_store::entry_view(entries@[i as int]));
            let entry = match &entries[i] {
                Ok(entry) => entry,
                Err(e) => {
                    let mut s = "cannot read a shell snapshot entry: ".to_owned();
                    s.append(&e.to_text());
                    return Err(protocol(&s));
                },
            };
            i += 1;
            if entry.kind != EntryKind::File {
                continue ;
            }
            let Some(id) = snapshot_thread_id(&entry.name) else {
                continue ;
            };
            let (facts, modified) = match self.open_file(&entry.name) {
                Ok(found) => found,
                Err(e) => return Err(e),
            };
            if !safe_snapshot_metadata(facts, modified, user, started) {
                continue ;
            }
            let lines = match self.lines(&entry.name) {
                Ok(lines) => lines,
                Err(e) => return Err(e),
            };
            let named = snapshot_pane(&lines);
            let same = match &named {
                Some(p) => text_equal(p, pane.id.as_str()),
                None => false,
            };
            if !same {
                continue ;
            }
            if let Some(existing) = &matched {
                if !text_equal(existing, &id) {
                    return Err(protocol("live pane matches multiple shell snapshot threads"));
                }
            }
            matched = Some(id);
        }
        Ok(matched)
    }
}

// ---------------------------------------------------------------------------
// Process environments
// ---------------------------------------------------------------------------

/// The last value of a variable in an environment, where it is a text.
pub open spec fn variable(fields: Seq<Seq<u8>>, name: Seq<u8>) -> Option<Seq<char>>
    decreases fields.len(),
{
    if fields.len() == 0 {
        None
    } else if name.is_prefix_of(fields.last()) {
        text::utf8_decoded(fields.last().skip(name.len() as int))
    } else {
        variable(fields.drop_last(), name)
    }
}

/// The pane and the session that an environment names.
pub open spec fn environment_identity(bytes: Seq<u8>) -> Option<(Seq<char>, Seq<char>)> {
    let fields = scan::split_on(bytes, 0u8);
    match (
        variable(fields, text::utf8("TMUX_PANE="@)),
        variable(fields, text::utf8("CODEX_SESSION_ID="@)),
    ) {
        (Some(pane), Some(session)) => Some((pane, session)),
        _ => None,
    }
}

fn last_variable(fields: &Vec<Vec<u8>>, name: &str) -> (r: Option<String>)
    ensures
        text::option_view(r) == variable(text::words(fields@), text::utf8(name@)),
{
    let key = text::bytes_of(name);
    let ghost all = text::words(fields@);
    let mut n: usize = fields.len();
    assert(all.take(n as int) =~= all);
    while n > 0
        invariant
            n <= fields.len(),
            all == text::words(fields@),
            key@ == text::utf8(name@),
            variable(all, key@) == variable(all.take(n as int), key@),
        decreases n,
    {
        let field = &fields[n - 1];
        proof {
            assert(all.take(n as int).last() == field@);
            assert(all.take(n as int).drop_last() =~= all.take(n - 1));
        }
        if bytes_start_with(field, &key) {
            let rest = slice_bytes(field, key.len(), field.len());
            assert(rest@ =~= field@.skip(key@.len() as int));
            return read_utf8(&rest);
        }
        n -= 1;
    }
    None
}

/// The pane and the session that an environment names.
pub fn process_identity_environment(bytes: &[u8]) -> (r: Option<(String, String)>)
    ensures
        match r {
            Some((pane, session)) => environment_identity(bytes@) == Some((pane@, session@)),
            None => environment_identity(bytes@) is None,
        },
{
    let fields = split_bytes(bytes, 0);
    match (last_variable(&fields, "TMUX_PANE="), last_variable(&fields, "CODEX_SESSION_ID=")) {
        (Some(pane), Some(session)) => Some((pane, session)),
        _ => None,
    }
}

/// What the system says of processes and their environments now.
pub trait EnvironmentHost: LiveProcesses {
    fn process_entries(&mut self) -> Result<Vec<ProcEntry>, MuxError>;

    /// The environment of a process, one byte more than is allowed at most; `None` where
    /// the process is gone or closed to this user.
    fn environment(&mut self, pid: u32) -> Result<Option<Vec<u8>>, MuxError>;
}

/// Two looks at the sessions that a pane claims: they must agree, on one session.
pub open spec fn agreed(first: Seq<Seq<char>>, second: Seq<Seq<char>>) -> Result<
    Option<Seq<char>>,
    ErrorModel,
> {
    if !(forall|t: Seq<char>| first.contains(t) == #[trigger] second.contains(t)) {
        Ok(None)
    } else if first.len() == 0 {
        Ok(None)
    } else if first.len() == 1 {
        Ok(Some(first[0]))
    } else {
        Err(
            title::protocol_error("live pane descendants expose multiple Codex session IDs"@),
        )
    }
}

fn holds_all(list: &Vec<String>, other: &Vec<String>) -> (r: bool)
    ensures
        r == forall|t: Seq<char>| #[trigger]
            text::texts(other@).contains(t) ==> text::texts(list@).contains(t),
{
    let ghost a = text::texts(list@);
    let ghost b = text::texts(other@);
    let mut i: usize = 0;
    while i < other.len()
        invariant
            i <= other.len(),
            a == text::texts(list@),
            b == text::texts(other@),
            forall|k: int| 0 <= k < i ==> a.contains(#[trigger] b[k]),
        decreases other.len() - i,
    {
        assert(b[i as int] == other@[i as int]@);
        if !text::holds_text(list, &other[i]) {
            assert(b.contains(b[i as int]));
            return false;
        }
        i += 1;
    }
    proof {
        assert forall|t: Seq<char>| #[trigger] b.contains(t) implies a.contains(t) by {
            let k = choose|k: int| 0 <= k < b.len() && b[k] == t;
            assert(a.contains(b[k]));
        }
    }
    true
}

/// Two looks at the sessions that a pane claims, each without repetition.
pub fn agreed_session(first: &Vec<String>, second: &Vec<String>) -> (r: Result<
    Option<String>,
    MuxError,
>)
    ensures
        descriptors::thread_outcome(r) == agreed(text::texts(first@), text::texts(second@)),
{
    let ghost a = text::texts(first@);
    let ghost b = text::texts(second@);
    let same = holds_all(first, second) && holds_all(second, first);
    proof {
        if same {
            assert forall|t: Seq<char>| a.contains(t) == #[trigger] b.contains(t) by {
                if a.contains(t) {
                    assert(b.contains(t));
                }
            }
        } else if forall|t: Seq<char>| a.contains(t) == #[trigger] b.contains(t) {
            assert forall|t: Seq<char>| #[trigger] a.contains(t) implies b.contains(t) by {
                assert(a.contains(t) == b.contains(t));
            }
        }
    }
    if !same {
        return Ok(None);
    }
    if first.len() == 0 {
        Ok(None)
    } else if first.len() == 1 {
        Ok(Some(first[0].clone()))
    } else {
        Err(protocol("live pane descendants expose multiple Codex session IDs"))
    }
}

/// Every text of a list is a thread identity.
pub open spec fn all_threads(ids: Seq<Seq<char>>) -> bool {
    forall|i: int| 0 <= i < ids.len() ==> thread::is_thread_id(#[trigger] ids[i])
}

/// Identity that the tools of a session inherit.
pub struct ProcessEnvironmentStore<H> {
    /// The system, with what it was asked and what it answered.
    pub host: LoggedEnvironments<H>,
}

impl<H: EnvironmentHost> ProcessEnvironmentStore<H> {
    pub fn new(host: H) -> (r: Self)
        ensures
            r.host.wrapped() == host,
            r.host.events() == Seq::<SnapshotEvent>::empty(),
    {
        ProcessEnvironmentStore { host: LoggedEnvironments::new(host) }
    }

    /// The entries of the process file system.
    fn process_entries(&mut self) -> (r: Result<Vec<ProcEntry>, MuxError>)
        ensures
            snapshot_replay::agrees(final(self).host.events(), old(self).host.events()),
            forall|w: Seq<SnapshotEvent>|
                snapshot_replay::agrees(w, final(self).host.events()) ==> #[trigger] snapshot_replay::processes_at(
                    w,
                    old(self).host.events().len() as int,
                ) == Some((process_store::listed(r), final(self).host.events().len() as int)),
    {
        self.host.process_entries()
    }

    /// The environment of a process.
    fn environment(&mut self, pid: u32) -> (r: Result<Option<Vec<u8>>, MuxError>)
        ensures
            snapshot_replay::agrees(final(self).host.events(), old(self).host.events()),
            forall|w: Seq<SnapshotEvent>|
                snapshot_replay::agrees(w, final(self).host.events()) ==> #[trigger] snapshot_replay::environment_at(
                    w,
                    old(self).host.events().len() as int,
                    pid,
                ) == Some((environment_outcome(r), final(self).host.events().len() as int)),
    {
        self.host.environment(pid)
    }

    /// Who a process is now.
    fn identity(&mut self, pid: u32) -> (r: Option<(u32, u64)>)
        ensures
            snapshot_replay::agrees(final(self).host.events(), old(self).host.events()),
            forall|w: Seq<SnapshotEvent>|
                snapshot_replay::agrees(w, final(self).host.events()) ==> #[trigger] snapshot_replay::identity_at(
                    w,
                    old(self).host.events().len() as int,
                    pid,
                ) == Some((r, final(self).host.events().len() as int)),
    {
        self.host.identity(pid)
    }

    /// The sessions that the descendants of a pane leader claim, each once.
    fn threads(&mut self, pane: &Pane) -> (r: Result<Vec<String>, MuxError>)
        ensures
            r matches Ok(ids) ==> all_threads(text::texts(ids@)),
            snapshot_replay::agrees(final(self).host.events(), old(self).host.events()),
            forall|w: Seq<SnapshotEvent>|
                snapshot_replay::agrees(w, final(self).host.events()) ==> #[trigger] snapshot_replay::sessions_at(
                    w,
                    old(self).host.events().len() as int,
                    pane.id@,
                    pane.pane_pid,
                ) == Some((lines_outcome(r), final(self).host.events().len() as int)),
    {
        let mut found = text::no_texts();
        let entries = match self.process_entries() {
            Ok(entries) => entries,
            Err(e) => return Err(e),
        };
        let table = match process_snapshot(&entries) {
            Ok(table) => table,
            Err(_) => {
                return Err(protocol("process environment discovery exceeded its entry limit"));
            },
        };
        let leader: u32 = pane.pane_pid;
        let Some(root_identity) = find_identity(&table, leader) else {
            return Ok(found);
        };
        let ghost here = self.host.events();
        let mut i: usize = 0;
        while i < table.len()
            invariant
                i <= table.len(),
                snapshot_replay::agrees(self.host.events(), old(self).host.events()),
                snapshot_replay::agrees(self.host.events(), here),
                forall|w: Seq<SnapshotEvent>|
                    snapshot_replay::agrees(w, self.host.events()) ==> #[trigger] snapshot_replay::sessions_from(
                        w,
                        here.len() as int,
                        table@,
                        0,
                        pane.id@,
                        leader,
                        Seq::empty(),
                    ) == snapshot_replay::sessions_from(
                        w,
                        self.host.events().len() as int,
                        table@,
                        i as int,
                        pane.id@,
                        leader,
                        text::texts(found@),
                    ),
                all_threads(text::texts(found@)),
            decreases table.len() - i,
        {
            let entry = table[i];
            i += 1;
            if entry.pid == leader || !descends_from(entry.pid, leader, &table) {
                continue ;
            }
            let bytes = match self.environment(entry.pid) {
                Ok(Some(bytes)) => bytes,
                Ok(None) => continue ,
                Err(e) => return Err(e),
            };
            if bytes.len() > MAX_ENVIRONMENT_BYTES {
                return Err(protocol("process environment exceeded its byte limit"));
            }
            let Some((named, id)) = process_identity_environment(&bytes) else {
                continue ;
            };
            if !text_equal(&named, pane.id.as_str()) || !looks_like_thread_id(&id) {
                continue ;
            }
            let same = match self.identity(entry.pid) {
                Some(now) => now.0 == entry.parent && now.1 == entry.started,
                None => false,
            };
            if !same {
                continue ;
            }
            if !text::holds_text(&found, &id) {
                let ghost before = text::texts(found@);
                put(&mut found, &id);
                proof {
                    let now = text::texts(found@);
                    assert forall|k: int| 0 <= k < now.len() implies thread::is_thread_id(
                        #[trigger] now[k],
                    ) by {
                        if k < before.len() {
                            assert(now[k] == before[k]);
                        }
                    }
                }
            }
        }
        let same = match self.identity(leader) {
            Some(now) => now.0 == root_identity.0 && now.1 == root_identity.1,
            None => false,
        };
        if !same {
            return Ok(text::no_texts());
        }
        Ok(found)
    }

    /// The one session that the descendants of a pane claim, in two looks.
    pub fn resolve(&mut self, pane: &Pane) -> (r: Result<Option<String>, MuxError>)
        ensures
            r matches Ok(Some(id)) ==> thread::is_thread_id(id@),
            snapshot_replay::agrees(final(self).host.events(), old(self).host.events()),
            forall|w: Seq<SnapshotEvent>|
                snapshot_replay::agrees(w, final(self).host.events()) ==> #[trigger] snapshot_replay::session_at(
                    w,
                    old(self).host.events().len() as int,
                    pane.id@,
                    pane.pane_pid,
                ) == Some((descriptors::thread_outcome(r), final(self).host.events().len() as int)),
    {
        let first = match self.threads(pane) {
            Ok(ids) => ids,
            Err(e) => return Err(e),
        };
        let second = match self.threads(pane) {
            Ok(ids) => ids,
            Err(e) => return Err(e),
        };
        let r = agreed_session(&first, &second);
        proof {
            if r is Ok && r->Ok_0 is Some {
                assert(thread::is_thread_id(text::texts(first@)[0]));
            }
        }
        r
    }
}

} // verus!
