//! Server-wide pane discovery and conservative matching of Codex executables.

use vstd::prelude::*;
use crate::domain;
use crate::domain::{
    CodexExecutable, Exchange, Inspection, LoggedInspector, LoggedRunner, OutputModel, Pane, PaneId, ProcessInspector, SessionId,
    TmuxCommandRunner,
};
use crate::error::{ErrorModel, MuxError};
use crate::number;
use crate::number::{decimal_text, parse_u32, parse_u64, signed_text};
use crate::path;
use crate::path::UnixPath;
use crate::scan;
use crate::scan::{blank, contains_byte, split_bytes, split_bytes_by, trim};
use crate::smart_naming::thread;
use crate::smart_naming::thread::thread_marker_matches_title;
use crate::text;
use crate::text::{
    bytes_equal, copy_bytes, list4, read_utf8, text_equal, to_words, utf8_lossy,
};

verus! {

pub const PANE_FORMAT: &'static str = "#{pane_id}\x1f#{session_id}\x1f#{window_id}\x1f#{window_name}\x1f#{pane_title}\x1f#{pane_current_path}\x1f#{pane_current_command}\x1f#{pane_pid}\x1f#{pane_tty}\x1f#{@codex_mux_generated_thread}\x1f#{@codex_mux_generated_name}\x1f#{@codex_mux_generated_at}";

// ---------------------------------------------------------------------------
// Records
// ---------------------------------------------------------------------------

/// One row of the printed pane list.
#[derive(Debug)]
pub struct TmuxPaneRecord {
    pub pane_id: String,
    pub session_id: String,
    pub window_id: String,
    pub window_name: String,
    pub title: String,
    pub current_path: UnixPath,
    pub command: Vec<u8>,
    pub pane_pid: u32,
    pub tty: Vec<u8>,
    pub generated_thread: String,
    pub generated_name: String,
    pub generated_at: String,
}

#[verifier::ext_equal]
pub struct RecordModel {
    pub pane_id: Seq<char>,
    pub session_id: Seq<char>,
    pub window_id: Seq<char>,
    pub window_name: Seq<char>,
    pub title: Seq<char>,
    pub current_path: Seq<u8>,
    pub command: Seq<u8>,
    pub pane_pid: u32,
    pub tty: Seq<u8>,
    pub generated_thread: Seq<char>,
    pub generated_name: Seq<char>,
    pub generated_at: Seq<char>,
}

impl View for TmuxPaneRecord {
    type V = RecordModel;

    open spec fn view(&self) -> RecordModel {
        RecordModel {
            pane_id: self.pane_id@,
            session_id: self.session_id@,
            window_id: self.window_id@,
            window_name: self.window_name@,
            title: self.title@,
            current_path: self.current_path@,
            command: self.command@,
            pane_pid: self.pane_pid,
            tty: self.tty@,
            generated_thread: self.generated_thread@,
            generated_name: self.generated_name@,
            generated_at: self.generated_at@,
        }
    }
}

/// The octal escape that some tmux versions print for the unit separator.
pub open spec fn escaped_separator() -> Seq<u8> {
    seq![92u8, 48u8, 51u8, 55u8]
}

/// The fields of a row: separated by the unit separator, or by its octal escape
/// where the row holds no unit separator.
pub open spec fn record_fields(line: Seq<u8>) -> Seq<Seq<u8>> {
    if line.contains(0x1f) {
        scan::split_on(line, 0x1f)
    } else {
        scan::split_by(line, escaped_separator())
    }
}

/// A field that is text and not blank.
pub open spec fn text_field(bytes: Seq<u8>) -> Option<Seq<char>> {
    match text::utf8_decoded(bytes) {
        Some(t) => if scan::is_blank(t) {
            None
        } else {
            Some(t)
        },
        None => None,
    }
}

/// A field that is a process identifier.
pub open spec fn pid_field(bytes: Seq<u8>) -> Option<u32> {
    match text::utf8_decoded(bytes) {
        Some(t) => match number::unsigned_value(t, u32::MAX as nat) {
            Some(n) => if n == 0 {
                None
            } else {
                Some(n as u32)
            },
            None => None,
        },
        None => None,
    }
}

/// A row is usable where it has eleven or twelve fields, names its pane, session
/// and window, an absolute directory, a command, a process and a terminal.
pub open spec fn usable(line: Seq<u8>) -> bool {
    let f = record_fields(line);
    &&& line.len() > 0
    &&& !line.contains(13)
    &&& f.len() == 11 || f.len() == 12
    &&& text_field(f[0]) is Some
    &&& text_field(f[1]) is Some
    &&& text_field(f[2]) is Some
    &&& path::is_absolute(f[5])
    &&& f[6].len() > 0
    &&& pid_field(f[7]) is Some
    &&& f[8].len() > 0
}

/// What a row says, where it is usable.
pub open spec fn parsed(line: Seq<u8>) -> Option<RecordModel> {
    let f = record_fields(line);
    if usable(line) {
        Some(
            RecordModel {
                pane_id: text_field(f[0])->0,
                session_id: text_field(f[1])->0,
                window_id: text_field(f[2])->0,
                window_name: text::lossy_text(f[3]),
                title: text::lossy_text(f[4]),
                current_path: f[5],
                command: f[6],
                pane_pid: pid_field(f[7])->0,
                tty: f[8],
                generated_thread: text::lossy_text(f[9]),
                generated_name: text::lossy_text(f[10]),
                generated_at: if f.len() == 12 {
                    text::lossy_text(f[11])
                } else {
                    Seq::empty()
                },
            },
        )
    } else {
        None
    }
}

/// The fields of a row, in the order of the pane format, without a separator, a line end
/// or a carriage return in any of them.
pub open spec fn are_fields(f: Seq<Seq<u8>>) -> bool {
    &&& f.len() == 11 || f.len() == 12
    &&& forall|i: int|
        0 <= i < f.len() ==> !(#[trigger] f[i]).contains(0x1f) && !f[i].contains(13)
            && !f[i].contains(10)
}

proof fn joined_holds_only_its_parts(parts: Seq<Seq<u8>>, sep: u8, b: u8)
    requires
        b != sep,
        forall|i: int| 0 <= i < parts.len() ==> !(#[trigger] parts[i]).contains(b),
    ensures
        !scan::join_with(parts, seq![sep]).contains(b),
    decreases parts.len(),
{
    if parts.len() == 1 {
        assert(!parts[0].contains(b));
    } else if parts.len() > 1 {
        let head = parts.drop_last();
        assert forall|i: int| 0 <= i < head.len() implies !(#[trigger] head[i]).contains(b) by {
            assert(head[i] == parts[i]);
        }
        joined_holds_only_its_parts(head, sep, b);
        let left = scan::join_with(head, seq![sep]);
        let s = scan::join_with(parts, seq![sep]);
        assert(!parts[parts.len() - 1].contains(b));
        assert forall|i: int| 0 <= i < s.len() implies s[i] != b by {
            if i < left.len() {
                assert(left.contains(left[i]));
            } else if i > left.len() {
                assert(parts.last().contains(parts.last()[i - left.len() - 1]));
            }
        }
    }
}

proof fn joined_holds_the_separator(parts: Seq<Seq<u8>>, sep: u8)
    requires
        parts.len() > 1,
    ensures
        scan::join_with(parts, seq![sep]).contains(sep),
        scan::join_with(parts, seq![sep]).len() > 0,
{
    let left = scan::join_with(parts.drop_last(), seq![sep]);
    assert(scan::join_with(parts, seq![sep])[left.len() as int] == sep);
}

/// A row reads back field by field: printed in the order of the pane format, each field
/// comes out as the part of the record that is named after it, whatever the other fields
/// hold.
pub proof fn a_row_reads_back(
    f: Seq<Seq<u8>>,
    pane: Seq<char>,
    session: Seq<char>,
    window: Seq<char>,
    pid: u32,
)
    requires
        are_fields(f),
        f[0] == text::utf8(pane) && !scan::is_blank(pane),
        f[1] == text::utf8(session) && !scan::is_blank(session),
        f[2] == text::utf8(window) && !scan::is_blank(window),
        f[5].len() > 0 && f[5][0] == 47,
        f[6].len() > 0,
        f[7] == text::utf8(number::decimal(pid as nat)) && pid > 0,
        f[8].len() > 0,
    ensures
        parsed(scan::join_with(f, seq![0x1fu8])) matches Some(record) && {
            &&& record.pane_id == pane
            &&& record.session_id == session
            &&& record.window_id == window
            &&& record.window_name == text::lossy_text(f[3])
            &&& record.title == text::lossy_text(f[4])
            &&& record.current_path == f[5]
            &&& record.command == f[6]
            &&& record.pane_pid == pid
            &&& record.tty == f[8]
            &&& record.generated_thread == text::lossy_text(f[9])
            &&& record.generated_name == text::lossy_text(f[10])
            &&& f.len() == 12 ==> record.generated_at == text::lossy_text(f[11])
            &&& f.len() == 11 ==> record.generated_at == Seq::<char>::empty()
        },
{
    let line = scan::join_with(f, seq![0x1fu8]);
    joined_holds_the_separator(f, 0x1f);
    joined_holds_only_its_parts(f, 0x1f, 13);
    scan::split_undoes_join(f, 0x1f);
    assert(record_fields(line) == f);
    text::utf8_decodes_back(pane);
    text::utf8_decodes_back(session);
    text::utf8_decodes_back(window);
    text::utf8_decodes_back(number::decimal(pid as nat));
    number::unsigned_value_of_decimal(pid as nat, u32::MAX as nat);
}

/// A row with too few or too many fields, without a pane, session or window, with a
/// directory that is not absolute, or without a command, a process or a terminal is no
/// pane.
pub proof fn an_unusable_row_is_no_pane(f: Seq<Seq<u8>>)
    requires
        f.len() > 1,
        forall|i: int| 0 <= i < f.len() ==> !(#[trigger] f[i]).contains(0x1f),
        f.len() < 11 || f.len() > 12 || f[0].len() == 0 || f[1].len() == 0 || f[2].len() == 0
            || f[5].len() == 0 || f[5][0] != 47 || f[6].len() == 0 || f[7].len() == 0
            || f[8].len() == 0,
    ensures
        parsed(scan::join_with(f, seq![0x1fu8])) is None,
{
    let line = scan::join_with(f, seq![0x1fu8]);
    joined_holds_the_separator(f, 0x1f);
    scan::split_undoes_join(f, 0x1f);
    assert(record_fields(line) == f);
    nothing_decodes_to_nothing();
    let empty = Seq::<u8>::empty();
    if f.len() == 11 || f.len() == 12 {
        assert(f[0].len() == 0 ==> f[0] =~= empty);
        assert(f[1].len() == 0 ==> f[1] =~= empty);
        assert(f[2].len() == 0 ==> f[2] =~= empty);
        assert(f[7].len() == 0 ==> f[7] =~= empty);
    }
}

proof fn nothing_decodes_to_nothing()
    ensures
        text::utf8_decoded(Seq::<u8>::empty()) == Some(Seq::<char>::empty()),
        text_field(Seq::<u8>::empty()) is None,
        pid_field(Seq::<u8>::empty()) is None,
{
    assert(text::utf8(Seq::<char>::empty()) =~= Seq::<u8>::empty());
    text::utf8_decodes_back(Seq::empty());
}

/// The stored name of a pane counts only with a time, and with a thread that the
/// title of the pane still shows.
pub open spec fn shown_name(record: RecordModel) -> Option<Seq<char>> {
    if number::unsigned_value(record.generated_at, u64::MAX as nat) is Some
        && thread::marker_matches(record.generated_thread, record.title) && !scan::is_blank(
        record.generated_name,
    ) {
        Some(record.generated_name)
    } else {
        None
    }
}

fn separator_bytes() -> (r: Vec<u8>)
    ensures
        r@ == escaped_separator(),
{
    let mut r: Vec<u8> = Vec::new();
    r.push(92);
    r.push(48);
    r.push(51);
    r.push(55);
    r
}

/// Splits a row into its fields.
pub fn split_fields(line: &[u8]) -> (r: Vec<Vec<u8>>)
    ensures
        text::words(r@) == record_fields(line@),
{
    if contains_byte(line, 0x1f) {
        split_bytes(line, 0x1f)
    } else {
        split_bytes_by(line, &separator_bytes())
    }
}

fn utf8_nonempty(bytes: &[u8]) -> (r: Option<String>)
    ensures
        text::option_view(r) == text_field(bytes@),
{
    match read_utf8(bytes) {
        Some(t) => if blank(&t) {
            None
        } else {
            Some(t)
        },
        None => None,
    }
}

fn read_pid(bytes: &[u8]) -> (r: Option<u32>)
    ensures
        r == pid_field(bytes@),
{
    match read_utf8(bytes) {
        Some(t) => match parse_u32(&t) {
            Some(n) => if n == 0 {
                None
            } else {
                Some(n)
            },
            None => None,
        },
        None => None,
    }
}

impl TmuxPaneRecord {
    pub fn parse(line: &[u8]) -> (r: Option<TmuxPaneRecord>)
        ensures
            match r {
                Some(record) => parsed(line@) == Some(record@),
                None => parsed(line@) is None,
            },
    {
        if line.len() == 0 || contains_byte(line, 13) {
            return None;
        }
        let fields = split_fields(line);
        let ghost f = record_fields(line@);
        assert(f.len() == fields@.len());
        if fields.len() != 11 && fields.len() != 12 {
            return None;
        }
        assert forall|i: int| 0 <= i < f.len() implies #[trigger] f[i] == fields@[i]@ by {}
        let (pane_id, session_id, window_id) = match (
            utf8_nonempty(&fields[0]),
            utf8_nonempty(&fields[1]),
            utf8_nonempty(&fields[2]),
        ) {
            (Some(a), Some(b), Some(c)) => (a, b, c),
            _ => return None,
        };
        let current_path = UnixPath::from_bytes(&fields[5]);
        if !current_path.is_absolute() || fields[6].len() == 0 || fields[8].len() == 0 {
            return None;
        }
        let pane_pid: u32 = match read_pid(&fields[7]) {
            Some(pid) => pid,
            None => return None,
        };
        Some(
            TmuxPaneRecord {
                pane_id,
                session_id,
                window_id,
                window_name: utf8_lossy(&fields[3]),
                title: utf8_lossy(&fields[4]),
                current_path,
                command: copy_bytes(&fields[6]),
                pane_pid,
                tty: copy_bytes(&fields[8]),
                generated_thread: utf8_lossy(&fields[9]),
                generated_name: utf8_lossy(&fields[10]),
                generated_at: if fields.len() == 12 {
                    utf8_lossy(&fields[11])
                } else {
                    String::new()
                },
            },
        )
    }

    pub fn generated_title(&self) -> (r: Option<String>)
        ensures
            text::option_view(r) == shown_name(self@),
    {
        if parse_u64(&self.generated_at).is_some() && thread_marker_matches_title(
            &self.generated_thread,
            &self.title,
        ) && !blank(&self.generated_name) {
            Some(self.generated_name.clone())
        } else {
            None
        }
    }

    /// The time stored with the name that counts.
    pub fn generated_at(&self) -> (r: Option<u64>)
        ensures
            match r {
                Some(n) => shown_name(self@) is Some && number::unsigned_value(
                    self.generated_at@,
                    u64::MAX as nat,
                ) == Some(n as nat),
                None => shown_name(self@) is None,
            },
    {
        if self.generated_title().is_none() {
            return None;
        }
        parse_u64(&self.generated_at)
    }
}

/// The usable rows, the first one of each pane only.
pub open spec fn records(lines: Seq<Seq<u8>>) -> Seq<RecordModel>
    decreases lines.len(),
{
    if lines.len() == 0 {
        Seq::empty()
    } else {
        let rest = records(lines.drop_last());
        match parsed(lines.last()) {
            Some(record) => if lists_pane(rest, record.pane_id) {
                rest
            } else {
                rest.push(record)
            },
            None => rest,
        }
    }
}

pub open spec fn lists_pane(records: Seq<RecordModel>, pane: Seq<char>) -> bool {
    exists|i: int| 0 <= i < records.len() && (#[trigger] records[i]).pane_id == pane
}

/// No pane is listed twice.
pub proof fn panes_are_listed_once(lines: Seq<Seq<u8>>, i: int, j: int)
    requires
        0 <= i < j < records(lines).len(),
    ensures
        records(lines)[i].pane_id != records(lines)[j].pane_id,
    decreases lines.len(),
{
    let rest = records(lines.drop_last());
    if j < rest.len() {
        panes_are_listed_once(lines.drop_last(), i, j);
    } else if records(lines)[i].pane_id == records(lines)[j].pane_id {
        assert(rest[i].pane_id == records(lines)[j].pane_id);
        assert(lists_pane(rest, records(lines)[j].pane_id));
    }
}

pub open spec fn record_list(v: Seq<TmuxPaneRecord>) -> Seq<RecordModel> {
    Seq::new(v.len(), |i: int| v[i]@)
}

fn lists(v: &Vec<TmuxPaneRecord>, pane: &str) -> (r: bool)
    ensures
        r == lists_pane(record_list(v@), pane@),
{
    let mut i: usize = 0;
    while i < v.len()
        invariant
            i <= v.len(),
            forall|j: int| 0 <= j < i ==> (#[trigger] record_list(v@)[j]).pane_id != pane@,
        decreases v.len() - i,
    {
        if text_equal(&v[i].pane_id, pane) {
            assert(record_list(v@)[i as int].pane_id == pane@);
            return true;
        }
        i += 1;
    }
    false
}

/// Reads the printed pane list.
pub fn read_records(stdout: &[u8]) -> (r: Vec<TmuxPaneRecord>)
    ensures
        record_list(r@) == records(scan::split_on(stdout@, 10)),
{
    let lines = split_bytes(stdout, 10);
    let ghost all = scan::split_on(stdout@, 10u8);
    let mut kept: Vec<TmuxPaneRecord> = Vec::new();
    let mut i: usize = 0;
    assert(record_list(kept@) =~= records(all.take(0)));
    while i < lines.len()
        invariant
            i <= lines.len(),
            record_list(kept@) == records(all.take(i as int)),
        decreases lines.len() - i,
    {
        let ghost before = record_list(kept@);
        proof {
            assert(all.take(i + 1).drop_last() =~= all.take(i as int));
            assert(all.take(i + 1).last() == lines@[i as int]@);
        }
        if let Some(record) = TmuxPaneRecord::parse(&lines[i]) {
            if !lists(&kept, &record.pane_id) {
                let ghost one = record@;
                kept.push(record);
                assert(record_list(kept@) =~= before.push(one));
            }
        }
        i += 1;
    }
    assert(all.take(all.len() as int) =~= all);
    kept
}

// ---------------------------------------------------------------------------
// Matching executables
// ---------------------------------------------------------------------------

/// The executable is the configured one: the same path, or a file of the same
/// name, shown as the pane's command, that resolves to the same file.
pub open spec fn executable_matches(
    actual: Seq<u8>,
    configured: Seq<u8>,
    pane_command: Seq<u8>,
    actual_file: Option<Seq<u8>>,
    configured_file: Option<Seq<u8>>,
) -> bool {
    path::same_path(actual, configured) || {
        &&& path::file_name(actual) is Some
        &&& path::file_name(actual) == path::file_name(configured)
        &&& pane_command == path::file_name(configured)->0
        &&& actual_file is Some
        &&& configured_file is Some
        &&& path::same_path(actual_file->0, configured_file->0)
    }
}

/// A name is only a hint: an executable at another path that does not resolve to
/// the configured file never matches, whatever it is called.
pub proof fn name_alone_never_matches(
    actual: Seq<u8>,
    configured: Seq<u8>,
    pane_command: Seq<u8>,
    actual_file: Option<Seq<u8>>,
    configured_file: Option<Seq<u8>>,
)
    requires
        !path::same_path(actual, configured),
        !(actual_file is Some && configured_file is Some && path::same_path(
            actual_file->0,
            configured_file->0,
        )),
    ensures
        !executable_matches(actual, configured, pane_command, actual_file, configured_file),
{
}

pub fn matches_executable(
    actual: &UnixPath,
    configured: &UnixPath,
    pane_command: &[u8],
    actual_file: &Option<UnixPath>,
    configured_file: &Option<UnixPath>,
) -> (r: bool)
    ensures
        r == executable_matches(
            actual@,
            configured@,
            pane_command@,
            domain::path_view(*actual_file),
            domain::path_view(*configured_file),
        ),
{
    if actual.same_as(configured) {
        return true;
    }
    match (actual.file_name(), configured.file_name()) {
        (Some(a), Some(c)) => if !bytes_equal(&a, &c) || !bytes_equal(pane_command, &c) {
            false
        } else {
            match (actual_file, configured_file) {
                (Some(x), Some(y)) => x.same_as(y),
                _ => false,
            }
        },
        _ => false,
    }
}

/// A record with the executable that runs in its foreground.
#[verifier::ext_equal]
pub struct Candidate {
    pub record: RecordModel,
    pub executable: Seq<u8>,
}

/// The records in whose foreground an executable was found.
pub open spec fn candidates(listed: Seq<RecordModel>, found: Seq<Option<Seq<u8>>>) -> Seq<
    Candidate,
>
    decreases listed.len(),
{
    if listed.len() == 0 {
        Seq::empty()
    } else {
        let rest = candidates(listed.drop_last(), found);
        match found[listed.len() - 1] {
            Some(executable) => rest.push(Candidate { record: listed.last(), executable }),
            None => rest,
        }
    }
}

pub open spec fn candidate_paths(c: Seq<Candidate>) -> Seq<Seq<u8>> {
    Seq::new(c.len(), |i: int| c[i].executable)
}

/// The file that one of the paths resolved to.
pub open spec fn file_at(resolved: Seq<Option<Seq<u8>>>, i: int) -> Option<Seq<u8>> {
    if 0 <= i < resolved.len() {
        resolved[i]
    } else {
        None
    }
}

/// A candidate runs one of the configured executables. The files are those of
/// the configured executables, then those of the candidates.
pub open spec fn is_codex(
    c: Seq<Candidate>,
    i: int,
    configured: Seq<Seq<u8>>,
    resolved: Seq<Option<Seq<u8>>>,
) -> bool {
    exists|j: int|
        0 <= j < configured.len() && executable_matches(
            c[i].executable,
            #[trigger] configured[j],
            c[i].record.command,
            file_at(resolved, configured.len() + i),
            file_at(resolved, j),
        )
}

/// A record names its pane and session.
pub open spec fn has_identity(record: RecordModel) -> bool {
    !scan::is_blank(record.pane_id) && !scan::is_blank(record.session_id)
}

/// The records that run Codex, in the order of the list.
pub open spec fn codex_records(
    c: Seq<Candidate>,
    n: nat,
    configured: Seq<Seq<u8>>,
    resolved: Seq<Option<Seq<u8>>>,
) -> Seq<RecordModel>
    decreases n,
{
    if n == 0 {
        Seq::empty()
    } else {
        let rest = codex_records(c, (n - 1) as nat, configured, resolved);
        if is_codex(c, n - 1, configured, resolved) && has_identity(c[n - 1].record) {
            rest.push(c[n - 1].record)
        } else {
            rest
        }
    }
}

/// A pane that shows exactly what its record says.
pub open spec fn pane_shows(pane: Pane, record: RecordModel) -> bool {
    let name = shown_name(record);
    &&& pane.id@ == record.pane_id
    &&& pane.session_id@ == record.session_id
    &&& text::option_view(pane.title) == if scan::is_blank(record.title) {
        None
    } else {
        Some(record.title)
    }
    &&& text::option_view(pane.generated_title) == name
    &&& text::option_view(pane.generated_thread_id) == if name is Some {
        Some(record.generated_thread)
    } else {
        None
    }
    &&& pane.generated_source_stable == (name is Some)
    &&& match pane.generated_at_unix {
        Some(n) => name is Some && number::unsigned_value(record.generated_at, u64::MAX as nat)
            == Some(n as nat),
        None => name is None,
    }
    &&& pane.pane_pid == record.pane_pid
    &&& pane.current_path@ == record.current_path
    &&& plain(pane)
}

/// A pane about which nothing else is known.
pub open spec fn plain(pane: Pane) -> bool {
    &&& !pane.immediate_naming
    &&& !pane.manual_name
    &&& pane.manual_name_source is None
    &&& pane.manual_name_pid is None
    &&& pane.manual_name_pid_raw@.len() == 0
    &&& pane.manual_name_session is None
    &&& pane.manual_name_session_raw@.len() == 0
    &&& !pane.unpin_waiting
    &&& pane.unpin_waiting_title is None
    &&& pane.unpin_waiting_pid is None
    &&& pane.unpin_waiting_session is None
    &&& pane.auto_name_status is None
    &&& pane.auto_name_started_at_unix_nanos is None
    &&& pane.auto_name_token is None
}

pub open spec fn panes_show(panes: Seq<Pane>, listed: Seq<RecordModel>) -> bool {
    &&& panes.len() == listed.len()
    &&& forall|i: int| 0 <= i < panes.len() ==> pane_shows(#[trigger] panes[i], listed[i])
}

fn pane_of(record: &TmuxPaneRecord) -> (r: Option<Pane>)
    ensures
        match r {
            Some(pane) => has_identity(record@) && pane_shows(pane, record@),
            None => !has_identity(record@),
        },
{
    let (id, session_id) = match (PaneId::new(&record.pane_id), SessionId::new(&record.session_id)) {
        (Ok(id), Ok(session_id)) => (id, session_id),
        _ => return None,
    };
    let generated_title = record.generated_title();
    let named = generated_title.is_some();
    Some(
        Pane {
            id,
            session_id,
            title: if blank(&record.title) {
                None
            } else {
                Some(record.title.clone())
            },
            generated_title,
            generated_thread_id: if named {
                Some(record.generated_thread.clone())
            } else {
                None
            },
            generated_source_stable: named,
            generated_at_unix: record.generated_at(),
            immediate_naming: false,
            manual_name: false,
            manual_name_source: None,
            manual_name_pid: None,
            manual_name_pid_raw: String::new(),
            manual_name_session: None,
            manual_name_session_raw: String::new(),
            unpin_waiting: false,
            unpin_waiting_title: None,
            unpin_waiting_pid: None,
            unpin_waiting_session: None,
            auto_name_status: None,
            auto_name_started_at_unix_nanos: None,
            auto_name_token: None,
            pane_pid: record.pane_pid,
            current_path: record.current_path.clone(),
        },
    )
}

/// A record with the executable that runs in its foreground.
pub struct FoundPane {
    pub record: TmuxPaneRecord,
    pub executable: UnixPath,
}

impl View for FoundPane {
    type V = Candidate;

    open spec fn view(&self) -> Candidate {
        Candidate { record: self.record@, executable: self.executable@ }
    }
}

pub open spec fn found_list(v: Seq<FoundPane>) -> Seq<Candidate> {
    Seq::new(v.len(), |i: int| v[i]@)
}

impl TmuxPaneRecord {
    fn copy(&self) -> (r: TmuxPaneRecord)
        ensures
            r@ == self@,
    {
        TmuxPaneRecord {
            pane_id: self.pane_id.clone(),
            session_id: self.session_id.clone(),
            window_id: self.window_id.clone(),
            window_name: self.window_name.clone(),
            title: self.title.clone(),
            current_path: self.current_path.clone(),
            command: copy_bytes(&self.command),
            pane_pid: self.pane_pid,
            tty: copy_bytes(&self.tty),
            generated_thread: self.generated_thread.clone(),
            generated_name: self.generated_name.clone(),
            generated_at: self.generated_at.clone(),
        }
    }
}

/// Pairs each record with the executable found for it.
pub fn pair_found(listed: &Vec<TmuxPaneRecord>, found: &Vec<Option<UnixPath>>) -> (r: Vec<
    FoundPane,
>)
    requires
        found.len() == listed.len(),
    ensures
        found_list(r@) == candidates(record_list(listed@), domain::paths_view(found@)),
{
    let ghost all = record_list(listed@);
    let ghost seen = domain::paths_view(found@);
    let mut r: Vec<FoundPane> = Vec::new();
    let mut i: usize = 0;
    assert(found_list(r@) =~= candidates(all.take(0), seen));
    while i < listed.len()
        invariant
            i <= listed.len(),
            found_list(r@) == candidates(all.take(i as int), seen),
        decreases listed.len() - i,
    {
        let ghost before = found_list(r@);
        proof {
            assert(all.take(i + 1).drop_last() =~= all.take(i as int));
            assert(all.take(i + 1).last() == listed@[i as int]@);
            assert(seen[i as int] == domain::path_view(found@[i as int]));
        }
        if let Some(executable) = &found[i] {
            let one = FoundPane { record: listed[i].copy(), executable: executable.clone() };
            let ghost model = one@;
            r.push(one);
            assert(found_list(r@) =~= before.push(model));
        }
        i += 1;
    }
    assert(all.take(all.len() as int) =~= all);
    r
}

fn resolved_at(resolved: &Vec<Option<UnixPath>>, i: usize) -> (r: Option<UnixPath>)
    ensures
        domain::path_view(r) == file_at(domain::paths_view(resolved@), i as int),
{
    if i < resolved.len() {
        assert(domain::paths_view(resolved@)[i as int] == domain::path_view(
            resolved@[i as int],
        ));
        match &resolved[i] {
            Some(p) => Some(p.clone()),
            None => None,
        }
    } else {
        None
    }
}

/// Picks the panes that run one of the configured executables. The resolved
/// files are those of the configured executables, then those of the panes.
pub fn select_panes(
    found: &Vec<FoundPane>,
    configured: &Vec<CodexExecutable>,
    resolved: &Vec<Option<UnixPath>>,
) -> (r: Vec<Pane>)
    requires
        configured.len() + found.len() <= usize::MAX,
    ensures
        panes_show(
            r@,
            codex_records(
                found_list(found@),
                found@.len(),
                executable_list(configured@),
                domain::paths_view(resolved@),
            ),
        ),
{
    let ghost c = found_list(found@);
    let ghost conf = executable_list(configured@);
    let ghost files = domain::paths_view(resolved@);
    let mut r: Vec<Pane> = Vec::new();
    let mut i: usize = 0;
    while i < found.len()
        invariant
            i <= found.len(),
            panes_show(r@, codex_records(c, i as nat, conf, files)),
        decreases found.len() - i,
    {
        let one = &found[i];
        assert(c[i as int] == one@);
        let file = resolved_at(resolved, configured.len() + i);
        let mut matched = false;
        let mut j: usize = 0;
        while j < configured.len()
            invariant
                j <= configured.len(),
                matched == exists|k: int|
                    0 <= k < j && executable_matches(
                        c[i as int].executable,
                        #[trigger] conf[k],
                        c[i as int].record.command,
                        file_at(files, conf.len() + i),
                        file_at(files, k),
                    ),
            decreases configured.len() - j,
        {
            let here = matches_executable(
                &one.executable,
                configured[j].as_path(),
                &one.record.command,
                &file,
                &resolved_at(resolved, j),
            );
            assert(conf[j as int] == configured@[j as int]@);
            if here {
                matched = true;
            }
            j += 1;
        }
        assert(matched == is_codex(c, i as int, conf, files));
        let ghost before = r@;
        if matched {
            if let Some(pane) = pane_of(&one.record) {
                let ghost shown = codex_records(c, i as nat, conf, files);
                r.push(pane);
                assert(panes_show(r@, shown.push(c[i as int].record)));
            }
        }
        i += 1;
    }
    r
}

// ---------------------------------------------------------------------------
// Discovery
// ---------------------------------------------------------------------------

/// What is reported of a pane list that failed.
pub open spec fn list_failure(output: OutputModel) -> Seq<char> {
    let detail = scan::trimmed(text::lossy_text(output.stderr));
    let status = match output.status {
        Some(code) => number::signed_decimal(code as int),
        None => "signal"@,
    };
    if detail.len() == 0 {
        "tmux list-panes exited with "@ + status
    } else {
        "tmux list-panes exited with "@ + status + ": "@ + detail
    }
}

pub fn command_failure(stderr: &[u8], status: Option<i32>) -> (r: String)
    ensures
        r@ == list_failure(OutputModel { stdout: Seq::empty(), stderr: stderr@, status }),
{
    let detail = trim(&utf8_lossy(stderr));
    let code = match status {
        Some(code) => signed_text(code),
        None => "signal".to_owned(),
    };
    let mut s = "tmux list-panes exited with ".to_owned();
    s.append(&code);
    if !detail.as_str().is_empty() {
        s.append(": ");
        s.append(&detail);
    }
    s
}

/// The printed pane list, or why there is none.
pub open spec fn pane_list(reply: Result<OutputModel, ErrorModel>) -> Result<Seq<u8>, ErrorModel> {
    match reply {
        Err(e) => Err(e),
        Ok(output) => if output.status == Some(0i32) {
            Ok(output.stdout)
        } else {
            Err(
                ErrorModel::Command(
                    list_failure(
                        OutputModel {
                            stdout: Seq::empty(),
                            stderr: output.stderr,
                            status: output.status,
                        },
                    ),
                ),
            )
        },
    }
}

pub open spec fn pids_of(listed: Seq<RecordModel>) -> Seq<u32> {
    Seq::new(listed.len(), |i: int| listed[i].pane_pid)
}

pub open spec fn wrong_count(found: nat, listed: nat) -> Seq<char> {
    "process inspector returned "@ + number::decimal(found) + " results for "@ + number::decimal(
        listed,
    ) + " panes"@
}

pub open spec fn executable_list(v: Seq<CodexExecutable>) -> Seq<Seq<u8>> {
    Seq::new(v.len(), |i: int| v[i]@)
}

pub open spec fn list_query() -> Seq<Seq<char>> {
    seq!["list-panes"@, "-a"@, "-F"@, PANE_FORMAT@]
}

/// The panes that run Codex, given what the process table answered.
pub open spec fn discovered(
    listed: Seq<RecordModel>,
    configured: Seq<Seq<u8>>,
    asked: Seq<Inspection>,
    panes: Result<Seq<Pane>, ErrorModel>,
) -> bool {
    &&& asked.len() >= 1
    &&& asked[0] matches Inspection::Foreground { pids, found } && pids == pids_of(listed) && (
    if found.len() != listed.len() {
        asked.len() == 1 && panes == Err::<Seq<Pane>, ErrorModel>(
            ErrorModel::Command(wrong_count(found.len(), listed.len())),
        )
    } else {
        let c = candidates(listed, found);
        &&& asked.len() == 2
        &&& asked[1] matches Inspection::Canonical { paths, resolved } && paths == configured
            + candidate_paths(c) && panes is Ok && panes_show(
            panes->Ok_0,
            codex_records(c, c.len(), configured, resolved),
        )
    })
}

pub open spec fn panes_outcome(r: Result<Vec<Pane>, MuxError>) -> Result<Seq<Pane>, ErrorModel> {
    match r {
        Ok(panes) => Ok(panes@),
        Err(e) => Err(e@),
    }
}

/// Discovers Codex panes through tmux and the process table.
pub struct PaneInventory<R, I> {
    pub runner: LoggedRunner<R>,
    pub processes: LoggedInspector<I>,
    pub codex_executables: Vec<CodexExecutable>,
}

impl<R: TmuxCommandRunner, I: ProcessInspector> PaneInventory<R, I> {
    pub fn new(runner: R, processes: I, codex: CodexExecutable) -> (r: Self)
        ensures
            r.runner.wrapped() == runner,
            r.runner.history() == Seq::<Exchange>::empty(),
            r.processes.wrapped() == processes,
            r.processes.answers() == Seq::<Inspection>::empty(),
            r.codex_executables@ == seq![codex],
    {
        let mut codex_executables: Vec<CodexExecutable> = Vec::new();
        codex_executables.push(codex);
        PaneInventory {
            runner: LoggedRunner::new(runner),
            processes: LoggedInspector::new(processes),
            codex_executables,
        }
    }

    /// An inventory that also recognizes the executables of profiles.
    pub fn with_executables(
        runner: R,
        processes: I,
        codex_executables: Vec<CodexExecutable>,
    ) -> (r: Self)
        ensures
            r.runner.wrapped() == runner,
            r.runner.history() == Seq::<Exchange>::empty(),
            r.processes.wrapped() == processes,
            r.processes.answers() == Seq::<Inspection>::empty(),
            r.codex_executables == codex_executables,
    {
        PaneInventory {
            runner: LoggedRunner::new(runner),
            processes: LoggedInspector::new(processes),
            codex_executables,
        }
    }

    fn list(&mut self) -> (r: Result<Vec<u8>, MuxError>)
        ensures
            final(self).processes == old(self).processes,
            final(self).codex_executables == old(self).codex_executables,
            final(self).runner.history() == old(self).runner.history().push(
                Exchange {
                    request: text::utf8_words(list_query()),
                    reply: final(self).runner.history().last().reply,
                },
            ),
            match r {
                Ok(stdout) => pane_list(final(self).runner.history().last().reply) == Ok::<
                    Seq<u8>,
                    ErrorModel,
                >(stdout@),
                Err(e) => pane_list(final(self).runner.history().last().reply) == Err::<
                    Seq<u8>,
                    ErrorModel,
                >(e@),
            },
    {
        let query = list4("list-panes", "-a", "-F", PANE_FORMAT);
        let output = match self.runner.run(&to_words(&query)) {
            Ok(output) => output,
            Err(e) => return Err(e),
        };
        let success = match output.status {
            Some(code) => code == 0,
            None => false,
        };
        if success {
            Ok(output.stdout)
        } else {
            Err(MuxError::Command(command_failure(&output.stderr, output.status)))
        }
    }

    /// Lists every pane of the server whose foreground process is Codex.
    ///
    /// Unusable rows and panes whose process cannot be inspected are left out. A
    /// failed pane list remains an error.
    pub fn discover(&mut self) -> (r: Result<Vec<Pane>, MuxError>)
        ensures
            final(self).codex_executables == old(self).codex_executables,
            final(self).runner.history() == old(self).runner.history().push(
                Exchange {
                    request: text::utf8_words(list_query()),
                    reply: final(self).runner.history().last().reply,
                },
            ),
            old(self).processes.answers().is_prefix_of(final(self).processes.answers()),
            match pane_list(final(self).runner.history().last().reply) {
                Err(e) => panes_outcome(r) == Err::<Seq<Pane>, ErrorModel>(e)
                    && final(self).processes == old(self).processes,
                Ok(stdout) => discovered(
                    records(scan::split_on(stdout, 10)),
                    executable_list(old(self).codex_executables@),
                    final(self).processes.answers().skip(
                        old(self).processes.answers().len() as int,
                    ),
                    panes_outcome(r),
                ),
            },
    {
        let stdout = match self.list() {
            Ok(stdout) => stdout,
            Err(e) => return Err(e),
        };
        let listed = read_records(&stdout);
        let ghost all = records(scan::split_on(stdout@, 10u8));
        let ghost start = self.processes.answers();
        let mut pids: Vec<u32> = Vec::new();
        let mut i: usize = 0;
        while i < listed.len()
            invariant
                i <= listed.len(),
                pids@ =~= pids_of(all).take(i as int),
            decreases listed.len() - i,
        {
            assert(all[i as int] == listed@[i as int]@);
            pids.push(listed[i].pane_pid);
            i += 1;
        }
        assert(pids@ =~= pids_of(all));
        let found = self.processes.foreground_executables(&pids);
        let ghost seen = domain::paths_view(found@);
        let ghost first = self.processes.answers();
        assert(first.skip(start.len() as int) =~= seq![first.last()]);
        if found.len() != listed.len() {
            let mut message = "process inspector returned ".to_owned();
            message.append(&decimal_text(found.len() as u64));
            message.append(" results for ");
            message.append(&decimal_text(listed.len() as u64));
            message.append(" panes");
            return Err(MuxError::Command(message));
        }
        let pairs = pair_found(&listed, &found);
        let ghost c = candidates(all, seen);
        let ghost configured = executable_list(self.codex_executables@);
        let mut paths: Vec<UnixPath> = Vec::new();
        let mut j: usize = 0;
        while j < self.codex_executables.len()
            invariant
                j <= self.codex_executables.len(),
                domain::path_list(paths@) =~= configured.take(j as int),
            decreases self.codex_executables.len() - j,
        {
            paths.push(self.codex_executables[j].as_path().clone());
            j += 1;
        }
        let mut k: usize = 0;
        while k < pairs.len()
            invariant
                k <= pairs.len(),
                domain::path_list(paths@) =~= configured + candidate_paths(c).take(k as int),
            decreases pairs.len() - k,
        {
            let ghost before = domain::path_list(paths@);
            let one = pairs[k].executable.clone();
            proof {
                assert(c[k as int] == pairs@[k as int]@);
                assert(candidate_paths(c)[k as int] == one@);
                assert(configured + candidate_paths(c).take(k + 1) =~= (configured
                    + candidate_paths(c).take(k as int)).push(one@));
            }
            let ghost view = one@;
            paths.push(one);
            assert(domain::path_list(paths@) =~= before.push(view));
            k += 1;
        }
        assert(domain::path_list(paths@) =~= configured + candidate_paths(c));
        let resolved = self.processes.canonical_paths(&paths);
        let total: usize = paths.len();
        assert(total == domain::path_list(paths@).len());
        let panes = select_panes(&pairs, &self.codex_executables, &resolved);
        proof {
            let end = self.processes.answers();
            assert(end.skip(start.len() as int) =~= seq![first.last(), end.last()]);
        }
        Ok(panes)
    }
}

} // verus!
