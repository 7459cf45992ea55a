//! The naming worker as a process: which tmux server it belongs to, that only
//! one of them runs, and how it is stopped.

use vstd::prelude::*;
use crate::app::daemon_log::LoggedDaemon;
use crate::app::process;
use crate::app::process::{process_cli_words, shell_word, ResolvedProcessConfig};
use crate::domain::{Exchange, LoggedRunner, TmuxCommandRunner};
use crate::error;
use crate::error::{command_error, invalid_value, ErrorModel, MuxError};
use crate::number;
use crate::number::{hex_padded_text, parse_hex, parse_u32, parse_u64};
use crate::path;
use crate::path::UnixPath;
use crate::scan;
use crate::scan::{split_text, split_whitespace, text_lines, trim};
use crate::smart_naming::process_store::ProcEntry;
use crate::smart_naming::processes;
use crate::smart_naming::processes::{find_identity, ProcessEntry};
use crate::text;
use crate::text::{list3, read_utf8, slice_text, text_equal, to_chars, to_words, utf8_lossy};

verus! {

pub open spec fn failed(message: Seq<char>) -> ErrorModel {
    ErrorModel::Command(message)
}

// ---------------------------------------------------------------------------
// The tmux server
// ---------------------------------------------------------------------------

/// A tmux server that cannot be taken for another one.
#[derive(Debug)]
pub struct NamingServerIdentity {
    pub socket: UnixPath,
    pub pid: u32,
    pub socket_device: u64,
    pub socket_inode: u64,
    pub process_start_time: u64,
}

pub open spec fn tmux_value(message: Seq<char>) -> ErrorModel {
    ErrorModel::InvalidValue { field: "TMUX"@, message }
}

/// The socket and the process of the server that a value of `TMUX` names. The
/// last field is the session of the client and does not matter.
pub open spec fn server_of(value: Seq<u8>) -> Result<(Seq<u8>, u32), ErrorModel> {
    match text::utf8_decoded(value) {
        None => Err(tmux_value("must be valid UTF-8"@)),
        Some(decoded) => {
            let fields = scan::split_on(decoded, ',');
            let n = fields.len() as int;
            let pid = if n < 2 {
                None
            } else {
                number::unsigned_value(fields[n - 2], u32::MAX as nat)
            };
            let socket = text::utf8(scan::join_with(fields.take(n - 2), ","@));
            if pid is None || pid->0 == 0 {
                Err(tmux_value("must contain a positive server PID"@))
            } else if n < 3 || !path::is_absolute(socket) {
                Err(tmux_value("must contain an absolute server socket"@))
            } else {
                Ok((socket, pid->0 as u32))
            }
        },
    }
}

pub open spec fn server_outcome(r: Result<(UnixPath, u32), MuxError>) -> Result<
    (Seq<u8>, u32),
    ErrorModel,
> {
    match r {
        Ok((socket, pid)) => Ok((socket@, pid)),
        Err(e) => Err(e@),
    }
}

fn join_front(fields: &Vec<String>, n: usize) -> (r: String)
    requires
        n <= fields.len(),
    ensures
        r@ == scan::join_with(text::texts(fields@).take(n as int), ","@),
{
    let ghost all = text::texts(fields@);
    let mut front = text::no_texts();
    let mut i: usize = 0;
    while i < n
        invariant
            i <= n <= fields.len(),
            text::texts(front@) =~= all.take(i as int),
        decreases n - i,
    {
        text::put(&mut front, &fields[i]);
        i += 1;
    }
    text::join_texts(&front, ",")
}

/// Reads a value of `TMUX`.
pub fn parse_naming_server_identity(value: &[u8]) -> (r: Result<(UnixPath, u32), MuxError>)
    ensures
        server_outcome(r) == server_of(value@),
{
    let decoded = match read_utf8(value) {
        Some(decoded) => decoded,
        None => return Err(invalid_value("TMUX", "must be valid UTF-8")),
    };
    let fields = split_text(&decoded, ',');
    let ghost all = scan::split_on(decoded@, ',');
    let n: usize = fields.len();
    assert(all.len() == n);
    let pid: u32 = if n < 2 {
        0
    } else {
        assert(all[n - 2] == fields@[n - 2]@);
        match parse_u32(&fields[n - 2]) {
            Some(pid) => pid,
            None => 0,
        }
    };
    if pid == 0 {
        return Err(invalid_value("TMUX", "must contain a positive server PID"));
    }
    if n < 3 {
        return Err(invalid_value("TMUX", "must contain an absolute server socket"));
    }
    let socket = UnixPath::new(&join_front(&fields, n - 2));
    if !socket.is_absolute() {
        return Err(invalid_value("TMUX", "must contain an absolute server socket"));
    }
    Ok((socket, pid))
}

/// Two clients of one server name the same server.
pub proof fn clients_name_one_server(server: Seq<char>, a: Seq<char>, b: Seq<char>)
    requires
        !a.contains(','),
        !b.contains(','),
    ensures
        server_of(text::utf8(server + ","@ + a)) == server_of(text::utf8(server + ","@ + b)),
{
    reveal_strlit(",");
    assert(","@ =~= seq![',']);
    named_by_the_front(server, a);
    named_by_the_front(server, b);
    let x = scan::split_on(server + seq![','] + a, ',');
    let y = scan::split_on(server + seq![','] + b, ',');
    let front = scan::split_on(server, ',');
    scan::split_on_nonempty(server, ',');
    assert(x.take(x.len() - 2) =~= front.take(front.len() - 1));
    assert(y.take(y.len() - 2) =~= front.take(front.len() - 1));
    text::utf8_decodes_back(server + ","@ + a);
    text::utf8_decodes_back(server + ","@ + b);
}

proof fn named_by_the_front(server: Seq<char>, client: Seq<char>)
    requires
        !client.contains(','),
    ensures
        scan::split_on(server + seq![','] + client, ',') == scan::split_on(server, ',').push(
            client,
        ),
{
    scan::split_on_append(server, ',', client);
    scan::split_on_without(client, ',');
    assert(scan::split_on(server, ',') + seq![client] =~= scan::split_on(server, ',').push(
        client,
    ));
}

/// The server is still there: its socket and its process are the same.
pub open spec fn is_same_server(
    expected: NamingServerIdentity,
    socket: Option<(u64, u64)>,
    started: Option<u64>,
) -> bool {
    socket == Some((expected.socket_device, expected.socket_inode)) && started == Some(
        expected.process_start_time,
    )
}

/// Compares a server with what its socket and its process say now.
pub fn tmux_server_matches(
    expected: &NamingServerIdentity,
    socket: Option<(u64, u64)>,
    started: Option<u64>,
) -> (r: bool)
    ensures
        r == is_same_server(*expected, socket, started),
{
    match (socket, started) {
        (Some((device, inode)), Some(time)) => device == expected.socket_device && inode
            == expected.socket_inode && time == expected.process_start_time,
        _ => false,
    }
}

// ---------------------------------------------------------------------------
// The start time of a process
// ---------------------------------------------------------------------------

/// What stands behind the last `)` of the first `n` characters.
pub open spec fn behind_last(s: Seq<char>, n: int) -> Option<Seq<char>>
    decreases n,
{
    if n <= 0 {
        None
    } else if s[n - 1] == ')' {
        Some(s.skip(n))
    } else {
        behind_last(s, n - 1)
    }
}

/// The parent and the start time in a stat file.
pub open spec fn process_identity(stat: Seq<char>) -> Result<(u32, u64), ErrorModel> {
    let fields = match behind_last(stat, stat.len() as int) {
        Some(rest) => scan::words(rest),
        None => Seq::empty(),
    };
    if fields.len() <= 19 {
        Err(failed("smart-naming worker process identity is malformed"@))
    } else {
        match number::unsigned_value(fields[1], u32::MAX as nat) {
            None => Err(failed("smart-naming worker parent process is invalid"@)),
            Some(parent) => match number::unsigned_value(fields[19], u64::MAX as nat) {
                None => Err(failed("smart-naming worker process start time is invalid"@)),
                Some(started) => Ok((parent as u32, started as u64)),
            },
        }
    }
}

fn fields_of(stat: &str) -> (r: Vec<String>)
    ensures
        text::texts(r@) == match behind_last(stat@, stat@.len() as int) {
            Some(rest) => scan::words(rest),
            None => Seq::empty(),
        },
{
    let v = to_chars(stat);
    let mut n: usize = v.len();
    while n > 0
        invariant
            n <= v@.len(),
            v@ == stat@,
            behind_last(stat@, stat@.len() as int) == behind_last(stat@, n as int),
        decreases n,
    {
        if v[n - 1] == ')' {
            let rest = slice_text(&v, n, v.len());
            assert(rest@ =~= stat@.skip(n as int));
            return split_whitespace(&rest);
        }
        n -= 1;
    }
    text::no_texts()
}

/// Reads the parent and the start time in a stat file.
pub fn linux_process_identity(stat: &str) -> (r: Result<(u32, u64), MuxError>)
    ensures
        error::outcome(r) == process_identity(stat@),
{
    let fields = fields_of(stat);
    let ghost all = text::texts(fields@);
    assert(all.len() == fields.len());
    if fields.len() <= 19 {
        return Err(command_error("smart-naming worker process identity is malformed"));
    }
    assert(all[1] == fields@[1]@ && all[19] == fields@[19]@);
    let parent = match parse_u32(&fields[1]) {
        Some(parent) => parent,
        None => return Err(command_error("smart-naming worker parent process is invalid")),
    };
    match parse_u64(&fields[19]) {
        Some(started) => Ok((parent, started)),
        None => Err(command_error("smart-naming worker process start time is invalid")),
    }
}

/// The start time of the server, in a stat file at the given path.
pub open spec fn server_start(stat: Seq<char>, p: Seq<u8>) -> Result<u64, ErrorModel> {
    let fields = match behind_last(stat, stat.len() as int) {
        Some(rest) => scan::words(rest),
        None => Seq::empty(),
    };
    let started = if fields.len() > 19 {
        number::unsigned_value(fields[19], u64::MAX as nat)
    } else {
        None
    };
    match started {
        Some(time) => Ok(time as u64),
        None => Err(
            failed("could not parse process start time from "@ + text::lossy_text(p)),
        ),
    }
}

/// Reads the start time of the server.
pub fn process_start_time(stat: &str, location: &UnixPath) -> (r: Result<u64, MuxError>)
    ensures
        error::outcome(r) == server_start(stat@, location@),
{
    let fields = fields_of(stat);
    let ghost all = text::texts(fields@);
    assert(all.len() == fields.len());
    if fields.len() > 19 {
        assert(all[19] == fields@[19]@);
        if let Some(time) = parse_u64(&fields[19]) {
            return Ok(time);
        }
    }
    let mut message = "could not parse process start time from ".to_owned();
    message.append(&location.display());
    Err(command_error(&message))
}

// ---------------------------------------------------------------------------
// The lock
// ---------------------------------------------------------------------------

/// The lock is a private regular file of this user with one name.
pub fn lock_is_private(is_file: bool, owner: u32, user: u32, mode: u32, links: u64) -> (r: Result<
    (),
    MuxError,
>)
    ensures
        match r {
            Ok(_) => is_file && owner == user && mode & 0x3f == 0 && links == 1,
            Err(e) => !(is_file && owner == user && mode & 0x3f == 0 && links == 1) && e@
                == failed("smart-naming lock must be a private, user-owned regular file"@),
        },
{
    if !is_file || owner != user || mode & 0x3f != 0 || links != 1 {
        return Err(
            command_error("smart-naming lock must be a private, user-owned regular file"),
        );
    }
    Ok(())
}

/// The directory of the lock is private to this user.
pub fn runtime_is_private(is_directory: bool, owner: u32, user: u32, mode: u32) -> (r: Result<
    (),
    MuxError,
>)
    ensures
        match r {
            Ok(_) => is_directory && owner == user && mode & 0x3f == 0,
            Err(e) => !(is_directory && owner == user && mode & 0x3f == 0) && e@ == failed(
                "smart-naming runtime directory must be private and user-owned"@,
            ),
        },
{
    if !is_directory || owner != user || mode & 0x3f != 0 {
        return Err(
            command_error("smart-naming runtime directory must be private and user-owned"),
        );
    }
    Ok(())
}

/// Where the lock of a server lies: in the runtime directory where one is set,
/// else in a directory of this user among the temporary ones.
pub open spec fn runtime_root(runtime: Option<Seq<u8>>, temporary: Seq<u8>, user: u32) -> Seq<u8> {
    if runtime is Some && runtime->0.len() > 0 {
        runtime->0
    } else {
        path::joined(
            temporary,
            text::utf8("codex-mux-runtime-"@ + number::decimal(user as nat)),
        )
    }
}

pub fn naming_runtime_root(runtime: &Option<UnixPath>, temporary: &UnixPath, user: u32) -> (r:
    UnixPath)
    ensures
        r@ == runtime_root(crate::domain::path_view(*runtime), temporary@, user),
{
    if let Some(p) = runtime {
        if !p.is_empty() {
            return p.clone();
        }
    }
    let mut name = "codex-mux-runtime-".to_owned();
    name.append(&number::decimal_text(user as u64));
    temporary.join(&UnixPath::new(&name))
}

/// The name of the lock of a server with a digest.
pub fn naming_lock_name(digest: u64) -> (r: String)
    ensures
        r@ == "codex-mux-namer-"@ + number::hex_padded(digest as nat, 16) + ".lock"@,
{
    let mut name = "codex-mux-namer-".to_owned();
    name.append(&hex_padded_text(digest, 16));
    name.append(".lock");
    name
}

/// A text parted at its first `:`.
pub open spec fn parted(s: Seq<char>) -> Option<(Seq<char>, Seq<char>)> {
    let pieces = scan::split_on(s, ':');
    if pieces.len() < 2 {
        None
    } else {
        Some((pieces[0], scan::join_with(pieces.skip(1), ":"@)))
    }
}

/// A line of the lock list that says who holds an exclusive lock of a file.
pub open spec fn is_lock_line(fields: Seq<Seq<char>>, major: u32, minor: u32, inode: u64) -> bool {
    &&& fields.len() >= 6
    &&& fields[1] == "FLOCK"@
    &&& fields[3] == "WRITE"@
    &&& match parted(fields[5]) {
        None => false,
        Some((first, rest)) => match parted(rest) {
            None => false,
            Some((second, third)) => {
                &&& number::hex_number(first) == Some(major as nat)
                &&& number::hex_number(second) == Some(minor as nat)
                &&& number::unsigned_value(third, u64::MAX as nat) == Some(inode as nat)
            },
        },
    }
}

/// The one holder that the lines from `i` on give, beside one found before.
pub open spec fn holder(
    lines: Seq<Seq<char>>,
    major: u32,
    minor: u32,
    inode: u64,
    i: int,
    found: Option<u32>,
) -> Result<u32, ErrorModel>
    decreases lines.len() - i,
{
    if i < 0 || i >= lines.len() {
        match found {
            Some(pid) => Ok(pid),
            None => Err(failed("smart-naming kernel lock owner could not be authenticated"@)),
        }
    } else {
        let fields = scan::words(lines[i]);
        if !is_lock_line(fields, major, minor, inode) {
            holder(lines, major, minor, inode, i + 1, found)
        } else {
            match number::unsigned_value(fields[4], u32::MAX as nat) {
                None => Err(failed("smart-naming kernel lock owner is invalid"@)),
                Some(pid) => if found is Some {
                    Err(failed("smart-naming kernel lock ownership is ambiguous"@))
                } else {
                    holder(lines, major, minor, inode, i + 1, Some(pid as u32))
                },
            }
        }
    }
}

fn part(s: &str) -> (r: Option<(String, String)>)
    ensures
        match r {
            Some((a, b)) => parted(s@) == Some((a@, b@)),
            None => parted(s@) is None,
        },
{
    let mut pieces = split_text(s, ':');
    let ghost all = scan::split_on(s@, ':');
    assert(all.len() == pieces.len());
    if pieces.len() < 2 {
        return None;
    }
    let first = pieces[0].clone();
    let mut rest = text::no_texts();
    let mut i: usize = 1;
    while i < pieces.len()
        invariant
            1 <= i <= pieces.len(),
            text::texts(rest@) =~= all.subrange(1, i as int),
        decreases pieces.len() - i,
    {
        assert(all[i as int] == pieces@[i as int]@);
        text::put(&mut rest, &pieces[i]);
        i += 1;
    }
    assert(text::texts(rest@) =~= all.skip(1));
    assert(all[0] == pieces@[0]@);
    Some((first, text::join_texts(&rest, ":")))
}

fn names_lock(fields: &Vec<String>, major: u32, minor: u32, inode: u64) -> (r: bool)
    ensures
        r == is_lock_line(text::texts(fields@), major, minor, inode),
{
    let ghost all = text::texts(fields@);
    assert(all.len() == fields.len());
    if fields.len() < 6 {
        return false;
    }
    assert(all[1] == fields@[1]@ && all[3] == fields@[3]@ && all[5] == fields@[5]@);
    if !text_equal(&fields[1], "FLOCK") || !text_equal(&fields[3], "WRITE") {
        return false;
    }
    let (first, rest) = match part(&fields[5]) {
        Some(p) => p,
        None => return false,
    };
    let (second, third) = match part(&rest) {
        Some(p) => p,
        None => return false,
    };
    let a = match parse_hex(&first) {
        Some(n) => n == major,
        None => false,
    };
    let b = match parse_hex(&second) {
        Some(n) => n == minor,
        None => false,
    };
    let c = match parse_u64(&third) {
        Some(n) => n == inode,
        None => false,
    };
    a && b && c
}

/// Finds the one process that holds the lock of a file, in the kernel's list of
/// locks.
pub fn linux_flock_owner(locks: &str, major: u32, minor: u32, inode: u64) -> (r: Result<
    u32,
    MuxError,
>)
    ensures
        error::outcome(r) == holder(scan::lines(locks@), major, minor, inode, 0, None),
{
    let lines = text_lines(locks);
    let ghost all = scan::lines(locks@);
    let mut found: Option<u32> = None;
    let mut i: usize = 0;
    while i < lines.len()
        invariant
            i <= lines.len(),
            text::texts(lines@) == all,
            holder(all, major, minor, inode, 0, None) == holder(
                all,
                major,
                minor,
                inode,
                i as int,
                found,
            ),
        decreases lines.len() - i,
    {
        assert(all[i as int] == lines@[i as int]@);
        let fields = split_whitespace(&lines[i]);
        if names_lock(&fields, major, minor, inode) {
            assert(text::texts(fields@)[4] == fields@[4]@);
            match parse_u32(&fields[4]) {
                None => return Err(command_error("smart-naming kernel lock owner is invalid")),
                Some(pid) => {
                    if found.is_some() {
                        return Err(
                            command_error("smart-naming kernel lock ownership is ambiguous"),
                        );
                    }
                    found = Some(pid);
                },
            }
        }
        i += 1;
    }
    match found {
        Some(pid) => Ok(pid),
        None => Err(
            command_error("smart-naming kernel lock owner could not be authenticated"),
        ),
    }
}

// ---------------------------------------------------------------------------
// The record in the lock
// ---------------------------------------------------------------------------

/// What a worker writes into its lock.
pub open spec fn record_text(pid: u32, started: u64) -> Seq<char> {
    "v1 "@ + number::decimal(pid as nat) + " "@ + number::decimal(started as nat) + "\n"@
}

pub fn identity_record(pid: u32, started: u64) -> (r: String)
    ensures
        r@ == record_text(pid, started),
{
    let mut s = "v1 ".to_owned();
    s.append(&number::decimal_text(pid as u64));
    s.append(" ");
    s.append(&number::decimal_text(started));
    s.append("\n");
    s
}

/// The process that a record names.
pub open spec fn recorded_pid(record: Seq<char>) -> Result<u32, ErrorModel> {
    let fields = scan::words(record);
    if fields.len() != 3 || fields[0] != "v1"@ {
        Err(failed("smart-naming worker identity record is missing or invalid"@))
    } else {
        match number::unsigned_value(fields[1], u32::MAX as nat) {
            Some(pid) => if pid > 0 {
                Ok(pid as u32)
            } else {
                Err(failed("smart-naming worker identity PID is invalid"@))
            },
            None => Err(failed("smart-naming worker identity PID is invalid"@)),
        }
    }
}

/// The start time that a record gives.
pub open spec fn recorded_start(record: Seq<char>) -> Result<u64, ErrorModel> {
    match number::unsigned_value(scan::words(record)[2], u64::MAX as nat) {
        Some(started) => Ok(started as u64),
        None => Err(failed("smart-naming worker identity start time is invalid"@)),
    }
}

/// Reads the process that a record names, with the text of its start time.
pub fn read_record(record: &str) -> (r: Result<(u32, String), MuxError>)
    ensures
        match r {
            Ok((pid, started)) => recorded_pid(record@) == Ok::<u32, ErrorModel>(pid) && started@
                == scan::words(record@)[2],
            Err(e) => recorded_pid(record@) == Err::<u32, ErrorModel>(e@),
        },
{
    let fields = split_whitespace(record);
    let ghost all = scan::words(record@);
    assert(all.len() == fields.len());
    if fields.len() != 3 {
        return Err(
            command_error("smart-naming worker identity record is missing or invalid"),
        );
    }
    assert(all[0] == fields@[0]@ && all[1] == fields@[1]@ && all[2] == fields@[2]@);
    if !text_equal(&fields[0], "v1") {
        return Err(
            command_error("smart-naming worker identity record is missing or invalid"),
        );
    }
    match parse_u32(&fields[1]) {
        Some(pid) => if pid > 0 {
            Ok((pid, fields[2].clone()))
        } else {
            Err(command_error("smart-naming worker identity PID is invalid"))
        },
        None => Err(command_error("smart-naming worker identity PID is invalid")),
    }
}

proof fn decimal_has_no_space(n: nat)
    ensures
        number::decimal(n).len() > 0,
        forall|i: int|
            0 <= i < number::decimal(n).len() ==> !text::is_space(#[trigger] number::decimal(n)[i]),
{
    number::decimal_digits(n);
    let d = number::decimal(n);
    assert forall|i: int| 0 <= i < d.len() implies !text::is_space(#[trigger] d[i]) by {
        assert(text::is_digit(d[i]));
    }
}

/// What a worker wrote is read back as the process and the start time that it
/// wrote.
pub proof fn records_read_back(pid: u32, started: u64)
    requires
        pid > 0,
    ensures
        recorded_pid(record_text(pid, started)) == Ok::<u32, ErrorModel>(pid),
        recorded_start(record_text(pid, started)) == Ok::<u64, ErrorModel>(started),
{
    reveal_strlit("v1 ");
    reveal_strlit("v1");
    reveal_strlit(" ");
    reveal_strlit("\n");
    let p = number::decimal(pid as nat);
    let t = number::decimal(started as nat);
    decimal_has_no_space(pid as nat);
    decimal_has_no_space(started as nat);
    let none = Seq::<char>::empty();
    scan::words_append(none, "v1"@);
    assert(none + "v1"@ =~= "v1"@);
    scan::words_before_space("v1"@, ' ');
    assert("v1"@.push(' ') =~= "v1 "@);
    let a = "v1 "@ + p;
    scan::words_append("v1 "@, p);
    scan::words_before_space(a, ' ');
    scan::words_append(a.push(' '), t);
    let b = a.push(' ') + t;
    scan::words_before_space(b, '\n');
    assert(record_text(pid, started) =~= b.push('\n'));
    let fields = scan::words(record_text(pid, started));
    assert(fields =~= seq!["v1"@, p, t]);
    number::unsigned_value_of_decimal(pid as nat, u32::MAX as nat);
    number::unsigned_value_of_decimal(started as nat, u64::MAX as nat);
}

// ---------------------------------------------------------------------------
// The processes below a worker
// ---------------------------------------------------------------------------

/// How many generations a process is below another one, `None` where it is not
/// below it by a chain of at most so many links.
pub open spec fn depth(table: Seq<ProcessEntry>, pid: u32, root: u32, links: nat) -> Option<nat>
    decreases links,
{
    if pid == root {
        Some(0)
    } else if links == 0 {
        None
    } else {
        match processes::identity_of(table, pid) {
            None => None,
            Some((parent, _)) => match depth(table, parent, root, (links - 1) as nat) {
                Some(d) => Some(d + 1),
                None => None,
            },
        }
    }
}

/// A process below a worker.
#[derive(Clone, Copy, Debug, PartialEq, Eq, Structural)]
pub struct Descendant {
    pub pid: u32,
    pub started: u64,
    pub depth: usize,
}

fn find_depth(table: &Vec<ProcessEntry>, pid: u32, root: u32) -> (r: Option<usize>)
    ensures
        match r {
            Some(d) => depth(table@, pid, root, table@.len()) == Some(d as nat),
            None => depth(table@, pid, root, table@.len()) is None,
        },
{
    let mut current: u32 = pid;
    let mut steps: usize = 0;
    while steps < table.len() && current != root
        invariant
            steps <= table@.len(),
            match depth(table@, current, root, (table@.len() - steps) as nat) {
                Some(d) => depth(table@, pid, root, table@.len()) == Some(d + steps as nat),
                None => depth(table@, pid, root, table@.len()) is None,
            },
        decreases table.len() - steps,
    {
        match find_identity(table, current) {
            None => return None,
            Some((parent, _)) => {
                current = parent;
            },
        }
        steps += 1;
    }
    if current == root {
        Some(steps)
    } else {
        None
    }
}

/// A process put behind every process that is at least as deep.
pub open spec fn by_depth(list: Seq<Descendant>, one: Descendant) -> Seq<Descendant>
    decreases list.len(),
{
    if list.len() > 0 && list.last().depth < one.depth {
        by_depth(list.drop_last(), one).push(list.last())
    } else {
        list.push(one)
    }
}

/// The processes of the table that are below the worker, deepest first.
pub open spec fn below(table: Seq<ProcessEntry>, root: u32, n: int) -> Seq<Descendant>
    decreases n,
{
    if n <= 0 {
        Seq::empty()
    } else {
        let rest = below(table, root, n - 1);
        let entry = table[n - 1];
        match depth(table, entry.pid, root, table.len()) {
            Some(d) => if entry.pid == root {
                rest
            } else {
                by_depth(
                    rest,
                    Descendant { pid: entry.pid, started: entry.started, depth: d as usize },
                )
            },
            None => rest,
        }
    }
}

fn insert_by_depth(list: Vec<Descendant>, one: Descendant) -> (r: Vec<Descendant>)
    ensures
        r@ == by_depth(list@, one),
    decreases list@.len(),
{
    let mut list = list;
    let ghost all = list@;
    if list.len() > 0 {
        let n: usize = list.len() - 1;
        let last = list[n];
        if last.depth < one.depth {
            let _ = list.pop();
            assert(list@ =~= all.drop_last());
            let mut r = insert_by_depth(list, one);
            r.push(last);
            return r;
        }
    }
    list.push(one);
    list
}

/// Lists the processes below a worker, deepest first.
pub fn descendants_of(table: &Vec<ProcessEntry>, root: u32) -> (r: Vec<Descendant>)
    ensures
        r@ == below(table@, root, table@.len() as int),
{
    let mut r: Vec<Descendant> = Vec::new();
    let mut i: usize = 0;
    while i < table.len()
        invariant
            i <= table.len(),
            r@ == below(table@, root, i as int),
        decreases table.len() - i,
    {
        let entry = table[i];
        if let Some(d) = find_depth(table, entry.pid, root) {
            if entry.pid != root {
                r = insert_by_depth(
                    r,
                    Descendant { pid: entry.pid, started: entry.started, depth: d },
                );
            }
        }
        i += 1;
    }
    r
}

proof fn insertion_keeps_order(list: Seq<Descendant>, one: Descendant)
    requires
        forall|i: int, j: int|
            0 <= i < j < list.len() ==> (#[trigger] list[i]).depth >= (#[trigger] list[j]).depth,
    ensures
        by_depth(list, one).len() == list.len() + 1,
        forall|i: int, j: int|
            0 <= i < j < by_depth(list, one).len() ==> (#[trigger] by_depth(list, one)[i]).depth
                >= (#[trigger] by_depth(list, one)[j]).depth,
        forall|i: int|
            0 <= i < by_depth(list, one).len() ==> (#[trigger] by_depth(list, one)[i]) == one
                || list.contains(by_depth(list, one)[i]),
    decreases list.len(),
{
    let r = by_depth(list, one);
    if list.len() > 0 && list.last().depth < one.depth {
        let front = list.drop_last();
        insertion_keeps_order(front, one);
        let q = by_depth(front, one);
        assert forall|i: int| 0 <= i < q.len() implies (#[trigger] q[i]).depth
            >= list.last().depth by {
            if q[i] != one {
                assert(front.contains(q[i]));
                let k = choose|k: int| 0 <= k < front.len() && front[k] == q[i];
                assert(list[k].depth >= list[list.len() - 1].depth);
            }
        }
        assert forall|i: int| 0 <= i < r.len() implies (#[trigger] r[i]) == one || list.contains(
            r[i],
        ) by {
            if i < q.len() {
                assert(r[i] == q[i]);
                if q[i] != one {
                    let k = choose|k: int| 0 <= k < front.len() && front[k] == q[i];
                    assert(list[k] == q[i]);
                }
            } else {
                assert(list[list.len() - 1] == r[i]);
            }
        }
    } else {
        assert forall|i: int| 0 <= i < r.len() implies (#[trigger] r[i]) == one || list.contains(
            r[i],
        ) by {
            if i < list.len() {
                assert(list[i] == r[i]);
            }
        }
    }
}

/// A process is listed before every process above it, so that no parent goes
/// before its children.
pub proof fn deeper_processes_come_first(table: Seq<ProcessEntry>, root: u32, n: int)
    requires
        0 <= n <= table.len(),
    ensures
        forall|i: int, j: int|
            0 <= i < j < below(table, root, n).len() ==> (#[trigger] below(
                table,
                root,
                n,
            )[i]).depth >= (#[trigger] below(table, root, n)[j]).depth,
    decreases n,
{
    if n > 0 {
        deeper_processes_come_first(table, root, n - 1);
        let entry = table[n - 1];
        if depth(table, entry.pid, root, table.len()) is Some && entry.pid != root {
            insertion_keeps_order(
                below(table, root, n - 1),
                Descendant {
                    pid: entry.pid,
                    started: entry.started,
                    depth: depth(table, entry.pid, root, table.len())->0 as usize,
                },
            );
        }
    }
}

// ---------------------------------------------------------------------------
// Stopping a worker by force
// ---------------------------------------------------------------------------

/// What an attempt to take the lock says of it.
#[derive(Debug)]
pub enum LockState {
    /// Nobody holds it.
    Released,
    Held,
    /// It could not be told, and why.
    Unknown(String),
}

/// The system as it is needed to stop a worker by force. Signals go to the
/// process that was bound, never to a number.
pub trait DaemonHost {
    fn try_lock(&mut self) -> LockState;

    /// What the locked file holds.
    fn read_record(&mut self) -> Result<String, MuxError>;

    /// The process that holds the lock of that very file.
    fn lock_owner(&mut self) -> Result<u32, MuxError>;

    /// Binds the process that has a number now.
    fn bind(&mut self, pid: u32) -> Result<(), String>;

    fn start_time(&mut self, pid: u32) -> Result<u64, MuxError>;

    /// Halts the bound process.
    fn suspend(&mut self) -> Result<(), String>;

    /// The entries of the process file system; none where it cannot be read.
    fn process_entries(&mut self) -> Vec<ProcEntry>;

    /// Binds a further process that has a number now, and holds it behind those that
    /// are held already.
    fn hold(&mut self, pid: u32) -> bool;

    /// Lets the process go that was held last.
    fn release(&mut self);

    /// Kills every process that is held, in the order in which they were bound.
    fn kill_held(&mut self);

    /// Kills the bound process.
    fn kill(&mut self) -> Result<(), String>;
}

/// A piece of that work and what came of it.
pub enum StopEvent {
    TryLock(LockState),
    ReadRecord(Result<Seq<char>, ErrorModel>),
    LockOwner(Result<u32, ErrorModel>),
    Bind(u32, Result<(), Seq<char>>),
    StartTime(u32, Result<u64, ErrorModel>),
    Suspend(Result<(), Seq<char>>),
    Entries(Seq<ProcEntry>),
    Hold(u32, bool),
    Release,
    KillHeld,
    Kill(Result<(), Seq<char>>),
}

pub open spec fn said(r: Result<(), String>) -> Result<(), Seq<char>> {
    match r {
        Ok(_) => Ok(()),
        Err(m) => Err(m@),
    }
}

/// The process that an entry is.
pub open spec fn entry_of(entry: ProcEntry) -> Option<ProcessEntry> {
    match (text::utf8_decoded(entry.name@), entry.stat) {
        (Some(name), Some(stat)) => match (
            number::unsigned_value(name, u32::MAX as nat),
            process_identity(stat@),
        ) {
            (Some(pid), Ok((parent, started))) => Some(
                ProcessEntry { pid: pid as u32, parent, started },
            ),
            _ => None,
        },
        _ => None,
    }
}

/// The processes of some entries.
pub open spec fn entries_table(entries: Seq<ProcEntry>) -> Seq<ProcessEntry>
    decreases entries.len(),
{
    if entries.len() == 0 {
        Seq::empty()
    } else {
        let before = entries_table(entries.drop_last());
        match entry_of(entries.last()) {
            Some(entry) => before.push(entry),
            None => before,
        }
    }
}

/// A number that a process can be bound by.
pub open spec fn can_be_bound(pid: u32) -> bool {
    0 < pid <= 0x7fff_ffff
}

/// What a record of the work says from a place on of processes that are held: each one
/// that could be bound and still is the process that was listed. The result is the
/// place behind it.
pub open spec fn held_at(w: Seq<StopEvent>, k: int, list: Seq<Descendant>, i: int) -> Option<int>
    decreases list.len() - i,
{
    if i < 0 || i >= list.len() {
        Some(k)
    } else if !can_be_bound(list[i].pid) {
        held_at(w, k, list, i + 1)
    } else if !(0 <= k < w.len()) {
        None
    } else {
        match w[k] {
            StopEvent::Hold(pid, bound) => if pid != list[i].pid {
                None
            } else if !bound {
                held_at(w, k + 1, list, i + 1)
            } else if !(k + 1 < w.len()) {
                None
            } else {
                match w[k + 1] {
                    StopEvent::StartTime(asked, time) => if asked != pid {
                        None
                    } else if time == Ok::<u64, ErrorModel>(list[i].started) {
                        held_at(w, k + 2, list, i + 1)
                    } else if k + 2 < w.len() && w[k + 2] is Release {
                        held_at(w, k + 3, list, i + 1)
                    } else {
                        None
                    },
                    _ => None,
                }
            },
            _ => None,
        }
    }
}

/// What a record says of everything below a process being killed.
pub open spec fn below_killed_at(w: Seq<StopEvent>, k: int, pid: u32) -> Option<int> {
    if !(0 <= k < w.len()) {
        None
    } else {
        match w[k] {
            StopEvent::Entries(entries) => {
                let table = entries_table(entries);
                match held_at(w, k + 1, below(table, pid, table.len() as int), 0) {
                    Some(n) => if 0 <= n < w.len() && w[n] is KillHeld {
                        Some(n + 1)
                    } else {
                        None
                    },
                    None => None,
                }
            },
            _ => None,
        }
    }
}

/// A record begins with another.
pub open spec fn agrees(w: Seq<StopEvent>, log: Seq<StopEvent>) -> bool {
    &&& log.len() <= w.len()
    &&& forall|i: int| 0 <= i < log.len() ==> #[trigger] w[i] == log[i]
}

proof fn holding_moves_along(w: Seq<StopEvent>, m: int, k: int, list: Seq<Descendant>, i: int)
    requires
        0 <= m <= k,
        m <= w.len(),
        held_at(w, k, list, i) is Some,
    ensures
        held_at(w.skip(m), k - m, list, i) == Some(held_at(w, k, list, i)->0 - m),
    decreases list.len() - i,
{
    if 0 <= i < list.len() {
        if !can_be_bound(list[i].pid) {
            holding_moves_along(w, m, k, list, i + 1);
        } else {
            assert(w.skip(m)[k - m] == w[k]);
            match w[k] {
                StopEvent::Hold(pid, bound) => {
                    if !bound {
                        holding_moves_along(w, m, k + 1, list, i + 1);
                    } else {
                        assert(w.skip(m)[k + 1 - m] == w[k + 1]);
                        match w[k + 1] {
                            StopEvent::StartTime(asked, time) => {
                                if time == Ok::<u64, ErrorModel>(list[i].started) {
                                    holding_moves_along(w, m, k + 2, list, i + 1);
                                } else {
                                    assert(w.skip(m)[k + 2 - m] == w[k + 2]);
                                    holding_moves_along(w, m, k + 3, list, i + 1);
                                }
                            },
                            _ => {},
                        }
                    }
                },
                _ => {},
            }
        }
    }
}

proof fn holding_goes_on(w: Seq<StopEvent>, k: int, list: Seq<Descendant>, i: int)
    requires
        held_at(w, k, list, i) is Some,
    ensures
        held_at(w, k, list, i)->0 >= k,
    decreases list.len() - i,
{
    if 0 <= i < list.len() {
        if !can_be_bound(list[i].pid) {
            holding_goes_on(w, k, list, i + 1);
        } else {
            match w[k] {
                StopEvent::Hold(pid, bound) => {
                    if !bound {
                        holding_goes_on(w, k + 1, list, i + 1);
                    } else {
                        match w[k + 1] {
                            StopEvent::StartTime(asked, time) => {
                                if time == Ok::<u64, ErrorModel>(list[i].started) {
                                    holding_goes_on(w, k + 2, list, i + 1);
                                } else {
                                    holding_goes_on(w, k + 3, list, i + 1);
                                }
                            },
                            _ => {},
                        }
                    }
                },
                _ => {},
            }
        }
    }
}

/// A process that stays bound to be killed is one of those that were listed below the
/// worker: it was bound first, and has the listed start time after that.
pub proof fn only_listed_processes_stay_held(
    w: Seq<StopEvent>,
    k: int,
    list: Seq<Descendant>,
    i: int,
    j: int,
)
    requires
        0 <= i,
        held_at(w, k, list, i) matches Some(n) && k <= j < n,
        w[j] matches StopEvent::Hold(_, true),
    ensures
        w[j + 1] matches StopEvent::StartTime(asked, time) && asked == w[j]->Hold_0 && (
        w[j + 2] is Release || exists|x: int|
            0 <= x < list.len() && (#[trigger] list[x]).pid == asked && time == Ok::<
                u64,
                ErrorModel,
            >(list[x].started)),
    decreases list.len() - i,
{
    if i < list.len() {
        if !can_be_bound(list[i].pid) {
            only_listed_processes_stay_held(w, k, list, i + 1, j);
        } else if j > k {
            match w[k] {
                StopEvent::Hold(pid, bound) => {
                    if !bound {
                        only_listed_processes_stay_held(w, k + 1, list, i + 1, j);
                    } else {
                        match w[k + 1] {
                            StopEvent::StartTime(asked, time) => {
                                if time == Ok::<u64, ErrorModel>(list[i].started) {
                                    only_listed_processes_stay_held(w, k + 2, list, i + 1, j);
                                } else {
                                    only_listed_processes_stay_held(w, k + 3, list, i + 1, j);
                                }
                            },
                            _ => {},
                        }
                    }
                },
                _ => {},
            }
        } else {
            assert(list[i].pid == w[j]->Hold_0);
        }
    }
}

proof fn killing_moves_along(w: Seq<StopEvent>, m: int, k: int, pid: u32)
    requires
        0 <= m <= k,
        m <= w.len(),
        below_killed_at(w, k, pid) is Some,
    ensures
        below_killed_at(w.skip(m), k - m, pid) == Some(below_killed_at(w, k, pid)->0 - m),
{
    assert(w.skip(m)[k - m] == w[k]);
    match w[k] {
        StopEvent::Entries(entries) => {
            let table = entries_table(entries);
            let list = below(table, pid, table.len() as int);
            holding_moves_along(w, m, k + 1, list, 0);
            holding_goes_on(w, k + 1, list, 0);
            let n = held_at(w, k + 1, list, 0)->0;
            assert(w.skip(m)[n - m] == w[n]);
        },
        _ => {},
    }
}

pub open spec fn stopped_since(before: Seq<StopEvent>, after: Seq<StopEvent>) -> Seq<StopEvent> {
    after.skip(before.len() as int)
}

pub open spec fn ends_with(seen: Seq<StopEvent>, n: int, e: ErrorModel, result: Result<
    (),
    ErrorModel,
>) -> bool {
    seen.len() == n && result == Err::<(), ErrorModel>(e)
}

/// The worker was bound, its start time compared, and only then it was halted,
/// what is below it killed, and itself killed.
pub open spec fn killed(
    pid: u32,
    started: u64,
    seen: Seq<StopEvent>,
    result: Result<(), ErrorModel>,
) -> bool {
    &&& seen.len() >= 1
    &&& seen[0] matches StopEvent::Bind(bound, bind)
    &&& bound == pid
    &&& match bind {
        Err(m) => ends_with(
            seen,
            1,
            failed("could not bind smart-naming worker PID: "@ + m),
            result,
        ),
        Ok(_) => {
            &&& seen.len() >= 2
            &&& seen[1] matches StopEvent::StartTime(asked, time)
            &&& asked == pid
            &&& match time {
                Err(e) => ends_with(seen, 2, e, result),
                Ok(now) => if now != started {
                    ends_with(
                        seen,
                        2,
                        failed("smart-naming worker identity changed before forced stop"@),
                        result,
                    )
                } else {
                    &&& seen.len() >= 3
                    &&& seen[2] matches StopEvent::Suspend(halt)
                    &&& match halt {
                        Err(m) => ends_with(
                            seen,
                            3,
                            failed(
                                "could not suspend the authenticated smart-naming worker: "@ + m,
                            ),
                            result,
                        ),
                        Ok(_) => {
                            &&& below_killed_at(seen, 3, pid) matches Some(n)
                            &&& seen.len() == n + 1
                            &&& seen[n] matches StopEvent::Kill(kill)
                            &&& result == match kill {
                                Ok(_) => Ok(()),
                                Err(m) => Err(
                                    failed(
                                        "could not force-stop the authenticated smart-naming worker: "@
                                            + m,
                                    ),
                                ),
                            }
                        },
                    }
                },
            }
        },
    }
}

/// The record names a process; that process has to hold the lock.
pub open spec fn record_followed(
    record: Seq<char>,
    seen: Seq<StopEvent>,
    result: Result<(), ErrorModel>,
) -> bool {
    match recorded_pid(record) {
        Err(e) => ends_with(seen, 0, e, result),
        Ok(pid) => {
            &&& seen.len() >= 1
            &&& seen[0] matches StopEvent::LockOwner(owner)
            &&& match owner {
                Err(e) => ends_with(seen, 1, e, result),
                Ok(holder) => if holder != pid {
                    ends_with(
                        seen,
                        1,
                        failed("smart-naming worker identity does not own the authenticated lock"@),
                        result,
                    )
                } else {
                    match recorded_start(record) {
                        Err(e) => ends_with(seen, 1, e, result),
                        Ok(started) => if pid > 0x7fff_ffff {
                            ends_with(
                                seen,
                                1,
                                failed("smart-naming worker PID is out of range"@),
                                result,
                            )
                        } else {
                            killed(pid, started, seen.skip(1), result)
                        },
                    }
                },
            }
        },
    }
}

/// A forced stop.
pub open spec fn force_stop_went(seen: Seq<StopEvent>, result: Result<(), ErrorModel>) -> bool {
    &&& seen.len() >= 1
    &&& seen[0] matches StopEvent::TryLock(state)
    &&& match state {
        LockState::Released => ends_with(
            seen,
            1,
            failed("smart-naming worker released its authenticated lock before forced stop"@),
            result,
        ),
        LockState::Unknown(m) => ends_with(
            seen,
            1,
            failed("could not revalidate smart-naming lock ownership: "@ + m@),
            result,
        ),
        LockState::Held => {
            &&& seen.len() >= 2
            &&& seen[1] matches StopEvent::ReadRecord(read)
            &&& match read {
                Err(e) => ends_with(seen, 2, e, result),
                Ok(record) => record_followed(record, seen.skip(2), result),
            }
        },
    }
}

fn with_detail(front: &str, detail: &str) -> (r: MuxError)
    ensures
        r@ == failed(front@ + detail@),
{
    let mut message = front.to_owned();
    message.append(detail);
    command_error(&message)
}

fn read_entry(entry: &ProcEntry) -> (r: Option<ProcessEntry>)
    ensures
        r == entry_of(*entry),
{
    let Some(name) = read_utf8(&entry.name) else {
        return None;
    };
    let Some(stat) = &entry.stat else {
        return None;
    };
    let Some(pid) = parse_u32(&name) else {
        return None;
    };
    match linux_process_identity(stat) {
        Ok((parent, started)) => Some(ProcessEntry { pid, parent, started }),
        Err(_) => None,
    }
}

/// Lists the processes of some entries.
pub fn process_table(entries: &Vec<ProcEntry>) -> (r: Vec<ProcessEntry>)
    ensures
        r@ == entries_table(entries@),
{
    let mut table: Vec<ProcessEntry> = Vec::new();
    let mut i: usize = 0;
    assert(entries@.take(0) =~= Seq::<ProcEntry>::empty());
    while i < entries.len()
        invariant
            i <= entries.len(),
            table@ == entries_table(entries@.take(i as int)),
        decreases entries.len() - i,
    {
        assert(entries@.take(i + 1).drop_last() =~= entries@.take(i as int));
        if let Some(entry) = read_entry(&entries[i]) {
            table.push(entry);
        }
        i += 1;
    }
    assert(entries@.take(entries@.len() as int) =~= entries@);
    table
}

/// Kills everything below a process, deepest first. Only processes that are still those
/// that were listed are killed.
pub fn kill_below<H: DaemonHost>(host: &mut LoggedDaemon<H>, pid: u32)
    ensures
        agrees(final(host).events(), old(host).events()),
        forall|w: Seq<StopEvent>|
            agrees(w, final(host).events()) ==> #[trigger] below_killed_at(
                w,
                old(host).events().len() as int,
                pid,
            ) == Some(final(host).events().len() as int),
{
    let ghost start = host.events();
    let ghost first: int = start.len() as int + 1;
    let entries = host.process_entries();
    let table = process_table(&entries);
    let list = descendants_of(&table, pid);
    let mut i: usize = 0;
    while i < list.len()
        invariant
            i <= list.len(),
            start == old(host).events(),
            agrees(host.events(), start.push(StopEvent::Entries(entries@))),
            forall|w: Seq<StopEvent>|
                agrees(w, host.events()) ==> #[trigger] held_at(
                    w,
                    first,
                    list@,
                    0,
                ) == held_at(w, host.events().len() as int, list@, i as int),
        decreases list.len() - i,
    {
        let ghost before = host.events();
        let one = &list[i];
        if one.pid != 0 && one.pid <= 0x7fff_ffff {
            if host.hold(one.pid) {
                let same = match host.start_time(one.pid) {
                    Ok(started) => started == one.started,
                    Err(_) => false,
                };
                if !same {
                    host.release();
                }
            }
        }
        assert(agrees(host.events(), before));
        i += 1;
    }
    let ghost held = host.events();
    host.kill_held();
    assert(agrees(host.events(), held));
}

fn kill_bound<H: DaemonHost>(host: &mut LoggedDaemon<H>, pid: u32, started: u64) -> (r: Result<
    (),
    MuxError,
>)
    ensures
        old(host).events().is_prefix_of(final(host).events()),
        killed(
            pid,
            started,
            stopped_since(old(host).events(), final(host).events()),
            error::outcome(r),
        ),
{
    let ghost s = host.events();
    let bound = host.bind(pid);
    let ghost a = host.events();
    assert(stopped_since(s, a) =~= seq![a.last()]);
    if let Err(m) = bound {
        return Err(with_detail("could not bind smart-naming worker PID: ", &m));
    }
    let time = host.start_time(pid);
    let ghost b = host.events();
    assert(stopped_since(s, b) =~= seq![a.last(), b.last()]);
    match time {
        Err(e) => return Err(e),
        Ok(now) => {
            if now != started {
                return Err(
                    command_error("smart-naming worker identity changed before forced stop"),
                );
            }
        },
    }
    let halted = host.suspend();
    let ghost c = host.events();
    assert(stopped_since(s, c) =~= seq![a.last(), b.last(), c.last()]);
    if let Err(m) = halted {
        return Err(
            with_detail("could not suspend the authenticated smart-naming worker: ", &m),
        );
    }
    kill_below(host, pid);
    let ghost d = host.events();
    let end = host.kill();
    let ghost e = host.events();
    proof {
        assert(agrees(e, d));
        assert(below_killed_at(e, c.len() as int, pid) == Some(d.len() as int));
        killing_moves_along(e, s.len() as int, c.len() as int, pid);
        let seen = stopped_since(s, e);
        assert(agrees(d, c));
        assert(seen[0] == a.last() && seen[1] == b.last() && seen[2] == c.last());
        assert(seen.last() == e.last());
        assert(s =~= e.take(s.len() as int));
    }
    match end {
        Ok(()) => Ok(()),
        Err(m) => Err(
            with_detail("could not force-stop the authenticated smart-naming worker: ", &m),
        ),
    }
}

fn follow_record<H: DaemonHost>(host: &mut LoggedDaemon<H>, record: &str) -> (r: Result<
    (),
    MuxError,
>)
    ensures
        old(host).events().is_prefix_of(final(host).events()),
        record_followed(
            record@,
            stopped_since(old(host).events(), final(host).events()),
            error::outcome(r),
        ),
{
    let ghost s = host.events();
    assert(stopped_since(s, s) =~= Seq::empty());
    let (pid, time_text) = match read_record(record) {
        Ok(read) => read,
        Err(e) => return Err(e),
    };
    let owner = host.lock_owner();
    let ghost a = host.events();
    assert(stopped_since(s, a) =~= seq![a.last()]);
    match owner {
        Err(e) => return Err(e),
        Ok(holder) => {
            if holder != pid {
                return Err(
                    command_error(
                        "smart-naming worker identity does not own the authenticated lock",
                    ),
                );
            }
        },
    }
    let started = match parse_u64(&time_text) {
        Some(started) => started,
        None => return Err(
            command_error("smart-naming worker identity start time is invalid"),
        ),
    };
    if pid > 0x7fff_ffff {
        return Err(command_error("smart-naming worker PID is out of range"));
    }
    let r = kill_bound(host, pid, started);
    proof {
        let end = host.events();
        assert(stopped_since(s, end).skip(1) =~= stopped_since(a, end));
        assert(stopped_since(s, end)[0] == a.last());
    }
    r
}

/// Stops the worker that holds a lock by force.
pub fn force_stop_naming_daemon<H: DaemonHost>(host: &mut LoggedDaemon<H>) -> (r: Result<
    (),
    MuxError,
>)
    ensures
        old(host).events().is_prefix_of(final(host).events()),
        force_stop_went(
            stopped_since(old(host).events(), final(host).events()),
            error::outcome(r),
        ),
{
    let ghost s = host.events();
    let state = host.try_lock();
    let ghost a = host.events();
    assert(stopped_since(s, a) =~= seq![a.last()]);
    match state {
        LockState::Released => {
            return Err(
                command_error(
                    "smart-naming worker released its authenticated lock before forced stop",
                ),
            );
        },
        LockState::Unknown(m) => {
            return Err(with_detail("could not revalidate smart-naming lock ownership: ", &m));
        },
        LockState::Held => {},
    }
    let read = host.read_record();
    let ghost b = host.events();
    assert(stopped_since(s, b) =~= seq![a.last(), b.last()]);
    let record = match read {
        Ok(record) => record,
        Err(e) => return Err(e),
    };
    let r = follow_record(host, &record);
    proof {
        let end = host.events();
        assert(stopped_since(s, end).skip(2) =~= stopped_since(b, end));
        assert(stopped_since(s, end)[0] == a.last());
        assert(stopped_since(s, end)[1] == b.last());
    }
    r
}

/// A signal is sent.
pub open spec fn is_signal(e: StopEvent) -> bool {
    e is Suspend || e is KillHeld || e is Kill
}

/// No process is signalled unless the lock is held, its record names the process
/// that the kernel says holds it, and the bound process has the recorded start
/// time.
pub proof fn only_the_recorded_owner_is_signalled(
    seen: Seq<StopEvent>,
    result: Result<(), ErrorModel>,
    i: int,
)
    requires
        force_stop_went(seen, result),
        0 <= i < seen.len(),
        is_signal(seen[i]),
    ensures
        seen.len() >= 6,
        seen[0] == StopEvent::TryLock(LockState::Held),
        seen[1] matches StopEvent::ReadRecord(Ok(record)) && {
            &&& recorded_pid(record) is Ok
            &&& recorded_start(record) is Ok
            &&& seen[2] == StopEvent::LockOwner(Ok(recorded_pid(record)->Ok_0))
            &&& seen[3] matches StopEvent::Bind(bound, _)
            &&& bound == recorded_pid(record)->Ok_0
            &&& seen[4] == StopEvent::StartTime(bound, Ok(recorded_start(record)->Ok_0))
        },
{
    assert(i >= 2);
    let record = seen[1]->ReadRecord_0->Ok_0;
    let rest = seen.skip(2);
    assert(rest[i - 2] == seen[i]);
    assert(i - 2 >= 1);
    let last = rest.skip(1);
    assert(last[i - 3] == seen[i]);
    assert(last[0] == seen[3]);
    assert(last[1] == seen[4]);
    assert(rest[0] == seen[2]);
}

// ---------------------------------------------------------------------------
// Stopping and starting
// ---------------------------------------------------------------------------

/// How long a worker may take to stop by itself, and after a forced stop.
pub const NAMING_SHUTDOWN_GRACE_MILLIS: u64 = 500;

pub const NAMING_FORCED_STOP_WAIT_MILLIS: u64 = 1000;

/// How long a wait for the lock goes on before it is tried again.
pub const NAMING_STOP_POLL_MILLIS: u64 = 25;

/// How a stop goes on.
#[derive(Clone, Copy, Debug, PartialEq, Eq, Structural)]
pub enum StopStep {
    /// The worker is gone; its names are taken away.
    ClearNames,
    /// The worker did not stop in time.
    Force,
    /// The worker did not even stop by force.
    GiveUp,
    Sleep(u64),
}

/// Decides how a stop goes on after an attempt to take the lock. `waited` is the
/// time since the stop began, `forced` that since a forced stop, where there was
/// one.
pub fn stop_step(acquired: bool, waited: u64, forced: Option<u64>) -> (r: StopStep)
    ensures
        r == if acquired {
            StopStep::ClearNames
        } else {
            match forced {
                Some(since) => if since < NAMING_FORCED_STOP_WAIT_MILLIS {
                    StopStep::Sleep(NAMING_STOP_POLL_MILLIS)
                } else {
                    StopStep::GiveUp
                },
                None => if waited >= NAMING_SHUTDOWN_GRACE_MILLIS {
                    StopStep::Force
                } else {
                    StopStep::Sleep(NAMING_STOP_POLL_MILLIS)
                },
            }
        },
{
    if acquired {
        return StopStep::ClearNames;
    }
    match forced {
        Some(since) => if since < NAMING_FORCED_STOP_WAIT_MILLIS {
            StopStep::Sleep(NAMING_STOP_POLL_MILLIS)
        } else {
            StopStep::GiveUp
        },
        None => if waited >= NAMING_SHUTDOWN_GRACE_MILLIS {
            StopStep::Force
        } else {
            StopStep::Sleep(NAMING_STOP_POLL_MILLIS)
        },
    }
}

/// The failure of a worker that did not even stop by force.
pub fn lock_retained() -> (r: MuxError)
    ensures
        r@ == failed(
            "smart-naming worker retained its lock after an authenticated forced stop"@,
        ),
{
    command_error("smart-naming worker retained its lock after an authenticated forced stop")
}

/// A worker is stopped only while naming is disabled.
pub fn stop_is_allowed(enabled: bool) -> (r: Result<(), MuxError>)
    ensures
        match r {
            Ok(_) => !enabled,
            Err(e) => enabled && e@ == failed(
                "refusing to stop smart naming while it remains enabled"@,
            ),
        },
{
    if enabled {
        return Err(command_error("refusing to stop smart naming while it remains enabled"));
    }
    Ok(())
}

/// The command that starts a worker.
pub open spec fn worker_command(executable: Seq<u8>, p: process::ResolvedModel) -> Result<
    Seq<char>,
    ErrorModel,
> {
    match process::path_word(executable) {
        Err(e) => Err(e),
        Ok(word) => match process::cli_words(p) {
            Err(e) => Err(e),
            Ok(words) => Ok(
                scan::join_with(seq!["exec"@, word] + words + seq!["smart-naming-worker"@], " "@),
            ),
        },
    }
}

fn write_command(executable: &UnixPath, process: &ResolvedProcessConfig) -> (r: Result<
    String,
    MuxError,
>)
    ensures
        process::text_outcome(r) == worker_command(executable@, process@),
{
    let word = match shell_word(executable) {
        Ok(word) => word,
        Err(e) => return Err(e),
    };
    let options = match process_cli_words(process) {
        Ok(options) => options,
        Err(e) => return Err(e),
    };
    let mut words = text::no_texts();
    text::put(&mut words, "exec");
    text::push_text(&mut words, word);
    text::put_all(&mut words, &options);
    text::put(&mut words, "smart-naming-worker");
    assert(text::texts(words@) =~= seq!["exec"@, word@] + text::texts(options@) + seq![
        "smart-naming-worker"@,
    ]);
    Ok(text::join_texts(&words, " "))
}

/// Tmux was asked to start a worker in the background.
pub open spec fn worker_started(
    command: Result<Seq<char>, ErrorModel>,
    trace: Seq<Exchange>,
    result: Result<(), ErrorModel>,
) -> bool {
    match command {
        Err(e) => trace.len() == 0 && result == Err::<(), ErrorModel>(e),
        Ok(c) => {
            &&& trace.len() == 1
            &&& trace[0].request == text::utf8_words(seq!["run-shell"@, "-b"@, c])
            &&& result == match trace[0].reply {
                Err(e) => Err(e),
                Ok(output) => if output.status == Some(0i32) {
                    Ok(())
                } else {
                    Err(
                        failed(
                            "tmux could not start smart-naming worker: "@ + scan::trimmed(
                                text::lossy_text(output.stderr),
                            ),
                        ),
                    )
                },
            }
        },
    }
}

/// Has tmux start a worker in the background.
pub fn ensure_naming_daemon<R: TmuxCommandRunner>(
    executable: &UnixPath,
    process: &ResolvedProcessConfig,
    runner: &mut LoggedRunner<R>,
) -> (r: Result<(), MuxError>)
    ensures
        old(runner).history().is_prefix_of(final(runner).history()),
        worker_started(
            worker_command(executable@, process@),
            crate::tmux::actions::exchanged(old(runner).history(), final(runner).history()),
            error::outcome(r),
        ),
{
    let ghost before = runner.history();
    assert(crate::tmux::actions::exchanged(before, before) =~= Seq::empty());
    let command = match write_command(executable, process) {
        Ok(command) => command,
        Err(e) => return Err(e),
    };
    let reply = runner.run(&to_words(&list3("run-shell", "-b", &command)));
    let ghost after = runner.history();
    assert(crate::tmux::actions::exchanged(before, after) =~= seq![after.last()]);
    match reply {
        Err(e) => Err(e),
        Ok(output) => match output.status {
            Some(0) => Ok(()),
            _ => Err(
                with_detail(
                    "tmux could not start smart-naming worker: ",
                    &trim(&utf8_lossy(&output.stderr)),
                ),
            ),
        },
    }
}

} // verus!
