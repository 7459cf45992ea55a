//! Whether a live process is one of a few known files, directly or as the
//! script of a trusted interpreter.

use vstd::prelude::*;
use crate::linux_process::command;
use crate::linux_process::command::interpreted_script_argument;
use crate::linux_process::evidence;
use crate::linux_process::evidence::split_arguments;
use crate::linux_process::identity_log::LoggedIdentity;
use crate::path::UnixPath;
use crate::text::bytes_equal;

verus! {

/// What a process shows of itself. It may change between two calls.
pub trait IdentityFiles {
    /// The program that the process runs.
    fn executable(&mut self) -> Option<UnixPath>;

    /// The device and inode of the program that the process runs.
    fn executable_identity(&mut self) -> Option<(u64, u64)>;

    /// Whether a program is an interpreter that is trusted to name its script.
    fn is_trusted_interpreter(&mut self, executable: &UnixPath) -> bool;

    /// The bytes of the command line up to one more than a limit, and whether
    /// they could be read.
    fn command_line(&mut self, limit: u64) -> (bool, Vec<u8>);

    /// The device and inode of a file.
    fn file_identity(&mut self, path: &UnixPath) -> Option<(u64, u64)>;
}

pub enum IdentityEvent {
    Executable(Option<Seq<u8>>),
    Identity(Option<(u64, u64)>),
    Trusted { path: Seq<u8>, reply: bool },
    CommandLine { limit: u64, read: bool, bytes: Seq<u8> },
    File { path: Seq<u8>, reply: Option<(u64, u64)> },
}

pub open spec fn knows(recognized: Seq<(u64, u64)>, identity: Option<(u64, u64)>) -> bool {
    identity is Some && recognized.contains(identity->0)
}

fn is_recognized(recognized: &Vec<(u64, u64)>, identity: &Option<(u64, u64)>) -> (r: bool)
    ensures
        r == knows(recognized@, *identity),
{
    let (device, inode) = match identity {
        Some(known) => *known,
        None => return false,
    };
    let mut i: usize = 0;
    while i < recognized.len()
        invariant
            i <= recognized.len(),
            forall|j: int| 0 <= j < i ==> recognized@[j] != (device, inode),
        decreases recognized.len() - i,
    {
        if recognized[i].0 == device && recognized[i].1 == inode {
            assert(recognized@[i as int] == (device, inode));
            return true;
        }
        i += 1;
    }
    false
}

fn same_identity(a: &Option<(u64, u64)>, b: &Option<(u64, u64)>) -> (r: bool)
    ensures
        r == (*a == *b),
{
    match (a, b) {
        (None, None) => true,
        (Some(x), Some(y)) => x.0 == y.0 && x.1 == y.1,
        _ => false,
    }
}

/// A sum of two lengths, as far as it can be told.
pub open spec fn total(a: nat, b: nat) -> u64 {
    if a + b > u64::MAX {
        u64::MAX
    } else {
        (a + b) as u64
    }
}

/// What was seen, and what it says: whether the process is recognized, and how
/// many bytes of command lines that took. A process counts only while what it
/// showed first still holds at the end.
pub open spec fn identified(
    recognized: Seq<(u64, u64)>,
    limit: u64,
    seen: Seq<IdentityEvent>,
    r: (bool, u64),
) -> bool {
    &&& seen.len() >= 1
    &&& seen[0] matches IdentityEvent::Executable(program)
    &&& match program {
        None => seen.len() == 1 && r == (false, 0u64),
        Some(executable) => {
            &&& seen.len() >= 3
            &&& seen[1] matches IdentityEvent::Identity(direct)
            &&& if knows(recognized, direct) {
                &&& seen.len() == 3
                &&& seen[2] matches IdentityEvent::Identity(current)
                &&& r == (current == direct, 0u64)
            } else {
                &&& seen[2] matches IdentityEvent::Trusted { path, reply: trusted }
                &&& path == executable
                &&& if !trusted {
                    seen.len() == 3 && r == (false, 0u64)
                } else {
                    interpreted(recognized, limit, executable, direct, seen.skip(3), r)
                }
            }
        },
    }
}

/// The part of a search that concerns the script of an interpreter.
pub open spec fn interpreted(
    recognized: Seq<(u64, u64)>,
    limit: u64,
    executable: Seq<u8>,
    direct: Option<(u64, u64)>,
    seen: Seq<IdentityEvent>,
    r: (bool, u64),
) -> bool {
    &&& seen.len() >= 1
    &&& seen[0] matches IdentityEvent::CommandLine { limit: first_limit, read, bytes }
    &&& first_limit == limit
    &&& if !read || bytes.len() > limit {
        seen.len() == 1 && r == (false, total(bytes.len(), 0))
    } else {
        match command::script_argument(executable, evidence::arguments_in(bytes)) {
            None => seen.len() == 1 && r == (false, total(bytes.len(), 0)),
            Some(script) => {
                &&& seen.len() >= 3
                &&& seen[1] matches IdentityEvent::File { path, reply: identity }
                &&& path == script
                &&& seen[2] matches IdentityEvent::CommandLine {
                    limit: second_limit,
                    read: again,
                    bytes: second,
                }
                &&& second_limit == limit
                &&& r.1 == total(bytes.len(), second.len())
                &&& if knows(recognized, identity) && again && second.len() <= limit && second
                    == bytes {
                    &&& seen.len() == 4
                    &&& seen[3] matches IdentityEvent::Identity(current)
                    &&& r.0 == (current == direct)
                } else {
                    seen.len() == 3 && !r.0
                }
            },
        }
    }
}

fn match_script<F: IdentityFiles>(
    files: &mut LoggedIdentity<F>,
    recognized: &Vec<(u64, u64)>,
    limit: u64,
    executable: &UnixPath,
    direct: &Option<(u64, u64)>,
) -> (r: (bool, u64))
    ensures
        old(files).events().is_prefix_of(final(files).events()),
        interpreted(
            recognized@,
            limit,
            executable@,
            *direct,
            final(files).events().skip(old(files).events().len() as int),
            r,
        ),
{
    let ghost s = files.events();
    let (read, bytes) = files.command_line(limit);
    let ghost a = files.events();
    assert(a.skip(s.len() as int) =~= seq![a.last()]);
    let first: u64 = bytes.len() as u64;
    if !read || first > limit {
        return (false, first);
    }
    let arguments = split_arguments(&bytes);
    let script = match interpreted_script_argument(executable, &arguments) {
        Some(script) => script,
        None => return (false, first),
    };
    let identity = files.file_identity(&script);
    let ghost b = files.events();
    let (again, second) = files.command_line(limit);
    let ghost c = files.events();
    assert(c.skip(s.len() as int) =~= seq![a.last(), b.last(), c.last()]);
    let taken: u64 = first.saturating_add(second.len() as u64);
    if is_recognized(recognized, &identity) && again && second.len() as u64 <= limit
        && bytes_equal(&second, &bytes) {
        let current = files.executable_identity();
        let ghost d = files.events();
        assert(d.skip(s.len() as int) =~= seq![a.last(), b.last(), c.last(), d.last()]);
        (same_identity(&current, direct), taken)
    } else {
        (false, taken)
    }
}

/// Matches one live process against exact files: the program that it runs, or
/// the script that a trusted interpreter runs for it.
pub fn pid_matches_file_identities<F: IdentityFiles>(
    files: &mut LoggedIdentity<F>,
    recognized: &Vec<(u64, u64)>,
    limit: u64,
) -> (r: (bool, u64))
    ensures
        old(files).events().is_prefix_of(final(files).events()),
        identified(
            recognized@,
            limit,
            final(files).events().skip(old(files).events().len() as int),
            r,
        ),
{
    let ghost s = files.events();
    let program = files.executable();
    let ghost a = files.events();
    assert(a.skip(s.len() as int) =~= seq![a.last()]);
    let executable = match program {
        Some(executable) => executable,
        None => return (false, 0),
    };
    let direct = files.executable_identity();
    let ghost b = files.events();
    if is_recognized(recognized, &direct) {
        let current = files.executable_identity();
        let ghost c = files.events();
        assert(c.skip(s.len() as int) =~= seq![a.last(), b.last(), c.last()]);
        return (same_identity(&current, &direct), 0);
    }
    let trusted = files.is_trusted_interpreter(&executable);
    let ghost c = files.events();
    assert(c.skip(s.len() as int) =~= seq![a.last(), b.last(), c.last()]);
    if !trusted {
        return (false, 0);
    }
    let r = match_script(files, recognized, limit, &executable, &direct);
    proof {
        let end = files.events();
        let seen = end.skip(s.len() as int);
        assert(seen.skip(3) =~= end.skip(c.len() as int));
        assert(seen[0] == a.last() && seen[1] == b.last() && seen[2] == c.last());
    }
    r
}

/// A known file was shown.
pub open spec fn shows_known_file(recognized: Seq<(u64, u64)>, e: IdentityEvent) -> bool {
    match e {
        IdentityEvent::Identity(id) => knows(recognized, id),
        IdentityEvent::File { reply, .. } => knows(recognized, reply),
        _ => false,
    }
}

/// A process that is recognized showed a known file, first and last the same.
pub proof fn a_recognized_process_is_a_known_file(
    recognized: Seq<(u64, u64)>,
    limit: u64,
    seen: Seq<IdentityEvent>,
    bytes: u64,
)
    requires
        identified(recognized, limit, seen, (true, bytes)),
    ensures
        exists|i: int|
            0 <= i < seen.len() && shows_known_file(recognized, #[trigger] seen[i]),
        seen[1] is Identity,
        seen.last() == seen[1],
{
    let direct = seen[1]->Identity_0;
    if knows(recognized, direct) {
        assert(shows_known_file(recognized, seen[1]));
    } else {
        assert(seen.skip(3)[1] == seen[4]);
        assert(shows_known_file(recognized, seen[4]));
        assert(seen.skip(3)[3] == seen[6]);
    }
}

} // verus!
