//! The files that a setup manages.

use vstd::prelude::*;
use crate::domain;
use crate::error;
use crate::error::{invalid_value, ErrorModel, MuxError};
use crate::path;
use crate::path::UnixPath;
use crate::text;

verus! {

// ---------------------------------------------------------------------------
// Which startup files
// ---------------------------------------------------------------------------

/// A variable of the environment that is set and not empty.
pub open spec fn set_value(value: Option<Seq<u8>>) -> Option<Seq<u8>> {
    match value {
        Some(v) => if v.len() == 0 {
            None
        } else {
            Some(v)
        },
        None => None,
    }
}

pub open spec fn bash_place(home: Seq<u8>, given: Option<Seq<u8>>) -> Seq<u8> {
    match given {
        Some(p) => p,
        None => path::joined(home, text::utf8(".bashrc"@)),
    }
}

pub open spec fn zsh_place(
    home: Seq<u8>,
    zdotdir: Option<Seq<u8>>,
    given: Option<Seq<u8>>,
) -> Seq<u8> {
    match given {
        Some(p) => p,
        None => path::joined(
            match set_value(zdotdir) {
                Some(root) => root,
                None => home,
            },
            text::utf8(".zshrc"@),
        ),
    }
}

/// The startup file of Bash.
pub fn bash_file(home: &UnixPath, given: &Option<UnixPath>) -> (r: UnixPath)
    ensures
        r@ == bash_place(home@, domain::path_view(*given)),
{
    match given {
        Some(p) => p.clone(),
        None => home.join(&UnixPath::new(".bashrc")),
    }
}

/// The startup file of Zsh, which has a directory of its own where one is set.
pub fn zsh_file(home: &UnixPath, zdotdir: &Option<UnixPath>, given: &Option<UnixPath>) -> (r:
    UnixPath)
    ensures
        r@ == zsh_place(home@, domain::path_view(*zdotdir), domain::path_view(*given)),
{
    match given {
        Some(p) => p.clone(),
        None => {
            let name = UnixPath::new(".zshrc");
            match zdotdir {
                Some(root) => if root.is_empty() {
                    home.join(&name)
                } else {
                    root.join(&name)
                },
                None => home.join(&name),
            }
        },
    }
}

/// The home directory, where it is set.
pub fn home_directory(value: &Option<UnixPath>) -> (r: Result<UnixPath, MuxError>)
    ensures
        match r {
            Ok(p) => set_value(domain::path_view(*value)) == Some(p@),
            Err(e) => set_value(domain::path_view(*value)) is None && e@
                == (ErrorModel::InvalidValue {
                field: "HOME"@,
                message: "must be set for zero-argument setup and removal"@,
            }),
        },
{
    if let Some(p) = value {
        if !p.is_empty() {
            return Ok(p.clone());
        }
    }
    Err(invalid_value("HOME", "must be set for zero-argument setup and removal"))
}

// ---------------------------------------------------------------------------
// Where they are
// ---------------------------------------------------------------------------

/// A path made absolute; a relative one stands in the current directory.
pub open spec fn absolute(p: Seq<u8>, current: Result<Seq<u8>, Seq<char>>) -> Result<
    Seq<u8>,
    ErrorModel,
> {
    if path::is_absolute(p) {
        Ok(p)
    } else {
        match current {
            Ok(c) => Ok(path::joined(c, p)),
            Err(source) => Err(
                ErrorModel::Filesystem { path: text::utf8("current directory"@), source },
            ),
        }
    }
}

pub open spec fn no_parent() -> ErrorModel {
    ErrorModel::InvalidValue {
        field: "shell configuration path"@,
        message: "must have a parent directory"@,
    }
}

/// The file once its directory is resolved: links above it are followed, the
/// file itself is not.
pub open spec fn resolved_target(p: Seq<u8>, parent: Result<Seq<u8>, Seq<char>>) -> Result<
    Seq<u8>,
    ErrorModel,
> {
    if path::parent(p) is None {
        Err(no_parent())
    } else {
        match parent {
            Err(source) => Err(ErrorModel::Filesystem { path: p, source }),
            Ok(directory) => match path::file_name(p) {
                Some(name) => Ok(path::joined(directory, name)),
                None => Err(
                    ErrorModel::InvalidValue {
                        field: "shell configuration path"@,
                        message: "must have a file name"@,
                    },
                ),
            },
        }
    }
}

pub open spec fn answer_view(r: Result<UnixPath, String>) -> Result<Seq<u8>, Seq<char>> {
    match r {
        Ok(p) => Ok(p@),
        Err(e) => Err(e@),
    }
}

pub open spec fn place_outcome(r: Result<UnixPath, MuxError>) -> Result<Seq<u8>, ErrorModel> {
    match r {
        Ok(p) => Ok(p@),
        Err(e) => Err(e@),
    }
}

/// Makes a path absolute.
pub fn absolute_path(p: &UnixPath, current: Result<UnixPath, String>) -> (r: Result<
    UnixPath,
    MuxError,
>)
    ensures
        place_outcome(r) == absolute(p@, answer_view(current)),
{
    if p.is_absolute() {
        return Ok(p.clone());
    }
    match current {
        Ok(c) => Ok(c.join(p)),
        Err(source) => Err(
            MuxError::Filesystem { path: UnixPath::new("current directory"), source },
        ),
    }
}

/// Finds a target that is absolute already, given its resolved directory.
pub fn absolute_target(p: &UnixPath, parent: Result<UnixPath, String>) -> (r: Result<
    UnixPath,
    MuxError,
>)
    ensures
        place_outcome(r) == resolved_target(p@, answer_view(parent)),
{
    if p.parent().is_none() {
        return Err(invalid_value("shell configuration path", "must have a parent directory"));
    }
    let directory = match parent {
        Ok(directory) => directory,
        Err(source) => return Err(MuxError::Filesystem { path: p.clone(), source }),
    };
    match p.file_name() {
        Some(name) => Ok(directory.join(&UnixPath::from_bytes(&name))),
        None => Err(invalid_value("shell configuration path", "must have a file name")),
    }
}

// ---------------------------------------------------------------------------
// That they are different files
// ---------------------------------------------------------------------------

/// What the file system says of the identity of a file.
#[derive(Debug)]
pub enum FileIdentity {
    Missing,
    Present { device: u64, inode: u64 },
    /// It could not be told, and why.
    Unknown(String),
}

/// A managed file, with the name of what it configures.
#[derive(Debug)]
pub struct ConfigTarget {
    pub name: &'static str,
    pub path: UnixPath,
    pub identity: FileIdentity,
}

/// Whether two files are one; a file whose identity is unknown is a failure.
pub open spec fn same_file(a: ConfigTarget, b: ConfigTarget) -> Result<bool, ErrorModel> {
    match (a.identity, b.identity) {
        (FileIdentity::Unknown(source), _) => Err(
            ErrorModel::Filesystem { path: a.path@, source: source@ },
        ),
        (_, FileIdentity::Unknown(source)) => Err(
            ErrorModel::Filesystem { path: b.path@, source: source@ },
        ),
        (
            FileIdentity::Present { device, inode },
            FileIdentity::Present { device: other, inode: number },
        ) => Ok(device == other && inode == number),
        _ => Ok(false),
    }
}

/// What speaks against two targets.
pub open spec fn pair_problem(a: ConfigTarget, b: ConfigTarget) -> Option<ErrorModel> {
    let shared = ErrorModel::InvalidValue {
        field: "configuration paths"@,
        message: a.name@ + " and "@ + b.name@ + " targets must be distinct files"@,
    };
    if path::same_path(a.path@, b.path@) {
        Some(shared)
    } else {
        match same_file(a, b) {
            Err(e) => Some(e),
            Ok(true) => Some(shared),
            Ok(false) => None,
        }
    }
}

/// The first problem of target `i` with a target from `j` on.
pub open spec fn row_problem(targets: Seq<ConfigTarget>, i: int, j: int) -> Option<ErrorModel>
    decreases targets.len() - j,
{
    if j >= targets.len() {
        None
    } else {
        match pair_problem(targets[i], targets[j]) {
            Some(e) => Some(e),
            None => row_problem(targets, i, j + 1),
        }
    }
}

/// The first problem of a target from `i` on with one behind it.
pub open spec fn targets_problem(targets: Seq<ConfigTarget>, i: int) -> Option<ErrorModel>
    decreases targets.len() - i,
{
    if i >= targets.len() {
        None
    } else {
        match row_problem(targets, i, i + 1) {
            Some(e) => Some(e),
            None => targets_problem(targets, i + 1),
        }
    }
}

fn same_existing_file(a: &ConfigTarget, b: &ConfigTarget) -> (r: Result<bool, MuxError>)
    ensures
        error::outcome(r) == same_file(*a, *b),
{
    if let FileIdentity::Unknown(source) = &a.identity {
        return Err(MuxError::Filesystem { path: a.path.clone(), source: source.clone() });
    }
    if let FileIdentity::Unknown(source) = &b.identity {
        return Err(MuxError::Filesystem { path: b.path.clone(), source: source.clone() });
    }
    match (&a.identity, &b.identity) {
        (
            FileIdentity::Present { device, inode },
            FileIdentity::Present { device: other, inode: number },
        ) => Ok(*device == *other && *inode == *number),
        _ => Ok(false),
    }
}

fn find_pair_problem(a: &ConfigTarget, b: &ConfigTarget) -> (r: Option<MuxError>)
    ensures
        match r {
            Some(e) => pair_problem(*a, *b) == Some(e@),
            None => pair_problem(*a, *b) is None,
        },
{
    if !a.path.same_as(&b.path) {
        match same_existing_file(a, b) {
            Err(e) => return Some(e),
            Ok(false) => return None,
            Ok(true) => {},
        }
    }
    let mut message = a.name.to_owned();
    message.append(" and ");
    message.append(b.name);
    message.append(" targets must be distinct files");
    Some(invalid_value("configuration paths", &message))
}

/// Accepts managed files only where no two of them are the same.
pub fn validate_distinct_config_targets(targets: &Vec<ConfigTarget>) -> (r: Result<(), MuxError>)
    ensures
        match r {
            Ok(_) => targets_problem(targets@, 0) is None,
            Err(e) => targets_problem(targets@, 0) == Some(e@),
        },
{
    let mut i: usize = 0;
    while i < targets.len()
        invariant
            i <= targets.len(),
            targets_problem(targets@, 0) == targets_problem(targets@, i as int),
        decreases targets.len() - i,
    {
        let mut j: usize = i + 1;
        while j < targets.len()
            invariant
                i < j <= targets.len(),
                row_problem(targets@, i as int, i + 1) == row_problem(
                    targets@,
                    i as int,
                    j as int,
                ),
            decreases targets.len() - j,
        {
            if let Some(e) = find_pair_problem(&targets[i], &targets[j]) {
                return Err(e);
            }
            j += 1;
        }
        i += 1;
    }
    Ok(())
}

proof fn row_is_clear(targets: Seq<ConfigTarget>, i: int, from: int, j: int)
    requires
        row_problem(targets, i, from) is None,
        from <= j < targets.len(),
    ensures
        pair_problem(targets[i], targets[j]) is None,
    decreases j - from,
{
    if from < j {
        row_is_clear(targets, i, from + 1, j);
    }
}

/// Accepted files are different paths and different files, each with each.
pub proof fn accepted_targets_are_distinct(targets: Seq<ConfigTarget>, from: int, i: int, j: int)
    requires
        0 <= from <= i < j < targets.len(),
        targets_problem(targets, from) is None,
    ensures
        !path::same_path(targets[i].path@, targets[j].path@),
        same_file(targets[i], targets[j]) == Ok::<bool, ErrorModel>(false),
    decreases i - from,
{
    if from < i {
        accepted_targets_are_distinct(targets, from + 1, i, j);
    } else {
        row_is_clear(targets, i, i + 1, j);
    }
}

} // verus!
