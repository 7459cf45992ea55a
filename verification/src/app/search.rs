//! Looking for Codex on the search path.

use vstd::prelude::*;
use crate::app::process;
use crate::app::search_log::LoggedSearch;
use crate::domain;
use crate::error::{invalid_value, ErrorModel, MuxError};
use crate::path;
use crate::path::UnixPath;
use crate::text;

verus! {

/// Boundary for the search path. A failure is the text of it.
pub trait SearchHost {
    /// The directories of the search path, in their order.
    fn directories(&mut self) -> Vec<UnixPath>;

    /// Whether a path names a regular file, links followed.
    fn is_file(&mut self, path: &UnixPath) -> bool;

    /// The path without links.
    fn canonical(&mut self, path: &UnixPath) -> Result<UnixPath, String>;
}

/// A question to the boundary, with its answer.
#[verifier::ext_equal]
pub enum SearchEvent {
    Directories(Seq<Seq<u8>>),
    IsFile { path: Seq<u8>, reply: bool },
    Canonical { path: Seq<u8>, reply: Result<Seq<u8>, Seq<char>> },
}

pub open spec fn canonical_reply(r: Result<UnixPath, String>) -> Result<Seq<u8>, Seq<char>> {
    match r {
        Ok(found) => Ok(found@),
        Err(source) => Err(source@),
    }
}

pub open spec fn agrees(w: Seq<SearchEvent>, log: Seq<SearchEvent>) -> bool {
    &&& log.len() <= w.len()
    &&& forall|i: int| 0 <= i < log.len() ==> #[trigger] w[i] == log[i]
}

/// The place of Codex in a directory.
pub open spec fn candidate(directory: Seq<u8>) -> Seq<u8> {
    path::joined(directory, text::utf8("codex"@))
}

/// The first directory, from one on, that holds Codex: its candidate, and the place
/// behind the questions.
pub open spec fn first_file_at(
    w: Seq<SearchEvent>,
    k: int,
    directories: Seq<Seq<u8>>,
    i: int,
) -> Option<(Option<Seq<u8>>, int)>
    decreases directories.len() - i,
{
    if i < 0 || i >= directories.len() {
        Some((None, k))
    } else if !(0 <= k < w.len()) {
        None
    } else {
        match w[k] {
            SearchEvent::IsFile { path, reply } => if path != candidate(directories[i]) {
                None
            } else if reply {
                Some((Some(path), k + 1))
            } else {
                first_file_at(w, k + 1, directories, i + 1)
            },
            _ => None,
        }
    }
}

pub open spec fn canonical_at(w: Seq<SearchEvent>, k: int, p: Seq<u8>) -> Option<
    (Result<Seq<u8>, Seq<char>>, int),
> {
    if 0 <= k < w.len() {
        match w[k] {
            SearchEvent::Canonical { path, reply } => if path == p {
                Some((reply, k + 1))
            } else {
                None
            },
            _ => None,
        }
    } else {
        None
    }
}

/// Codex as the search path finds it, without links.
pub open spec fn discovered_at(w: Seq<SearchEvent>, k: int) -> Option<
    (Result<Seq<u8>, ErrorModel>, int),
> {
    if !(0 <= k < w.len()) {
        None
    } else {
        match w[k] {
            SearchEvent::Directories(directories) => match first_file_at(w, k + 1, directories, 0) {
                None => None,
                Some((None, n)) => Some(
                    (
                        Err(
                            ErrorModel::InvalidValue {
                                field: "Codex executable"@,
                                message: "pass --codex /absolute/path or place codex on PATH"@,
                            },
                        ),
                        n,
                    ),
                ),
                Some((Some(found), n)) => match canonical_at(w, n, found) {
                    None => None,
                    Some((Ok(path), m)) => Some((Ok(path), m)),
                    Some((Err(source), m)) => Some(
                        (Err(ErrorModel::Filesystem { path: found, source }), m),
                    ),
                },
            },
            _ => None,
        }
    }
}

/// Looks for Codex on the search path.
pub fn discover_codex<H: SearchHost>(host: &mut LoggedSearch<H>) -> (r: Result<
    UnixPath,
    MuxError,
>)
    ensures
        agrees(final(host).events(), old(host).events()),
        forall|w: Seq<SearchEvent>|
            agrees(w, final(host).events()) ==> #[trigger] discovered_at(
                w,
                old(host).events().len() as int,
            ) == Some((process::path_outcome(r), final(host).events().len() as int)),
{
    let ghost start = host.events();
    let directories = host.directories();
    let ghost all = domain::path_list(directories@);
    let ghost listed = host.events();
    let ghost first: int = listed.len() as int;
    let mut i: usize = 0;
    while i < directories.len()
        invariant
            i <= directories.len(),
            start == old(host).events(),
            listed == start.push(SearchEvent::Directories(all)),
            first == listed.len(),
            agrees(host.events(), listed),
            forall|w: Seq<SearchEvent>|
                agrees(w, host.events()) ==> #[trigger] first_file_at(w, first, all, 0)
                    == first_file_at(w, host.events().len() as int, all, i as int),
        decreases directories.len() - i,
    {
        let ghost before = host.events();
        assert(all[i as int] == directories@[i as int]@);
        let place = directories[i].join(&UnixPath::new("codex"));
        let found = host.is_file(&place);
        assert(agrees(host.events(), before));
        if found {
            let ghost seen = host.events();
            let named = host.canonical(&place);
            assert(agrees(host.events(), seen));
            return match named {
                Ok(found) => Ok(found),
                Err(source) => Err(MuxError::Filesystem { path: place, source }),
            };
        }
        i += 1;
    }
    Err(
        invalid_value("Codex executable", "pass --codex /absolute/path or place codex on PATH"),
    )
}

} // verus!
