//! Searching the tree of rollout files.

use vstd::prelude::*;
use crate::domain;
use crate::error;
use crate::error::{command_error, ErrorModel, MuxError};
use crate::path;
use crate::path::UnixPath;
use crate::scan::starts_with;
use crate::smart_naming::conversation::NamingConversation;
use crate::smart_naming::rollout;
use crate::smart_naming::rollout_replay;
use crate::smart_naming::rollout_replay::{EntryModel, QuestModel, TreeEvent};
use crate::smart_naming::rollout::{
    read_rollout_transcript, rollout_identity_matches, rollout_thread_id, transcript_start,
    validate_rollout_directory, validate_rollout_file, EntryFacts, MAX_ROLLOUT_IDENTITY_BYTES,
    MAX_ROLLOUT_TRANSCRIPT_BYTES,
};
use crate::smart_naming::thread;
use crate::smart_naming::tree_log::LoggedTree;
use crate::smart_naming::title;
use crate::smart_naming::title::protocol;
use crate::text;
use crate::text::text_equal;

verus! {

/// Most entries of the tree that are looked at.
pub const MAX_ROLLOUT_ENTRIES: usize = 100_000;

/// Most directories below the root of the tree.
pub const MAX_ROLLOUT_DEPTH: usize = 8;

/// What a directory says an entry is.
#[derive(Clone, Copy, Debug, PartialEq, Eq, Structural)]
pub enum EntryKind {
    Directory,
    File,
    Symlink,
    Unknown,
    Other,
}

#[derive(Debug)]
pub struct TreeEntry {
    pub name: Vec<u8>,
    pub kind: EntryKind,
}

/// The file system below the root of the tree. No call follows a symbolic link, and
/// an entry is opened inside the directory in which it was listed.
pub trait RolloutFiles {
    /// Whether the caller gave up.
    fn is_cancelled(&mut self) -> bool;

    /// The user whom the files must belong to.
    fn user(&mut self) -> u32;

    /// Opens the root, `None` where it does not exist.
    fn open_root(&mut self, root: &UnixPath) -> Result<Option<EntryFacts>, MuxError>;

    /// Opens a directory.
    fn open_directory(&mut self, directory: &UnixPath) -> Result<EntryFacts, MuxError>;

    /// The entries of an opened directory.
    fn entries(&mut self, directory: &UnixPath) -> Result<
        Vec<Result<TreeEntry, MuxError>>,
        MuxError,
    >;

    /// Opens a file.
    fn open_file(&mut self, file: &UnixPath) -> Result<EntryFacts, MuxError>;

    /// Reads an opened file from a place, a number of bytes at most.
    fn read(&mut self, file: &UnixPath, from: u64, limit: u64) -> Result<Vec<u8>, MuxError>;
}

// ---------------------------------------------------------------------------
// What is read
// ---------------------------------------------------------------------------

/// What a read gave, as contracts speak of it.
pub open spec fn bytes_outcome(r: Result<Vec<u8>, MuxError>) -> Result<Seq<u8>, ErrorModel> {
    match r {
        Ok(bytes) => Ok(bytes@),
        Err(e) => Err(e@),
    }
}

// ---------------------------------------------------------------------------
// What is searched for
// ---------------------------------------------------------------------------

/// What a search looks for.
enum Quest {
    Prefix { prefix: String, matched: Option<String> },
    Thread { id: String, found: Option<String> },
}

spec fn quest_view(quest: Quest) -> QuestModel {
    match quest {
        Quest::Prefix { prefix, matched } => QuestModel::Prefix {
            prefix: prefix@,
            matched: text::option_view(matched),
        },
        Quest::Thread { id, found } => QuestModel::Thread {
            id: id@,
            found: text::option_view(found),
        },
    }
}

/// A quest after a step, or the error in its place.
spec fn stepped(r: Result<(), MuxError>, quest: Quest) -> Result<QuestModel, ErrorModel> {
    match r {
        Ok(_) => Ok(quest_view(quest)),
        Err(e) => Err(e@),
    }
}

/// A quest after a walk with what it looked at, or the error in its place.
spec fn walked(r: Result<(), MuxError>, quest: Quest, visited: usize) -> Result<
    (QuestModel, int),
    ErrorModel,
> {
    match r {
        Ok(_) => Ok((quest_view(quest), visited as int)),
        Err(e) => Err(e@),
    }
}

// ---------------------------------------------------------------------------
// The store
// ---------------------------------------------------------------------------

/// Bounded, local source of thread identities and completed conversations.
pub struct RolloutStore<F> {
    /// The files, with what was asked of them and what they answered.
    pub files: LoggedTree<F>,
    pub root: UnixPath,
}

/// An entry of a directory, as a value.
pub open spec fn entry_view(entry: Result<TreeEntry, MuxError>) -> EntryModel {
    match entry {
        Ok(entry) => Ok((entry.name@, entry.kind)),
        Err(e) => Err(e@),
    }
}

pub open spec fn entries_view(entries: Seq<Result<TreeEntry, MuxError>>) -> Seq<EntryModel> {
    Seq::new(entries.len(), |i: int| entry_view(entries[i]))
}

pub open spec fn entries_outcome(r: Result<Vec<Result<TreeEntry, MuxError>>, MuxError>) -> Result<
    Seq<EntryModel>,
    ErrorModel,
> {
    match r {
        Ok(entries) => Ok(entries_view(entries@)),
        Err(e) => Err(e@),
    }
}

/// A conversation, or the error in its place.
pub open spec fn completed(r: Result<NamingConversation, MuxError>) -> Result<
    Seq<char>,
    ErrorModel,
> {
    match r {
        Ok(conversation) => Ok(conversation.transcript@),
        Err(e) => Err(e@),
    }
}

pub open spec fn found_outcome(r: Result<Option<String>, MuxError>) -> Result<
    Option<Seq<char>>,
    ErrorModel,
> {
    match r {
        Ok(found) => Ok(text::option_view(found)),
        Err(e) => Err(e@),
    }
}

/// The directory of Codex: the configured one, else `.codex` in the home directory.
pub open spec fn codex_home(configured: Option<Seq<u8>>, home: Option<Seq<u8>>) -> Option<Seq<u8>> {
    match configured {
        Some(p) => Some(p),
        None => match home {
            Some(h) => Some(path::joined(h, text::utf8(".codex"@))),
            None => None,
        },
    }
}

pub fn codex_home_path(configured: &Option<UnixPath>, home: &Option<UnixPath>) -> (r: Option<UnixPath>)
    ensures
        domain::path_view(r) == codex_home(
            domain::path_view(*configured),
            domain::path_view(*home),
        ),
{
    match configured {
        Some(p) => Some(p.clone()),
        None => match home {
            Some(h) => Some(h.join(&UnixPath::new(".codex"))),
            None => None,
        },
    }
}

impl<F: RolloutFiles> RolloutStore<F> {
    /// Uses the sessions below the directory of Codex.
    pub fn discover(
        files: F,
        configured: &Option<UnixPath>,
        home: &Option<UnixPath>,
    ) -> (r: Result<Self, MuxError>)
        ensures
            match codex_home(domain::path_view(*configured), domain::path_view(*home)) {
                Some(base) => r is Ok && r->Ok_0.root@ == path::joined(
                    base,
                    text::utf8("sessions"@),
                ) && r->Ok_0.files.wrapped() == files,
                None => r is Err && r->Err_0@ == ErrorModel::Command(
                    "HOME and CODEX_HOME are unset"@,
                ),
            },
    {
        match codex_home_path(configured, home) {
            Some(base) => Ok(RolloutStore::at(files, base.join(&UnixPath::new("sessions")))),
            None => Err(command_error("HOME and CODEX_HOME are unset")),
        }
    }

    /// Uses an explicit root.
    pub fn at(files: F, root: UnixPath) -> (r: Self)
        ensures
            r.files.wrapped() == files,
            r.root == root,
            r.files.events() == Seq::<TreeEvent>::empty(),
    {
        RolloutStore { files: LoggedTree::new(files), root }
    }

    /// Whether the caller gave up.
    fn is_cancelled(&mut self) -> (r: bool)
        ensures
            final(self).root == old(self).root,
            rollout_replay::agrees(final(self).files.events(), old(self).files.events()),
            forall|w: Seq<TreeEvent>|
                rollout_replay::agrees(w, final(self).files.events()) ==> #[trigger] rollout_replay::cancelled_at(
                    w,
                    old(self).files.events().len() as int,
                ) == Some((r, final(self).files.events().len() as int)),
    {
        self.files.is_cancelled()
    }

    /// The user whom the files must belong to.
    fn user(&mut self) -> (r: u32)
        ensures
            final(self).root == old(self).root,
            rollout_replay::agrees(final(self).files.events(), old(self).files.events()),
            forall|w: Seq<TreeEvent>|
                rollout_replay::agrees(w, final(self).files.events()) ==> #[trigger] rollout_replay::user_at(
                    w,
                    old(self).files.events().len() as int,
                ) == Some((r, final(self).files.events().len() as int)),
    {
        self.files.user()
    }

    /// Opens the root.
    fn open_root(&mut self, root: &UnixPath) -> (r: Result<Option<EntryFacts>, MuxError>)
        ensures
            final(self).root == old(self).root,
            rollout_replay::agrees(final(self).files.events(), old(self).files.events()),
            forall|w: Seq<TreeEvent>|
                rollout_replay::agrees(w, final(self).files.events()) ==> #[trigger] rollout_replay::root_at(
                    w,
                    old(self).files.events().len() as int,
                    root@,
                ) == Some((error::outcome(r), final(self).files.events().len() as int)),
    {
        self.files.open_root(root)
    }

    /// Opens a directory.
    fn open_directory(&mut self, directory: &UnixPath) -> (r: Result<EntryFacts, MuxError>)
        ensures
            final(self).root == old(self).root,
            rollout_replay::agrees(final(self).files.events(), old(self).files.events()),
            forall|w: Seq<TreeEvent>|
                rollout_replay::agrees(w, final(self).files.events()) ==> #[trigger] rollout_replay::directory_at(
                    w,
                    old(self).files.events().len() as int,
                    directory@,
                ) == Some((error::outcome(r), final(self).files.events().len() as int)),
    {
        self.files.open_directory(directory)
    }

    /// The entries of an opened directory.
    fn entries(&mut self, directory: &UnixPath) -> (r: Result<
        Vec<Result<TreeEntry, MuxError>>,
        MuxError,
    >)
        ensures
            final(self).root == old(self).root,
            rollout_replay::agrees(final(self).files.events(), old(self).files.events()),
            forall|w: Seq<TreeEvent>|
                rollout_replay::agrees(w, final(self).files.events()) ==> #[trigger] rollout_replay::entries_at(
                    w,
                    old(self).files.events().len() as int,
                    directory@,
                ) == Some((entries_outcome(r), final(self).files.events().len() as int)),
    {
        self.files.entries(directory)
    }

    /// Opens a file.
    fn open_file(&mut self, file: &UnixPath) -> (r: Result<EntryFacts, MuxError>)
        ensures
            final(self).root == old(self).root,
            rollout_replay::agrees(final(self).files.events(), old(self).files.events()),
            forall|w: Seq<TreeEvent>|
                rollout_replay::agrees(w, final(self).files.events()) ==> #[trigger] rollout_replay::file_at(
                    w,
                    old(self).files.events().len() as int,
                    file@,
                ) == Some((error::outcome(r), final(self).files.events().len() as int)),
    {
        self.files.open_file(file)
    }

    /// Reads an opened file.
    fn read(&mut self, file: &UnixPath, from: u64, limit: u64) -> (r: Result<
        Vec<u8>,
        MuxError,
    >)
        ensures
            final(self).root == old(self).root,
            rollout_replay::agrees(final(self).files.events(), old(self).files.events()),
            forall|w: Seq<TreeEvent>|
                rollout_replay::agrees(w, final(self).files.events()) ==> #[trigger] rollout_replay::bytes_at(
                    w,
                    old(self).files.events().len() as int,
                    file@,
                    from,
                    limit as int,
                ) == Some((bytes_outcome(r), final(self).files.events().len() as int)),
    {
        self.files.read(file, from, limit)
    }

    /// Part of a file, where the caller has not given up.
    fn read_part(&mut self, file: &UnixPath, from: u64, limit: u64) -> (r: Result<
        Vec<u8>,
        MuxError,
    >)
        ensures
            final(self).root == old(self).root,
            rollout_replay::agrees(final(self).files.events(), old(self).files.events()),
            forall|w: Seq<TreeEvent>|
                rollout_replay::agrees(w, final(self).files.events()) ==> #[trigger] rollout_replay::part_at(
                    w,
                    old(self).files.events().len() as int,
                    file@,
                    from,
                    limit as int,
                ) == Some((bytes_outcome(r), final(self).files.events().len() as int)),
    {
        if self.is_cancelled() {
            return Err(MuxError::Cancelled);
        }
        self.read(file, from, limit)
    }

    /// Looks at one rollout.
    fn visit(
        &mut self,
        id: String,
        facts: EntryFacts,
        file: &UnixPath,
        quest: &mut Quest,
    ) -> (r: Result<(), MuxError>)
        requires
            thread::is_thread_id(id@),
        ensures
            final(self).root == old(self).root,
            rollout_replay::agrees(final(self).files.events(), old(self).files.events()),
            forall|w: Seq<TreeEvent>|
                rollout_replay::agrees(w, final(self).files.events()) ==> #[trigger] rollout_replay::visit_at(
                    w,
                    old(self).files.events().len() as int,
                    id@,
                    facts,
                    file@,
                    quest_view(*old(quest)),
                ) == Some((stepped(r, *final(quest)), final(self).files.events().len() as int)),
    {
        let wanted = match quest {
            Quest::Prefix { prefix, .. } => starts_with(&id, prefix),
            Quest::Thread { id: wanted, .. } => text_equal(&id, wanted),
        };
        if !wanted {
            return Ok(());
        }
        let start = self.read_part(file, 0, MAX_ROLLOUT_IDENTITY_BYTES as u64 + 1);
        let belongs = match &start {
            Ok(bytes) => rollout_identity_matches(bytes, &id),
            Err(_) => Ok(false),
        };
        if let Err(e) = start {
            return Err(e);
        }
        match belongs {
            Err(e) => {
                Err(e)
            },
            Ok(false) => {
                Ok(())
            },
            Ok(true) => {
                match quest {
                    Quest::Prefix { prefix, matched } => {
                        if let Some(existing) = matched {
                            if !text_equal(existing, &id) {
                                return Err(
                                    protocol("truncated pane title matches multiple rollouts"),
                                );
                            }
                        }
                        *matched = Some(id);
                        Ok(())
                    },
                    Quest::Thread { id: wanted, found } => {
                        let body = self.read_part(
                            file,
                            transcript_start(facts.size),
                            MAX_ROLLOUT_TRANSCRIPT_BYTES + 1,
                        );
                        match body {
                            Err(e) => Err(e),
                            Ok(bytes) => {
                                let said = read_rollout_transcript(
                                    &bytes,
                                    facts.size > MAX_ROLLOUT_TRANSCRIPT_BYTES,
                                );
                                if found.is_some() {
                                    return Err(
                                        protocol("thread id matches multiple rollout files"),
                                    );
                                }
                                *found = Some(said);
                                Ok(())
                            },
                        }
                    },
                }
            },
        }
    }

    /// Looks at the entries of an opened directory and of those below it.
    #[verifier::spinoff_prover]
    #[verifier::rlimit(100)]
    fn walk(
        &mut self,
        directory: &UnixPath,
        depth: usize,
        visited: &mut usize,
        quest: &mut Quest,
        user: u32,
    ) -> (r: Result<(), MuxError>)
        requires
            depth <= MAX_ROLLOUT_DEPTH + 1,
            *old(visited) <= MAX_ROLLOUT_ENTRIES,
        ensures
            final(self).root == old(self).root,
            r is Ok ==> *final(visited) <= MAX_ROLLOUT_ENTRIES,
            rollout_replay::agrees(final(self).files.events(), old(self).files.events()),
            forall|w: Seq<TreeEvent>|
                rollout_replay::agrees(w, final(self).files.events()) ==> #[trigger] rollout_replay::walk_at(
                    w,
                    old(self).files.events().len() as int,
                    directory@,
                    depth as int,
                    *old(visited) as int,
                    quest_view(*old(quest)),
                    user,
                ) == Some((walked(r, *final(quest), *final(visited)), final(self).files.events().len() as int)),
        decreases MAX_ROLLOUT_DEPTH + 1 - depth,
    {
        if depth > MAX_ROLLOUT_DEPTH {
            return Err(protocol("rollout discovery exceeded its depth limit"));
        }
        let mut entries = match self.entries(directory) {
            Ok(entries) => entries,
            Err(e) => return Err(e),
        };
        let ghost listed = entries@;
        let ghost all = entries_view(listed);
        let ghost here = self.files.events();
        let ghost counted = *visited as int;
        let mut waiting: Vec<Result<TreeEntry, MuxError>> = Vec::new();
        let total: usize = entries.len();
        let mut k: usize = 0;
        while k < total
            invariant
                k <= total,
                total == listed.len(),
                entries@ =~= listed.take(total - k),
                waiting@.len() == k,
                forall|j: int| 0 <= j < k ==> #[trigger] waiting@[j] == listed[total - 1 - j],
            decreases total - k,
        {
            match entries.pop() {
                Some(entry) => waiting.push(entry),
                None => {},
            }
            k += 1;
        }
        let ghost start = *old(self);
        let ghost asked = *old(quest);
        assert forall|w: Seq<TreeEvent>| rollout_replay::agrees(w, here) implies #[trigger]
            rollout_replay::walk_at(
            w,
            old(self).files.events().len() as int,
            directory@,
            depth as int,
            counted,
            quest_view(asked),
            user,
        ) == rollout_replay::walk_from(
            w,
            here.len() as int,
            directory@,
            depth as int,
            all,
            0,
            counted,
            quest_view(asked),
            user,
        ) by {};
        loop
            invariant
                depth <= MAX_ROLLOUT_DEPTH,
                *visited <= MAX_ROLLOUT_ENTRIES,
                self.root == start.root,
                total == listed.len() == all.len(),
                all == entries_view(listed),
                waiting@.len() <= total,
                forall|j: int|
                    0 <= j < waiting@.len() ==> #[trigger] waiting@[j] == listed[total - 1 - j],
                rollout_replay::agrees(self.files.events(), old(self).files.events()),
                rollout_replay::agrees(self.files.events(), here),
                forall|w: Seq<TreeEvent>|
                    rollout_replay::agrees(w, self.files.events()) ==> #[trigger] rollout_replay::walk_from(
                        w,
                        here.len() as int,
                        directory@,
                        depth as int,
                        all,
                        0,
                        counted,
                        quest_view(asked),
                        user,
                    ) == rollout_replay::walk_from(
                        w,
                        self.files.events().len() as int,
                        directory@,
                        depth as int,
                        all,
                        total - waiting@.len(),
                        *visited as int,
                        quest_view(*quest),
                        user,
                    ),
            decreases waiting@.len(),
        {
            let ghost place = total - waiting@.len();
            let ghost asked_from = self.files.events();
            let Some(next) = waiting.pop() else {
                return Ok(());
            };
            assert(all[place] == entry_view(next));
            if self.is_cancelled() {
                return Err(MuxError::Cancelled);
            }
            if *visited >= MAX_ROLLOUT_ENTRIES {
                return Err(protocol("rollout discovery exceeded its entry limit"));
            }
            *visited += 1;
            let entry = match next {
                Ok(entry) => entry,
                Err(e) => return Err(e),
            };
            if is_dots(&entry.name) {
                continue ;
            }
            let location = directory.join(&UnixPath::from_bytes(&entry.name));
            match entry.kind {
                EntryKind::Directory => {
                    let facts = match self.open_directory(&location) {
                        Ok(facts) => facts,
                        Err(e) => return Err(e),
                    };
                    if let Err(e) = validate_rollout_directory(facts, user) {
                        return Err(e);
                    }
                    let ghost opened = self.files.events();
                    let ghost count = *visited as int;
                    let ghost wanted = quest_view(*quest);
                    let below = self.walk(
                        &location,
                        depth + 1,
                        visited,
                        quest,
                        user,
                    );
                    assert forall|w: Seq<TreeEvent>|
                        rollout_replay::agrees(w, self.files.events()) implies #[trigger]
                        rollout_replay::walk_from(
                        w,
                        asked_from.len() as int,
                        directory@,
                        depth as int,
                        all,
                        place,
                        count - 1,
                        wanted,
                        user,
                    ) == match below {
                        Err(e) => Some((Err(e@), self.files.events().len() as int)),
                        Ok(_) => rollout_replay::walk_from(
                            w,
                            self.files.events().len() as int,
                            directory@,
                            depth as int,
                            all,
                            place + 1,
                            *visited as int,
                            quest_view(*quest),
                            user,
                        ),
                    } by {
                        let inner = rollout_replay::walk_at(
                            w,
                            opened.len() as int,
                            location@,
                            depth + 1,
                            count,
                            wanted,
                            user,
                        );
                        assert(inner is Some);
                    }
                    if let Err(e) = below {
                        return Err(e);
                    }
                },
                EntryKind::File => {
                    let Some(id) = rollout_thread_id(&location) else {
                        continue ;
                    };
                    proof {
                        names_a_thread(location@);
                    }
                    let facts = match self.open_file(&location) {
                        Ok(facts) => facts,
                        Err(e) => return Err(e),
                    };
                    if let Err(e) = validate_rollout_file(facts, user) {
                        return Err(e);
                    }
                    if let Err(e) = self.visit(
                        id,
                        facts,
                        &location,
                        quest,
                    ) {
                        return Err(e);
                    }
                },
                EntryKind::Symlink => {
                    return Err(protocol("rollout tree contains a symlink"));
                },
                EntryKind::Unknown => {
                    return Err(protocol("rollout tree contains an unknown entry type"));
                },
                EntryKind::Other => {},
            }
        }
    }

    /// Searches the whole tree.
    fn search(&mut self, quest: &mut Quest) -> (r: Result<(), MuxError>)
        ensures
            final(self).root == old(self).root,
            rollout_replay::agrees(final(self).files.events(), old(self).files.events()),
            forall|w: Seq<TreeEvent>|
                rollout_replay::agrees(w, final(self).files.events()) ==> #[trigger] rollout_replay::search_at(
                    w,
                    old(self).files.events().len() as int,
                    old(self).root@,
                    quest_view(*old(quest)),
                ) == Some((stepped(r, *final(quest)), final(self).files.events().len() as int)),
    {
        if self.is_cancelled() {
            return Err(MuxError::Cancelled);
        }
        let root = self.root.clone();
        let user: u32 = self.user();
        match self.open_root(&root) {
            Err(e) => Err(e),
            Ok(None) => Ok(()),
            Ok(Some(facts)) => {
                if let Err(e) = validate_rollout_directory(facts, user) {
                    return Err(e);
                }
                let mut visited: usize = 0;
                self.walk(&root, 0, &mut visited, quest, user)
            },
        }
    }

    /// The one thread that a shortened identity stands for, where the tree holds a
    /// rollout of it.
    pub fn resolve_prefix(&mut self, prefix: &str) -> (r: Result<Option<String>, MuxError>)
        ensures
            final(self).root == old(self).root,
            rollout_replay::agrees(final(self).files.events(), old(self).files.events()),
            forall|w: Seq<TreeEvent>|
                rollout_replay::agrees(w, final(self).files.events()) ==> #[trigger] rollout_replay::prefix_at(
                    w,
                    old(self).files.events().len() as int,
                    old(self).root@,
                    prefix@,
                ) == Some((found_outcome(r), final(self).files.events().len() as int)),
            r matches Ok(Some(found)) ==> prefix@.is_prefix_of(found@) && thread::is_thread_id(
                found@,
            ),
    {
        let mut quest = Quest::Prefix { prefix: prefix.to_owned(), matched: None };
        assert(quest_view(quest) == QuestModel::Prefix { prefix: prefix@, matched: None });
        let done = self.search(&mut quest);
        proof {
            let log = self.files.events();
            assert(rollout_replay::agrees(log, log));
            rollout_replay::a_search_goes_on(
                log,
                old(self).files.events().len() as int,
                old(self).root@,
                QuestModel::Prefix { prefix: prefix@, matched: None },
            );
        }
        match done {
            Err(e) => Err(e),
            Ok(_) => match quest {
                Quest::Prefix { matched, .. } => {
                    Ok(matched)
                },
                Quest::Thread { .. } => Ok(None),
            },
        }
    }

    /// The conversation of a thread, where the tree holds exactly one rollout of it.
    pub fn read_completed(&mut self, thread_id: &str) -> (r: Result<
        NamingConversation,
        MuxError,
    >)
        ensures
            final(self).root == old(self).root,
            rollout_replay::agrees(final(self).files.events(), old(self).files.events()),
            forall|w: Seq<TreeEvent>|
                rollout_replay::agrees(w, final(self).files.events()) ==> #[trigger] rollout_replay::thread_at(
                    w,
                    old(self).files.events().len() as int,
                    old(self).root@,
                    thread_id@,
                ) == Some((completed(r), final(self).files.events().len() as int)),
            r matches Ok(conversation) ==> conversation.thread_id@ == thread_id@,
    {
        let mut quest = Quest::Thread { id: thread_id.to_owned(), found: None };
        assert(quest_view(quest) == QuestModel::Thread { id: thread_id@, found: None });
        let done = self.search(&mut quest);
        proof {
            let log = self.files.events();
            assert(rollout_replay::agrees(log, log));
            rollout_replay::a_search_goes_on(
                log,
                old(self).files.events().len() as int,
                old(self).root@,
                QuestModel::Thread { id: thread_id@, found: None },
            );
        }
        match done {
            Err(e) => Err(e),
            Ok(_) => match quest {
                Quest::Thread { found: Some(transcript), .. } => Ok(
                    NamingConversation { thread_id: thread_id.to_owned(), transcript },
                ),
                _ => Err(protocol("verified rollout file was not found")),
            },
        }
    }
}

proof fn names_a_thread(p: Seq<u8>)
    requires
        rollout::path_thread(p) is Some,
    ensures
        thread::is_thread_id(rollout::path_thread(p)->0),
{
}

fn is_dots(name: &Vec<u8>) -> (r: bool)
    ensures
        r == rollout_replay::is_dots(name@),
{
    let r = (name.len() == 1 && name[0] == 0x2e) || (name.len() == 2 && name[0] == 0x2e && name[1]
        == 0x2e);
    proof {
        if name@.len() == 1 && name@[0] == 0x2e {
            assert(name@ =~= seq![0x2eu8]);
        }
        if name@.len() == 2 && name@[0] == 0x2e && name@[1] == 0x2e {
            assert(name@ =~= seq![0x2eu8, 0x2eu8]);
        }
    }
    r
}

} // verus!
