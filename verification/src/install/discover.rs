//! Choosing the one tmux configuration to manage, and the name of its backup.

use vstd::prelude::*;
use crate::domain;
use crate::install::failure;
use crate::install::failure::{validate_regular_writable, FailureModel, InstallError, PathFacts};
use crate::number;
use crate::path;
use crate::path::UnixPath;
use crate::scan;
use crate::text;

verus! {

/// What is known of the tmux server when a configuration is chosen.
#[derive(Debug)]
pub enum ServerEvidence {
    /// No server runs, so the standard user files are looked at.
    NotRunning,
    /// A server runs and reported the files that it loaded.
    Running(Vec<UnixPath>),
}

/// What a choice is made from.
#[derive(Debug)]
pub struct DiscoveryContext {
    /// An explicit selection, which goes before all evidence.
    pub explicit: Option<UnixPath>,
    pub server: ServerEvidence,
    pub home: UnixPath,
    /// The XDG configuration root, where one is set.
    pub xdg_config_home: Option<UnixPath>,
}

#[verifier::ext_equal]
pub enum EvidenceModel {
    NotRunning,
    Running(Seq<Seq<u8>>),
}

#[verifier::ext_equal]
pub struct ContextModel {
    pub explicit: Option<Seq<u8>>,
    pub server: EvidenceModel,
    pub home: Seq<u8>,
    pub xdg_config_home: Option<Seq<u8>>,
}

impl View for DiscoveryContext {
    type V = ContextModel;

    open spec fn view(&self) -> ContextModel {
        ContextModel {
            explicit: domain::path_view(self.explicit),
            server: match self.server {
                ServerEvidence::NotRunning => EvidenceModel::NotRunning,
                ServerEvidence::Running(loaded) => EvidenceModel::Running(
                    domain::path_list(loaded@),
                ),
            },
            home: self.home@,
            xdg_config_home: domain::path_view(self.xdg_config_home),
        }
    }
}

/// A path put into an ordered list in which every path stands once; it takes the
/// place of its equal.
pub open spec fn path_inserted(list: Seq<Seq<u8>>, p: Seq<u8>) -> Seq<Seq<u8>>
    decreases list.len(),
{
    if list.len() == 0 {
        seq![p]
    } else if path::same_path(p, list.last()) {
        list.drop_last().push(p)
    } else if path::path_before(p, list.last()) {
        path_inserted(list.drop_last(), p).push(list.last())
    } else {
        list.push(p)
    }
}

/// The first `n` paths in order, each once.
pub open spec fn distinct_paths(paths: Seq<Seq<u8>>, n: nat) -> Seq<Seq<u8>>
    decreases n,
{
    if n == 0 {
        Seq::empty()
    } else {
        path_inserted(distinct_paths(paths, (n - 1) as nat), paths[n - 1])
    }
}

/// Those of the paths that stand in a directory.
pub open spec fn paths_under(paths: Seq<Seq<u8>>, base: Seq<u8>) -> Seq<Seq<u8>>
    decreases paths.len(),
{
    if paths.len() == 0 {
        Seq::empty()
    } else {
        let rest = paths_under(paths.drop_last(), base);
        if path::is_under(paths.last(), base) {
            rest.push(paths.last())
        } else {
            rest
        }
    }
}

/// A path behind the others, unless it is one of them.
pub open spec fn with_path(paths: Seq<Seq<u8>>, p: Seq<u8>) -> Seq<Seq<u8>> {
    if exists|i: int| 0 <= i < paths.len() && path::same_path(#[trigger] paths[i], p) {
        paths
    } else {
        paths.push(p)
    }
}

/// The files that are looked at.
pub open spec fn candidates(c: ContextModel) -> Seq<Seq<u8>> {
    match c.explicit {
        Some(p) => seq![p],
        None => match c.server {
            EvidenceModel::Running(loaded) => paths_under(
                distinct_paths(loaded, loaded.len()),
                c.home,
            ),
            EvidenceModel::NotRunning => {
                let first = seq![path::joined(c.home, text::utf8(".tmux.conf"@))];
                let listed = match c.xdg_config_home {
                    Some(xdg) => first.push(path::joined(xdg, text::utf8("tmux/tmux.conf"@))),
                    None => first,
                };
                with_path(
                    listed,
                    path::joined(c.home, text::utf8(".config/tmux/tmux.conf"@)),
                )
            },
        },
    }
}

/// Those of the first `n` paths that can be managed.
pub open spec fn safe_paths(paths: Seq<Seq<u8>>, facts: Seq<PathFacts>, n: nat) -> Seq<Seq<u8>>
    decreases n,
{
    if n == 0 {
        Seq::empty()
    } else {
        let rest = safe_paths(paths, facts, (n - 1) as nat);
        if failure::path_problem(paths[n - 1], facts[n - 1]) is None {
            rest.push(paths[n - 1])
        } else {
            rest
        }
    }
}

pub open spec fn shown(paths: Seq<Seq<u8>>) -> Seq<Seq<char>> {
    Seq::new(paths.len(), |i: int| text::lossy_text(paths[i]))
}

/// The only path, or a failure that names the paths there are.
pub open spec fn only_path(paths: Seq<Seq<u8>>, message: Seq<char>) -> Result<
    Seq<u8>,
    FailureModel,
> {
    if paths.len() == 1 {
        Ok(paths[0])
    } else {
        let listed = scan::join_with(shown(paths), ", "@);
        Err(
            FailureModel::Discovery(
                if listed.len() == 0 {
                    message
                } else {
                    message + ": "@ + listed
                },
            ),
        )
    }
}

/// The file that is chosen, given what each candidate is.
pub open spec fn chosen(c: ContextModel, facts: Seq<PathFacts>) -> Result<Seq<u8>, FailureModel> {
    let all = candidates(c);
    if c.explicit is Some {
        match failure::path_problem(all[0], facts[0]) {
            Some(problem) => Err(problem),
            None => Ok(all[0]),
        }
    } else {
        only_path(
            safe_paths(all, facts, all.len()),
            match c.server {
                EvidenceModel::Running(
                    _,
                ) => "running tmux server did not report exactly one safe user configuration"@,
                EvidenceModel::NotRunning => "no running server and standard entrypoints were missing or ambiguous"@,
            },
        )
    }
}

/// What is chosen is one of the candidates, and it can be managed.
pub proof fn chosen_is_a_safe_candidate(c: ContextModel, facts: Seq<PathFacts>)
    requires
        facts.len() == candidates(c).len(),
        chosen(c, facts) is Ok,
    ensures
        exists|i: int|
            0 <= i < facts.len() && candidates(c)[i] == chosen(c, facts)->Ok_0
                && failure::path_problem(#[trigger] candidates(c)[i], facts[i]) is None,
{
    let all = candidates(c);
    if c.explicit is Some {
        assert(failure::path_problem(all[0], facts[0]) is None);
    } else {
        let safe = safe_paths(all, facts, all.len());
        safe_from(all, facts, all.len(), 0);
    }
}

proof fn safe_from(paths: Seq<Seq<u8>>, facts: Seq<PathFacts>, n: nat, k: int)
    requires
        n <= paths.len(),
        0 <= k < safe_paths(paths, facts, n).len(),
    ensures
        exists|i: int|
            0 <= i < n && paths[i] == safe_paths(paths, facts, n)[k] && failure::path_problem(
                #[trigger] paths[i],
                facts[i],
            ) is None,
    decreases n,
{
    let before = safe_paths(paths, facts, (n - 1) as nat);
    if k < before.len() {
        safe_from(paths, facts, (n - 1) as nat, k);
        let i = choose|i: int|
            0 <= i < n - 1 && paths[i] == before[k] && failure::path_problem(
                #[trigger] paths[i],
                facts[i],
            ) is None;
        assert(0 <= i < n && paths[i] == safe_paths(paths, facts, n)[k]);
    } else {
        assert(paths[n - 1] == safe_paths(paths, facts, n)[k]);
    }
}

// ---------------------------------------------------------------------------
// Functions
// ---------------------------------------------------------------------------

fn insert_path(list: Vec<UnixPath>, p: UnixPath) -> (r: Vec<UnixPath>)
    ensures
        domain::path_list(r@) == path_inserted(domain::path_list(list@), p@),
    decreases list@.len(),
{
    let mut list = list;
    let ghost before = domain::path_list(list@);
    if list.len() == 0 {
        list.push(p);
        assert(domain::path_list(list@) =~= seq![p@]);
        return list;
    }
    let n: usize = list.len() - 1;
    assert(before.last() == list@[n as int]@);
    let equal = p.same_as(&list[n]);
    let earlier = p.is_before(&list[n]);
    if !equal && !earlier {
        list.push(p);
        assert(domain::path_list(list@) =~= before.push(p@));
        return list;
    }
    match list.pop() {
        Some(last) => {
            assert(domain::path_list(list@) =~= before.drop_last());
            if equal {
                list.push(p);
                assert(domain::path_list(list@) =~= before.drop_last().push(p@));
                list
            } else {
                let mut r = insert_path(list, p);
                let ghost rest = domain::path_list(r@);
                r.push(last);
                assert(domain::path_list(r@) =~= rest.push(before.last()));
                r
            }
        },
        None => list,
    }
}

fn loaded_candidates(loaded: &Vec<UnixPath>, home: &UnixPath) -> (r: Vec<UnixPath>)
    ensures
        domain::path_list(r@) == paths_under(
            distinct_paths(domain::path_list(loaded@), loaded@.len()),
            home@,
        ),
{
    let ghost all = domain::path_list(loaded@);
    let mut ordered: Vec<UnixPath> = Vec::new();
    assert(domain::path_list(ordered@) =~= Seq::<Seq<u8>>::empty());
    let mut i: usize = 0;
    while i < loaded.len()
        invariant
            i <= loaded.len(),
            domain::path_list(ordered@) == distinct_paths(all, i as nat),
        decreases loaded.len() - i,
    {
        assert(all[i as int] == loaded@[i as int]@);
        ordered = insert_path(ordered, loaded[i].clone());
        i += 1;
    }
    let ghost distinct = domain::path_list(ordered@);
    let mut r: Vec<UnixPath> = Vec::new();
    let mut k: usize = 0;
    assert(domain::path_list(r@) =~= Seq::<Seq<u8>>::empty());
    while k < ordered.len()
        invariant
            k <= ordered.len(),
            domain::path_list(r@) == paths_under(distinct.take(k as int), home@),
        decreases ordered.len() - k,
    {
        assert(distinct.take(k + 1).drop_last() =~= distinct.take(k as int));
        assert(distinct.take(k + 1).last() == ordered@[k as int]@);
        let ghost before = domain::path_list(r@);
        if ordered[k].starts_with(home) {
            r.push(ordered[k].clone());
            assert(domain::path_list(r@) =~= before.push(distinct[k as int]));
        }
        k += 1;
    }
    assert(distinct.take(distinct.len() as int) =~= distinct);
    r
}

fn standard_candidates(home: &UnixPath, xdg: &Option<UnixPath>) -> (r: Vec<UnixPath>)
    ensures
        domain::path_list(r@) == candidates(
            ContextModel {
                explicit: None,
                server: EvidenceModel::NotRunning,
                home: home@,
                xdg_config_home: domain::path_view(*xdg),
            },
        ),
{
    let mut r: Vec<UnixPath> = Vec::new();
    let first = home.join(&UnixPath::new(".tmux.conf"));
    let ghost one = first@;
    r.push(first);
    assert(domain::path_list(r@) =~= seq![one]);
    if let Some(xdg) = xdg {
        let second = xdg.join(&UnixPath::new("tmux/tmux.conf"));
        let ghost two = second@;
        r.push(second);
        assert(domain::path_list(r@) =~= seq![one].push(two));
    }
    let conventional = home.join(&UnixPath::new(".config/tmux/tmux.conf"));
    let ghost listed = domain::path_list(r@);
    let ghost last = conventional@;
    let mut i: usize = 0;
    while i < r.len()
        invariant
            i <= r.len(),
            forall|j: int| 0 <= j < i ==> !path::same_path(#[trigger] listed[j], last),
        decreases r.len() - i,
    {
        assert(listed[i as int] == r@[i as int]@);
        if r[i].same_as(&conventional) {
            assert(path::same_path(listed[i as int], last));
            return r;
        }
        i += 1;
    }
    r.push(conventional);
    assert(domain::path_list(r@) =~= listed.push(last));
    r
}

/// The files to look at before one is chosen.
pub fn config_candidates(context: &DiscoveryContext) -> (r: Vec<UnixPath>)
    ensures
        domain::path_list(r@) == candidates(context@),
{
    if let Some(explicit) = &context.explicit {
        let mut r: Vec<UnixPath> = Vec::new();
        r.push(explicit.clone());
        assert(domain::path_list(r@) =~= seq![explicit@]);
        return r;
    }
    match &context.server {
        ServerEvidence::Running(loaded) => loaded_candidates(loaded, &context.home),
        ServerEvidence::NotRunning => standard_candidates(
            &context.home,
            &context.xdg_config_home,
        ),
    }
}

fn exactly_one(candidates: Vec<UnixPath>, message: &str) -> (r: Result<UnixPath, InstallError>)
    ensures
        match r {
            Ok(p) => only_path(domain::path_list(candidates@), message@) == Ok::<
                Seq<u8>,
                FailureModel,
            >(p@),
            Err(e) => only_path(domain::path_list(candidates@), message@) == Err::<
                Seq<u8>,
                FailureModel,
            >(e@),
        },
{
    let ghost all = domain::path_list(candidates@);
    if candidates.len() == 1 {
        assert(all[0] == candidates@[0]@);
        return Ok(candidates[0].clone());
    }
    let mut names = text::no_texts();
    let mut i: usize = 0;
    assert(text::texts(names@) =~= shown(all.take(0)));
    while i < candidates.len()
        invariant
            i <= candidates.len(),
            text::texts(names@) == shown(all.take(i as int)),
        decreases candidates.len() - i,
    {
        assert(all[i as int] == candidates@[i as int]@);
        text::push_text(&mut names, candidates[i].display());
        assert(shown(all.take(i + 1)) =~= shown(all.take(i as int)).push(
            text::lossy_text(all[i as int]),
        ));
        i += 1;
    }
    assert(all.take(all.len() as int) =~= all);
    let listed = text::join_texts(&names, ", ");
    let empty = text::to_chars(&listed).len() == 0;
    let mut detail = message.to_owned();
    if !empty {
        detail.append(": ");
        detail.append(&listed);
    }
    Err(InstallError::Discovery(detail))
}

/// Chooses exactly one existing safe configuration, given what each candidate is.
pub fn discover_config(context: &DiscoveryContext, facts: &Vec<PathFacts>) -> (r: Result<
    UnixPath,
    InstallError,
>)
    requires
        facts@.len() == candidates(context@).len(),
    ensures
        match r {
            Ok(p) => chosen(context@, facts@) == Ok::<Seq<u8>, FailureModel>(p@),
            Err(e) => chosen(context@, facts@) == Err::<Seq<u8>, FailureModel>(e@),
        },
{
    let paths = config_candidates(context);
    let ghost all = candidates(context@);
    assert(paths.len() == all.len());
    if context.explicit.is_some() {
        assert(all[0] == paths@[0]@);
        return match validate_regular_writable(&paths[0], &facts[0]) {
            Ok(_) => Ok(paths[0].clone()),
            Err(e) => Err(e),
        };
    }
    let mut safe: Vec<UnixPath> = Vec::new();
    let mut i: usize = 0;
    assert(domain::path_list(safe@) =~= Seq::<Seq<u8>>::empty());
    while i < paths.len()
        invariant
            i <= paths.len(),
            domain::path_list(safe@) == safe_paths(all, facts@, i as nat),
        decreases paths.len() - i,
    {
        assert(all[i as int] == paths@[i as int]@);
        let ghost before = domain::path_list(safe@);
        if validate_regular_writable(&paths[i], &facts[i]).is_ok() {
            safe.push(paths[i].clone());
            assert(domain::path_list(safe@) =~= before.push(all[i as int]));
        }
        i += 1;
    }
    match &context.server {
        ServerEvidence::Running(_) => exactly_one(
            safe,
            "running tmux server did not report exactly one safe user configuration",
        ),
        ServerEvidence::NotRunning => exactly_one(
            safe,
            "no running server and standard entrypoints were missing or ambiguous",
        ),
    }
}

// ---------------------------------------------------------------------------
// Backups
// ---------------------------------------------------------------------------

/// How many backup names are tried.
pub const BACKUP_ATTEMPTS: u64 = 1000;

pub open spec fn backup_extension(attempt: nat) -> Seq<char> {
    if attempt == 0 {
        "codex-mux.bak"@
    } else {
        "codex-mux.bak."@ + number::decimal(attempt)
    }
}

/// The name that is tried for a backup of a file.
pub fn backup_path(path: &UnixPath, attempt: u64) -> (r: UnixPath)
    ensures
        r@ == path::with_extension(path@, text::utf8(backup_extension(attempt as nat))),
{
    let mut extension = "codex-mux.bak".to_owned();
    if attempt > 0 {
        extension = "codex-mux.bak.".to_owned();
        extension.append(&number::decimal_text(attempt));
    }
    path.with_extension(&extension)
}

/// What is reported where every backup name is taken.
pub fn backup_refused() -> (r: InstallError)
    ensures
        r@ == FailureModel::Discovery("could not allocate a collision-safe backup name"@),
{
    InstallError::Discovery("could not allocate a collision-safe backup name".to_owned())
}

} // verus!
