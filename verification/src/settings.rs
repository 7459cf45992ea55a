//! The settings file: loading the preference, and changing one setting in it while no
//! other process does.

use vstd::prelude::*;
use crate::config;
use crate::config::{
    preference_of, saved_theme, validate_process_settings, validate_profiles, with_process,
    with_profiles, with_smart_naming, with_theme, ConfigFile, ConfigModel, FileProbe,
    LaunchProfile, ProcessModel, ProcessSettings, ProfileModel, ThemePreference, XdgThemeStore,
};
use crate::domain::ThemeId;
use crate::error;
use crate::error::{command_error, invalid_value, ErrorModel, MuxError};
use crate::path;
use crate::path::UnixPath;
use crate::replace;
use crate::replace::{FileSteps, StepEvent};
use crate::settings_port::SettingsPort;
use crate::text;

verus! {

/// What came of reading the settings file.
#[derive(Debug)]
pub enum SettingsRead {
    Missing,
    Failed(String),
    Text(String),
}

#[verifier::ext_equal]
pub enum ReadModel {
    Missing,
    Failed(Seq<char>),
    Text(Seq<char>),
}

impl View for SettingsRead {
    type V = ReadModel;

    open spec fn view(&self) -> ReadModel {
        match self {
            SettingsRead::Missing => ReadModel::Missing,
            SettingsRead::Failed(source) => ReadModel::Failed(source@),
            SettingsRead::Text(contents) => ReadModel::Text(contents@),
        }
    }
}

/// Boundary for the settings file. A failure is the text of it.
pub trait SettingsHost {
    fn read(&mut self, path: &UnixPath) -> SettingsRead;

    /// The settings that a text stands for.
    fn parse(&mut self, contents: &String) -> Result<ConfigFile, String>;

    /// The text that stands for settings.
    fn render(&mut self, config: &ConfigFile) -> Result<String, String>;

    /// What the file system says of a path.
    fn probe(&mut self, location: &UnixPath) -> FileProbe;

    /// Waits until no other process holds a directory, and holds it.
    fn lock(&mut self, directory: &UnixPath) -> Result<(), String>;

    /// Lets the directory go.
    fn unlock(&mut self);

    /// The number of this process, and how often it has saved.
    fn save_number(&mut self) -> (u32, u64);
}

/// A question to the boundary, with its answer.
#[verifier::ext_equal]
pub enum SettingsEvent {
    Read { path: Seq<u8>, reply: ReadModel },
    Parse { contents: Seq<char>, reply: Result<ConfigModel, Seq<char>> },
    Render { config: ConfigModel, reply: Result<Seq<char>, Seq<char>> },
    Probe { location: Seq<u8>, reply: FileProbe },
    Lock { directory: Seq<u8>, reply: Result<(), Seq<char>> },
    Unlock,
    Number(u32, u64),
    /// A directory was made, with those above it.
    Directories { path: Seq<u8>, reply: Result<(), Seq<char>> },
    /// The file was saved, by the steps that a record of steps has from one point to a
    /// later one.
    Saved {
        path: Seq<u8>,
        contents: Result<Seq<char>, Seq<char>>,
        process: u32,
        count: u64,
        before: Seq<StepEvent>,
        after: Seq<StepEvent>,
        reply: Result<(), ErrorModel>,
    },
}

pub open spec fn parse_reply(r: Result<ConfigFile, String>) -> Result<ConfigModel, Seq<char>> {
    match r {
        Ok(config) => Ok(config@),
        Err(detail) => Err(detail@),
    }
}

pub open spec fn agrees(w: Seq<SettingsEvent>, log: Seq<SettingsEvent>) -> bool {
    &&& log.len() <= w.len()
    &&& forall|i: int| 0 <= i < log.len() ==> #[trigger] w[i] == log[i]
}

// ---------------------------------------------------------------------------
// What a record says from a place on: the result, and the place behind it
// ---------------------------------------------------------------------------

pub open spec fn read_at(w: Seq<SettingsEvent>, k: int, p: Seq<u8>) -> Option<(ReadModel, int)> {
    if 0 <= k < w.len() {
        match w[k] {
            SettingsEvent::Read { path, reply } => if path == p {
                Some((reply, k + 1))
            } else {
                None
            },
            _ => None,
        }
    } else {
        None
    }
}

pub open spec fn parse_at(w: Seq<SettingsEvent>, k: int, text: Seq<char>) -> Option<
    (Result<ConfigModel, Seq<char>>, int),
> {
    if 0 <= k < w.len() {
        match w[k] {
            SettingsEvent::Parse { contents, reply } => if contents == text {
                Some((reply, k + 1))
            } else {
                None
            },
            _ => None,
        }
    } else {
        None
    }
}

pub open spec fn render_at(w: Seq<SettingsEvent>, k: int, c: ConfigModel) -> Option<
    (Result<Seq<char>, Seq<char>>, int),
> {
    if 0 <= k < w.len() {
        match w[k] {
            SettingsEvent::Render { config, reply } => if config == c {
                Some((reply, k + 1))
            } else {
                None
            },
            _ => None,
        }
    } else {
        None
    }
}

pub open spec fn probe_at(w: Seq<SettingsEvent>, k: int, p: Seq<u8>) -> Option<(FileProbe, int)> {
    if 0 <= k < w.len() {
        match w[k] {
            SettingsEvent::Probe { location, reply } => if location == p {
                Some((reply, k + 1))
            } else {
                None
            },
            _ => None,
        }
    } else {
        None
    }
}

pub open spec fn lock_at(w: Seq<SettingsEvent>, k: int, p: Seq<u8>) -> Option<
    (Result<(), Seq<char>>, int),
> {
    if 0 <= k < w.len() {
        match w[k] {
            SettingsEvent::Lock { directory, reply } => if directory == p {
                Some((reply, k + 1))
            } else {
                None
            },
            _ => None,
        }
    } else {
        None
    }
}

pub open spec fn number_at(w: Seq<SettingsEvent>, k: int) -> Option<(u32, u64, int)> {
    if 0 <= k < w.len() {
        match w[k] {
            SettingsEvent::Number(process, count) => Some((process, count, k + 1)),
            _ => None,
        }
    } else {
        None
    }
}

/// What the file system says of the executables of profiles, from one of them on. A
/// profile without an executable needs no answer.
pub open spec fn profile_probes_from(
    w: Seq<SettingsEvent>,
    k: int,
    profiles: Seq<ProfileModel>,
    i: int,
    found: Seq<FileProbe>,
) -> Option<(Seq<FileProbe>, int)>
    decreases profiles.len() - i,
{
    if i < 0 || i >= profiles.len() {
        Some((found, k))
    } else {
        match profiles[i].executable {
            None => profile_probes_from(
                w,
                k,
                profiles,
                i + 1,
                found.push(FileProbe::Found { is_file: false, mode: 0 }),
            ),
            Some(executable) => match probe_at(w, k, executable) {
                None => None,
                Some((probe, n)) => profile_probes_from(w, n, profiles, i + 1, found.push(probe)),
            },
        }
    }
}

/// What the file system says of paths, from one of them on.
pub open spec fn path_probes_from(
    w: Seq<SettingsEvent>,
    k: int,
    paths: Seq<Seq<u8>>,
    i: int,
    found: Seq<FileProbe>,
) -> Option<(Seq<FileProbe>, int)>
    decreases paths.len() - i,
{
    if i < 0 || i >= paths.len() {
        Some((found, k))
    } else {
        match probe_at(w, k, paths[i]) {
            None => None,
            Some((probe, n)) => path_probes_from(w, n, paths, i + 1, found.push(probe)),
        }
    }
}

pub open spec fn refused(problem: Option<ErrorModel>) -> Result<(), ErrorModel> {
    match problem {
        Some(e) => Err(e),
        None => Ok(()),
    }
}

/// Profiles checked against the file system.
pub open spec fn profiles_checked_at(
    w: Seq<SettingsEvent>,
    k: int,
    profiles: Seq<ProfileModel>,
) -> Option<(Result<(), ErrorModel>, int)> {
    match profile_probes_from(w, k, profiles, 0, Seq::empty()) {
        None => None,
        Some((probes, n)) => Some((refused(config::profiles_problem(profiles, probes)), n)),
    }
}

/// Process settings checked against the file system.
pub open spec fn process_checked_at(w: Seq<SettingsEvent>, k: int, process: ProcessModel) -> Option<
    (Result<(), ErrorModel>, int),
> {
    match path_probes_from(w, k, process.match_executables, 0, Seq::empty()) {
        None => None,
        Some((matches, n)) => match probe_at(w, n, process.launch_executable) {
            None => None,
            Some((launch, m)) => Some(
                (refused(config::process_problem(process, launch, matches)), m),
            ),
        },
    }
}

/// The settings in the file, not checked.
pub open spec fn parsed_at(w: Seq<SettingsEvent>, k: int, p: Seq<u8>) -> Option<
    (Result<Option<ConfigModel>, ErrorModel>, int),
> {
    match read_at(w, k, p) {
        None => None,
        Some((ReadModel::Missing, n)) => Some((Ok(None), n)),
        Some((ReadModel::Failed(source), n)) => Some(
            (Err(ErrorModel::Filesystem { path: p, source }), n),
        ),
        Some((ReadModel::Text(contents), n)) => match parse_at(w, n, contents) {
            None => None,
            Some((Ok(config), m)) => Some((Ok(Some(config)), m)),
            Some((Err(detail), m)) => Some(
                (
                    Err(
                        ErrorModel::Command(
                            "could not parse "@ + text::lossy_text(p) + ": "@ + detail,
                        ),
                    ),
                    m,
                ),
            ),
        },
    }
}

/// Settings checked against the file system.
pub open spec fn checked_at(w: Seq<SettingsEvent>, k: int, c: ConfigModel) -> Option<
    (Result<(), ErrorModel>, int),
> {
    match profiles_checked_at(w, k, c.profiles) {
        None => None,
        Some((Err(e), n)) => Some((Err(e), n)),
        Some((Ok(_), n)) => match c.process {
            None => Some((Ok(()), n)),
            Some(process) => process_checked_at(w, n, process),
        },
    }
}

/// The settings in the file, which have to be valid.
pub open spec fn loaded_at(w: Seq<SettingsEvent>, k: int, p: Seq<u8>) -> Option<
    (Result<Option<ConfigModel>, ErrorModel>, int),
> {
    match parsed_at(w, k, p) {
        None => None,
        Some((Err(e), n)) => Some((Err(e), n)),
        Some((Ok(None), n)) => Some((Ok(None), n)),
        Some((Ok(Some(config)), n)) => match checked_at(w, n, config) {
            None => None,
            Some((Err(e), m)) => Some((Err(e), m)),
            Some((Ok(_), m)) => Some((Ok(Some(config)), m)),
        },
    }
}

/// A preference is that of some loaded settings: those in the file; those of a first run
/// where there is none, or where it could not be used, and then with a warning.
pub open spec fn is_preference(
    r: ThemePreference,
    loaded: Result<Option<ConfigModel>, ErrorModel>,
    p: Seq<u8>,
) -> bool {
    match loaded {
        Ok(saved) => {
            &&& r.settings() == config::saved_or_default(saved)
            &&& r.was_saved == (saved is Some)
            &&& r.warning is None
        },
        Err(e) => {
            &&& r.settings() == config::first_run()
            &&& !r.was_saved
            &&& text::option_view(r.warning) == Some(config::load_warning(p, e))
        },
    }
}

/// One setting that is changed.
#[verifier::ext_equal]
pub enum ChangeModel {
    Theme(ThemeId),
    Profiles(Seq<ProfileModel>),
    SmartNaming(bool),
    Process(ProcessModel),
}

/// A change refused before anything is touched.
pub open spec fn change_checked_at(w: Seq<SettingsEvent>, k: int, change: ChangeModel) -> Option<
    (Result<(), ErrorModel>, int),
> {
    match change {
        ChangeModel::Theme(_) => Some((Ok(()), k)),
        ChangeModel::SmartNaming(_) => Some((Ok(()), k)),
        ChangeModel::Profiles(profiles) => profiles_checked_at(w, k, profiles),
        ChangeModel::Process(process) => process_checked_at(w, k, process),
    }
}

/// What is saved for a change: everything else stays as it is in the file. New profiles
/// may take the place of ones that are not valid any more; every other change needs valid
/// settings. The process settings beside a naming preference are those of a second look.
pub open spec fn changed_at(w: Seq<SettingsEvent>, k: int, p: Seq<u8>, change: ChangeModel) -> Option<
    (Result<ConfigModel, ErrorModel>, int),
> {
    match change {
        ChangeModel::Theme(theme) => match loaded_at(w, k, p) {
            None => None,
            Some((Err(e), n)) => Some((Err(e), n)),
            Some((Ok(saved), n)) => Some(
                (Ok(ConfigModel { theme, ..config::saved_or_default(saved) }), n),
            ),
        },
        ChangeModel::Profiles(profiles) => match parsed_at(w, k, p) {
            None => None,
            Some((Err(e), n)) => Some((Err(e), n)),
            Some((Ok(saved), n)) => Some(
                (Ok(ConfigModel { profiles, ..config::saved_or_default(saved) }), n),
            ),
        },
        ChangeModel::SmartNaming(enabled) => match loaded_at(w, k, p) {
            None => None,
            Some((Err(e), n)) => Some((Err(e), n)),
            Some((Ok(saved), n)) => match parsed_at(w, n, p) {
                None => None,
                Some((Err(e), m)) => Some((Err(e), m)),
                Some((Ok(again), m)) => Some(
                    (
                        Ok(
                            ConfigModel {
                                smart_naming: enabled,
                                process: config::saved_or_default(again).process,
                                ..config::saved_or_default(saved)
                            },
                        ),
                        m,
                    ),
                ),
            },
        },
        ChangeModel::Process(process) => match loaded_at(w, k, p) {
            None => None,
            Some((Err(e), n)) => Some((Err(e), n)),
            Some((Ok(saved), n)) => Some(
                (Ok(ConfigModel { process: Some(process), ..config::saved_or_default(saved) }), n),
            ),
        },
    }
}

pub open spec fn directories_at(w: Seq<SettingsEvent>, k: int, p: Seq<u8>) -> Option<
    (Result<(), Seq<char>>, int),
> {
    if 0 <= k < w.len() {
        match w[k] {
            SettingsEvent::Directories { path, reply } => if path == p {
                Some((reply, k + 1))
            } else {
                None
            },
            _ => None,
        }
    } else {
        None
    }
}

/// The file was saved, as the steps of that save have it.
pub open spec fn saved_at(
    w: Seq<SettingsEvent>,
    k: int,
    p: Seq<u8>,
    contents: Result<Seq<char>, Seq<char>>,
    process: u32,
    count: u64,
) -> Option<(Result<(), ErrorModel>, int)> {
    if 0 <= k < w.len() {
        match w[k] {
            SettingsEvent::Saved {
                path,
                contents: written,
                process: number,
                count: times,
                before,
                after,
                reply,
            } => if path == p && written == contents && number == process && times == count
                && replace::saved_at(after, before.len() as int, p, contents, process, count)
                == Some((reply, after.len() as int)) {
                Some((reply, k + 1))
            } else {
                None
            },
            _ => None,
        }
    } else {
        None
    }
}

/// A change while the directory is held: the file is read, and written as a whole.
pub open spec fn rewritten_at(
    w: Seq<SettingsEvent>,
    k: int,
    p: Seq<u8>,
    change: ChangeModel,
) -> Option<(Result<(), ErrorModel>, int)> {
    match changed_at(w, k, p, change) {
        None => None,
        Some((Err(e), n)) => Some((Err(e), n)),
        Some((Ok(config), n)) => match render_at(w, n, config) {
            None => None,
            Some((contents, m)) => match number_at(w, m) {
                None => None,
                Some((process, count, j)) => saved_at(w, j, p, contents, process, count),
            },
        },
    }
}

/// A change of one setting: it is checked, the directory is held, the file is rewritten,
/// and the directory is let go whatever came of that.
pub open spec fn applied_at(
    w: Seq<SettingsEvent>,
    k: int,
    p: Seq<u8>,
    change: ChangeModel,
) -> Option<(Result<(), ErrorModel>, int)> {
    match change_checked_at(w, k, change) {
        None => None,
        Some((Err(e), n)) => Some((Err(e), n)),
        Some((Ok(_), n)) => match path::parent(p) {
            None => Some(
                (
                    Err(
                        ErrorModel::InvalidValue {
                            field: "theme configuration path"@,
                            message: "must have a parent directory"@,
                        },
                    ),
                    n,
                ),
            ),
            Some(parent) => match directories_at(w, n, parent) {
                None => None,
                Some((Err(source), m)) => Some(
                    (Err(ErrorModel::Filesystem { path: parent, source }), m),
                ),
                Some((Ok(_), m)) => match lock_at(w, m, parent) {
                    None => None,
                    Some((Err(source), j)) => Some(
                        (Err(ErrorModel::Filesystem { path: parent, source }), j),
                    ),
                    Some((Ok(_), j)) => match rewritten_at(w, j, p, change) {
                        None => None,
                        Some((r, l)) => if 0 <= l < w.len() && w[l] is Unlock {
                            Some((r, l + 1))
                        } else {
                            None
                        },
                    },
                },
            },
        },
    }
}

// ---------------------------------------------------------------------------
// Laws
// ---------------------------------------------------------------------------

/// A change of one setting leaves every other one as it was saved.
pub proof fn a_change_keeps_the_other_settings(
    w: Seq<SettingsEvent>,
    k: int,
    p: Seq<u8>,
    change: ChangeModel,
)
    requires
        changed_at(w, k, p, change) matches Some((Ok(_), _)),
        change !is SmartNaming,
    ensures
        ({
            let (r, _) = changed_at(w, k, p, change)->0;
            let (before, _) = parsed_at(w, k, p)->0;
            let saved = config::saved_or_default(before->Ok_0);
            let config = r->Ok_0;
            &&& before is Ok
            &&& change !is Theme ==> config.theme == saved.theme
            &&& change !is Profiles ==> config.profiles == saved.profiles
            &&& config.smart_naming == saved.smart_naming
            &&& change !is Process ==> config.process == saved.process
        }),
{
}

/// A changed naming preference leaves the theme and the profiles as they were saved, and
/// the process settings too where the file did not change between the two looks at it.
pub proof fn a_naming_change_keeps_the_other_settings(
    w: Seq<SettingsEvent>,
    k: int,
    p: Seq<u8>,
    enabled: bool,
)
    requires
        changed_at(w, k, p, ChangeModel::SmartNaming(enabled)) matches Some((Ok(_), _)),
    ensures
        ({
            let (r, _) = changed_at(w, k, p, ChangeModel::SmartNaming(enabled))->0;
            let (before, n) = loaded_at(w, k, p)->0;
            let (again, _) = parsed_at(w, n, p)->0;
            let saved = config::saved_or_default(before->Ok_0);
            let config = r->Ok_0;
            &&& before is Ok
            &&& config.theme == saved.theme
            &&& config.profiles == saved.profiles
            &&& config.smart_naming == enabled
            &&& again == before ==> config.process == saved.process
        }),
{
}

/// Only questions stand between two places.
pub open spec fn asks_only(w: Seq<SettingsEvent>, from: int, to: int) -> bool {
    from <= to && forall|i: int|
        from <= i < to ==> (#[trigger] w[i]) is Read || w[i] is Parse || w[i] is Probe
}

proof fn profile_probes_ask(
    w: Seq<SettingsEvent>,
    k: int,
    profiles: Seq<ProfileModel>,
    i: int,
    probes: Seq<FileProbe>,
)
    ensures
        profile_probes_from(w, k, profiles, i, probes) matches Some((_, n)) ==> asks_only(w, k, n),
    decreases profiles.len() - i,
{
    if 0 <= i < profiles.len() {
        match profiles[i].executable {
            None => {
                profile_probes_ask(
                    w,
                    k,
                    profiles,
                    i + 1,
                    probes.push(FileProbe::Found { is_file: false, mode: 0 }),
                );
            },
            Some(executable) => {
                if let Some((reply, n)) = probe_at(w, k, executable) {
                    profile_probes_ask(w, n, profiles, i + 1, probes.push(reply));
                }
            },
        }
    }
}

proof fn path_probes_ask(
    w: Seq<SettingsEvent>,
    k: int,
    paths: Seq<Seq<u8>>,
    i: int,
    probes: Seq<FileProbe>,
)
    ensures
        path_probes_from(w, k, paths, i, probes) matches Some((_, n)) ==> asks_only(w, k, n),
    decreases paths.len() - i,
{
    if 0 <= i < paths.len() {
        if let Some((reply, n)) = probe_at(w, k, paths[i]) {
            path_probes_ask(w, n, paths, i + 1, probes.push(reply));
        }
    }
}

proof fn checks_ask(w: Seq<SettingsEvent>, k: int, change: ChangeModel)
    ensures
        change_checked_at(w, k, change) matches Some((_, n)) ==> asks_only(w, k, n),
{
    match change {
        ChangeModel::Profiles(profiles) => {
            profile_probes_ask(w, k, profiles, 0, Seq::empty());
        },
        ChangeModel::Process(process) => {
            path_probes_ask(w, k, process.match_executables, 0, Seq::empty());
        },
        _ => {},
    }
}

proof fn loading_asks(w: Seq<SettingsEvent>, k: int, p: Seq<u8>)
    ensures
        parsed_at(w, k, p) matches Some((_, n)) ==> asks_only(w, k, n),
        loaded_at(w, k, p) matches Some((_, n)) ==> asks_only(w, k, n),
{
    if let Some((Ok(Some(config)), n)) = parsed_at(w, k, p) {
        checks_ask(w, n, ChangeModel::Profiles(config.profiles));
        if let Some((Ok(_), m)) = profiles_checked_at(w, n, config.profiles) {
            if let Some(process) = config.process {
                checks_ask(w, m, ChangeModel::Process(process));
            }
        }
    }
}

proof fn changing_asks(w: Seq<SettingsEvent>, k: int, p: Seq<u8>, change: ChangeModel)
    ensures
        changed_at(w, k, p, change) matches Some((_, n)) ==> asks_only(w, k, n),
{
    loading_asks(w, k, p);
    if change is SmartNaming {
        if let Some((Ok(_), n)) = loaded_at(w, k, p) {
            loading_asks(w, n, p);
        }
    }
}

/// What is saved for a change, where it is.
pub open spec fn saved_config(
    w: Seq<SettingsEvent>,
    k: int,
    p: Seq<u8>,
    change: ChangeModel,
) -> ConfigModel {
    let (_, n) = change_checked_at(w, k, change)->0;
    (changed_at(w, n + 2, p, change)->0).0->Ok_0
}

/// A setting has the value that a change gives it.
pub open spec fn carries(config: ConfigModel, change: ChangeModel) -> bool {
    match change {
        ChangeModel::Theme(theme) => config.theme == theme,
        ChangeModel::Profiles(profiles) => config.profiles == profiles,
        ChangeModel::SmartNaming(enabled) => config.smart_naming == enabled,
        ChangeModel::Process(process) => config.process == Some(process),
    }
}

/// Everything that touches the file is done while the directory is held: a change that
/// succeeds makes and locks the directory, reads, renders the changed settings, saves
/// that text, and lets the directory go last; nothing but questions stands between the
/// lock and the rendering, and nothing at all between the save and the release.
pub proof fn a_save_is_made_under_the_lock(
    w: Seq<SettingsEvent>,
    k: int,
    p: Seq<u8>,
    change: ChangeModel,
)
    requires
        applied_at(w, k, p, change) matches Some((Ok(_), _)),
    ensures
        ({
            let (_, n) = change_checked_at(w, k, change)->0;
            let (_, end) = applied_at(w, k, p, change)->0;
            let parent = path::parent(p)->0;
            &&& path::parent(p) is Some
            &&& asks_only(w, k, n)
            &&& w[n] matches SettingsEvent::Directories { path: made, reply: Ok(_) } && made
                == parent
            &&& w[n + 1] matches SettingsEvent::Lock { directory, reply: Ok(_) } && directory
                == parent
            &&& asks_only(w, n + 2, end - 4)
            &&& w[end - 4] matches SettingsEvent::Render { config, reply } && config
                == saved_config(w, k, p, change) && reply is Ok
            &&& w[end - 3] is Number
            &&& w[end - 2] matches SettingsEvent::Saved { path, contents, reply: done, .. } && path
                == p && contents == w[end - 4]->Render_reply && done is Ok
            &&& w[end - 1] is Unlock
            &&& carries(saved_config(w, k, p, change), change)
        }),
{
    checks_ask(w, k, change);
    let (_, n) = change_checked_at(w, k, change)->0;
    changing_asks(w, n + 2, p, change);
    let (_, m) = changed_at(w, n + 2, p, change)->0;
    let (contents, j) = render_at(w, m, saved_config(w, k, p, change))->0;
    let (process, count, l) = number_at(w, j)->0;
    if let SettingsEvent::Saved { before, after, .. } = w[l] {
        replace::a_failed_save_keeps_the_settings(
            after,
            before.len() as int,
            p,
            contents,
            process,
            count,
        );
    }
}

/// A change that is not valid is refused with its reason, and only questions were asked:
/// the file is not touched.
pub proof fn an_invalid_change_touches_nothing(
    w: Seq<SettingsEvent>,
    k: int,
    p: Seq<u8>,
    change: ChangeModel,
)
    requires
        change_checked_at(w, k, change) matches Some((Err(_), _)),
    ensures
        applied_at(w, k, p, change) == change_checked_at(w, k, change),
        asks_only(w, k, (applied_at(w, k, p, change)->0).1),
{
    checks_ask(w, k, change);
}

/// A change that fails leaves the file alone: whatever steps were taken to save it,
/// nothing was moved onto it.
pub proof fn a_failed_change_keeps_the_file(
    w: Seq<SettingsEvent>,
    k: int,
    p: Seq<u8>,
    change: ChangeModel,
    i: int,
    j: int,
)
    requires
        applied_at(w, k, p, change) matches Some((Err(_), end)) && k <= i < end,
        w[i] matches SettingsEvent::Saved { before, after, .. } && before.len() <= j < after.len(),
    ensures
        !replace::moves_onto(w[i]->after[j], p),
{
    checks_ask(w, k, change);
    let (checked, n) = change_checked_at(w, k, change)->0;
    assert(i >= n);
    changing_asks(w, n + 2, p, change);
    let (changed, m) = changed_at(w, n + 2, p, change)->0;
    assert(i >= m);
    let (contents, a) = render_at(w, m, changed->Ok_0)->0;
    let (process, count, b) = number_at(w, a)->0;
    assert(i == b);
    if let SettingsEvent::Saved { before, after, .. } = w[i] {
        replace::a_failed_save_keeps_the_settings(
            after,
            before.len() as int,
            p,
            contents,
            process,
            count,
        );
    }
}

/// What was saved is loaded again: where the file is read back as the settings that were
/// saved, and they are still valid, the preference is theirs, without a warning, and has
/// the value of the change.
pub proof fn a_saved_change_is_loaded(
    w: Seq<SettingsEvent>,
    k: int,
    p: Seq<u8>,
    change: ChangeModel,
    later: Seq<SettingsEvent>,
    l: int,
    r: ThemePreference,
)
    requires
        applied_at(w, k, p, change) matches Some((Ok(_), _)),
        parsed_at(later, l, p) matches Some((read, n)) && read == Ok::<
            Option<ConfigModel>,
            ErrorModel,
        >(Some(saved_config(w, k, p, change))) && (checked_at(
            later,
            n,
            saved_config(w, k, p, change),
        ) matches Some((Ok(_), _))),
        loaded_at(later, l, p) matches Some((loaded, _)) && is_preference(r, loaded, p),
    ensures
        r.settings() == saved_config(w, k, p, change),
        carries(r.settings(), change),
        r.was_saved,
        r.warning is None,
{
    a_save_is_made_under_the_lock(w, k, p, change);
}

// ---------------------------------------------------------------------------
// Checking, loading and changing
// ---------------------------------------------------------------------------

impl<H: SettingsHost, S: FileSteps> SettingsPort<H, S> {
    fn check_profiles(&mut self, profiles: &Vec<LaunchProfile>) -> (r: Result<(), MuxError>)
        ensures
            agrees(final(self).events(), old(self).events()),
            forall|w: Seq<SettingsEvent>|
                agrees(w, final(self).events()) ==> #[trigger] profiles_checked_at(
                    w,
                    old(self).events().len() as int,
                    config::profile_list(profiles@),
                ) == Some((error::outcome(r), final(self).events().len() as int)),
    {
        let ghost start = self.events();
        let ghost all = config::profile_list(profiles@);
        let mut probes: Vec<FileProbe> = Vec::new();
        let mut i: usize = 0;
        while i < profiles.len()
            invariant
                i <= profiles.len(),
                probes.len() == i,
                start == old(self).events(),
                agrees(self.events(), start),
                forall|w: Seq<SettingsEvent>|
                    agrees(w, self.events()) ==> #[trigger] profile_probes_from(
                        w,
                        start.len() as int,
                        all,
                        0,
                        Seq::empty(),
                    ) == profile_probes_from(
                        w,
                        self.events().len() as int,
                        all,
                        i as int,
                        probes@,
                    ),
            decreases profiles.len() - i,
        {
            let ghost before = self.events();
            let ghost held = probes@;
            assert(all[i as int] == profiles@[i as int]@);
            let probe = match &profiles[i].executable {
                Some(executable) => self.probe(executable),
                None => FileProbe::Found { is_file: false, mode: 0 },
            };
            assert(agrees(self.events(), before));
            probes.push(probe);
            assert(probes@ == held.push(probe));
            i += 1;
        }
        validate_profiles(profiles, &probes)
    }

    fn check_process(&mut self, settings: &ProcessSettings) -> (r: Result<(), MuxError>)
        ensures
            agrees(final(self).events(), old(self).events()),
            forall|w: Seq<SettingsEvent>|
                agrees(w, final(self).events()) ==> #[trigger] process_checked_at(
                    w,
                    old(self).events().len() as int,
                    settings@,
                ) == Some((error::outcome(r), final(self).events().len() as int)),
    {
        let ghost start = self.events();
        let paths = &settings.match_executables;
        let ghost all = settings@.match_executables;
        assert(all.len() == paths.len());
        let mut probes: Vec<FileProbe> = Vec::new();
        let mut i: usize = 0;
        while i < paths.len()
            invariant
                i <= paths.len(),
                probes.len() == i,
                start == old(self).events(),
                agrees(self.events(), start),
                forall|w: Seq<SettingsEvent>|
                    agrees(w, self.events()) ==> #[trigger] path_probes_from(
                        w,
                        start.len() as int,
                        all,
                        0,
                        Seq::empty(),
                    ) == path_probes_from(
                        w,
                        self.events().len() as int,
                        all,
                        i as int,
                        probes@,
                    ),
            decreases paths.len() - i,
        {
            let ghost before = self.events();
            let ghost held = probes@;
            assert(all[i as int] == paths@[i as int]@);
            let probe = self.probe(&paths[i]);
            assert(agrees(self.events(), before));
            probes.push(probe);
            assert(probes@ == held.push(probe));
            i += 1;
        }
        let ghost probed = self.events();
        let launch = self.probe(&settings.launch_executable);
        assert(agrees(self.events(), probed));
        validate_process_settings(settings, &launch, &probes)
    }

    fn check_config(&mut self, config: &ConfigFile) -> (r: Result<(), MuxError>)
        ensures
            agrees(final(self).events(), old(self).events()),
            forall|w: Seq<SettingsEvent>|
                agrees(w, final(self).events()) ==> #[trigger] checked_at(
                    w,
                    old(self).events().len() as int,
                    config@,
                ) == Some((error::outcome(r), final(self).events().len() as int)),
    {
        let checked = self.check_profiles(&config.profiles);
        if checked.is_err() {
            return checked;
        }
        match &config.process {
            Some(process) => self.check_process(process),
            None => Ok(()),
        }
    }
}

pub open spec fn config_outcome(r: Result<Option<ConfigFile>, MuxError>) -> Result<
    Option<ConfigModel>,
    ErrorModel,
> {
    match r {
        Ok(config) => Ok(config::config_view(config)),
        Err(e) => Err(e@),
    }
}

pub open spec fn changed_outcome(r: Result<ConfigFile, MuxError>) -> Result<
    ConfigModel,
    ErrorModel,
> {
    match r {
        Ok(config) => Ok(config@),
        Err(e) => Err(e@),
    }
}

/// One setting that is changed.
pub enum Change {
    Theme(ThemeId),
    Profiles(Vec<LaunchProfile>),
    SmartNaming(bool),
    Process(ProcessSettings),
}

impl View for Change {
    type V = ChangeModel;

    open spec fn view(&self) -> ChangeModel {
        match self {
            Change::Theme(theme) => ChangeModel::Theme(*theme),
            Change::Profiles(profiles) => ChangeModel::Profiles(
                config::profile_list(profiles@),
            ),
            Change::SmartNaming(enabled) => ChangeModel::SmartNaming(*enabled),
            Change::Process(process) => ChangeModel::Process(process@),
        }
    }
}

impl XdgThemeStore {
    fn load_parsed_config<H: SettingsHost, S: FileSteps>(&self, host: &mut SettingsPort<H, S>) -> (r: Result<
        Option<ConfigFile>,
        MuxError,
    >)
        ensures
            agrees(final(host).events(), old(host).events()),
            forall|w: Seq<SettingsEvent>|
                agrees(w, final(host).events()) ==> #[trigger] parsed_at(
                    w,
                    old(host).events().len() as int,
                    self@,
                ) == Some((config_outcome(r), final(host).events().len() as int)),
    {
        match host.read(self.path()) {
            SettingsRead::Missing => Ok(None),
            SettingsRead::Failed(source) => Err(
                MuxError::Filesystem { path: self.path().clone(), source },
            ),
            SettingsRead::Text(contents) => match host.parse(&contents) {
                Ok(config) => Ok(Some(config)),
                Err(detail) => {
                    let mut message = "could not parse ".to_owned();
                    message.append(&self.path().display());
                    message.append(": ");
                    message.append(&detail);
                    Err(command_error(&message))
                },
            },
        }
    }

    fn load_config<H: SettingsHost, S: FileSteps>(&self, host: &mut SettingsPort<H, S>) -> (r: Result<
        Option<ConfigFile>,
        MuxError,
    >)
        ensures
            agrees(final(host).events(), old(host).events()),
            forall|w: Seq<SettingsEvent>|
                agrees(w, final(host).events()) ==> #[trigger] loaded_at(
                    w,
                    old(host).events().len() as int,
                    self@,
                ) == Some((config_outcome(r), final(host).events().len() as int)),
    {
        match self.load_parsed_config(host) {
            Err(e) => Err(e),
            Ok(None) => Ok(None),
            Ok(Some(config)) => match host.check_config(&config) {
                Ok(_) => Ok(Some(config)),
                Err(e) => Err(e),
            },
        }
    }

    /// Loads a preference. Where the file cannot be used, it is that of a first run, with
    /// a warning.
    pub fn load_preference<H: SettingsHost, S: FileSteps>(&self, host: &mut SettingsPort<H, S>) -> (r:
        ThemePreference)
        ensures
            agrees(final(host).events(), old(host).events()),
            forall|w: Seq<SettingsEvent>|
                agrees(w, final(host).events()) ==> (#[trigger] loaded_at(
                    w,
                    old(host).events().len() as int,
                    self@,
                ) matches Some((loaded, n)) && n == final(host).events().len() && is_preference(
                    r,
                    loaded,
                    self@,
                )),
    {
        let loaded = self.load_config(host);
        preference_of(loaded, self.path())
    }

    /// Loads the saved theme, where one was saved and can be used.
    pub fn load<H: SettingsHost, S: FileSteps>(&self, host: &mut SettingsPort<H, S>) -> (r: Result<
        Option<ThemeId>,
        MuxError,
    >)
        ensures
            agrees(final(host).events(), old(host).events()),
            forall|w: Seq<SettingsEvent>|
                agrees(w, final(host).events()) ==> (#[trigger] loaded_at(
                    w,
                    old(host).events().len() as int,
                    self@,
                ) matches Some((loaded, n)) && n == final(host).events().len() && r == Ok::<
                    Option<ThemeId>,
                    MuxError,
                >(
                    match loaded {
                        Ok(Some(config)) => Some(config.theme),
                        _ => None,
                    },
                )),
    {
        Ok(saved_theme(&self.load_preference(host)))
    }

    fn changed_config<H: SettingsHost, S: FileSteps>(&self, change: Change, host: &mut SettingsPort<H, S>) -> (r:
        Result<ConfigFile, MuxError>)
        ensures
            agrees(final(host).events(), old(host).events()),
            forall|w: Seq<SettingsEvent>|
                agrees(w, final(host).events()) ==> #[trigger] changed_at(
                    w,
                    old(host).events().len() as int,
                    self@,
                    change@,
                ) == Some((changed_outcome(r), final(host).events().len() as int)),
    {
        match change {
            Change::Theme(theme) => match self.load_config(host) {
                Ok(saved) => Ok(with_theme(saved, theme)),
                Err(e) => Err(e),
            },
            Change::Profiles(profiles) => match self.load_parsed_config(host) {
                Ok(saved) => Ok(with_profiles(saved, &profiles)),
                Err(e) => Err(e),
            },
            Change::SmartNaming(enabled) => match self.load_config(host) {
                Ok(saved) => match self.load_parsed_config(host) {
                    Ok(again) => {
                        let mut config = with_smart_naming(saved, enabled);
                        config.process = match again {
                            Some(again) => again.process,
                            None => None,
                        };
                        Ok(config)
                    },
                    Err(e) => Err(e),
                },
                Err(e) => Err(e),
            },
            Change::Process(process) => match self.load_config(host) {
                Ok(saved) => Ok(with_process(saved, process)),
                Err(e) => Err(e),
            },
        }
    }

    fn rewrite<H: SettingsHost, S: FileSteps>(
        &self,
        change: Change,
        host: &mut SettingsPort<H, S>,
    ) -> (r: Result<(), MuxError>)
        ensures
            agrees(final(host).events(), old(host).events()),
            forall|w: Seq<SettingsEvent>|
                agrees(w, final(host).events()) ==> #[trigger] rewritten_at(
                    w,
                    old(host).events().len() as int,
                    self@,
                    change@,
                ) == Some((error::outcome(r), final(host).events().len() as int)),
    {
        let config = match self.changed_config(change, host) {
            Ok(config) => config,
            Err(e) => return Err(e),
        };
        let ghost changed = host.events();
        let contents = host.render(&config);
        let (process, count) = host.save_number();
        assert(agrees(host.events(), changed));
        let ghost numbered = host.events();
        let r = host.save_atomic(self, &contents, process, count);
        assert(agrees(host.events(), numbered));
        r
    }

    /// Changes one setting.
    pub fn apply<H: SettingsHost, S: FileSteps>(
        &self,
        change: Change,
        host: &mut SettingsPort<H, S>,
    ) -> (r: Result<(), MuxError>)
        ensures
            agrees(final(host).events(), old(host).events()),
            forall|w: Seq<SettingsEvent>|
                agrees(w, final(host).events()) ==> #[trigger] applied_at(
                    w,
                    old(host).events().len() as int,
                    self@,
                    change@,
                ) == Some((error::outcome(r), final(host).events().len() as int)),
    {
        let checked = match &change {
            Change::Profiles(profiles) => host.check_profiles(profiles),
            Change::Process(process) => host.check_process(process),
            _ => Ok(()),
        };
        if checked.is_err() {
            return checked;
        }
        let ghost a = host.events();
        let Some(parent) = self.path().parent() else {
            return Err(
                invalid_value("theme configuration path", "must have a parent directory"),
            );
        };
        match host.make_directories(&parent) {
            Ok(_) => {},
            Err(source) => {
                assert(agrees(host.events(), a));
                return Err(MuxError::Filesystem { path: parent, source });
            },
        }
        assert(agrees(host.events(), a));
        match host.lock(&parent) {
            Ok(_) => {},
            Err(source) => {
                assert(agrees(host.events(), a));
                return Err(MuxError::Filesystem { path: parent, source });
            },
        }
        let ghost d = host.events();
        assert(agrees(d, a));
        let r = self.rewrite(change, host);
        let ghost e = host.events();
        host.unlock();
        assert(agrees(host.events(), e));
        r
    }

    /// Saves a theme; every other setting stays.
    pub fn save<H: SettingsHost, S: FileSteps>(
        &self,
        theme: ThemeId,
        host: &mut SettingsPort<H, S>,
    ) -> (r: Result<(), MuxError>)
        ensures
            agrees(final(host).events(), old(host).events()),
            forall|w: Seq<SettingsEvent>|
                agrees(w, final(host).events()) ==> #[trigger] applied_at(
                    w,
                    old(host).events().len() as int,
                    self@,
                    ChangeModel::Theme(theme),
                ) == Some((error::outcome(r), final(host).events().len() as int)),
    {
        self.apply(Change::Theme(theme), host)
    }

    /// Saves launch profiles; every other setting stays.
    pub fn save_profiles<H: SettingsHost, S: FileSteps>(
        &self,
        profiles: Vec<LaunchProfile>,
        host: &mut SettingsPort<H, S>,
    ) -> (r: Result<(), MuxError>)
        ensures
            agrees(final(host).events(), old(host).events()),
            forall|w: Seq<SettingsEvent>|
                agrees(w, final(host).events()) ==> #[trigger] applied_at(
                    w,
                    old(host).events().len() as int,
                    self@,
                    ChangeModel::Profiles(config::profile_list(profiles@)),
                ) == Some((error::outcome(r), final(host).events().len() as int)),
    {
        self.apply(Change::Profiles(profiles), host)
    }

    /// Saves the naming preference; every other setting stays.
    pub fn save_smart_naming<H: SettingsHost, S: FileSteps>(
        &self,
        enabled: bool,
        host: &mut SettingsPort<H, S>,
    ) -> (r: Result<(), MuxError>)
        ensures
            agrees(final(host).events(), old(host).events()),
            forall|w: Seq<SettingsEvent>|
                agrees(w, final(host).events()) ==> #[trigger] applied_at(
                    w,
                    old(host).events().len() as int,
                    self@,
                    ChangeModel::SmartNaming(enabled),
                ) == Some((error::outcome(r), final(host).events().len() as int)),
    {
        self.apply(Change::SmartNaming(enabled), host)
    }

    /// Saves the process settings; every other setting stays.
    pub fn save_process<H: SettingsHost, S: FileSteps>(
        &self,
        process: ProcessSettings,
        host: &mut SettingsPort<H, S>,
    ) -> (r: Result<(), MuxError>)
        ensures
            agrees(final(host).events(), old(host).events()),
            forall|w: Seq<SettingsEvent>|
                agrees(w, final(host).events()) ==> #[trigger] applied_at(
                    w,
                    old(host).events().len() as int,
                    self@,
                    ChangeModel::Process(process@),
                ) == Some((error::outcome(r), final(host).events().len() as int)),
    {
        self.apply(Change::Process(process), host)
    }
}

} // verus!
