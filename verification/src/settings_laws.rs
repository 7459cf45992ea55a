//! What a later load finds of a saved change.
//!
//! The text of the settings and the file system stand behind the boundary. The laws here
//! hold of every format that reads back what it writes, and of every file system that
//! answers the same question alike, as long as nobody else writes the file.

use vstd::prelude::*;
use crate::config;
use crate::config::{ConfigModel, FileProbe, ProcessModel, ProfileModel, ThemePreference};
use crate::error::ErrorModel;
use crate::scan;
use crate::settings;
use crate::settings::{ChangeModel, ReadModel, SettingsEvent};
use crate::text;

verus! {

/// A format for settings, and what a file system says of paths.
pub struct World {
    pub parse: spec_fn(Seq<char>) -> Result<ConfigModel, Seq<char>>,
    pub render: spec_fn(ConfigModel) -> Result<Seq<char>, Seq<char>>,
    pub probe: spec_fn(Seq<u8>) -> FileProbe,
}

/// The format reads back what it writes.
pub open spec fn reads_back(world: World) -> bool {
    forall|config: ConfigModel|
        (#[trigger] (world.render)(config)) matches Ok(written) ==> (world.parse)(written) == Ok::<
            ConfigModel,
            Seq<char>,
        >(config)
}

/// An answer is that of the format and the file system, while the settings file holds
/// something.
pub open spec fn answered(event: SettingsEvent, p: Seq<u8>, world: World, file: ReadModel) -> bool {
    match event {
        SettingsEvent::Read { path, reply } => path == p ==> reply == file,
        SettingsEvent::Parse { contents, reply } => reply == (world.parse)(contents),
        SettingsEvent::Render { config, reply } => reply == (world.render)(config),
        SettingsEvent::Probe { location, reply } => reply == (world.probe)(location),
        _ => true,
    }
}

/// So is every answer from one place of a record to another.
pub open spec fn all_answered(
    w: Seq<SettingsEvent>,
    from: int,
    to: int,
    p: Seq<u8>,
    world: World,
    file: ReadModel,
) -> bool {
    forall|i: int| from <= i < to ==> answered(#[trigger] w[i], p, world, file)
}

/// The settings with a change.
pub open spec fn with_change(settings: ConfigModel, change: ChangeModel) -> ConfigModel {
    match change {
        ChangeModel::Theme(theme) => ConfigModel { theme, ..settings },
        ChangeModel::Profiles(profiles) => ConfigModel { profiles, ..settings },
        ChangeModel::SmartNaming(enabled) => ConfigModel { smart_naming: enabled, ..settings },
        ChangeModel::Process(process) => ConfigModel { process: Some(process), ..settings },
    }
}

// ---------------------------------------------------------------------------
// Validity
// ---------------------------------------------------------------------------

spec fn profile_probes(world: World, profiles: Seq<ProfileModel>) -> Seq<FileProbe> {
    Seq::new(
        profiles.len(),
        |i: int|
            match profiles[i].executable {
                Some(executable) => (world.probe)(executable),
                None => FileProbe::Found { is_file: false, mode: 0 },
            },
    )
}

spec fn path_probes(world: World, paths: Seq<Seq<u8>>) -> Seq<FileProbe> {
    Seq::new(paths.len(), |i: int| (world.probe)(paths[i]))
}

spec fn profiles_valid(world: World, profiles: Seq<ProfileModel>) -> bool {
    config::profiles_problem(profiles, profile_probes(world, profiles)) is None
}

spec fn process_valid(world: World, process: ProcessModel) -> bool {
    config::process_problem(
        process,
        (world.probe)(process.launch_executable),
        path_probes(world, process.match_executables),
    ) is None
}

spec fn settings_valid(world: World, c: ConfigModel) -> bool {
    profiles_valid(world, c.profiles) && (c.process matches Some(process) ==> process_valid(
        world,
        process,
    ))
}

proof fn profile_probes_are(
    w: Seq<SettingsEvent>,
    k: int,
    end: int,
    p: Seq<u8>,
    world: World,
    file: ReadModel,
    profiles: Seq<ProfileModel>,
    i: int,
    found: Seq<FileProbe>,
)
    requires
        0 <= i <= profiles.len(),
        found == profile_probes(world, profiles).take(i),
        settings::profile_probes_from(w, k, profiles, i, found) matches Some((_, n)) && n <= end,
        all_answered(w, k, end, p, world, file),
    ensures
        (settings::profile_probes_from(w, k, profiles, i, found)->0).0 == profile_probes(
            world,
            profiles,
        ),
        k <= (settings::profile_probes_from(w, k, profiles, i, found)->0).1,
    decreases profiles.len() - i,
{
    let all = profile_probes(world, profiles);
    if i < profiles.len() {
        assert(all.take(i + 1) =~= found.push(all[i]));
        match profiles[i].executable {
            None => {
                profile_probes_are(w, k, end, p, world, file, profiles, i + 1, found.push(all[i]));
            },
            Some(executable) => {
                let (reply, n) = settings::probe_at(w, k, executable)->0;
                probing_goes_on(w, n, profiles, i + 1, found.push(reply));
                assert(answered(w[k], p, world, file));
                profile_probes_are(w, n, end, p, world, file, profiles, i + 1, found.push(all[i]));
            },
        }
    } else {
        assert(all.take(i) =~= all);
    }
}

proof fn probing_goes_on(
    w: Seq<SettingsEvent>,
    k: int,
    profiles: Seq<ProfileModel>,
    i: int,
    found: Seq<FileProbe>,
)
    ensures
        settings::profile_probes_from(w, k, profiles, i, found) matches Some((_, n)) ==> k <= n,
    decreases profiles.len() - i,
{
    if 0 <= i < profiles.len() {
        match profiles[i].executable {
            None => {
                probing_goes_on(
                    w,
                    k,
                    profiles,
                    i + 1,
                    found.push(FileProbe::Found { is_file: false, mode: 0 }),
                );
            },
            Some(executable) => {
                if let Some((reply, n)) = settings::probe_at(w, k, executable) {
                    probing_goes_on(w, n, profiles, i + 1, found.push(reply));
                }
            },
        }
    }
}

proof fn path_probes_are(
    w: Seq<SettingsEvent>,
    k: int,
    end: int,
    p: Seq<u8>,
    world: World,
    file: ReadModel,
    paths: Seq<Seq<u8>>,
    i: int,
    found: Seq<FileProbe>,
)
    requires
        0 <= i <= paths.len(),
        found == path_probes(world, paths).take(i),
        settings::path_probes_from(w, k, paths, i, found) matches Some((_, n)) && n <= end,
        all_answered(w, k, end, p, world, file),
    ensures
        (settings::path_probes_from(w, k, paths, i, found)->0).0 == path_probes(world, paths),
        k <= (settings::path_probes_from(w, k, paths, i, found)->0).1,
    decreases paths.len() - i,
{
    let all = path_probes(world, paths);
    if i < paths.len() {
        assert(all.take(i + 1) =~= found.push(all[i]));
        let (reply, n) = settings::probe_at(w, k, paths[i])->0;
        paths_go_on(w, n, paths, i + 1, found.push(reply));
        assert(answered(w[k], p, world, file));
        path_probes_are(w, n, end, p, world, file, paths, i + 1, found.push(all[i]));
    } else {
        assert(all.take(i) =~= all);
    }
}

proof fn paths_go_on(
    w: Seq<SettingsEvent>,
    k: int,
    paths: Seq<Seq<u8>>,
    i: int,
    found: Seq<FileProbe>,
)
    ensures
        settings::path_probes_from(w, k, paths, i, found) matches Some((_, n)) ==> k <= n,
    decreases paths.len() - i,
{
    if 0 <= i < paths.len() {
        if let Some((reply, n)) = settings::probe_at(w, k, paths[i]) {
            paths_go_on(w, n, paths, i + 1, found.push(reply));
        }
    }
}

proof fn profiles_are_checked(
    w: Seq<SettingsEvent>,
    k: int,
    end: int,
    p: Seq<u8>,
    world: World,
    file: ReadModel,
    profiles: Seq<ProfileModel>,
)
    requires
        settings::profiles_checked_at(w, k, profiles) matches Some((_, n)) && n <= end,
        all_answered(w, k, end, p, world, file),
    ensures
        (settings::profiles_checked_at(w, k, profiles)->0).0 is Ok <==> profiles_valid(
            world,
            profiles,
        ),
        k <= (settings::profiles_checked_at(w, k, profiles)->0).1,
{
    assert(profile_probes(world, profiles).take(0) =~= Seq::empty());
    profile_probes_are(w, k, end, p, world, file, profiles, 0, Seq::empty());
}

proof fn process_is_checked(
    w: Seq<SettingsEvent>,
    k: int,
    end: int,
    p: Seq<u8>,
    world: World,
    file: ReadModel,
    process: ProcessModel,
)
    requires
        settings::process_checked_at(w, k, process) matches Some((_, n)) && n <= end,
        all_answered(w, k, end, p, world, file),
    ensures
        (settings::process_checked_at(w, k, process)->0).0 is Ok <==> process_valid(world, process),
        k <= (settings::process_checked_at(w, k, process)->0).1,
{
    let paths = process.match_executables;
    assert(path_probes(world, paths).take(0) =~= Seq::empty());
    let (_, n) = settings::path_probes_from(w, k, paths, 0, Seq::empty())->0;
    path_probes_are(w, k, end, p, world, file, paths, 0, Seq::empty());
    assert(answered(w[n], p, world, file));
}

proof fn settings_are_checked(
    w: Seq<SettingsEvent>,
    k: int,
    end: int,
    p: Seq<u8>,
    world: World,
    file: ReadModel,
    c: ConfigModel,
)
    requires
        settings::checked_at(w, k, c) matches Some((_, n)) && n <= end,
        all_answered(w, k, end, p, world, file),
    ensures
        (settings::checked_at(w, k, c)->0).0 is Ok <==> settings_valid(world, c),
        k <= (settings::checked_at(w, k, c)->0).1,
{
    let (checked, n) = settings::profiles_checked_at(w, k, c.profiles)->0;
    if let Some(process) = c.process {
        if checked is Ok {
            paths_go_on(w, n, process.match_executables, 0, Seq::empty());
        }
    }
    profiles_are_checked(w, k, end, p, world, file, c.profiles);
    if let Some(process) = c.process {
        if checked is Ok {
            process_is_checked(w, n, end, p, world, file, process);
        }
    }
}

/// The settings of a first run are valid, whatever the file system says.
proof fn a_first_run_is_valid(world: World)
    ensures
        settings_valid(world, config::first_run()),
{
    let profiles = config::first_run().profiles;
    let probes = profile_probes(world, profiles);
    let standard = config::standard_profile();
    let yolo = config::yolo_profile();
    reveal_strlit("standard");
    reveal_strlit("yolo");
    assert(profiles.len() == 2 && profiles[0] == standard && profiles[1] == yolo);
    assert(!text::is_space(standard.name[0]));
    assert(!text::is_space(yolo.name[0]));
    assert(!scan::has_control(standard.name));
    assert(!scan::has_control(yolo.name));
    assert(config::profile_problem(profiles, probes, 0) is None);
    assert(config::profile_problem(profiles, probes, 1) is None);
    config::no_problem_iff(|i: int| config::profile_problem(profiles, probes, i), 2);
}

// ---------------------------------------------------------------------------
// Loading and changing
// ---------------------------------------------------------------------------

/// The settings in a file, not checked.
spec fn settings_in(world: World, file: ReadModel) -> Option<Option<ConfigModel>> {
    match file {
        ReadModel::Missing => Some(None),
        ReadModel::Failed(_) => None,
        ReadModel::Text(contents) => match (world.parse)(contents) {
            Ok(config) => Some(Some(config)),
            Err(_) => None,
        },
    }
}

spec fn ok_of(r: Result<Option<ConfigModel>, ErrorModel>) -> Option<Option<ConfigModel>> {
    match r {
        Ok(saved) => Some(saved),
        Err(_) => None,
    }
}

proof fn parsing_finds_the_file(
    w: Seq<SettingsEvent>,
    k: int,
    end: int,
    p: Seq<u8>,
    world: World,
    file: ReadModel,
)
    requires
        settings::parsed_at(w, k, p) matches Some((_, n)) && n <= end,
        all_answered(w, k, end, p, world, file),
    ensures
        ok_of((settings::parsed_at(w, k, p)->0).0) == settings_in(world, file),
        k <= (settings::parsed_at(w, k, p)->0).1,
{
    assert(answered(w[k], p, world, file));
    if file is Text {
        assert(answered(w[k + 1], p, world, file));
    }
}

proof fn checking_goes_on(w: Seq<SettingsEvent>, k: int, c: ConfigModel)
    ensures
        settings::checked_at(w, k, c) matches Some((_, n)) ==> k <= n,
{
    probing_goes_on(w, k, c.profiles, 0, Seq::empty());
    if let Some((_, n)) = settings::profiles_checked_at(w, k, c.profiles) {
        if let Some(process) = c.process {
            paths_go_on(w, n, process.match_executables, 0, Seq::empty());
        }
    }
}

proof fn loading_finds_the_file(
    w: Seq<SettingsEvent>,
    k: int,
    end: int,
    p: Seq<u8>,
    world: World,
    file: ReadModel,
)
    requires
        settings::loaded_at(w, k, p) matches Some((_, n)) && n <= end,
        all_answered(w, k, end, p, world, file),
    ensures
        ({
            let (loaded, n) = settings::loaded_at(w, k, p)->0;
            &&& k <= n
            &&& loaded matches Ok(saved) ==> settings_in(world, file) == Some(saved)
                && settings_valid(world, config::saved_or_default(saved))
            &&& (settings_in(world, file) matches Some(Some(c)) && settings_valid(world, c))
                ==> loaded == Ok::<Option<ConfigModel>, ErrorModel>(settings_in(world, file)->0)
        }),
{
    let (parsed, n) = settings::parsed_at(w, k, p)->0;
    if let Ok(Some(c)) = parsed {
        checking_goes_on(w, n, c);
    }
    parsing_finds_the_file(w, k, end, p, world, file);
    if let Ok(Some(c)) = parsed {
        settings_are_checked(w, n, end, p, world, file, c);
    }
    a_first_run_is_valid(world);
}

proof fn changing_keeps_the_rest(
    w: Seq<SettingsEvent>,
    k: int,
    end: int,
    p: Seq<u8>,
    world: World,
    file: ReadModel,
    change: ChangeModel,
)
    requires
        settings::changed_at(w, k, p, change) matches Some((Ok(_), n)) && n <= end,
        all_answered(w, k, end, p, world, file),
    ensures
        settings_in(world, file) is Some,
        (settings::changed_at(w, k, p, change)->0).0 == Ok::<ConfigModel, ErrorModel>(
            with_change(config::saved_or_default(settings_in(world, file)->0), change),
        ),
{
    if change is Profiles {
        parsing_finds_the_file(w, k, end, p, world, file);
    } else {
        let (_, n) = settings::loaded_at(w, k, p)->0;
        if change is SmartNaming {
            assert(n <= (settings::parsed_at(w, n, p)->0).1);
            loading_finds_the_file(w, k, end, p, world, file);
            parsing_finds_the_file(w, n, end, p, world, file);
        } else {
            loading_finds_the_file(w, k, end, p, world, file);
        }
    }
}

// ---------------------------------------------------------------------------
// Laws
// ---------------------------------------------------------------------------

/// The text that a change that succeeded has saved.
pub open spec fn saved_text(w: Seq<SettingsEvent>, end: int) -> Seq<char> {
    w[end - 2]->Saved_contents->Ok_0
}

/// A preference was loaded from a file without a warning, a change was saved, and the
/// preference was loaded again; nobody else wrote the file, and the format and the file
/// system did not change.
pub open spec fn saved_between(
    p: Seq<u8>,
    world: World,
    file: ReadModel,
    first: (Seq<SettingsEvent>, int, ThemePreference),
    change: (Seq<SettingsEvent>, int, ChangeModel),
    last: (Seq<SettingsEvent>, int, ThemePreference),
) -> bool {
    &&& settings::loaded_at(first.0, first.1, p) matches Some((loaded, n))
        && settings::is_preference(first.2, loaded, p) && all_answered(
        first.0,
        first.1,
        n,
        p,
        world,
        file,
    )
    &&& first.2.warning is None
    &&& settings::applied_at(change.0, change.1, p, change.2) matches Some((Ok(_), end))
        && all_answered(change.0, change.1, end, p, world, file)
    &&& settings::loaded_at(last.0, last.1, p) matches Some((loaded, m))
        && settings::is_preference(last.2, loaded, p) && all_answered(
        last.0,
        last.1,
        m,
        p,
        world,
        ReadModel::Text(
            saved_text(
                change.0,
                (settings::applied_at(change.0, change.1, p, change.2)->0).1,
            ),
        ),
    )
}

/// A change that was saved is what a later load finds, and with it everything else as it
/// was loaded before; the settings count as saved, and there is no warning.
pub proof fn a_later_load_finds_the_change(
    p: Seq<u8>,
    world: World,
    file: ReadModel,
    first: (Seq<SettingsEvent>, int, ThemePreference),
    change: (Seq<SettingsEvent>, int, ChangeModel),
    last: (Seq<SettingsEvent>, int, ThemePreference),
)
    requires
        reads_back(world),
        saved_between(p, world, file, first, change, last),
    ensures
        last.2.settings() == with_change(first.2.settings(), change.2),
        last.2.was_saved,
        last.2.warning is None,
{
    let (w0, k0, before) = first;
    let (w, k, c) = change;
    let (w1, k1, after) = last;
    let (loaded, n0) = settings::loaded_at(w0, k0, p)->0;
    loading_finds_the_file(w0, k0, n0, p, world, file);
    assert(loaded is Ok);
    let settings0 = before.settings();
    assert(settings_valid(world, settings0));

    settings::a_save_is_made_under_the_lock(w, k, p, c);
    let (_, end) = settings::applied_at(w, k, p, c)->0;
    let (_, n) = settings::change_checked_at(w, k, c)->0;
    match c {
        ChangeModel::Profiles(profiles) => {
            profiles_are_checked(w, k, end, p, world, file, profiles);
        },
        ChangeModel::Process(process) => {
            process_is_checked(w, k, end, p, world, file, process);
        },
        _ => {},
    }
    let config = settings::saved_config(w, k, p, c);
    changing_keeps_the_rest(w, n + 2, end, p, world, file, c);
    assert(config == with_change(settings0, c));
    assert(settings_valid(world, config));
    assert(answered(w[end - 4], p, world, file));
    let written = saved_text(w, end);
    assert((world.render)(config) == Ok::<Seq<char>, Seq<char>>(written));
    let (_, m) = settings::loaded_at(w1, k1, p)->0;
    loading_finds_the_file(w1, k1, m, p, world, ReadModel::Text(written));
}

/// Saved profiles are loaded again, beside the theme, the naming preference and the
/// process settings of before.
pub proof fn saved_profiles_are_loaded(
    p: Seq<u8>,
    world: World,
    file: ReadModel,
    first: (Seq<SettingsEvent>, int, ThemePreference),
    profiles: Seq<ProfileModel>,
    w: Seq<SettingsEvent>,
    k: int,
    last: (Seq<SettingsEvent>, int, ThemePreference),
)
    requires
        reads_back(world),
        saved_between(p, world, file, first, (w, k, ChangeModel::Profiles(profiles)), last),
    ensures
        last.2.settings().profiles == profiles,
        last.2.settings().theme == first.2.settings().theme,
        last.2.settings().smart_naming == first.2.settings().smart_naming,
        last.2.settings().process == first.2.settings().process,
        last.2.was_saved,
        last.2.warning is None,
{
    a_later_load_finds_the_change(
        p,
        world,
        file,
        first,
        (w, k, ChangeModel::Profiles(profiles)),
        last,
    );
}

/// A saved naming preference is loaded again, beside the theme, the profiles and the
/// process settings of before.
pub proof fn a_saved_naming_preference_is_loaded(
    p: Seq<u8>,
    world: World,
    file: ReadModel,
    first: (Seq<SettingsEvent>, int, ThemePreference),
    enabled: bool,
    w: Seq<SettingsEvent>,
    k: int,
    last: (Seq<SettingsEvent>, int, ThemePreference),
)
    requires
        reads_back(world),
        saved_between(p, world, file, first, (w, k, ChangeModel::SmartNaming(enabled)), last),
    ensures
        last.2.settings().smart_naming == enabled,
        last.2.settings().theme == first.2.settings().theme,
        last.2.settings().profiles == first.2.settings().profiles,
        last.2.settings().process == first.2.settings().process,
        last.2.was_saved,
        last.2.warning is None,
{
    a_later_load_finds_the_change(
        p,
        world,
        file,
        first,
        (w, k, ChangeModel::SmartNaming(enabled)),
        last,
    );
}

/// Saved process settings are loaded again, beside the theme, the profiles and the
/// naming preference of before.
pub proof fn saved_process_settings_are_loaded(
    p: Seq<u8>,
    world: World,
    file: ReadModel,
    first: (Seq<SettingsEvent>, int, ThemePreference),
    process: ProcessModel,
    w: Seq<SettingsEvent>,
    k: int,
    last: (Seq<SettingsEvent>, int, ThemePreference),
)
    requires
        reads_back(world),
        saved_between(p, world, file, first, (w, k, ChangeModel::Process(process)), last),
    ensures
        last.2.settings().process == Some(process),
        last.2.settings().theme == first.2.settings().theme,
        last.2.settings().profiles == first.2.settings().profiles,
        last.2.settings().smart_naming == first.2.settings().smart_naming,
        last.2.was_saved,
        last.2.warning is None,
{
    a_later_load_finds_the_change(
        p,
        world,
        file,
        first,
        (w, k, ChangeModel::Process(process)),
        last,
    );
}

/// Profiles or process settings that are not valid are refused: a change of them fails
/// exactly with what the check of them says, and only questions were asked by then.
pub proof fn what_is_not_valid_is_not_saved(
    w: Seq<SettingsEvent>,
    k: int,
    p: Seq<u8>,
    change: ChangeModel,
    e: ErrorModel,
    n: int,
)
    requires
        settings::change_checked_at(w, k, change) == Some((Err::<(), ErrorModel>(e), n)),
    ensures
        settings::applied_at(w, k, p, change) == Some((Err::<(), ErrorModel>(e), n)),
        forall|i: int| k <= i < n ==> !((#[trigger] w[i]) is Saved) && !(w[i] is Directories),
{
    settings::an_invalid_change_touches_nothing(w, k, p, change);
    assert(settings::asks_only(w, k, n));
}

} // verus!
