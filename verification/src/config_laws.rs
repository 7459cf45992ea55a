//! What a configuration may hold, and where it lies.

use vstd::prelude::*;
use crate::config;
use crate::config::{FileProbe, PermissionPreset, ProcessModel, ProfileModel};
use crate::domain::ThemeId;
use crate::path;
use crate::pattern;
use crate::scan;
use crate::text;

verus! {

/// An executable is accepted exactly where it is an absolute path to a file that somebody
/// may execute.
pub proof fn an_accepted_executable_can_run(
    location: Seq<u8>,
    is_file: bool,
    mode: u32,
    field: Seq<char>,
)
    ensures
        config::executable_problem(location, FileProbe::Found { is_file, mode }, field) is None
            <==> location.len() > 0 && location[0] == 47 && is_file && mode & 0o111 != 0,
{
    assert(0x49u32 == 0o111u32);
}

/// An executable that cannot be looked at is not accepted.
pub proof fn an_unreadable_executable_is_refused(
    location: Seq<u8>,
    source: String,
    field: Seq<char>,
)
    ensures
        config::executable_problem(location, FileProbe::Unreadable(source), field) is Some,
{
}

/// Profiles that are accepted have visible names on one line, and keys that are letters or
/// digits, that the picker does not use, and that differ even where the case does not count.
pub proof fn profiles_are_accepted_one_by_one(
    profiles: Seq<ProfileModel>,
    probes: Seq<FileProbe>,
)
    requires
        probes.len() == profiles.len(),
    ensures
        config::profiles_problem(profiles, probes) is None <==> profiles.len() > 0 && forall|
            i: int,
        |
            0 <= i < profiles.len() ==> profile_is_fine(profiles, probes, i),
{
    let problems = |i: int| config::profile_problem(profiles, probes, i);
    config::no_problem_iff(problems, profiles.len());
    assert forall|i: int| 0 <= i < profiles.len() implies ((#[trigger] problems(i)) is None
        <==> profile_is_fine(profiles, probes, i)) by {
        if config::key_taken(profiles, i) {
            let j = choose|j: int|
                0 <= j < i && config::ascii_lower((#[trigger] profiles[j]).key)
                    == config::ascii_lower(profiles[i].key);
            assert(config::ascii_lower(profiles[j].key) == config::ascii_lower(profiles[i].key));
        }
    }
    if profiles.len() > 0 {
        if config::profiles_problem(profiles, probes) is None {
            assert forall|i: int| 0 <= i < profiles.len() implies profile_is_fine(
                profiles,
                probes,
                i,
            ) by {
                assert(problems(i) is None);
            }
        }
        if forall|i: int| 0 <= i < profiles.len() ==> profile_is_fine(profiles, probes, i) {
            assert forall|i: int| 0 <= i < profiles.len() implies (#[trigger] problems(i)) is None by {
                assert(profile_is_fine(profiles, probes, i));
            }
        }
    }
}

/// One profile among others is fine.
pub open spec fn profile_is_fine(
    profiles: Seq<ProfileModel>,
    probes: Seq<FileProbe>,
    i: int,
) -> bool {
    let p = profiles[i];
    let key = config::ascii_lower(p.key);
    &&& !scan::is_blank(p.name)
    &&& !scan::has_control(p.name)
    &&& ('a' <= key <= 'z' || '0' <= key <= '9')
    &&& key != 'a' && key != 'e' && key != 'j' && key != 'k' && key != 'n' && key != 'q'
    &&& forall|j: int| 0 <= j < i ==> config::ascii_lower((#[trigger] profiles[j]).key) != key
    &&& p.executable matches Some(location) ==> config::executable_problem(
        location,
        probes[i],
        "profile executable"@,
    ) is None
}

/// Settings that are accepted have an executable to launch, something to look for, and a
/// pane command or an expression for one, each of them usable.
pub proof fn accepted_settings_can_be_looked_for(
    settings: ProcessModel,
    launch: FileProbe,
    matches: Seq<FileProbe>,
)
    requires
        config::process_problem(settings, launch, matches) is None,
    ensures
        path::is_absolute(settings.launch_executable),
        settings.match_executables.len() > 0,
        forall|i: int|
            0 <= i < settings.match_executables.len() ==> path::is_absolute(
                #[trigger] settings.match_executables[i],
            ),
        settings.pane_commands.len() > 0 || settings.pane_command_regexes.len() > 0,
        forall|i: int, j: int|
            0 <= i < settings.pane_commands.len() && 0 <= j < settings.pane_commands[i].len()
                ==> config::is_command_char(#[trigger] settings.pane_commands[i][j]),
        forall|i: int|
            0 <= i < settings.match_command_regexes.len() ==> !pattern::regex_matches(
                #[trigger] settings.match_command_regexes[i],
                ""@,
            ),
        forall|i: int|
            0 <= i < settings.pane_command_regexes.len() ==> !pattern::regex_matches(
                #[trigger] settings.pane_command_regexes[i],
                ""@,
            ),
{
    let executables = |i: int|
        config::executable_problem(
            settings.match_executables[i],
            matches[i],
            "process match executable"@,
        );
    let commands = |i: int| config::pane_command_problem(settings.pane_commands[i]);
    let lines = |i: int|
        config::regex_problem(
            settings.match_command_regexes[i],
            "process match command regex"@,
        );
    let panes = |i: int|
        config::regex_problem(settings.pane_command_regexes[i], "process pane command regex"@);
    config::no_problem_iff(executables, settings.match_executables.len());
    config::no_problem_iff(commands, settings.pane_commands.len());
    config::no_problem_iff(lines, settings.match_command_regexes.len());
    config::no_problem_iff(panes, settings.pane_command_regexes.len());
    assert forall|i: int| 0 <= i < settings.match_executables.len() implies path::is_absolute(
        #[trigger] settings.match_executables[i],
    ) by {
        assert(executables(i) is None);
    }
    assert forall|i: int, j: int|
        0 <= i < settings.pane_commands.len() && 0 <= j < settings.pane_commands[i].len() implies
        config::is_command_char(#[trigger] settings.pane_commands[i][j]) by {
        assert(commands(i) is None);
    }
    assert forall|i: int| 0 <= i < settings.match_command_regexes.len() implies
        !pattern::regex_matches(#[trigger] settings.match_command_regexes[i], ""@) by {
        assert(lines(i) is None);
    }
    assert forall|i: int| 0 <= i < settings.pane_command_regexes.len() implies
        !pattern::regex_matches(#[trigger] settings.pane_command_regexes[i], ""@) by {
        assert(panes(i) is None);
    }
}

/// A command name that is accepted holds nothing that a shell or a format treats specially.
pub proof fn a_safe_command_is_plain(command: Seq<char>, c: char)
    requires
        config::is_safe_command(command),
        command.contains(c),
    ensures
        c != ' ' && c != '/' && c != '\'' && c != '"' && c != '$' && c != ';' && c != '#' && c
            != '{' && c != ',' && c != '\n' && c != '*' && c != '|',
{
    let i = command.index_of(c);
    assert(config::is_command_char(command[i]));
}

/// Without a configuration, a session can be launched with and without permissions, by two
/// keys; generated names are off.
pub proof fn the_first_run_has_two_profiles()
    ensures
        ({
            let first = config::first_run();
            &&& first.profiles.len() == 2
            &&& first.profiles[0].permissions == PermissionPreset::Standard
            &&& first.profiles[1].permissions == PermissionPreset::Yolo
            &&& first.profiles[0].key == 's' && first.profiles[1].key == 'y'
            &&& !first.smart_naming
            &&& first.process is None
            &&& first.theme == ThemeId::AdaptiveCyan
        }),
{
}

/// A configuration directory that is set counts before the home directory; an empty value
/// counts as unset.
pub proof fn the_configuration_directory_comes_first(directory: Seq<u8>, home: Seq<u8>)
    requires
        directory.len() > 0,
        directory.last() != 47,
        home.len() > 0,
        home.last() != 47,
    ensures
        config::config_location(Some(directory), Some(home)) is Some,
        config::config_location(Some(directory), None) == config::config_location(
            Some(directory),
            Some(home),
        ),
        directory.is_prefix_of(config::config_location(Some(directory), Some(home))->0),
        config::config_location(Some(Seq::empty()), Some(home)) == config::config_location(
            None,
            Some(home),
        ),
        config::config_location(None, Some(home)) is Some,
        home.is_prefix_of(config::config_location(None, Some(home))->0),
        config::config_location(None, None) is None,
        config::config_location(Some(Seq::empty()), Some(Seq::empty())) is None,
{
    plain_names_are_relative();
    let own = text::utf8("codex-mux"@);
    let file = text::utf8("config.toml"@);
    let hidden = text::utf8(".config"@);
    let a = path::joined(directory, own);
    assert(directory =~= a.subrange(0, directory.len() as int));
    let whole = path::joined(a, file);
    assert(a =~= whole.subrange(0, a.len() as int));
    assert(directory =~= whole.subrange(0, directory.len() as int));
    let b = path::joined(home, hidden);
    assert(home =~= b.subrange(0, home.len() as int));
    let c = path::joined(b, own);
    assert(b =~= c.subrange(0, b.len() as int));
    let other = path::joined(c, file);
    assert(c =~= other.subrange(0, c.len() as int));
    assert(home =~= other.subrange(0, home.len() as int));
}

proof fn plain_names_are_relative()
    ensures
        !path::is_absolute(text::utf8("codex-mux"@)),
        !path::is_absolute(text::utf8("config.toml"@)),
        !path::is_absolute(text::utf8(".config"@)),
{
    reveal_strlit("codex-mux");
    reveal_strlit("config.toml");
    reveal_strlit(".config");
    begins_with_its_letter("codex-mux"@);
    begins_with_its_letter("config.toml"@);
    begins_with_its_letter(".config"@);
}

proof fn begins_with_its_letter(s: Seq<char>)
    requires
        s.len() > 0,
        s[0] == 'c' || s[0] == '.',
    ensures
        text::utf8(s).len() > 0,
        text::utf8(s)[0] != 47,
{
    let c = s[0] as u32;
    assert(vstd::utf8::encode_scalar(c) =~= seq![vstd::utf8::leading_byte_width_1(c)]);
    assert(vstd::utf8::leading_byte_width_1(c) == c as u8) by {
        assert(c < 128 ==> (c & 0x7F) as u8 == c as u8) by (bit_vector);
    }
    assert(text::utf8(s)[0] == c as u8);
}

} // verus!
