//! Settings, quoting, launching, reading and drawing.

use codex_mux::config::{
    base_config, default_config_path, default_profiles, no_color_requested, preference_of, saved_theme,
    validate_executable_path, validate_process_settings, validate_profiles, validate_regexes,
    with_profiles, with_smart_naming, with_theme, FileProbe, LaunchProfile, MatchScope,
    PermissionPreset, ProcessSettings, XdgThemeStore,
};
use codex_mux::domain::{
    ClientId, CodexExecutable, CommandOutput, InvocationContext, PaneId, SessionId, ThemeId,
    TmuxCommandRunner, WindowId,
};
use codex_mux::error::MuxError;
use codex_mux::launch::{new_window_arguments_with_permissions, LaunchKind};
use codex_mux::number::{
    decimal_text, hex_padded_text, hex_text, parse_hex, parse_i64, parse_u16, parse_u32, parse_u64,
};
use codex_mux::order::{sorted_texts, text_is_before};
use codex_mux::path::UnixPath;
use codex_mux::pattern::any_match;
use codex_mux::scan::{
    split_ascii_whitespace, split_text, split_text_by, split_whitespace, text_lines, trim,
};
use codex_mux::text::{bytes_of, join_texts, read_utf8};
use codex_mux::theme::{theme, Colour};
use codex_mux::tmux::actions::{parse_pane_id, parse_zoomed, TmuxActions};
use codex_mux::tmux::quote::{
    shell_literal, tmux_format_literal, tmux_quote, tmux_title_literal,
};
use codex_mux::tmux::runner::{ProgramHost, SystemTmuxRunner};
use codex_mux::ui::terminal::{
    settle, with_restoration, with_terminal, CrosstermControl, Switch, Switchboard,
    TerminalControl,
};
use codex_mux::ui::terminal_log::LoggedTerminal;

const RUNNABLE: FileProbe = FileProbe::Found { is_file: true, mode: 0o755 };

#[test]
fn profiles_are_validated() {
    let profiles = default_profiles();
    let probes = vec![RUNNABLE, RUNNABLE];
    assert_eq!(profiles.len(), 2);
    assert!(validate_profiles(&profiles, &probes).is_ok());
    let mut twice = default_profiles();
    twice[1].key = twice[0].key;
    assert!(validate_profiles(&twice, &probes).is_err());
    let mut relative = default_profiles();
    relative[0].executable = Some(UnixPath::new("relative"));
    assert!(validate_profiles(&relative, &probes).is_err());
    assert!(validate_profiles(&Vec::new(), &Vec::new()).is_err());
    assert!(matches!(LaunchProfile::yolo().permissions, PermissionPreset::Yolo));
}

#[test]
fn executables_must_run() {
    let path = UnixPath::new("/opt/codex");
    assert!(validate_executable_path(&path, &RUNNABLE, "codex").is_ok());
    assert!(validate_executable_path(
        &path,
        &FileProbe::Found { is_file: true, mode: 0o644 },
        "codex"
    )
    .is_err());
    assert!(validate_executable_path(
        &path,
        &FileProbe::Found { is_file: false, mode: 0o755 },
        "codex"
    )
    .is_err());
    assert!(
        validate_executable_path(&path, &FileProbe::Unreadable("no".to_owned()), "codex").is_err()
    );
}

#[test]
fn expressions_are_tried_before_they_are_kept() {
    assert!(validate_regexes(&vec!["^codex-[0-9]+$".to_owned()], "pane command").is_ok());
    assert!(validate_regexes(&vec!["(".to_owned()], "pane command").is_err());
    assert!(any_match(&vec!["^codex-[0-9]+$".to_owned()], "codex-12"));
    assert!(!any_match(&vec!["^codex-[0-9]+$".to_owned()], "codex-x"));
    let settings = |commands: Vec<String>| ProcessSettings {
        launch_executable: UnixPath::new("/opt/codex"),
        match_executables: vec![UnixPath::new("/opt/codex")],
        pane_commands: commands,
        match_scope: MatchScope::Foreground,
        match_command_regexes: Vec::new(),
        pane_command_regexes: Vec::new(),
    };
    assert!(
        validate_process_settings(&settings(vec!["codex".to_owned()]), &RUNNABLE, &vec![RUNNABLE])
            .is_ok()
    );
    assert!(
        validate_process_settings(&settings(Vec::new()), &RUNNABLE, &vec![RUNNABLE]).is_err()
    );
}

#[test]
fn a_change_keeps_the_other_settings() {
    let base = base_config(None);
    assert!(matches!(base.theme, ThemeId::AdaptiveCyan));
    let named = with_smart_naming(Some(with_theme(Some(base), ThemeId::EmberOrange)), true);
    assert!(matches!(named.theme, ThemeId::EmberOrange));
    assert!(named.smart_naming);
    let changed = with_profiles(Some(named), &vec![LaunchProfile::standard()]);
    assert_eq!(changed.profiles.len(), 1);
    assert!(changed.smart_naming);
    let preference = preference_of(Ok(Some(changed)), &UnixPath::new("/config"));
    assert!(matches!(saved_theme(&preference), Some(ThemeId::EmberOrange)));
    assert!(matches!(preference.effective_theme(true), ThemeId::Monochrome));
    let colourless = preference.effective_for_environment(&Some(b"1".to_vec()));
    assert!(matches!(colourless, ThemeId::Monochrome));
    let coloured = preference.effective_for_environment(&None);
    assert!(matches!(coloured, ThemeId::EmberOrange));
    let broken =
        preference_of(Err(MuxError::Unavailable("config")), &UnixPath::new("/config"));
    assert!(broken.warning.is_some());
    assert!(!broken.was_saved);
    assert!(no_color_requested(&Some(b"1".to_vec())));
    assert!(!no_color_requested(&Some(Vec::new())));
    assert!(!no_color_requested(&None));
}

#[test]
fn the_settings_stand_in_the_usual_place() {
    assert_eq!(
        default_config_path(&None, &Some(UnixPath::new("/home/me"))).unwrap(),
        UnixPath::new("/home/me/.config/codex-mux/config.toml")
    );
    assert_eq!(
        default_config_path(&Some(UnixPath::new("/xdg")), &None).unwrap(),
        UnixPath::new("/xdg/codex-mux/config.toml")
    );
    assert!(default_config_path(&None, &None).is_err());
    let store = XdgThemeStore::at(UnixPath::new("/xdg/codex-mux/config.toml"));
    assert_eq!(*store.path(), UnixPath::new("/xdg/codex-mux/config.toml"));
    assert_ne!(store.temporary_file(1, 1), store.temporary_file(1, 2));
}

#[test]
fn scopes_are_read_and_written() {
    for scope in ["foreground", "pane-tree", "pane-tty"] {
        assert_eq!(MatchScope::from_str(scope).unwrap().to_text(), scope);
    }
    assert!(MatchScope::from_str("else").is_err());
}

#[test]
fn words_are_quoted() {
    assert_eq!(shell_literal("it's"), "'it'\\''s'");
    assert_eq!(tmux_quote("plain"), "'plain'");
    assert_ne!(tmux_format_literal("#{x}"), "#{x}");
    assert_ne!(tmux_title_literal("#{x}"), "#{x}");
}

fn context() -> InvocationContext {
    InvocationContext {
        client_id: ClientId::new("/dev/pts/7").unwrap(),
        pane_id: PaneId::new("%4").unwrap(),
        session_id: SessionId::new("$2").unwrap(),
        window_id: WindowId::new("@3").unwrap(),
        current_path: UnixPath::new("/work"),
    }
}

#[test]
fn a_new_window_starts_in_the_directory_of_the_invocation() {
    let codex = CodexExecutable::new(UnixPath::new("/opt/codex")).unwrap();
    let words = |kind: LaunchKind, yolo: bool| {
        new_window_arguments_with_permissions(&codex, &context(), None, kind, yolo)
            .iter()
            .map(|word| String::from_utf8(word.clone()).unwrap())
            .collect::<Vec<String>>()
    };
    let new = words(LaunchKind::New, false);
    assert_eq!(new[0], "new-window");
    assert!(new.contains(&"/work".to_owned()));
    assert!(new.contains(&"/opt/codex".to_owned()));
    assert!(!new.contains(&"resume".to_owned()));
    assert!(words(LaunchKind::ResumeAll, false).contains(&"resume".to_owned()));
    assert_ne!(words(LaunchKind::New, true), new);
}

struct FakeRunner {
    asked: Vec<Vec<String>>,
    stdout: Vec<u8>,
    status: i32,
}

impl TmuxCommandRunner for FakeRunner {
    fn run(&mut self, arguments: &Vec<Vec<u8>>) -> Result<CommandOutput, MuxError> {
        self.asked.push(
            arguments.iter().map(|word| String::from_utf8(word.clone()).unwrap()).collect(),
        );
        Ok(CommandOutput {
            stdout: self.stdout.clone(),
            stderr: b"no server".to_vec(),
            status: Some(self.status),
        })
    }
}

#[test]
fn a_failed_request_is_reported() {
    let codex = CodexExecutable::new(UnixPath::new("/opt/codex")).unwrap();
    let mut actions = TmuxActions::new(
        FakeRunner { asked: Vec::new(), stdout: Vec::new(), status: 1 },
        codex.clone(),
    );
    let error = actions.new_session(&context(), None).unwrap_err().to_text();
    assert!(error.contains("no server"));
    let mut working = TmuxActions::new(
        FakeRunner { asked: Vec::new(), stdout: b"%9\n".to_vec(), status: 0 },
        codex,
    );
    assert_eq!(working.new_session(&context(), None).unwrap().as_str(), "%9");
    assert_eq!(working.runner.inner().asked[0][0], "new-window");
}

#[test]
fn replies_of_tmux_are_read() {
    assert_eq!(parse_pane_id(&b"%12\n".to_vec()).unwrap().as_str(), "%12");
    assert!(parse_pane_id(&b"\n".to_vec()).is_err());
    assert!(parse_zoomed(&b"1\n".to_vec()).unwrap());
    assert!(!parse_zoomed(&b"0\n".to_vec()).unwrap());
    assert!(parse_zoomed(&b"x\n".to_vec()).is_err());
}

struct FakeProgram {
    fail: bool,
}

impl ProgramHost for FakeProgram {
    fn output(
        &mut self,
        program: &UnixPath,
        arguments: &Vec<Vec<u8>>,
    ) -> Result<CommandOutput, String> {
        if self.fail {
            return Err("no such file".to_owned());
        }
        let mut stdout = program.bytes.clone();
        for argument in arguments {
            stdout.push(b' ');
            stdout.extend_from_slice(argument);
        }
        Ok(CommandOutput { stdout, stderr: Vec::new(), status: Some(0) })
    }
}

#[test]
fn tmux_is_started_without_a_shell() {
    let mut runner = SystemTmuxRunner::new(UnixPath::new("tmux"), FakeProgram { fail: false });
    let output = runner.run(&vec![b"list-panes".to_vec(), b"-a".to_vec()]).unwrap();
    assert_eq!(output.stdout, b"tmux list-panes -a".to_vec());
    let mut broken = SystemTmuxRunner::new(UnixPath::new("tmux"), FakeProgram { fail: true });
    assert_eq!(
        broken.run(&Vec::new()).err().unwrap().to_text(),
        "command failed: could not start tmux: no such file"
    );
}

#[test]
fn numbers_are_read_and_written() {
    assert_eq!(decimal_text(0), "0");
    assert_eq!(decimal_text(18446744073709551615), "18446744073709551615");
    assert_eq!(parse_u64("18446744073709551615"), Some(18446744073709551615));
    assert_eq!(parse_u64("18446744073709551616"), None);
    assert_eq!(parse_u32("+7"), Some(7));
    assert_eq!(parse_u32(""), None);
    assert_eq!(parse_u16("65536"), None);
    assert_eq!(parse_i64("-5"), Some(-5));
    assert_eq!(parse_hex("fF"), Some(255));
    assert_eq!(parse_hex("g"), None);
    assert_eq!(hex_padded_text(255, 4), "00ff");
    assert_eq!(hex_text(&[1, 255]), "01ff");
}

#[test]
fn texts_are_split_and_ordered() {
    assert_eq!(trim("  a b\t"), "a b");
    assert_eq!(split_text("a,b,,c", ','), vec!["a", "b", "", "c"]);
    assert_eq!(split_text_by("a::b", "::"), vec!["a", "b"]);
    assert_eq!(split_whitespace(" a  b "), vec!["a", "b"]);
    assert_eq!(split_ascii_whitespace(" a\tb "), vec!["a", "b"]);
    assert_eq!(text_lines("a\nb\n"), vec!["a", "b"]);
    assert!(text_is_before("a", "b"));
    assert!(!text_is_before("b", "b"));
    assert_eq!(
        sorted_texts(&vec!["b".to_owned(), "a".to_owned()]),
        vec!["a".to_owned(), "b".to_owned()]
    );
    assert_eq!(join_texts(&vec!["a".to_owned(), "b".to_owned()], ", "), "a, b");
    assert_eq!(read_utf8(&bytes_of("h\u{e9}")), Some("h\u{e9}".to_owned()));
    assert_eq!(read_utf8(&[0xff]), None);
}

#[test]
fn paths_are_taken_apart() {
    let path = UnixPath::new("/home/me/x.txt");
    assert_eq!(path.parent(), Some(UnixPath::new("/home/me")));
    assert_eq!(path.file_name(), Some(b"x.txt".to_vec()));
    assert!(path.starts_with(&UnixPath::new("/home")));
    assert!(!path.starts_with(&UnixPath::new("/ho")));
    assert_eq!(path.with_extension("log"), UnixPath::new("/home/me/x.log"));
    assert!(UnixPath::new("/a//b/").same_as(&UnixPath::new("/a/b")));
    assert_eq!(UnixPath::new("/a").join(&UnixPath::new("/b")), UnixPath::new("/b"));
    assert_eq!(UnixPath::from_bytes(&[0xff]).display(), "\u{fffd}");
}

#[test]
fn themes_have_their_colours() {
    let ember = theme(ThemeId::EmberOrange);
    assert_eq!(ember.accent.foreground, Some(Colour::Rgb(255, 135, 48)));
    assert!(ember.accent.bold);
    assert_eq!(ember.selected.background, Some(Colour::Rgb(255, 135, 48)));
    let blue = theme(ThemeId::BlueCommandPalette);
    assert_eq!(blue.selected.foreground, Some(Colour::White));
    assert_eq!(blue.selected.background, Some(Colour::Blue));
    assert_eq!(blue.warning.foreground, Some(Colour::LightRed));
    let plain = theme(ThemeId::Monochrome);
    assert!(plain.selected.reversed);
    assert!(plain.muted.dim);
    assert_eq!(plain.selected.foreground, None);
}

struct FakeTerminal {
    log: Vec<&'static str>,
    fail_enter: bool,
}

impl TerminalControl for FakeTerminal {
    fn enter(&mut self) -> Result<(), MuxError> {
        self.log.push("enter");
        if self.fail_enter {
            return Err(MuxError::Unavailable("terminal"));
        }
        Ok(())
    }

    fn leave(&mut self) -> Result<(), MuxError> {
        self.log.push("leave");
        Ok(())
    }
}

#[test]
fn a_terminal_is_restored_after_success_and_failure() {
    let mut terminal = LoggedTerminal::new(FakeTerminal { log: Vec::new(), fail_enter: false });
    let done: Result<u8, MuxError> = with_restoration(&mut terminal, |_| Ok(7)).ok().unwrap();
    assert_eq!(done.ok(), Some(7));
    let failed: Result<u8, MuxError> =
        with_restoration(&mut terminal, |_| Err(MuxError::Cancelled)).ok().unwrap();
    assert!(failed.is_err());
    assert_eq!(terminal.inner().log, vec!["enter", "leave", "enter", "leave"]);
    let mut broken = LoggedTerminal::new(FakeTerminal { log: Vec::new(), fail_enter: true });
    let refused = with_restoration(&mut broken, |_| Ok::<u8, MuxError>(7));
    assert!(refused.is_err());
    assert_eq!(broken.inner().log, vec!["enter"]);
}

#[test]
fn an_operation_runs_between_entering_and_leaving() {
    let mut terminal = LoggedTerminal::new(FakeTerminal { log: Vec::new(), fail_enter: false });
    let done = with_terminal(&mut terminal, |control| {
        control.log.push("operation");
        Ok(7)
    });
    assert_eq!(done.ok(), Some(7));
    assert_eq!(terminal.inner().log, vec!["enter", "operation", "leave"]);
    let mut broken = LoggedTerminal::new(FakeTerminal { log: Vec::new(), fail_enter: true });
    let refused = with_terminal(&mut broken, |control| {
        control.log.push("operation");
        Ok(7)
    });
    assert!(matches!(refused, Err(MuxError::Unavailable("terminal"))));
    assert_eq!(broken.inner().log, vec!["enter"]);
}

#[test]
fn the_error_of_the_operation_counts_first() {
    assert_eq!(settle(Ok(7), Ok(())).ok(), Some(7));
    assert!(matches!(
        settle::<u8>(Err(MuxError::Cancelled), Err(MuxError::Unavailable("terminal"))),
        Err(MuxError::Cancelled)
    ));
    assert!(matches!(
        settle(Ok(7), Err(MuxError::Unavailable("terminal"))),
        Err(MuxError::Unavailable(_))
    ));
}

struct FakeSwitches {
    log: Vec<Switch>,
    fail: Option<Switch>,
}

impl Switchboard for FakeSwitches {
    fn set(&mut self, switch: Switch) -> Result<(), MuxError> {
        self.log.push(switch);
        if self.fail == Some(switch) {
            return Err(MuxError::Unavailable("terminal"));
        }
        Ok(())
    }
}

#[test]
fn a_terminal_that_cannot_be_entered_is_left_as_it_was() {
    let mut control = CrosstermControl::new(FakeSwitches { log: Vec::new(), fail: None });
    assert!(control.enter().is_ok());
    assert!(control.leave().is_ok());
    assert_eq!(
        control.writer().log,
        vec![
            Switch::EnableRaw,
            Switch::EnterAlternate,
            Switch::Hide,
            Switch::ShowAndLeave,
            Switch::DisableRaw,
        ]
    );
    let mut broken =
        CrosstermControl::new(FakeSwitches { log: Vec::new(), fail: Some(Switch::Hide) });
    assert!(broken.enter().is_err());
    assert_eq!(
        broken.writer().log,
        vec![
            Switch::EnableRaw,
            Switch::EnterAlternate,
            Switch::Hide,
            Switch::LeaveAlternate,
            Switch::DisableRaw,
        ]
    );
}
