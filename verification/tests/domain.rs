//! Identifiers, panes, sizes and themes.

use codex_mux::domain::{
    AutoNameStatus, ClientId, CodexExecutable, Pane, PaneId, SessionId, TerminalSize, ThemeId, WindowId,
};
use codex_mux::error::MuxError;
use codex_mux::path::UnixPath;

fn pane() -> Pane {
    Pane {
        id: PaneId::new("%3").unwrap(),
        session_id: SessionId::new("$1").unwrap(),
        title: None,
        generated_title: None,
        generated_thread_id: None,
        generated_source_stable: false,
        generated_at_unix: None,
        immediate_naming: false,
        manual_name: false,
        manual_name_source: None,
        manual_name_pid: None,
        manual_name_pid_raw: String::new(),
        manual_name_session: None,
        manual_name_session_raw: String::new(),
        unpin_waiting: false,
        unpin_waiting_title: None,
        unpin_waiting_pid: None,
        unpin_waiting_session: None,
        auto_name_status: None,
        auto_name_started_at_unix_nanos: None,
        auto_name_token: None,
        pane_pid: 100,
        current_path: UnixPath::new("/work/codex-mux"),
    }
}

#[test]
fn identifiers_reject_empty_values() {
    assert!(PaneId::new("  ").is_err());
    assert!(PaneId::new("%7").is_ok());
}

#[test]
fn every_identifier_keeps_its_value() {
    assert_eq!(ClientId::new("/dev/pts/7").unwrap().as_str(), "/dev/pts/7");
    assert_eq!(SessionId::new("$2").unwrap().as_str(), "$2");
    assert_eq!(WindowId::new("@3").unwrap().as_str(), "@3");
    assert!(WindowId::new("\t").is_err());
    assert!(PaneId::new("%7").unwrap().same_as(&PaneId::new("%7").unwrap()));
    assert!(!PaneId::new("%7").unwrap().same_as(&PaneId::new("%8").unwrap()));
}

#[test]
fn codex_executable_must_be_absolute() {
    assert!(CodexExecutable::new(UnixPath::new("codex")).is_err());
    assert!(CodexExecutable::new(UnixPath::new("/opt/codex/bin/codex")).is_ok());
}

#[test]
fn pane_title_falls_back_to_project_directory() {
    assert_eq!(pane().display_title(), "codex-mux");
}

#[test]
fn a_generated_title_goes_before_the_pane_title() {
    let mut shown = pane();
    shown.title = Some("shell".to_owned());
    assert_eq!(shown.display_title(), "shell");
    shown.generated_title = Some("Fix the parser".to_owned());
    assert_eq!(shown.display_title(), "Fix the parser");
    shown.auto_name_status = Some(AutoNameStatus::Generating);
    assert!(shown.auto_name_status.is_some());
}

#[test]
fn compact_breakpoint_matches_contract() {
    assert!(
        !TerminalSize {
            width: 90,
            height: 28,
        }
        .is_compact()
    );
    assert!(
        TerminalSize {
            width: 89,
            height: 40,
        }
        .is_compact()
    );
    assert!(
        TerminalSize {
            width: 120,
            height: 27,
        }
        .is_compact()
    );
}

#[test]
fn themes_round_trip_through_stable_names() {
    for theme in ThemeId::ALL {
        assert_eq!(theme.as_str().parse::<ThemeId>().unwrap(), theme);
    }
}

#[test]
fn an_unknown_theme_is_refused() {
    match ThemeId::from_str("neon") {
        Err(MuxError::InvalidValue { field, .. }) => assert_eq!(field, "theme"),
        _ => panic!("an unknown theme was accepted"),
    }
}
