//! The values of the managed block.

use codex_mux::install::block::{process_arguments, ExecutablePaths, ProcessMetadata};
use codex_mux::path::UnixPath;

#[test]
fn regex_arguments_are_shell_literal_and_controls_are_refused() {
    let paths = ExecutablePaths::with_process(
        UnixPath::new("/opt/codex-mux"),
        UnixPath::new("/opt/launcher"),
        ProcessMetadata {
            match_executables: vec![UnixPath::new("/opt/launcher")],
            pane_commands: vec!["supervisor".to_owned()],
            match_scope: "pane-tree".to_owned(),
            match_command_regexes: vec!["x; touch /tmp/nope ' $(id) # space".to_owned()],
            pane_command_regexes: vec!["^super visor$".to_owned()],
        },
        false,
    )
    .unwrap();
    let arguments = process_arguments(&paths).join(" ");
    assert!(arguments.contains("'x; touch /tmp/nope '\\'' $(id) # space'"));
    assert!(arguments.contains("'^super visor$'"));
    assert!(
        ExecutablePaths::with_process(
            UnixPath::new("/opt/codex-mux"),
            UnixPath::new("/opt/launcher"),
            ProcessMetadata {
                match_executables: vec![UnixPath::new("/opt/launcher")],
                pane_commands: vec!["supervisor".to_owned()],
                match_scope: "foreground".to_owned(),
                match_command_regexes: vec!["bad\nvalue".to_owned()],
                pane_command_regexes: Vec::new()
            },
            false,
        )
        .is_err()
    );
}
