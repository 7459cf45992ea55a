//! Reading the pane list of tmux.

use codex_mux::path::UnixPath;
use codex_mux::tmux::inventory::{matches_executable, TmuxPaneRecord};

#[test]
fn parser_rejects_wrong_field_count_and_relative_paths() {
    assert!(TmuxPaneRecord::parse(b"%1\x1f$1").is_none());
    assert!(
        TmuxPaneRecord::parse(
            b"%1\x1f$1\x1f@1\x1fmain\x1ftitle\x1frelative\x1fcodex\x1f42\x1f/dev/pts/1\x1f\x1f"
        )
        .is_none()
    );
}

#[test]
fn parser_accepts_tmux_34_octal_escaped_separators() {
    let record = TmuxPaneRecord::parse(
        b"%1\\037$1\\037@1\\037main\\037thread\\037/work/project\\037codex\\03742\\037/dev/pts/1\\037\\037",
    )
    .expect("tmux 3.4 record should parse");

    assert_eq!(record.pane_id, "%1");
    assert_eq!(record.session_id, "$1");
    assert_eq!(record.current_path, UnixPath::new("/work/project"));
    assert_eq!(record.command, b"codex".to_vec());
    assert_eq!(record.pane_pid, 42);
}

#[test]
fn exact_executable_match_does_not_need_basename_fallback() {
    assert!(matches_executable(
        &UnixPath::new("/opt/codex/bin/renamed-agent"),
        &UnixPath::new("/opt/codex/bin/renamed-agent"),
        b"anything",
        &None,
        &None,
    ));
}

#[test]
fn basename_collision_is_rejected() {
    assert!(!matches_executable(
        &UnixPath::new("/tmp/unrelated/codex"),
        &UnixPath::new("/opt/codex/bin/codex"),
        b"codex",
        &None,
        &None,
    ));
}

#[test]
fn one_file_under_two_names_matches() {
    assert!(matches_executable(
        &UnixPath::new("/nix/store/codex"),
        &UnixPath::new("/opt/codex/bin/codex"),
        b"codex",
        &Some(UnixPath::new("/nix/store/codex")),
        &Some(UnixPath::new("/nix/store/codex")),
    ));
    assert!(!matches_executable(
        &UnixPath::new("/nix/store/codex"),
        &UnixPath::new("/opt/codex/bin/codex"),
        b"node",
        &Some(UnixPath::new("/nix/store/codex")),
        &Some(UnixPath::new("/nix/store/codex")),
    ));
}
