//! What is asked of tmux for each action.

use codex_mux::domain::{
    ClientId, CodexExecutable, CommandOutput, InvocationContext, Pane, PaneId, SessionId,
    TmuxCommandRunner, WindowId,
};
use codex_mux::error::MuxError;
use codex_mux::launch::{launch_directory, new_window_arguments, LaunchKind, TERMINAL_TITLE_CONFIG};
use codex_mux::path::UnixPath;
use codex_mux::tmux::actions::{
    manual_release_condition, plan_rename, plan_unpin, rename_condition, unpin_condition,
    TmuxActions,
};

struct ScriptedTmux {
    asked: Vec<Vec<String>>,
    replies: Vec<(&'static str, i32)>,
}

impl TmuxCommandRunner for ScriptedTmux {
    fn run(&mut self, arguments: &Vec<Vec<u8>>) -> Result<CommandOutput, MuxError> {
        self.asked.push(
            arguments.iter().map(|word| String::from_utf8(word.clone()).unwrap()).collect(),
        );
        let (stdout, status) =
            self.replies.get(self.asked.len() - 1).cloned().unwrap_or(("", 0));
        Ok(CommandOutput {
            stdout: stdout.as_bytes().to_vec(),
            stderr: b"refused".to_vec(),
            status: Some(status),
        })
    }
}

fn services(replies: Vec<(&'static str, i32)>) -> TmuxActions<ScriptedTmux> {
    TmuxActions::new(
        ScriptedTmux { asked: Vec::new(), replies },
        CodexExecutable::new(UnixPath::new("/opt/codex")).unwrap(),
    )
}

fn context() -> InvocationContext {
    InvocationContext {
        client_id: ClientId::new("/dev/pts/3").unwrap(),
        pane_id: PaneId::new("%1").unwrap(),
        session_id: SessionId::new("$1").unwrap(),
        window_id: WindowId::new("@1").unwrap(),
        current_path: UnixPath::new("/work"),
    }
}

fn pane() -> Pane {
    Pane {
        id: PaneId::new("%7").unwrap(),
        session_id: SessionId::new("$2").unwrap(),
        title: Some("spinner".to_owned()),
        generated_title: None,
        generated_thread_id: None,
        generated_source_stable: false,
        generated_at_unix: None,
        immediate_naming: false,
        manual_name: false,
        manual_name_source: None,
        manual_name_pid: None,
        manual_name_pid_raw: String::new(),
        manual_name_session: None,
        manual_name_session_raw: String::new(),
        unpin_waiting: false,
        unpin_waiting_title: None,
        unpin_waiting_pid: None,
        unpin_waiting_session: None,
        auto_name_status: None,
        auto_name_started_at_unix_nanos: None,
        auto_name_token: None,
        pane_pid: 77,
        current_path: UnixPath::new("/elsewhere"),
    }
}

fn words(list: &[&str]) -> Vec<String> {
    list.iter().map(|word| (*word).to_owned()).collect()
}

fn selecting(pane: &str) -> Vec<String> {
    words(&[
        "select-window",
        "-t",
        pane,
        ";",
        "select-pane",
        "-Z",
        "-t",
        pane,
        ";",
        "switch-client",
        "-Z",
        "-c",
        "/dev/pts/3",
        "-t",
        pane,
    ])
}

#[test]
fn switching_zooms_only_a_window_that_is_not_zoomed() {
    let mut zoomed = services(vec![("1\n", 0), ("", 0)]);
    zoomed.switch_and_zoom(&context(), &pane()).unwrap();
    assert_eq!(
        zoomed.runner.inner().asked[0],
        words(&["display-message", "-p", "-t", "%7", "#{window_zoomed_flag}"])
    );
    assert_eq!(zoomed.runner.inner().asked[1], selecting("%7"));

    let mut plain = services(vec![("0\n", 0), ("", 0)]);
    plain.switch_and_zoom(&context(), &pane()).unwrap();
    let mut expected = selecting("%7");
    expected.extend(words(&[";", "resize-pane", "-Z", "-t", "%7"]));
    assert_eq!(plain.runner.inner().asked[1], expected);

    let mut unknown = services(vec![("maybe\n", 0)]);
    assert!(unknown.switch_and_zoom(&context(), &pane()).is_err());
    assert_eq!(unknown.runner.inner().asked.len(), 1);
}

#[test]
fn a_new_session_runs_in_the_directory_of_the_selected_pane() {
    let mut actions = services(vec![("%9\n", 0), ("", 0)]);
    let profile = CodexExecutable::new(UnixPath::new("/opt/other")).unwrap();
    let selected = pane();
    let opened =
        actions.new_session_with_profile(&context(), Some(&selected), &profile, true).unwrap();
    assert_eq!(opened.as_str(), "%9");
    assert_eq!(
        actions.runner.inner().asked[0],
        words(&[
            "new-window",
            "-d",
            "-a",
            "-P",
            "-F",
            "#{pane_id}",
            "-t",
            "@1",
            "-c",
            "/elsewhere",
            "--",
            "/opt/other",
            "-c",
            TERMINAL_TITLE_CONFIG,
            "--yolo",
        ])
    );
    assert_eq!(actions.runner.inner().asked[1], selecting("%9"));
    assert_eq!(*launch_directory(Some(&selected), &context()), UnixPath::new("/elsewhere"));
    assert_eq!(*launch_directory(None, &context()), UnixPath::new("/work"));
}

#[test]
fn the_session_picker_is_marked_for_naming() {
    let mut actions = services(vec![("%9\n", 0), ("", 0), ("", 0)]);
    actions.resume_all(&context(), None).unwrap();
    let asked = &actions.runner.inner().asked;
    assert_eq!(asked.len(), 3);
    assert_eq!(asked[0][asked[0].len() - 2..].to_vec(), words(&["resume", "--all"]));
    assert!(asked[2].contains(&"%9".to_owned()));
    assert_eq!(asked[2].last(), Some(&"1".to_owned()));

    let mut profile = services(vec![("%9\n", 0), ("", 0), ("", 0)]);
    let executable = CodexExecutable::new(UnixPath::new("/opt/codex")).unwrap();
    profile.resume_all_with_profile(&context(), None, &executable, false).unwrap();
    assert_eq!(profile.runner.inner().asked, *asked);

    let plain: Vec<Vec<u8>> =
        new_window_arguments(&executable, &context(), None, LaunchKind::ResumeAll);
    let expected: Vec<Vec<u8>> = asked[0].iter().map(|word| word.clone().into_bytes()).collect();
    assert_eq!(plain, expected);
}

#[test]
fn a_created_pane_that_cannot_be_selected_is_reported() {
    let mut actions = services(vec![("%9\n", 0), ("", 1)]);
    match actions.new_session(&context(), None) {
        Err(MuxError::CreatedPaneNotSelected { pane, .. }) => assert_eq!(pane, "%9"),
        other => panic!("unexpected outcome: {:?}", other.map(|id| id.as_str().to_owned())),
    }
}

#[test]
fn only_the_pane_itself_is_closed() {
    let mut actions = services(vec![("", 0)]);
    actions.close_pane(&pane()).unwrap();
    assert_eq!(actions.runner.inner().asked, vec![words(&["kill-pane", "-t", "%7"])]);
    let mut refused = services(vec![("", 1)]);
    assert!(refused.close_pane(&pane()).unwrap_err().to_text().contains("refused"));
}

#[test]
fn a_rename_is_done_only_where_its_token_comes_back() {
    let steps = plan_rename(&pane(), "My title", "token-1");
    assert_eq!(steps.len(), 3);
    assert!(steps[0].request.iter().any(|word| word.contains("My title")));
    assert!(steps[0].request.contains(&rename_condition(&pane())));
    assert_eq!(steps[1].marker.as_ref().unwrap().expected, "token-1");

    let mut done = services(vec![("", 0), ("token-1\n", 0), ("", 0)]);
    done.rename_pane(&pane(), "My title", "token-1").unwrap();
    assert_eq!(done.runner.inner().asked.len(), 3);
    assert_eq!(done.runner.inner().asked[0], steps[0].request);

    let mut changed = services(vec![("", 0), ("\n", 0)]);
    let error = changed.rename_pane(&pane(), "My title", "token-1").unwrap_err().to_text();
    assert!(error.contains("pane changed before it could be renamed"));
}

#[test]
fn a_manual_name_is_given_up_by_its_own_conditions() {
    let mut named = pane();
    named.manual_name = true;
    named.manual_name_source = Some("01a01001-2dbb-74e2-86ab-996b31234567".to_owned());
    named.manual_name_pid = Some(77);
    named.manual_name_pid_raw = "77".to_owned();
    named.manual_name_session = Some(SessionId::new("$2").unwrap());
    named.manual_name_session_raw = "$2".to_owned();
    let steps = plan_unpin(&named, "token-2");
    assert!(!steps.is_empty());
    let replies: Vec<(&'static str, i32)> = steps
        .iter()
        .map(|step| if step.marker.is_some() { ("token-2\n", 0) } else { ("", 0) })
        .collect();
    let mut actions = services(replies);
    actions.unpin_pane(&named, "token-2").unwrap();
    assert_eq!(
        actions.runner.inner().asked,
        steps.iter().map(|step| step.request.clone()).collect::<Vec<_>>()
    );
    assert_ne!(
        unpin_condition(&named, "a", "b", None),
        unpin_condition(&named, "a", "b", Some("token-2"))
    );
    assert!(manual_release_condition(&named, "spinner").contains("spinner"));
}
