//! The block in the tmux configuration.

use codex_mux::install::block::{render_block, ExecutablePaths};
use codex_mux::install::discover::{
    backup_path, config_candidates, discover_config, DiscoveryContext, ServerEvidence,
};
use codex_mux::files::HostFiles;
use codex_mux::install::failure::{
    validate_regular_writable, AtomicReplaceFailure, InstallError, PathFacts,
};
use codex_mux::install::host::InstallHost;
use codex_mux::install::perform::{install_in, perform, uninstall_in, Change};
use codex_mux::install::plan::{
    install, install_with_options, uninstall, validate_key, ServerState, StepKind,
};
use codex_mux::install::reload::{tell_server, NoRunningServer, TmuxReloader};
use codex_mux::install::status::status;
use codex_mux::install::syntax::{text_binds_root_left, tmux_commands};
use codex_mux::path::UnixPath;

fn executables() -> ExecutablePaths {
    ExecutablePaths::new(UnixPath::new("/opt/mux"), UnixPath::new("/opt/codex")).ok().unwrap()
}

fn config() -> UnixPath {
    UnixPath::new("/home/me/.tmux.conf")
}

const REGULAR: PathFacts = PathFacts::Regular { mode: 0o644 };

const HOST: &str = "set -g mouse on\nbind u display hello";

#[test]
fn installing_and_removing_gives_the_host_file_back() {
    let plan = install(
        &config(),
        &REGULAR,
        HOST.as_bytes(),
        "u",
        &executables(),
        &ServerState::NotRunning,
    )
    .ok()
    .unwrap();
    assert!(plan.changed);
    let installed = String::from_utf8(plan.replacement.clone()).unwrap();
    assert!(installed.starts_with(HOST));
    assert!(installed.contains(&render_block("u", false, &executables(), true)));

    let again = install(
        &config(),
        &REGULAR,
        &plan.replacement,
        "u",
        &executables(),
        &ServerState::NotRunning,
    )
    .ok()
    .unwrap();
    assert!(!again.changed);
    assert_eq!(again.replacement, plan.replacement);

    let removal = uninstall(&config(), &REGULAR, &plan.replacement, false).ok().unwrap();
    assert!(removal.removes);
    assert_eq!(removal.replacement, HOST.as_bytes().to_vec());
    let nothing = uninstall(&config(), &REGULAR, HOST.as_bytes(), false).ok().unwrap();
    assert!(!nothing.removes);
}

#[test]
fn an_installed_block_shows_no_drift() {
    let plan = install(
        &config(),
        &REGULAR,
        b"",
        "u",
        &executables(),
        &ServerState::NotRunning,
    )
    .ok()
    .unwrap();
    let report = status(&config(), &REGULAR, &plan.replacement, &executables()).ok().unwrap();
    assert!(report.installed);
    assert_eq!(report.key, Some("u".to_owned()));
    assert_eq!(report.mux, Some(UnixPath::new("/opt/mux")));
    assert_eq!(report.codex, Some(UnixPath::new("/opt/codex")));
    assert!(report.drift.is_empty());
    let other =
        ExecutablePaths::new(UnixPath::new("/opt/other"), UnixPath::new("/opt/codex")).ok().unwrap();
    let report = status(&config(), &REGULAR, &plan.replacement, &other).ok().unwrap();
    assert_eq!(report.drift.len(), 1);
    let report = status(&config(), &REGULAR, b"", &executables()).ok().unwrap();
    assert!(!report.installed);
}

#[test]
fn a_running_server_is_told() {
    let plan = install(
        &config(),
        &REGULAR,
        HOST.as_bytes(),
        "u",
        &executables(),
        &ServerState::Running { root_left: Ok(false) },
    )
    .ok()
    .unwrap();
    assert!(plan.reloads);
    assert!(plan.steps.iter().any(|step| matches!(step.kind, StepKind::Reload)));
    assert!(plan.steps.iter().any(|step| matches!(step.kind, StepKind::Backup)));
    let outcome = plan.outcome(Some(UnixPath::new("/backup")));
    assert_eq!(outcome.backup, Some(UnixPath::new("/backup")));
    assert!(outcome.reloaded);
}

#[test]
fn a_root_left_binding_of_the_host_is_kept() {
    let taken = install_with_options(
        &config(),
        &REGULAR,
        b"bind -n Left select-pane -L\n",
        "u",
        true,
        &executables(),
        &ServerState::NotRunning,
    );
    assert!(taken.is_err());
    assert!(install_with_options(
        &config(),
        &REGULAR,
        b"bind Left select-pane -L\n",
        "u",
        true,
        &executables(),
        &ServerState::NotRunning,
    )
    .is_ok());
    assert!(text_binds_root_left("bind-key -n Left select-pane -L\n"));
    assert!(!text_binds_root_left("# bind -n Left\n"));
}

#[test]
fn bad_files_and_values_are_refused() {
    let refuse = |bytes: &[u8], key: &str| {
        install(&config(), &REGULAR, bytes, key, &executables(), &ServerState::NotRunning)
            .err()
            .unwrap()
    };
    assert!(matches!(refuse(&[0xff], "u"), InstallError::Markers(_)));
    assert!(matches!(refuse(b"# >>> codex-mux >>>\n", "u"), InstallError::Markers(_)));
    assert!(matches!(refuse(b"", ""), InstallError::InvalidValue { .. }));
    assert!(validate_key("u").is_ok());
    assert!(validate_key("a b").is_err());
    assert!(matches!(
        validate_regular_writable(&config(), &PathFacts::Symlink),
        Err(InstallError::UnsafePath { .. })
    ));
    assert!(validate_regular_writable(&config(), &PathFacts::Regular { mode: 0o444 }).is_err());
    assert_eq!(validate_regular_writable(&config(), &REGULAR).ok().unwrap(), 0o644);
    assert!(matches!(
        validate_regular_writable(&config(), &PathFacts::Unreadable("no".to_owned())),
        Err(InstallError::UnsafePath { .. })
    ));
    assert!(ExecutablePaths::new(UnixPath::new("relative"), UnixPath::new("/x")).is_err());
}

#[test]
fn commands_are_split_like_tmux_does() {
    assert_eq!(
        tmux_commands("bind u 'a b' \\; display \"c\""),
        Some(vec![vec![
            "bind".to_owned(),
            "u".to_owned(),
            "a b".to_owned(),
            ";".to_owned(),
            "display".to_owned(),
            "c".to_owned(),
        ]])
    );
    assert_eq!(tmux_commands("bind 'open"), None);
}

#[test]
fn the_configuration_is_looked_for_where_tmux_reads_it() {
    let context = |server: ServerEvidence| DiscoveryContext {
        explicit: None,
        server,
        home: UnixPath::new("/home/me"),
        xdg_config_home: None,
    };
    let running = context(ServerEvidence::Running(vec![UnixPath::new("/home/me/loaded.conf")]));
    let candidates = config_candidates(&running);
    assert!(candidates.contains(&UnixPath::new("/home/me/loaded.conf")));
    let facts: Vec<PathFacts> =
        candidates.iter().map(|_| PathFacts::Regular { mode: 0o644 }).collect();
    assert_eq!(discover_config(&running, &facts).ok().unwrap(), UnixPath::new("/home/me/loaded.conf"));
    let idle = context(ServerEvidence::NotRunning);
    let none: Vec<PathFacts> = config_candidates(&idle)
        .iter()
        .map(|_| PathFacts::Unreadable("missing".to_owned()))
        .collect();
    assert!(discover_config(&idle, &none).is_err());
    assert_ne!(backup_path(&config(), 0), backup_path(&config(), 1));
}

struct FakeServer {
    log: Vec<String>,
    fail: bool,
}

impl TmuxReloader for FakeServer {
    fn is_running(&mut self) -> bool {
        true
    }

    fn unbind(&mut self, key: &str) -> Result<(), String> {
        self.log.push(format!("unbind {key}"));
        if key == "refused" {
            return Err("no such key".to_owned());
        }
        Ok(())
    }

    fn root_left_bound(&mut self) -> Result<bool, String> {
        Ok(true)
    }

    fn unbind_root_left(&mut self, expected_mux: &UnixPath) -> Result<(), String> {
        self.log.push(format!("left {}", expected_mux.display()));
        Ok(())
    }

    fn reload(&mut self, path: &UnixPath) -> Result<(), String> {
        self.log.push(format!("reload {}", path.display()));
        if self.fail {
            return Err("bad line".to_owned());
        }
        Ok(())
    }
}

/// A disk that refuses its next replacements, each before or after the new bytes are in
/// place.
struct FakeDisk {
    bytes: Vec<u8>,
    copies: usize,
    refuse: Vec<bool>,
}

impl HostFiles for FakeDisk {
    fn create_backup(
        &mut self,
        path: &UnixPath,
        _bytes: &Vec<u8>,
        _mode: u32,
    ) -> Result<UnixPath, InstallError> {
        self.copies += 1;
        Ok(UnixPath::new(&format!("{}.copy", path.display())))
    }

    fn atomic_replace(
        &mut self,
        path: &UnixPath,
        bytes: &Vec<u8>,
        _mode: u32,
    ) -> Result<(), AtomicReplaceFailure> {
        let error =
            || InstallError::Filesystem { path: path.clone(), source: "refused".to_owned() };
        if self.refuse.is_empty() {
            self.bytes = bytes.clone();
            return Ok(());
        }
        let committed = self.refuse.remove(0);
        if committed {
            self.bytes = bytes.clone();
        }
        Err(AtomicReplaceFailure::new(error(), committed))
    }

    fn remove(&mut self, _path: &UnixPath) -> Result<(), InstallError> {
        Ok(())
    }
}

#[test]
fn steps_are_told_to_the_server() {
    let server = FakeServer { log: Vec::new(), fail: false };
    let mut host = InstallHost::new(disk(&[]), server);
    assert!(host.is_running());
    assert_eq!(host.root_left_bound(), Ok(true));
    tell_server(&StepKind::Unbind("u".to_owned()), &config(), &mut host).ok().unwrap();
    tell_server(&StepKind::Reload, &config(), &mut host).ok().unwrap();
    assert_eq!(
        host.server().log,
        vec!["unbind u".to_owned(), "reload /home/me/.tmux.conf".to_owned()]
    );
    let mut failing = InstallHost::new(disk(&[]), FakeServer { log: Vec::new(), fail: true });
    assert!(matches!(
        tell_server(&StepKind::Reload, &config(), &mut failing),
        Err(InstallError::ReloadFailed { .. })
    ));
    assert!(matches!(
        tell_server(&StepKind::Unbind("refused".to_owned()), &config(), &mut failing),
        Err(InstallError::ServerFailed { .. })
    ));
    let mut none = InstallHost::new(disk(&[]), NoRunningServer);
    assert!(!none.is_running());
}

fn disk(bytes: &[u8]) -> FakeDisk {
    FakeDisk { bytes: bytes.to_vec(), copies: 0, refuse: Vec::new() }
}

#[test]
fn a_planned_installation_is_carried_out_step_by_step() {
    let original = HOST.as_bytes().to_vec();
    let plan = install(
        &config(),
        &REGULAR,
        &original,
        "u",
        &executables(),
        &ServerState::Running { root_left: Ok(false) },
    )
    .ok()
    .unwrap();
    let change = Change {
        path: &config(),
        mode: plan.mode,
        original: &original,
        replacement: &plan.replacement,
    };
    let server = FakeServer { log: Vec::new(), fail: false };
    let mut host = InstallHost::new(disk(&original), server);
    let copy = perform(&plan.steps, &change, &mut host).ok().unwrap();
    assert_eq!(copy, Some(UnixPath::new("/home/me/.tmux.conf.copy")));
    assert_eq!(host.files().bytes, plan.replacement);
    assert_eq!(host.files().copies, 1);
    assert_eq!(host.server().log.last().unwrap(), "reload /home/me/.tmux.conf");

    let refusing = FakeDisk { bytes: original.clone(), copies: 0, refuse: vec![false] };
    let server = FakeServer { log: Vec::new(), fail: false };
    let mut host = InstallHost::new(refusing, server);
    assert!(perform(&plan.steps, &change, &mut host).is_err());
    assert_eq!(host.files().bytes, original);
}

#[test]
fn an_installation_runs_from_the_check_to_the_reload() {
    let original = HOST.as_bytes().to_vec();
    let server = FakeServer { log: Vec::new(), fail: false };
    let mut host = InstallHost::new(disk(&original), server);
    let outcome = install_in(
        &config(),
        &REGULAR,
        &original,
        "u",
        false,
        &executables(),
        &mut host,
    )
    .ok()
    .unwrap();
    assert!(outcome.changed);
    assert!(outcome.reloaded);
    assert!(outcome.backup.is_some());
    let written = host.files().bytes.clone();
    assert_ne!(written, original);
    assert_eq!(host.server().log, vec!["reload /home/me/.tmux.conf".to_owned()]);

    let refused = install_in(
        &config(),
        &REGULAR,
        &original,
        "u",
        true,
        &executables(),
        &mut InstallHost::new(disk(&original), FakeServer { log: Vec::new(), fail: false }),
    );
    assert!(matches!(refused, Err(InstallError::InvalidValue { field: "Smart Left binding", .. })));

    let mut late =
        InstallHost::new(disk(&original), FakeServer { log: Vec::new(), fail: true });
    let failed =
        install_in(&config(), &REGULAR, &original, "u", false, &executables(), &mut late);
    assert!(matches!(failed, Err(InstallError::ReloadFailed { .. })));
    assert_eq!(late.files().bytes, written);

    assert!(uninstall_in(&config(), &REGULAR, &written, &mut host).ok().unwrap());
    assert_eq!(host.files().bytes, original);
    assert!(!uninstall_in(&config(), &REGULAR, &original, &mut host).ok().unwrap());
}

#[test]
fn a_failed_change_leaves_the_file_as_it_was() {
    let original = HOST.as_bytes().to_vec();
    let run = |refuse: Vec<bool>| {
        let disk = FakeDisk { bytes: original.clone(), copies: 0, refuse };
        let server = FakeServer { log: Vec::new(), fail: false };
        let mut host = InstallHost::new(disk, server);
        let result =
            install_in(&config(), &REGULAR, &original, "u", false, &executables(), &mut host);
        (result.err().unwrap(), host)
    };
    // Nothing was in place; it was, and was put back; it was put back, but not durably.
    for refuse in [vec![false], vec![true], vec![true, true]] {
        let (error, host) = run(refuse);
        assert!(matches!(error, InstallError::Filesystem { .. }));
        assert_eq!(host.files().bytes, original);
        assert!(host.files().refuse.is_empty());
        assert!(host.server().log.is_empty());
    }
    let (error, host) = run(vec![true, false]);
    assert!(matches!(error, InstallError::NotRestored { .. }));
    assert_ne!(host.files().bytes, original);
    assert_eq!(
        error.to_text(),
        "/home/me/.tmux.conf was changed and could not be restored: filesystem operation \
         failed for /home/me/.tmux.conf: refused; filesystem operation failed for \
         /home/me/.tmux.conf: refused"
    );

    let server = FakeServer { log: Vec::new(), fail: false };
    let mut host = InstallHost::new(disk(&original), server);
    install_in(&config(), &REGULAR, &original, "u", false, &executables(), &mut host)
        .ok()
        .unwrap();
    let written = host.files().bytes.clone();
    let disk = FakeDisk { bytes: written.clone(), copies: 0, refuse: vec![true] };
    let server = FakeServer { log: Vec::new(), fail: false };
    let mut host = InstallHost::new(disk, server);
    let error = uninstall_in(&config(), &REGULAR, &written, &mut host).err().unwrap();
    assert!(matches!(error, InstallError::Filesystem { .. }));
    assert_eq!(host.files().bytes, written);
    assert_eq!(
        host.server().log,
        vec!["unbind u".to_owned(), "reload /home/me/.tmux.conf".to_owned()]
    );
}

#[test]
fn errors_say_what_went_wrong() {
    let text = InstallError::Filesystem { path: config(), source: "no space".to_owned() }.to_text();
    assert!(text.contains("/home/me/.tmux.conf"));
    assert!(text.contains("no space"));
}
