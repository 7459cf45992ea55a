//! The shell start files.

use std::collections::BTreeMap;

use codex_mux::files::{HostFiles, LoggedFiles};
use codex_mux::install::failure::{AtomicReplaceFailure, InstallError, PathFacts};
use codex_mux::path::UnixPath;
use codex_mux::shell_integration::block::{change_contents, Operation, ShellKind};
use codex_mux::shell_integration::hooks::{bash_hook_text, zsh_hook_text};
use codex_mux::shell_integration::transaction::{
    validate_missing_target, ParentFacts, ShellTarget, ShellTransaction, TargetProbe,
};

struct FakeDisk {
    files: BTreeMap<Vec<u8>, Vec<u8>>,
    refuse: Vec<Vec<u8>>,
    refuse_after: Vec<Vec<u8>>,
    backups: usize,
}

impl FakeDisk {
    fn new(files: &[(&str, &str)]) -> FakeDisk {
        FakeDisk {
            files: files
                .iter()
                .map(|(path, text)| (path.as_bytes().to_vec(), text.as_bytes().to_vec()))
                .collect(),
            refuse: Vec::new(),
            refuse_after: Vec::new(),
            backups: 0,
        }
    }

    fn text(&self, path: &str) -> Option<String> {
        self.files.get(path.as_bytes()).map(|bytes| String::from_utf8(bytes.clone()).unwrap())
    }
}

fn refused(path: &UnixPath) -> InstallError {
    InstallError::Filesystem { path: path.clone(), source: "refused".to_owned() }
}

impl HostFiles for FakeDisk {
    fn create_backup(
        &mut self,
        path: &UnixPath,
        bytes: &Vec<u8>,
        _mode: u32,
    ) -> Result<UnixPath, InstallError> {
        self.backups += 1;
        let backup = UnixPath::new(&format!("{}.backup{}", path.display(), self.backups));
        self.files.insert(backup.bytes.clone(), bytes.clone());
        Ok(backup)
    }

    fn atomic_replace(
        &mut self,
        path: &UnixPath,
        bytes: &Vec<u8>,
        _mode: u32,
    ) -> Result<(), AtomicReplaceFailure> {
        if self.refuse.contains(&path.bytes) {
            return Err(AtomicReplaceFailure::new(refused(path), false));
        }
        self.files.insert(path.bytes.clone(), bytes.clone());
        if let Some(at) = self.refuse_after.iter().position(|name| *name == path.bytes) {
            self.refuse_after.remove(at);
            return Err(AtomicReplaceFailure::new(refused(path), true));
        }
        Ok(())
    }

    fn remove(&mut self, path: &UnixPath) -> Result<(), InstallError> {
        match self.files.remove(&path.bytes) {
            Some(_) => Ok(()),
            None => Err(refused(path)),
        }
    }
}

const BASH: &str = "/home/me/.bashrc";
const ZSH: &str = "/home/me/.zshrc";

fn targets() -> Vec<ShellTarget> {
    vec![
        ShellTarget { kind: ShellKind::Bash, path: UnixPath::new(BASH) },
        ShellTarget { kind: ShellKind::Zsh, path: UnixPath::new(ZSH) },
    ]
}

fn bash_only() -> Vec<ShellTarget> {
    vec![ShellTarget { kind: ShellKind::Bash, path: UnixPath::new(BASH) }]
}

fn probes(disk: &FakeDisk, targets: &[ShellTarget]) -> Vec<TargetProbe> {
    targets
        .iter()
        .map(|target| match disk.files.get(&target.path.bytes) {
            Some(bytes) => TargetProbe::Present {
                facts: PathFacts::Regular { mode: 0o644 },
                contents: Ok(bytes.clone()),
            },
            None => TargetProbe::Missing { parent: ParentFacts::Directory { mode: 0o755 } },
        })
        .collect()
}

fn install(targets: Vec<ShellTarget>, disk: &FakeDisk) -> ShellTransaction {
    ShellTransaction::prepare_install(&targets, &probes(disk, &targets)).ok().unwrap()
}

fn remove(targets: Vec<ShellTarget>, disk: &FakeDisk) -> ShellTransaction {
    ShellTransaction::prepare_remove(&targets, &probes(disk, &targets)).ok().unwrap()
}

#[test]
fn setup_and_remove_preserve_host_bytes_and_are_idempotent() {
    let mut files =
        LoggedFiles::new(FakeDisk::new(&[(BASH, "host bash"), (ZSH, "host zsh\n")]));
    let mut setup = install(targets(), files.inner());
    assert!(setup.apply(&mut files).ok().unwrap().iter().all(|outcome| outcome.changed));
    let installed_bash = files.inner().text(BASH).unwrap();
    let installed_zsh = files.inner().text(ZSH).unwrap();
    assert!(installed_bash.contains("PROMPT_COMMAND"));
    assert!(installed_zsh.contains("add-zsh-hook"));

    let mut again = install(targets(), files.inner());
    assert!(again.apply(&mut files).ok().unwrap().iter().all(|outcome| !outcome.changed));
    assert_eq!(files.inner().text(BASH).unwrap(), installed_bash);
    assert_eq!(files.inner().text(ZSH).unwrap(), installed_zsh);

    let mut removal = remove(targets(), files.inner());
    removal.apply(&mut files).ok().unwrap();
    assert_eq!(files.inner().text(BASH).unwrap(), "host bash");
    assert_eq!(files.inner().text(ZSH).unwrap(), "host zsh\n");
}

#[test]
fn missing_files_are_created_and_remove_leaves_empty_files() {
    let mut files = LoggedFiles::new(FakeDisk::new(&[]));
    install(bash_only(), files.inner()).apply(&mut files).ok().unwrap();
    assert!(files.inner().text(BASH).unwrap().contains("codex-mux bash"));

    remove(bash_only(), files.inner()).apply(&mut files).ok().unwrap();
    assert_eq!(files.inner().text(BASH).unwrap(), "");
}

#[test]
fn malformed_markers_and_duplicate_targets_fail_before_writes() {
    let disk = FakeDisk::new(&[(BASH, "# >>> codex-mux bash >>>\n")]);
    let only = bash_only();
    assert!(ShellTransaction::prepare_install(&only, &probes(&disk, &only)).is_err());
    assert_eq!(disk.text(BASH).unwrap(), "# >>> codex-mux bash >>>\n");
    let disk = FakeDisk::new(&[(BASH, "host\n")]);
    let twice = vec![
        ShellTarget { kind: ShellKind::Bash, path: UnixPath::new(BASH) },
        ShellTarget { kind: ShellKind::Zsh, path: UnixPath::new(BASH) },
    ];
    assert!(ShellTransaction::prepare_install(&twice, &probes(&disk, &twice)).is_err());
}

#[test]
fn second_write_failure_restores_the_first_host_file() {
    let mut disk = FakeDisk::new(&[(BASH, "host bash\n"), (ZSH, "host zsh\n")]);
    disk.refuse = vec![ZSH.as_bytes().to_vec()];
    let mut files = LoggedFiles::new(disk);
    let mut transaction = install(targets(), files.inner());
    assert!(transaction.apply(&mut files).is_err());
    assert_eq!(files.inner().text(BASH).unwrap(), "host bash\n");
}

#[test]
fn post_rename_failure_is_recorded_and_rolled_back() {
    let mut disk = FakeDisk::new(&[(BASH, "host bash\n")]);
    disk.refuse_after = vec![BASH.as_bytes().to_vec()];
    let mut files = LoggedFiles::new(disk);
    let mut transaction = install(bash_only(), files.inner());
    assert!(transaction.apply(&mut files).is_err());
    assert_eq!(files.inner().text(BASH).unwrap(), "host bash\n");
}

#[test]
fn rollback_continues_after_one_target_cannot_be_restored() {
    let mut files =
        LoggedFiles::new(FakeDisk::new(&[(BASH, "host bash\n"), (ZSH, "host zsh\n")]));
    let mut transaction = install(targets(), files.inner());
    transaction.apply(&mut files).ok().unwrap();
    let mut disk = FakeDisk::new(&[]);
    disk.files = files.inner().files.clone();
    disk.refuse = vec![ZSH.as_bytes().to_vec()];
    let mut files = LoggedFiles::new(disk);
    assert!(transaction.rollback(&mut files).is_err());
    assert_eq!(files.inner().text(BASH).unwrap(), "host bash\n");
}

#[test]
fn bash_hook_is_source_idempotent_and_preserves_an_existing_command() {
    let host = "PROMPT_COMMAND='printf existing;'\nPS0='old-ps0'\nPS2='old-ps2'\n";
    let (installed, held) =
        change_contents(host.as_bytes(), ShellKind::Bash, Operation::Install).ok().unwrap();
    assert!(!held);
    let installed = String::from_utf8(installed).unwrap();
    assert!(installed.starts_with(host));
    let (again, held) =
        change_contents(installed.as_bytes(), ShellKind::Bash, Operation::Install).ok().unwrap();
    assert!(held);
    assert_eq!(String::from_utf8(again).unwrap(), installed);
}

#[test]
fn hooks_announce_the_prompt() {
    assert!(bash_hook_text().contains("__codex_mux_prompt_on"));
    assert!(bash_hook_text().contains("@codex_mux_shell_prompt"));
    assert!(zsh_hook_text().contains("add-zsh-hook"));
}

#[test]
fn other_bytes_are_refused() {
    assert!(change_contents(&[0xff], ShellKind::Zsh, Operation::Install).is_err());
    let (kept, held) =
        change_contents(b"host\n", ShellKind::Zsh, Operation::Remove).ok().unwrap();
    assert_eq!(kept, b"host\n".to_vec());
    assert!(!held);
}

#[test]
fn a_missing_file_needs_a_directory() {
    let path = UnixPath::new(BASH);
    assert!(validate_missing_target(&path, &ParentFacts::Directory { mode: 0o755 }).is_ok());
    assert!(validate_missing_target(&path, &ParentFacts::NotADirectory).is_err());
    assert!(validate_missing_target(&path, &ParentFacts::Nameless).is_err());
    assert!(validate_missing_target(&path, &ParentFacts::Unavailable("no".to_owned())).is_err());
}
