//! Files that are changed only while they are what they were, and the title
//! setting that is kept in them.

use std::collections::BTreeMap;

use codex_mux::codex_config::integration;
use codex_mux::codex_config::integration::StateFormat;
use codex_mux::codex_config::format_log::LoggedFormat;
use codex_mux::codex_config::owned::{
    remove_owned, take_snapshot, temporary_path, write_owned, FileSnapshot, OpenedOwned,
    OwnedFiles,
};
use codex_mux::codex_config::owned_log::LoggedOwned;
use codex_mux::codex_config::title;
use codex_mux::codex_config::title::{
    codex_config_path, read_config, state_path, title_values, SavedState,
};
use codex_mux::codex_config::transaction;
use codex_mux::error::MuxError;
use codex_mux::path::UnixPath;

/// A directory of files in memory. Hooks change a file just before or just after an
/// exchange, as another program would.
struct FakeFiles {
    files: BTreeMap<Vec<u8>, FileSnapshot>,
    inodes: u64,
    nonces: u64,
    fail_sync: usize,
    edits: Vec<(usize, Vec<u8>, Vec<u8>)>,
    late_edits: Vec<(usize, Vec<u8>, Vec<u8>)>,
    exchanges: usize,
}

impl FakeFiles {
    fn new() -> FakeFiles {
        FakeFiles {
            files: BTreeMap::new(),
            inodes: 100,
            nonces: 0,
            fail_sync: 0,
            edits: Vec::new(),
            late_edits: Vec::new(),
            exchanges: 0,
        }
    }

    fn put(&mut self, path: &str, contents: &str) -> FileSnapshot {
        self.inodes += 1;
        let snapshot = FileSnapshot {
            bytes: contents.as_bytes().to_vec(),
            mode: 0o600,
            device: 1,
            inode: self.inodes,
        };
        self.files.insert(path.as_bytes().to_vec(), snapshot.clone());
        snapshot
    }

    fn text(&self, path: &str) -> Option<String> {
        self.files
            .get(path.as_bytes())
            .map(|file| String::from_utf8(file.bytes.clone()).unwrap())
    }

    fn edit(&mut self, due: Vec<(usize, Vec<u8>, Vec<u8>)>) {
        for (_, path, bytes) in due {
            self.inodes += 1;
            let inode = self.inodes;
            self.files.insert(path, FileSnapshot { bytes, mode: 0o600, device: 1, inode });
        }
    }

    fn names(&self) -> Vec<String> {
        self.files.keys().map(|name| String::from_utf8(name.clone()).unwrap()).collect()
    }
}

fn failed(path: &UnixPath) -> MuxError {
    MuxError::Filesystem { path: path.clone(), source: "refused".to_owned() }
}

impl OwnedFiles for FakeFiles {
    fn make_directory(&mut self, _p: &UnixPath) -> Result<(), MuxError> {
        Ok(())
    }

    fn nonce(&mut self) -> String {
        self.nonces += 1;
        self.nonces.to_string()
    }

    fn create(&mut self, p: &UnixPath, bytes: &Vec<u8>, mode: u32) -> Result<FileSnapshot, MuxError> {
        if self.files.contains_key(&p.bytes) {
            return Err(failed(p));
        }
        self.inodes += 1;
        let snapshot =
            FileSnapshot { bytes: bytes.clone(), mode, device: 1, inode: self.inodes };
        self.files.insert(p.bytes.clone(), snapshot.clone());
        Ok(snapshot)
    }

    fn create_empty(&mut self, p: &UnixPath) -> Result<FileSnapshot, MuxError> {
        self.create(p, &Vec::new(), 0o644)
    }

    fn snapshot(&mut self, p: &UnixPath) -> Result<Option<FileSnapshot>, MuxError> {
        Ok(self.files.get(&p.bytes).cloned())
    }

    fn exchange(&mut self, a: &UnixPath, b: &UnixPath) -> Result<(), MuxError> {
        self.exchanges += 1;
        let count = self.exchanges;
        self.edit(self.edits.iter().filter(|edit| edit.0 == count).cloned().collect());
        let result = match (self.files.remove(&a.bytes), self.files.remove(&b.bytes)) {
            (Some(left), Some(right)) => {
                self.files.insert(a.bytes.clone(), right);
                self.files.insert(b.bytes.clone(), left);
                Ok(())
            }
            (left, right) => {
                if let Some(left) = left {
                    self.files.insert(a.bytes.clone(), left);
                }
                if let Some(right) = right {
                    self.files.insert(b.bytes.clone(), right);
                }
                Err(failed(b))
            }
        };
        self.edit(self.late_edits.iter().filter(|edit| edit.0 == count).cloned().collect());
        result
    }

    fn move_new(&mut self, from: &UnixPath, to: &UnixPath) -> Result<(), MuxError> {
        if self.files.contains_key(&to.bytes) {
            return Err(failed(to));
        }
        match self.files.remove(&from.bytes) {
            Some(file) => {
                self.files.insert(to.bytes.clone(), file);
                Ok(())
            }
            None => Err(failed(from)),
        }
    }

    fn remove(&mut self, p: &UnixPath) -> Result<(), MuxError> {
        match self.files.remove(&p.bytes) {
            Some(_) => Ok(()),
            None => Err(failed(p)),
        }
    }

    fn sync_directory(&mut self, p: &UnixPath) -> Result<(), MuxError> {
        if self.fail_sync > 0 {
            self.fail_sync -= 1;
            return Err(failed(p));
        }
        Ok(())
    }
}

const CONFIG: &str = "/home/me/config.toml";

#[test]
fn conditional_replace_and_remove_preserve_concurrent_changes() {
    let path = UnixPath::new(CONFIG);
    let mut disk = FakeFiles::new();
    let original = disk.put(CONFIG, "original");
    disk.put(CONFIG, "concurrent");
    let absent = "/home/me/state.toml";
    disk.put(absent, "new owner");
    let mut files = LoggedOwned::new(disk);

    let error = write_owned(&mut files, &path, &b"replacement".to_vec(), 0o600, Some(&original))
        .unwrap_err()
        .to_text();
    assert!(error.contains("changed concurrently"));
    assert_eq!(files.inner().text(CONFIG), Some("concurrent".to_owned()));
    let error = remove_owned(&mut files, &path, Some(&original)).unwrap_err().to_text();
    assert!(error.contains("changed concurrently"));
    assert_eq!(files.inner().text(CONFIG), Some("concurrent".to_owned()));

    let path = UnixPath::new(absent);
    assert!(write_owned(&mut files, &path, &b"ours".to_vec(), 0o600, None).is_err());
    assert!(remove_owned(&mut files, &path, None).is_err());
    assert_eq!(files.inner().text(absent), Some("new owner".to_owned()));
    assert!(files.inner().names().iter().all(|name| !name.contains("codex-mux-")));
    assert_eq!(files.inner().names(), vec![CONFIG.to_owned(), absent.to_owned()]);
}

#[test]
fn a_file_is_replaced_and_removed_while_it_is_what_it_was() {
    let path = UnixPath::new(CONFIG);
    let mut disk = FakeFiles::new();
    let original = disk.put(CONFIG, "before\n");
    let mut files = LoggedOwned::new(disk);
    let installed =
        write_owned(&mut files, &path, &b"after\n".to_vec(), 0o640, Some(&original)).unwrap();
    assert_eq!(installed.bytes, b"after\n".to_vec());
    assert_eq!(installed.mode, 0o640);
    assert_eq!(files.inner().text(CONFIG), Some("after\n".to_owned()));
    remove_owned(&mut files, &path, Some(&installed)).unwrap();
    assert!(files.inner().names().is_empty());
    remove_owned(&mut files, &path, None).unwrap();
}

#[test]
fn a_file_that_appeared_is_neither_overwritten_nor_removed() {
    let path = UnixPath::new(CONFIG);
    let mut disk = FakeFiles::new();
    disk.put(CONFIG, "new\n");
    let mut files = LoggedOwned::new(disk);
    assert!(write_owned(&mut files, &path, &b"mine\n".to_vec(), 0o600, None).is_err());
    let error = remove_owned(&mut files, &path, None).unwrap_err().to_text();
    assert!(error.contains("appeared concurrently; refusing to remove it"));
    assert_eq!(files.inner().text(CONFIG), Some("new\n".to_owned()));
    assert_eq!(files.inner().names(), vec![CONFIG.to_owned()]);
}

#[test]
fn post_commit_sync_failures_restore_replaced_and_removed_paths() {
    let path = UnixPath::new(CONFIG);
    let mut disk = FakeFiles::new();
    let original = disk.put(CONFIG, "before\n");
    disk.fail_sync = 1;
    let mut files = LoggedOwned::new(disk);
    assert!(
        write_owned(&mut files, &path, &b"replacement\n".to_vec(), 0o600, Some(&original)).is_err()
    );
    assert_eq!(files.inner().text(CONFIG), Some("before\n".to_owned()));

    let mut disk = FakeFiles::new();
    let current = disk.put(CONFIG, "before\n");
    disk.fail_sync = 1;
    let mut files = LoggedOwned::new(disk);
    assert!(remove_owned(&mut files, &path, Some(&current)).is_err());
    assert_eq!(files.inner().text(CONFIG), Some("before\n".to_owned()));
    assert_eq!(files.inner().names(), vec![CONFIG.to_owned()]);
}

#[test]
fn mismatch_rollback_never_deletes_a_later_external_edit() {
    for operation in ["replace", "remove"] {
        let path = UnixPath::new(STATE);
        let mut disk = FakeFiles::new();
        let expected = disk.put(STATE, "original");
        disk.put(STATE, "conflicting editor bytes");
        let at = || STATE.as_bytes().to_vec();
        disk.edits = vec![(2, at(), b"first external edit".to_vec())];
        disk.late_edits = vec![(2, at(), b"newest external edit".to_vec())];
        let mut files = LoggedOwned::new(disk);
        let result = if operation == "replace" {
            write_owned(&mut files, &path, &b"ours".to_vec(), 0o600, Some(&expected)).map(|_| ())
        } else {
            remove_owned(&mut files, &path, Some(&expected))
        };
        assert!(result.is_err());
        assert_eq!(files.inner().text(STATE), Some("newest external edit".to_owned()));
        assert!(
            files.inner().names().iter().any(|name| {
                name != STATE
                    && files.inner().text(name).as_deref() == Some("first external edit")
            }),
            "{operation}"
        );
    }
}

#[test]
fn a_rollback_that_meets_an_edit_says_so() {
    let path = UnixPath::new(CONFIG);
    let mut disk = FakeFiles::new();
    let original = disk.put(CONFIG, "before\n");
    disk.put(CONFIG, "first external edit\n");
    disk.edits = vec![(2, CONFIG.as_bytes().to_vec(), b"later external edit\n".to_vec())];
    let mut files = LoggedOwned::new(disk);
    let error =
        write_owned(&mut files, &path, &b"replacement\n".to_vec(), 0o600, Some(&original))
            .unwrap_err()
            .to_text();
    assert!(error.contains("changed during rollback"));
    assert_eq!(files.inner().text(CONFIG), Some("later external edit\n".to_owned()));
}

#[test]
fn opened_files_are_held_to_what_is_managed() {
    let path = UnixPath::new(CONFIG);
    assert!(take_snapshot(&path, OpenedOwned::Missing).unwrap().is_none());
    let regular = |length: u64, bytes: Vec<u8>| OpenedOwned::Regular {
        length,
        mode: 0o100644,
        device: 1,
        inode: 2,
        contents: Ok(bytes),
    };
    let read = take_snapshot(&path, regular(1, b"x".to_vec())).unwrap().unwrap();
    assert_eq!(read.mode, 0o644);
    assert_eq!(
        take_snapshot(&path, OpenedOwned::Link).unwrap_err().to_text(),
        format!("command failed: {CONFIG} must be a regular file and must not be a symlink")
    );
    assert!(take_snapshot(&path, OpenedOwned::Other).is_err());
    assert_eq!(
        take_snapshot(&path, regular(4194305, Vec::new())).unwrap_err().to_text(),
        format!("command failed: {CONFIG} exceeds the managed-file size limit")
    );
}

#[test]
fn temporary_names_stand_beside_the_file() {
    let path = temporary_path(&UnixPath::new(CONFIG), "replace", "7").unwrap();
    assert_eq!(path.parent(), Some(UnixPath::new("/home/me")));
    assert!(path.display().contains("replace"));
    assert!(temporary_path(&UnixPath::new("/"), "replace", "7").is_err());
}

// ---------------------------------------------------------------------------
// The title
// ---------------------------------------------------------------------------

const STATE: &str = "/home/me/state.toml";

fn values(contents: &str) -> Option<Vec<String>> {
    let (_, setting) = read_config(&UnixPath::new(CONFIG), contents.as_bytes()).unwrap();
    title_values(&setting).unwrap()
}

#[test]
fn the_title_is_read_from_toml() {
    assert_eq!(values(""), None);
    assert_eq!(
        values("[tui]\nterminal_title = [\"a\", \"b\"]\n"),
        Some(vec!["a".to_owned(), "b".to_owned()])
    );
    let (_, setting) = read_config(&UnixPath::new(CONFIG), b"tui = 1\n").unwrap();
    assert!(title_values(&setting).is_err());
    assert!(read_config(&UnixPath::new(CONFIG), b"= broken").is_err());
    assert!(read_config(&UnixPath::new(CONFIG), &[0xff]).is_err());
}

#[test]
fn the_title_is_found_by_its_keys() {
    let shape = |contents: &str| title::read_setting(contents).unwrap();
    assert!(matches!(shape("terminal_title = [\"a\"]\n"), title::TitleSetting::Unset));
    assert!(matches!(shape("[tui]\ntitle = [\"a\"]\n"), title::TitleSetting::Unset));
    assert!(matches!(shape("tui = 3\n"), title::TitleSetting::TuiNotATable));
    assert!(matches!(shape("[[tui]]\nx = 1\n"), title::TitleSetting::TuiNotATable));
    assert!(matches!(
        shape("tui = { terminal_title = \"a\" }\n"),
        title::TitleSetting::TitleNotAnArray
    ));
    let title::TitleSetting::Entries(entries) = shape("tui.terminal_title = [\"a\", 3]\n") else {
        panic!("an array");
    };
    assert_eq!(entries, vec![Some("a".to_owned()), None]);
    assert!(title::read_setting("tui = \n").is_err());

    let only = "tui.terminal_title = [\"thread-id\"]\n";
    let state = SavedState { config_path: UnixPath::new(CONFIG), previous: None };
    let removed = title::uninstall(&state, &Some(only.as_bytes().to_vec())).unwrap();
    assert!(matches!(shape(&removed), title::TitleSetting::Unset));
}

#[test]
fn the_title_is_read_back_wherever_it_was_written() {
    for before in [
        "",
        "model = \"x\"\n[other]\ny = 1\n",
        "[tui]\n",
        "[tui.notifications]\na = 1\n",
        "[a]\nb = 1\n[tui.notifications]\na = 1\n[z]\n",
        "tui = { theme = \"dark\" }\n",
        "tui = {}\n",
        "tui.theme = \"dark\"\n",
        "tui.terminal_title = []\n",
        "[tui]\r\nterminal_title = [\"a\"] # kept\r\n",
        "\"tui\" = { 'terminal_title' = [\"a\\n\", \"\\u00e9\"] }\n",
    ] {
        let bytes = Some(before.as_bytes().to_vec());
        let previous = title_values(&title::read_setting(before).unwrap()).unwrap();
        let plan = title::install(&UnixPath::new(CONFIG), &bytes, None).unwrap();
        assert_eq!(plan.state.previous, previous, "{before}");
        assert_eq!(
            title_values(&title::read_setting(&plan.replacement).unwrap()).unwrap(),
            Some(vec!["thread-id".to_owned()]),
            "{before}"
        );
        let owned = Some(plan.replacement.into_bytes());
        let restored = title::uninstall(&plan.state, &owned).unwrap();
        assert_eq!(
            title_values(&title::read_setting(&restored).unwrap()).unwrap(),
            previous,
            "{before}"
        );
    }
}

#[test]
fn owning_the_title_keeps_the_rest_of_the_configuration() {
    let before = "# kept\nmodel = \"x\"\n\n[tui]\nterminal_title = [\"mine\"]\n";
    let plan =
        title::install(&UnixPath::new(CONFIG), &Some(before.as_bytes().to_vec()), None).unwrap();
    assert!(plan.changed);
    assert!(plan.replacement.contains("# kept\nmodel = \"x\""));
    assert_eq!(values(&plan.replacement), Some(vec!["thread-id".to_owned()]));
    assert_eq!(plan.state.previous, Some(vec!["mine".to_owned()]));

    let back =
        title::uninstall(&plan.state, &Some(plan.replacement.clone().into_bytes())).unwrap();
    assert_eq!(values(&back), Some(vec!["mine".to_owned()]));
    assert!(title::status(&plan.state, &Some(plan.replacement.into_bytes())).unwrap());
}

#[test]
fn a_missing_configuration_gets_only_the_title() {
    let plan = title::install(&UnixPath::new(CONFIG), &None, None).unwrap();
    assert_eq!(values(&plan.replacement), Some(vec!["thread-id".to_owned()]));
    assert_eq!(plan.state.previous, None);
    let back =
        title::uninstall(&plan.state, &Some(plan.replacement.into_bytes())).unwrap();
    assert_eq!(values(&back), None);
}

#[test]
fn a_drifted_title_is_left_alone() {
    let state =
        SavedState { config_path: UnixPath::new(CONFIG), previous: Some(vec!["a".to_owned()]) };
    let drifted = Some(b"[tui]\nterminal_title = [\"else\"]\n".to_vec());
    assert!(title::uninstall(&state, &drifted).unwrap_err().to_text().contains("drifted"));
    assert!(title::install(&UnixPath::new(CONFIG), &drifted, Some(Ok(state))).is_err());
    let elsewhere =
        SavedState { config_path: UnixPath::new("/other"), previous: None };
    let owned = Some(b"[tui]\nterminal_title = [\"thread-id\"]\n".to_vec());
    assert!(title::install(&UnixPath::new(CONFIG), &owned, Some(Ok(elsewhere)))
        .unwrap_err()
        .to_text()
        .contains("different config file"));
}

#[test]
fn both_files_change_and_change_back() {
    let mut disk = FakeFiles::new();
    let config = disk.put(CONFIG, "before\n");
    let mut files = LoggedOwned::new(disk);
    let done = transaction::install(
        &mut files,
        &UnixPath::new(CONFIG),
        &UnixPath::new(STATE),
        Some(config),
        None,
        "after\n",
        &b"kept\n".to_vec(),
        true,
    )
    .unwrap();
    assert!(done.changed());
    assert_eq!(files.inner().text(CONFIG), Some("after\n".to_owned()));
    assert_eq!(files.inner().text(STATE), Some("kept\n".to_owned()));
    done.rollback(&mut files).unwrap();
    assert_eq!(files.inner().text(CONFIG), Some("before\n".to_owned()));
    assert_eq!(files.inner().text(STATE), None);
}

#[test]
fn a_configuration_that_changed_takes_the_kept_file_back() {
    let mut disk = FakeFiles::new();
    let config = disk.put(CONFIG, "before\n");
    disk.put(CONFIG, "else\n");
    let mut files = LoggedOwned::new(disk);
    let error = transaction::install(
        &mut files,
        &UnixPath::new(CONFIG),
        &UnixPath::new(STATE),
        Some(config),
        None,
        "after\n",
        &b"kept\n".to_vec(),
        true,
    )
    .unwrap_err()
    .to_text();
    assert!(error.contains("changed concurrently; refusing to overwrite it"));
    assert_eq!(files.inner().text(CONFIG), Some("else\n".to_owned()));
    assert_eq!(files.inner().text(STATE), None);
}

#[test]
fn removing_gives_the_configuration_back() {
    let mut disk = FakeFiles::new();
    let config = disk.put(CONFIG, "owned\n");
    let state = disk.put(STATE, "kept\n");
    let mut files = LoggedOwned::new(disk);
    transaction::uninstall(
        &mut files,
        &UnixPath::new(CONFIG),
        &UnixPath::new(STATE),
        &config,
        &state,
        "mine\n",
    )
    .unwrap();
    assert_eq!(files.inner().text(CONFIG), Some("mine\n".to_owned()));
    assert_eq!(files.inner().text(STATE), None);

    let mut disk = FakeFiles::new();
    let config = disk.put(CONFIG, "owned\n");
    let state = disk.put(STATE, "kept\n");
    disk.put(STATE, "else\n");
    let mut files = LoggedOwned::new(disk);
    assert!(transaction::uninstall(
        &mut files,
        &UnixPath::new(CONFIG),
        &UnixPath::new(STATE),
        &config,
        &state,
        "mine\n",
    )
    .is_err());
    assert_eq!(files.inner().text(CONFIG), Some("owned\n".to_owned()));
    assert_eq!(files.inner().text(STATE), Some("else\n".to_owned()));
}

#[test]
fn the_files_stand_in_the_usual_places() {
    assert_eq!(
        codex_config_path(&None, &Some(UnixPath::new("/home/me"))).unwrap(),
        UnixPath::new("/home/me/.codex/config.toml")
    );
    assert_eq!(
        codex_config_path(&Some(UnixPath::new("/codex")), &None).unwrap(),
        UnixPath::new("/codex/config.toml")
    );
    assert!(codex_config_path(&None, &None).is_err());
    assert!(state_path(&None, &None).is_err());
}

// ---------------------------------------------------------------------------
// From end to end
// ---------------------------------------------------------------------------

/// Keeps the configuration path and the titles on lines of their own.
struct LineFormat;

impl StateFormat for LineFormat {
    fn parse(&mut self, contents: &String) -> Result<SavedState, String> {
        let mut lines = contents.lines();
        let path = lines.next().ok_or_else(|| "no path".to_owned())?;
        let titles: Vec<String> = lines.map(str::to_owned).collect();
        Ok(SavedState {
            config_path: UnixPath::new(path),
            previous: if titles.is_empty() { None } else { Some(titles) },
        })
    }

    fn render(&mut self, state: &SavedState) -> Result<String, String> {
        let mut text = state.config_path.display();
        for title in state.previous.iter().flatten() {
            text.push('\n');
            text.push_str(title);
        }
        Ok(text)
    }
}

fn line_format() -> LoggedFormat<LineFormat> {
    LoggedFormat::new(LineFormat)
}

fn contents(files: &LoggedOwned<FakeFiles>, path: &str) -> Option<String> {
    let file = files.inner().files.get(path.as_bytes())?;
    Some(String::from_utf8(file.bytes.clone()).unwrap())
}

#[test]
fn a_title_is_set_up_and_given_back() {
    let (config, state) = (UnixPath::new(CONFIG), UnixPath::new(STATE));
    let original = "# mine\n[tui]\nterminal_title = [\"project\"]\n";
    let mut disk = FakeFiles::new();
    disk.create(&config, &original.as_bytes().to_vec(), 0o640).unwrap();
    let mut files = LoggedOwned::new(disk);
    let place = Some(state.clone());
    assert_eq!(integration::status(&place, &mut line_format(), &mut files).unwrap(), None);
    assert_eq!(integration::status(&None, &mut line_format(), &mut files).unwrap(), None);

    let installed =
        integration::install(&config, &state, &mut line_format(), &mut files).ok().unwrap();
    assert!(installed.changed());
    assert!(contents(&files, CONFIG).unwrap().contains("\"thread-id\""));
    assert_eq!(contents(&files, STATE).unwrap(), format!("{CONFIG}\nproject"));
    assert_eq!(integration::status(&place, &mut line_format(), &mut files).unwrap(), Some(true));

    // A second time, what was set first is still kept.
    let again =
        integration::install(&config, &state, &mut line_format(), &mut files).ok().unwrap();
    assert!(!again.changed());
    assert_eq!(contents(&files, STATE).unwrap(), format!("{CONFIG}\nproject"));

    assert!(integration::uninstall(&state, &mut line_format(), &mut files).unwrap());
    assert_eq!(contents(&files, CONFIG).unwrap(), original);
    assert_eq!(contents(&files, STATE), None);
    assert!(!integration::uninstall(&state, &mut line_format(), &mut files).unwrap());
}

#[test]
fn a_title_that_drifted_is_left_alone() {
    let (config, state) = (UnixPath::new(CONFIG), UnixPath::new(STATE));
    let mut disk = FakeFiles::new();
    disk.create(&config, &b"[tui]\nterminal_title = [\"other\"]\n".to_vec(), 0o640).unwrap();
    disk.create(&state, &CONFIG.as_bytes().to_vec(), 0o600).unwrap();
    let mut files = LoggedOwned::new(disk);
    let place = Some(state.clone());
    assert_eq!(integration::status(&place, &mut line_format(), &mut files).unwrap(), Some(false));
    let refused = integration::uninstall(&state, &mut line_format(), &mut files).unwrap_err();
    assert!(refused.to_text().contains("drifted"));
    assert!(integration::install(&config, &state, &mut line_format(), &mut files)
        .err()
        .unwrap()
        .to_text()
        .contains("drifted"));
    assert!(contents(&files, CONFIG).unwrap().contains("other"));

    let mut disk = FakeFiles::new();
    disk.create(&state, &CONFIG.as_bytes().to_vec(), 0o600).unwrap();
    let mut files = LoggedOwned::new(disk);
    let missing = integration::status(&place, &mut line_format(), &mut files).unwrap_err();
    assert!(missing.to_text().contains("managed Codex config /home/me/config.toml is missing"));
    assert!(integration::uninstall(&state, &mut line_format(), &mut files).is_err());

    let mut disk = FakeFiles::new();
    disk.create(&state, &vec![0xff], 0o600).unwrap();
    let mut files = LoggedOwned::new(disk);
    let unreadable = integration::status(&place, &mut line_format(), &mut files).unwrap_err();
    assert!(unreadable.to_text().contains("is not valid UTF-8"));
    let mut disk = FakeFiles::new();
    disk.create(&state, &Vec::new(), 0o600).unwrap();
    let mut files = LoggedOwned::new(disk);
    let unparsed = integration::status(&place, &mut line_format(), &mut files).unwrap_err();
    assert!(unparsed.to_text().contains("no path"));
}
