//! Host files written in steps, on a disk in memory.

use codex_mux::app::preference::{PreferenceProbe, PreferenceSnapshot};
use codex_mux::config::{
    ConfigFile, FileProbe, LaunchProfile, MatchScope, ProcessSettings, XdgThemeStore,
};
use codex_mux::domain::ThemeId;
use codex_mux::error::MuxError;
use codex_mux::files::HostFiles;
use codex_mux::install::failure::InstallError;
use codex_mux::path::UnixPath;
use codex_mux::replace::{Creation, FileSteps, Removal};
use codex_mux::step_log::LoggedSteps;
use codex_mux::settings::{SettingsHost, SettingsRead};
use codex_mux::settings_port::SettingsPort;

#[derive(Clone, Copy, PartialEq)]
enum Fault {
    Nothing,
    Create,
    Mode,
    Write,
    Sync,
    Rename,
    Directory,
    Remove,
    Parents,
}

struct Entry {
    path: UnixPath,
    bytes: Vec<u8>,
    mode: u32,
}

struct MemoryDisk {
    files: Vec<Entry>,
    open: Option<UnixPath>,
    fault: Fault,
    synced: Vec<UnixPath>,
}

impl MemoryDisk {
    fn holding(path: &str, bytes: &[u8]) -> MemoryDisk {
        MemoryDisk {
            files: vec![Entry { path: UnixPath::new(path), bytes: bytes.to_vec(), mode: 0o644 }],
            open: None,
            fault: Fault::Nothing,
            synced: Vec::new(),
        }
    }

    fn place(&self, path: &UnixPath) -> Option<usize> {
        self.files.iter().position(|entry| &entry.path == path)
    }

    fn fails(&self, fault: Fault, text: &str) -> Result<(), String> {
        if self.fault == fault {
            Err(text.to_owned())
        } else {
            Ok(())
        }
    }

    fn opened(&mut self) -> &mut Entry {
        let path = self.open.clone().unwrap();
        let place = self.place(&path).unwrap();
        &mut self.files[place]
    }

    fn names(&self) -> Vec<String> {
        self.files.iter().map(|entry| entry.path.display()).collect()
    }
}

impl FileSteps for MemoryDisk {
    fn nonce(&mut self) -> String {
        "17".to_owned()
    }

    fn make_directories(&mut self, _path: &UnixPath) -> Result<(), String> {
        self.fails(Fault::Parents, "injected directory failure")
    }

    fn create(&mut self, path: &UnixPath, mode: u32) -> Creation {
        if self.fault == Fault::Create {
            return Creation::Failed("injected create failure".to_owned());
        }
        if self.place(path).is_some() {
            return Creation::Exists("file exists".to_owned());
        }
        self.files.push(Entry { path: path.clone(), bytes: Vec::new(), mode });
        self.open = Some(path.clone());
        Creation::Created
    }

    fn set_mode(&mut self, mode: u32) -> Result<(), String> {
        self.fails(Fault::Mode, "injected mode failure")?;
        self.opened().mode = mode;
        Ok(())
    }

    fn write(&mut self, bytes: &Vec<u8>) -> Result<(), String> {
        self.fails(Fault::Write, "injected write failure")?;
        self.opened().bytes = bytes.clone();
        Ok(())
    }

    fn sync(&mut self) -> Result<(), String> {
        self.fails(Fault::Sync, "injected sync failure")
    }

    fn rename(&mut self, from: &UnixPath, to: &UnixPath) -> Result<(), String> {
        self.fails(Fault::Rename, "injected rename failure")?;
        if let Some(old) = self.place(to) {
            self.files.remove(old);
        }
        let place = self.place(from).unwrap();
        self.files[place].path = to.clone();
        Ok(())
    }

    fn sync_directory(&mut self, path: &UnixPath) -> Result<(), String> {
        self.fails(Fault::Directory, "injected directory sync failure")?;
        self.synced.push(path.clone());
        Ok(())
    }

    fn remove(&mut self, path: &UnixPath) -> Removal {
        if self.fault == Fault::Remove {
            return Removal::Failed("injected removal failure".to_owned());
        }
        match self.place(path) {
            Some(place) => {
                self.files.remove(place);
                Removal::Removed
            }
            None => Removal::Missing,
        }
    }
}

const TARGET: &str = "/home/me/tmux.conf";

fn disk(fault: Fault) -> LoggedSteps<MemoryDisk> {
    let mut disk = MemoryDisk::holding(TARGET, b"original bytes\n");
    disk.fault = fault;
    LoggedSteps::new(disk)
}

#[test]
fn failed_rename_keeps_original_and_removes_temporary_file() {
    let mut steps = disk(Fault::Rename);
    let error = steps
        .atomic_replace_with(&UnixPath::new(TARGET), &b"replacement\n".to_vec(), 0o600)
        .err()
        .unwrap();
    assert!(!error.committed());
    assert!(error.into_error().to_text().contains("injected rename failure"));
    assert_eq!(steps.inner().files[0].bytes, b"original bytes\n");
    assert_eq!(steps.inner().names(), vec![TARGET.to_owned()]);
}

#[test]
fn a_replacement_takes_the_bytes_the_mode_and_the_name() {
    let mut steps = disk(Fault::Nothing);
    let target = UnixPath::new(TARGET);
    assert!(steps.atomic_replace(&target, &b"replacement\n".to_vec(), 0o100600).is_ok());
    assert_eq!(steps.inner().names(), vec![TARGET.to_owned()]);
    assert_eq!(steps.inner().files[0].bytes, b"replacement\n");
    assert_eq!(steps.inner().files[0].mode, 0o600);
    assert_eq!(steps.inner().synced, vec![UnixPath::new("/home/me")]);
}

#[test]
fn every_failed_step_of_a_replacement_is_reported() {
    let faults = [
        (Fault::Create, "injected create failure", false),
        (Fault::Mode, "injected mode failure", false),
        (Fault::Write, "injected write failure", false),
        (Fault::Sync, "injected sync failure", false),
        (Fault::Directory, "injected directory sync failure", true),
    ];
    for (fault, text, committed) in faults {
        let mut steps = disk(fault);
        let target = UnixPath::new(TARGET);
        let failure =
            steps.atomic_replace_with(&target, &b"new".to_vec(), 0o600).err().unwrap();
        assert_eq!(failure.committed(), committed);
        assert_eq!(
            failure.into_error().to_text(),
            format!("filesystem operation failed for {TARGET}: {text}")
        );
        let expected: &[u8] = if committed { b"new" } else { b"original bytes\n" };
        assert_eq!(steps.inner().files[0].bytes, expected);
        assert_eq!(steps.inner().names(), vec![TARGET.to_owned()]);
    }
}

#[test]
fn a_taken_temporary_name_is_left_alone() {
    let mut disk = MemoryDisk::holding(TARGET, b"original");
    disk.files.push(Entry {
        path: UnixPath::new("/home/me/.tmux.conf.codex-mux.17.tmp"),
        bytes: b"of another process".to_vec(),
        mode: 0o600,
    });
    let mut steps = LoggedSteps::new(disk);
    let failure = steps
        .atomic_replace_with(&UnixPath::new(TARGET), &b"new".to_vec(), 0o600)
        .err()
        .unwrap();
    assert!(!failure.committed());
    assert!(failure.into_error().to_text().contains("file exists"));
    assert_eq!(steps.inner().files[1].bytes, b"of another process");
}

#[test]
fn a_path_without_a_parent_or_a_name_is_refused() {
    for (path, reason) in
        [("/", "path has no parent directory"), ("/home/..", "path has no file name")]
    {
        let mut steps = disk(Fault::Nothing);
        let failure = steps
            .atomic_replace_with(&UnixPath::new(path), &b"new".to_vec(), 0o600)
            .err()
            .unwrap();
        assert!(!failure.committed());
        assert!(matches!(
            failure.into_error(),
            InstallError::UnsafePath { reason: found, .. } if found == reason
        ));
    }
}

#[test]
fn a_backup_takes_the_first_free_name() {
    let mut steps = disk(Fault::Nothing);
    let target = UnixPath::new(TARGET);
    let first = steps.create_backup(&target, &b"one".to_vec(), 0o640).ok().unwrap();
    let second = steps.create_backup(&target, &b"two".to_vec(), 0o640).ok().unwrap();
    assert_eq!(first, UnixPath::new("/home/me/tmux.codex-mux.bak"));
    assert_eq!(second, UnixPath::new("/home/me/tmux.codex-mux.bak.1"));
    assert_eq!(steps.inner().files[1].bytes, b"one");
    assert_eq!(steps.inner().files[2].bytes, b"two");
    assert_eq!(steps.inner().files[2].mode, 0o640);

    let mut broken = disk(Fault::Write);
    let error = broken.create_backup(&target, &b"one".to_vec(), 0o640).err().unwrap();
    assert_eq!(
        error.to_text(),
        "filesystem operation failed for /home/me/tmux.codex-mux.bak: injected write failure"
    );
    let mut broken = disk(Fault::Create);
    assert!(broken.create_backup(&target, &b"one".to_vec(), 0o640).is_err());
}

#[test]
fn a_thousand_backups_are_enough() {
    let mut disk = MemoryDisk::holding(TARGET, b"original");
    for attempt in 0..1000 {
        let path = if attempt == 0 {
            "/home/me/tmux.codex-mux.bak".to_owned()
        } else {
            format!("/home/me/tmux.codex-mux.bak.{attempt}")
        };
        disk.files.push(Entry { path: UnixPath::new(&path), bytes: Vec::new(), mode: 0o600 });
    }
    let mut steps = LoggedSteps::new(disk);
    let error =
        steps.create_backup(&UnixPath::new(TARGET), &b"one".to_vec(), 0o640).err().unwrap();
    assert_eq!(
        error.to_text(),
        "configuration discovery failed: could not allocate a collision-safe backup name"
    );
}

#[test]
fn deleting_a_missing_file_succeeds() {
    let mut steps = disk(Fault::Nothing);
    assert!(HostFiles::remove(&mut steps, &UnixPath::new("/home/me/other")).is_ok());
    assert!(steps.inner().synced.is_empty());
    assert!(HostFiles::remove(&mut steps, &UnixPath::new(TARGET)).is_ok());
    assert!(steps.inner().files.is_empty());
    assert_eq!(steps.inner().synced, vec![UnixPath::new("/home/me")]);
    let mut broken = disk(Fault::Remove);
    let error = HostFiles::remove(&mut broken, &UnixPath::new(TARGET)).err().unwrap();
    assert!(error.to_text().contains("injected removal failure"));
    let mut broken = disk(Fault::Directory);
    let error = HostFiles::remove(&mut broken, &UnixPath::new(TARGET)).err().unwrap();
    assert!(error.to_text().contains("failed for /home/me: injected directory sync failure"));
}

const SETTINGS: &str = "/home/me/.config/codex-mux/config.toml";

fn settings_disk(fault: Fault) -> LoggedSteps<MemoryDisk> {
    let mut disk = MemoryDisk::holding(SETTINGS, b"old");
    disk.fault = fault;
    LoggedSteps::new(disk)
}

#[test]
fn saved_settings_are_private_and_replace_the_old_ones() {
    let store = XdgThemeStore::at(UnixPath::new(SETTINGS));
    let mut steps = settings_disk(Fault::Nothing);
    assert!(steps.save_atomic(&store, &Ok("new".to_owned()), 7, 3).is_ok());
    assert_eq!(steps.inner().names(), vec![SETTINGS.to_owned()]);
    assert_eq!(steps.inner().files[0].bytes, b"new");
    assert_eq!(steps.inner().files[0].mode, 0o600);
    let mut unsynced = settings_disk(Fault::Directory);
    assert!(unsynced.save_atomic(&store, &Ok("new".to_owned()), 7, 3).is_ok());
}

#[test]
fn a_failed_save_keeps_the_old_settings() {
    let store = XdgThemeStore::at(UnixPath::new(SETTINGS));
    let temporary = "/home/me/.config/codex-mux/.config.toml.7.3.tmp";
    let faults = [
        (Fault::Parents, "/home/me/.config/codex-mux", "injected directory failure"),
        (Fault::Create, temporary, "injected create failure"),
        (Fault::Write, temporary, "injected write failure"),
        (Fault::Sync, temporary, "injected sync failure"),
        (Fault::Rename, SETTINGS, "injected rename failure"),
    ];
    for (fault, path, text) in faults {
        let mut steps = settings_disk(fault);
        let error = steps.save_atomic(&store, &Ok("new".to_owned()), 7, 3).err().unwrap();
        assert_eq!(error.to_text(), format!("filesystem operation failed for {path}: {text}"));
        assert_eq!(steps.inner().names(), vec![SETTINGS.to_owned()]);
        assert_eq!(steps.inner().files[0].bytes, b"old");
    }
    let mut steps = settings_disk(Fault::Nothing);
    let error = steps.save_atomic(&store, &Err("bad path".to_owned()), 7, 3).err().unwrap();
    assert!(matches!(
        error,
        MuxError::Command(text) if text == "could not serialize configuration: bad path"
    ));
    let rootless = XdgThemeStore::at(UnixPath::new("/"));
    let error = steps.save_atomic(&rootless, &Ok(String::new()), 7, 3).err().unwrap();
    assert!(matches!(error, MuxError::InvalidValue { field: "theme configuration path", .. }));
}

#[test]
fn a_preference_snapshot_puts_the_file_back() {
    let path = UnixPath::new(SETTINGS);
    let probe = PreferenceProbe::Regular { contents: Ok(b"before".to_vec()), mode: 0o100640 };
    let snapshot = PreferenceSnapshot::read(&path, probe).ok().unwrap();
    let mut steps = settings_disk(Fault::Nothing);
    assert!(snapshot.restore(&mut steps).is_ok());
    assert_eq!(steps.inner().files[0].bytes, b"before");
    assert_eq!(steps.inner().files[0].mode, 0o640);
    let mut broken = settings_disk(Fault::Rename);
    let error = snapshot.restore(&mut broken).err().unwrap();
    assert!(matches!(
        error,
        MuxError::Command(text) if text.contains("injected rename failure")
    ));

    let absent = PreferenceSnapshot::read(&path, PreferenceProbe::Missing).ok().unwrap();
    assert!(absent.restore(&mut steps).is_ok());
    assert!(steps.inner().files.is_empty());
    assert!(absent.restore(&mut steps).is_ok());
    let mut broken = settings_disk(Fault::Remove);
    assert!(matches!(absent.restore(&mut broken), Err(MuxError::Filesystem { .. })));

    assert!(matches!(
        PreferenceSnapshot::read(&path, PreferenceProbe::Other),
        Err(MuxError::InvalidValue { field: "process configuration path", .. })
    ));
    assert!(PreferenceSnapshot::read(&path, PreferenceProbe::Unavailable("no".to_owned())).is_err());
    let unreadable = PreferenceProbe::Regular { contents: Err("no".to_owned()), mode: 0o600 };
    assert!(PreferenceSnapshot::read(&path, unreadable).is_err());
}

// ---------------------------------------------------------------------------
// Settings
// ---------------------------------------------------------------------------

/// A settings file in a format of its own: a theme, the naming preference and a profile
/// key in one line, and the launcher where there is one.
struct PlainSettings {
    contents: Option<String>,
    unreadable: bool,
    locked: bool,
    refuse_lock: bool,
    log: Vec<String>,
    rendered: Vec<String>,
}

fn plain_settings(contents: Option<&str>) -> PlainSettings {
    PlainSettings {
        contents: contents.map(str::to_owned),
        unreadable: false,
        locked: false,
        refuse_lock: false,
        log: Vec::new(),
        rendered: Vec::new(),
    }
}

type PlainPort = SettingsPort<PlainSettings, MemoryDisk>;

fn plain_on(contents: Option<&str>, fault: Fault) -> PlainPort {
    SettingsPort::new(plain_settings(contents), settings_disk(fault))
}

fn plain(contents: Option<&str>) -> PlainPort {
    plain_on(contents, Fault::Nothing)
}

/// What the settings file holds.
fn held(host: &PlainPort) -> &[u8] {
    &host.steps().inner().files[0].bytes
}

fn process_settings(launch: &str, matches: &[&str]) -> ProcessSettings {
    ProcessSettings {
        launch_executable: UnixPath::new(launch),
        match_executables: matches.iter().map(|path| UnixPath::new(path)).collect(),
        pane_commands: vec!["codex".to_owned()],
        match_scope: MatchScope::Foreground,
        match_command_regexes: Vec::new(),
        pane_command_regexes: Vec::new(),
    }
}

impl SettingsHost for PlainSettings {
    fn read(&mut self, path: &UnixPath) -> SettingsRead {
        assert_eq!(*path, UnixPath::new(SETTINGS));
        if self.unreadable {
            return SettingsRead::Failed("permission denied".to_owned());
        }
        match &self.contents {
            Some(contents) => SettingsRead::Text(contents.clone()),
            None => SettingsRead::Missing,
        }
    }

    fn parse(&mut self, contents: &String) -> Result<ConfigFile, String> {
        let words: Vec<&str> = contents.split(' ').collect();
        let (theme, naming, key, launch) = match words[..] {
            [theme, naming, key] => (theme, naming, key, None),
            [theme, naming, key, launch] => (theme, naming, key, Some(launch)),
            _ => return Err("three words expected".to_owned()),
        };
        let mut profile = LaunchProfile::standard();
        profile.key = key.chars().next().unwrap();
        Ok(ConfigFile {
            theme: ThemeId::from_str(theme).map_err(|error| error.to_text())?,
            profiles: vec![profile],
            smart_naming: naming == "on",
            process: launch.map(|launch| process_settings(launch, &[launch])),
        })
    }

    fn render(&mut self, config: &ConfigFile) -> Result<String, String> {
        let mut rendered = format!(
            "{} {} {}",
            config.theme.as_str(),
            if config.smart_naming { "on" } else { "off" },
            config.profiles[0].key
        );
        if let Some(process) = &config.process {
            rendered = format!("{rendered} {}", process.launch_executable.display());
        }
        self.rendered.push(rendered.clone());
        Ok(rendered)
    }

    fn probe(&mut self, location: &UnixPath) -> FileProbe {
        self.log.push(format!("probe {}", location.display()));
        FileProbe::Found { is_file: true, mode: 0o755 }
    }

    fn lock(&mut self, directory: &UnixPath) -> Result<(), String> {
        if self.refuse_lock {
            return Err("no locks available".to_owned());
        }
        self.log.push(format!("lock {}", directory.display()));
        self.locked = true;
        Ok(())
    }

    fn unlock(&mut self) {
        self.log.push("unlock".to_owned());
        self.locked = false;
    }

    fn save_number(&mut self) -> (u32, u64) {
        assert!(self.locked);
        (7, 3)
    }
}

fn settings_store() -> XdgThemeStore {
    XdgThemeStore::at(UnixPath::new(SETTINGS))
}

#[test]
fn a_preference_falls_back_with_a_warning() {
    let store = settings_store();
    let saved = store.load_preference(&mut plain(Some("ember-orange on 1")));
    assert!(saved.was_saved && saved.smart_naming && saved.warning.is_none());
    assert_eq!(saved.selected.as_str(), "ember-orange");
    assert_eq!(saved.profiles[0].key, '1');

    let first = store.load_preference(&mut plain(None));
    assert!(!first.was_saved && !first.smart_naming && first.warning.is_none());
    assert_eq!(first.profiles.len(), 2);

    let broken = store.load_preference(&mut plain(Some("nonsense")));
    assert!(!broken.was_saved);
    assert_eq!(
        broken.warning.unwrap(),
        format!(
            "could not load configuration at {SETTINGS}: command failed: could not parse \
             {SETTINGS}: three words expected; using adaptive-cyan"
        )
    );
    // A reserved profile key is not accepted.
    let invalid = store.load_preference(&mut plain(Some("ember-orange on q")));
    assert!(invalid.warning.unwrap().contains("reserved or unsupported"));
    assert!(matches!(store.load(&mut plain(Some("ember-orange on 1"))), Ok(Some(theme))
        if theme.as_str() == "ember-orange"));
    assert!(matches!(store.load(&mut plain(Some("ember-orange on q"))), Ok(None)));

    let hidden = PlainSettings { unreadable: true, ..plain_settings(None) };
    let mut unreadable = SettingsPort::new(hidden, settings_disk(Fault::Nothing));
    let warned = store.load_preference(&mut unreadable);
    assert!(warned.warning.unwrap().contains("permission denied"));
}

#[test]
fn one_setting_changes_and_the_others_stay() {
    let store = settings_store();
    let mut host = plain(Some("ember-orange on 1"));
    assert!(store.save(ThemeId::Monochrome, &mut host).is_ok());
    assert_eq!(held(&host), b"monochrome on 1");
    assert_eq!(host.inner().log, ["lock /home/me/.config/codex-mux", "unlock"]);

    let mut host = plain(Some("ember-orange on 1"));
    assert!(store.save_smart_naming(false, &mut host).is_ok());
    assert_eq!(held(&host), b"ember-orange off 1");

    let mut profile = LaunchProfile::standard();
    profile.key = '2';
    let mut host = plain(Some("ember-orange on 1"));
    assert!(store.save_profiles(vec![profile], &mut host).is_ok());
    assert_eq!(held(&host), b"ember-orange on 2");

    let process = process_settings("/opt/codex", &["/opt/a", "/opt/b"]);
    let mut host = plain(Some("ember-orange on 1"));
    assert!(store.save_process(process, &mut host).is_ok());
    assert_eq!(
        host.inner().log,
        [
            "probe /opt/a",
            "probe /opt/b",
            "probe /opt/codex",
            "lock /home/me/.config/codex-mux",
            "unlock",
        ]
    );
}

#[test]
fn what_was_saved_is_loaded_again() {
    let store = settings_store();
    let mut host = plain(Some("ember-orange on 1"));
    assert!(store.save(ThemeId::Monochrome, &mut host).is_ok());
    let written = String::from_utf8(held(&host).to_vec()).unwrap();
    let loaded = store.load_preference(&mut plain(Some(&written)));
    assert!(loaded.was_saved && loaded.smart_naming && loaded.warning.is_none());
    assert_eq!(loaded.selected.as_str(), "monochrome");
    assert_eq!(loaded.profiles[0].key, '1');

    let before = "ember-orange on 1 /opt/codex";
    let mut profile = LaunchProfile::standard();
    profile.key = '2';
    for step in 0..3 {
        let mut host = plain(Some(before));
        match step {
            0 => store.save_profiles(vec![profile.clone()], &mut host),
            1 => store.save_smart_naming(false, &mut host),
            _ => store.save_process(process_settings("/opt/b", &["/opt/b"]), &mut host),
        }
        .ok()
        .unwrap();
        let written = String::from_utf8(held(&host).to_vec()).unwrap();
        let loaded = store.load_preference(&mut plain(Some(&written)));
        assert!(loaded.was_saved && loaded.warning.is_none());
        assert_eq!(loaded.selected.as_str(), "ember-orange");
        assert_eq!(loaded.profiles[0].key, if step == 0 { '2' } else { '1' });
        assert_eq!(loaded.smart_naming, step != 1);
        let launch = if step == 2 { "/opt/b" } else { "/opt/codex" };
        assert_eq!(loaded.process.unwrap().launch_executable, UnixPath::new(launch));
    }
}

#[test]
fn refused_changes_leave_the_settings_alone() {
    let store = settings_store();
    // New profiles may replace invalid ones; no other change may.
    let mut host = plain(Some("ember-orange on q"));
    assert!(store.save(ThemeId::Monochrome, &mut host).is_err());
    assert!(store.save_smart_naming(false, &mut host).is_err());
    assert_eq!(held(&host), b"old");
    assert!(!host.inner().locked);
    assert!(store.save_profiles(vec![LaunchProfile::standard()], &mut host).is_ok());

    // Invalid profiles are refused before anything is touched.
    let mut host = plain(Some("ember-orange on 1"));
    assert!(store.save_profiles(Vec::new(), &mut host).is_err());
    assert!(host.inner().log.is_empty());

    let mut host = plain_on(Some("ember-orange on 1"), Fault::Rename);
    assert!(store.save(ThemeId::Monochrome, &mut host).is_err());
    assert_eq!(held(&host), b"old");
    assert!(!host.inner().locked);

    let mut host = plain_on(Some("ember-orange on 1"), Fault::Parents);
    let error = store.save(ThemeId::Monochrome, &mut host).err().unwrap();
    assert!(error.to_text().contains("/home/me/.config/codex-mux: injected directory failure"));

    let refusing = PlainSettings { refuse_lock: true, ..plain_settings(None) };
    let mut unlockable = SettingsPort::new(refusing, settings_disk(Fault::Nothing));
    let error = store.save(ThemeId::Monochrome, &mut unlockable).err().unwrap();
    assert!(error.to_text().contains("no locks available"));
    assert!(unlockable.inner().rendered.is_empty());
    assert_eq!(held(&unlockable), b"old");
}
