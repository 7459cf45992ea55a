//! The terminal title setting of Codex, owned while this program is set up.

use vstd::prelude::*;
use crate::codex_config::document;
use crate::codex_config::document::{
    entries, is_array, is_table, member, parse_document, remove_entry, set_strings, TomlModel,
};
use crate::domain;
use crate::error;
use crate::error::{command_error, ErrorModel, MuxError};
use crate::path;
use crate::path::UnixPath;
use crate::text;
use crate::text::{read_utf8, text_equal};

verus! {

/// The title that shows the thread of a session.
pub const OWNED_TITLE: &'static str = "thread-id";

// ---------------------------------------------------------------------------
// The setting inside a configuration text
// ---------------------------------------------------------------------------

/// The setting `tui.terminal_title` of a configuration.
#[derive(Debug)]
pub enum TitleSetting {
    /// There is no `tui`, or it has no title.
    Unset,
    /// `tui` is something else than a table.
    TuiNotATable,
    /// The title is something else than an array.
    TitleNotAnArray,
    /// The entries of the title, `None` for one that is no string.
    Entries(Vec<Option<String>>),
}

#[verifier::ext_equal]
pub enum SettingModel {
    Unset,
    TuiNotATable,
    TitleNotAnArray,
    Entries(Seq<Option<Seq<char>>>),
}

impl View for TitleSetting {
    type V = SettingModel;

    open spec fn view(&self) -> SettingModel {
        match self {
            TitleSetting::Unset => SettingModel::Unset,
            TitleSetting::TuiNotATable => SettingModel::TuiNotATable,
            TitleSetting::TitleNotAnArray => SettingModel::TitleNotAnArray,
            TitleSetting::Entries(entries) => SettingModel::Entries(document::entry_list(entries@)),
        }
    }
}

/// The table that holds the setting.
pub const TUI_TABLE: &'static str = "tui";

/// The setting in that table.
pub const TITLE_KEY: &'static str = "terminal_title";

/// The title setting in the document at `root`.
pub open spec fn title_setting(root: TomlModel) -> SettingModel {
    match document::member_of(root, TUI_TABLE@) {
        None => SettingModel::Unset,
        Some(tui) => if !(tui is Table) {
            SettingModel::TuiNotATable
        } else {
            match document::member_of(tui, TITLE_KEY@) {
                None => SettingModel::Unset,
                Some(TomlModel::Array(entries)) => SettingModel::Entries(entries),
                Some(_) => SettingModel::TitleNotAnArray,
            }
        },
    }
}

/// The title setting of a configuration text, or the message of its parse error.
pub open spec fn title_shape(contents: Seq<char>) -> Result<SettingModel, Seq<char>> {
    match document::parsed(contents) {
        Ok(root) => Ok(title_setting(root)),
        Err(message) => Err(message),
    }
}

/// The configuration text with the title set.
pub open spec fn titled_text(contents: Seq<char>, values: Seq<Seq<char>>) -> Seq<char> {
    document::text_with(contents, TUI_TABLE@, TITLE_KEY@, values)
}

/// The configuration text with the title taken out.
pub open spec fn untitled_text(contents: Seq<char>) -> Seq<char> {
    document::text_without(contents, TUI_TABLE@, TITLE_KEY@)
}

/// The title setting in the document at `root`.
fn find_title(root: &toml_edit::Item) -> (r: TitleSetting)
    requires
        document::held(*root) is Table,
    ensures
        r@ == title_setting(document::held(*root)),
{
    let tui = match member(root, TUI_TABLE) {
        Some(tui) => tui,
        None => return TitleSetting::Unset,
    };
    if !is_table(tui) {
        return TitleSetting::TuiNotATable;
    }
    let item = match member(tui, TITLE_KEY) {
        Some(item) => item,
        None => return TitleSetting::Unset,
    };
    if !is_array(item) {
        return TitleSetting::TitleNotAnArray;
    }
    TitleSetting::Entries(entries(item))
}

/// Reads the title setting of a configuration text, or says why it does not parse.
pub fn read_setting(contents: &str) -> (r: Result<TitleSetting, String>)
    ensures
        match r {
            Ok(setting) => title_shape(contents@) is Ok && title_shape(contents@)->Ok_0
                == setting@,
            Err(message) => title_shape(contents@) is Err && title_shape(contents@)->Err_0
                == message@,
        },
{
    match parse_document(contents) {
        Ok(root) => Ok(find_title(&root)),
        Err(message) => Err(message),
    }
}

/// A configuration text with the title set to some strings. Reading it gives them back.
fn write_setting(contents: &str, values: &Vec<String>) -> (r: String)
    requires
        title_shape(contents@) is Ok,
        !(title_shape(contents@)->Ok_0 is TuiNotATable),
    ensures
        r@ == titled_text(contents@, text::texts(values@)),
        title_shape(r@) is Ok && title_shape(r@)->Ok_0 == SettingModel::Entries(
            document::all_strings(text::texts(values@)),
        ),
{
    set_strings(contents, TUI_TABLE, TITLE_KEY, values)
}

/// A configuration text with the title taken out. Reading it finds none.
fn remove_setting(contents: &str) -> (r: String)
    requires
        title_shape(contents@) is Ok,
        title_shape(contents@)->Ok_0 is Entries,
    ensures
        r@ == untitled_text(contents@),
        title_shape(r@) is Ok && title_shape(r@)->Ok_0 == SettingModel::Unset,
{
    remove_entry(contents, TUI_TABLE, TITLE_KEY)
}

// ---------------------------------------------------------------------------
// Its value
// ---------------------------------------------------------------------------

pub open spec fn strings_of(entries: Seq<Option<Seq<char>>>) -> Seq<Seq<char>> {
    Seq::new(entries.len(), |i: int| entries[i]->0)
}

pub open spec fn only_strings(entries: Seq<Option<Seq<char>>>) -> bool {
    forall|i: int| 0 <= i < entries.len() ==> (#[trigger] entries[i]) is Some
}

/// The value of a setting: no title, its strings, or why it is not supported.
pub open spec fn setting_values(setting: SettingModel) -> Result<
    Option<Seq<Seq<char>>>,
    ErrorModel,
> {
    match setting {
        SettingModel::Unset => Ok(None),
        SettingModel::TuiNotATable => Err(
            ErrorModel::Command("Codex tui setting must be a table"@),
        ),
        SettingModel::TitleNotAnArray => Err(
            ErrorModel::Command("Codex tui.terminal_title must be an array of strings"@),
        ),
        SettingModel::Entries(entries) => if only_strings(entries) {
            Ok(Some(strings_of(entries)))
        } else {
            Err(ErrorModel::Command("Codex tui.terminal_title must contain only strings"@))
        },
    }
}

pub open spec fn values_view(values: Option<Vec<String>>) -> Option<Seq<Seq<char>>> {
    match values {
        Some(values) => Some(text::texts(values@)),
        None => None,
    }
}

/// Exactly the title that this program sets.
pub open spec fn is_owned(values: Option<Seq<Seq<char>>>) -> bool {
    values == Some(seq![OWNED_TITLE@])
}

/// The value of a setting.
pub fn title_values(setting: &TitleSetting) -> (r: Result<Option<Vec<String>>, MuxError>)
    ensures
        match r {
            Ok(values) => setting_values(setting@) == Ok::<Option<Seq<Seq<char>>>, ErrorModel>(
                values_view(values),
            ),
            Err(e) => setting_values(setting@) == Err::<Option<Seq<Seq<char>>>, ErrorModel>(e@),
        },
{
    let entries = match setting {
        TitleSetting::Unset => return Ok(None),
        TitleSetting::TuiNotATable => return Err(
            command_error("Codex tui setting must be a table"),
        ),
        TitleSetting::TitleNotAnArray => return Err(
            command_error("Codex tui.terminal_title must be an array of strings"),
        ),
        TitleSetting::Entries(entries) => entries,
    };
    let ghost all = document::entry_list(entries@);
    let mut values = text::no_texts();
    let mut i: usize = 0;
    assert(text::texts(values@) =~= strings_of(all.take(0)));
    while i < entries.len()
        invariant
            i <= entries.len(),
            only_strings(all.take(i as int)),
            text::texts(values@) == strings_of(all.take(i as int)),
        decreases entries.len() - i,
    {
        assert(all[i as int] == text::option_view(entries@[i as int]));
        match &entries[i] {
            Some(value) => {
                text::push_text(&mut values, value.clone());
                proof {
                    assert(strings_of(all.take(i + 1)) =~= strings_of(all.take(i as int)).push(
                        value@,
                    ));
                    assert forall|j: int| 0 <= j < i + 1 implies (#[trigger] all.take(
                        i + 1,
                    )[j]) is Some by {
                        if j < i {
                            assert(all.take(i as int)[j] is Some);
                        }
                    }
                }
            },
            None => {
                assert(all[i as int] is None);
                return Err(
                    command_error("Codex tui.terminal_title must contain only strings"),
                );
            },
        }
        i += 1;
    }
    assert(all.take(all.len() as int) =~= all);
    Ok(Some(values))
}

fn owned_list() -> (r: Vec<String>)
    ensures
        text::texts(r@) == seq![OWNED_TITLE@],
{
    let mut r = text::no_texts();
    text::push_text(&mut r, OWNED_TITLE.to_owned());
    assert(text::texts(r@) =~= seq![OWNED_TITLE@]);
    r
}

/// Whether a value is exactly the title that this program sets.
pub fn owns_title(values: &Option<Vec<String>>) -> (r: bool)
    ensures
        r == is_owned(values_view(*values)),
{
    match values {
        Some(list) => {
            let ghost all = text::texts(list@);
            if list.len() == 1 && text_equal(&list[0], OWNED_TITLE) {
                assert(all =~= seq![OWNED_TITLE@]);
                true
            } else {
                assert(all != seq![OWNED_TITLE@]) by {
                    if all == seq![OWNED_TITLE@] {
                        assert(all.len() == 1 && all[0] == OWNED_TITLE@);
                    }
                }
                false
            }
        },
        None => false,
    }
}

// ---------------------------------------------------------------------------
// Setting up and removing
// ---------------------------------------------------------------------------

/// What is kept while the title is owned.
#[derive(Debug)]
pub struct SavedState {
    pub config_path: UnixPath,
    /// The title that was set before, if any.
    pub previous: Option<Vec<String>>,
}

#[verifier::ext_equal]
pub struct SavedModel {
    pub config_path: Seq<u8>,
    pub previous: Option<Seq<Seq<char>>>,
}

impl View for SavedState {
    type V = SavedModel;

    open spec fn view(&self) -> SavedModel {
        SavedModel { config_path: self.config_path@, previous: values_view(self.previous) }
    }
}

/// What a saved state that is there says, or why it cannot be read.
pub open spec fn prior_view(prior: Option<Result<SavedState, MuxError>>) -> Option<
    Result<SavedModel, ErrorModel>,
> {
    match prior {
        None => None,
        Some(Ok(state)) => Some(Ok(state@)),
        Some(Err(e)) => Some(Err(e@)),
    }
}

pub open spec fn drifted() -> ErrorModel {
    ErrorModel::Command("Codex terminal-title setting drifted; refusing to overwrite it"@)
}

/// The text of a configuration and its setting, or why it cannot be edited.
pub open spec fn readable(path: Seq<u8>, bytes: Seq<u8>) -> Result<
    (Seq<char>, SettingModel),
    ErrorModel,
> {
    match text::utf8_decoded(bytes) {
        None => Err(ErrorModel::Command(text::lossy_text(path) + " is not valid UTF-8"@)),
        Some(contents) => match title_shape(contents) {
            Err(message) => Err(
                ErrorModel::Command(
                    "could not parse "@ + text::lossy_text(path) + ": "@ + message,
                ),
            ),
            Ok(setting) => Ok((contents, setting)),
        },
    }
}

/// What setting up is to write.
#[derive(Debug)]
pub struct TitleInstall {
    /// The new configuration text.
    pub replacement: String,
    pub state: SavedState,
    /// Whether the title was not owned before.
    pub changed: bool,
}

/// What setting up does to a configuration, `bytes` where there is one and
/// `prior` where the title is already owned; or why it is refused.
pub open spec fn install_outcome(
    path: Seq<u8>,
    bytes: Option<Seq<u8>>,
    prior: Option<Result<SavedModel, ErrorModel>>,
) -> Result<(Seq<char>, SavedModel, bool), ErrorModel> {
    match readable(
        path,
        match bytes {
            Some(b) => b,
            None => Seq::empty(),
        },
    ) {
        Err(e) => Err(e),
        Ok((contents, setting)) => match setting_values(setting) {
            Err(e) => Err(e),
            Ok(current) => match prior {
                Some(Err(e)) => Err(e),
                Some(Ok(state)) => if !path::same_path(state.config_path, path) {
                    Err(
                        ErrorModel::Command(
                            "Codex terminal-title ownership points at a different config file"@,
                        ),
                    )
                } else if !is_owned(current) {
                    Err(drifted())
                } else {
                    Ok(
                        (
                            titled_text(contents, seq![OWNED_TITLE@]),
                            SavedModel { config_path: path, previous: state.previous },
                            false,
                        ),
                    )
                },
                None => Ok(
                    (
                        titled_text(contents, seq![OWNED_TITLE@]),
                        SavedModel { config_path: path, previous: current },
                        !is_owned(current),
                    ),
                ),
            },
        },
    }
}

fn not_text(path: &UnixPath) -> (r: MuxError)
    ensures
        r@ == ErrorModel::Command(text::lossy_text(path@) + " is not valid UTF-8"@),
{
    let mut message = path.display();
    message.append(" is not valid UTF-8");
    MuxError::Command(message)
}

/// Reads a configuration and its setting.
pub fn read_config(path: &UnixPath, bytes: &[u8]) -> (r: Result<(String, TitleSetting), MuxError>)
    ensures
        match r {
            Ok((contents, setting)) => readable(path@, bytes@) == Ok::<
                (Seq<char>, SettingModel),
                ErrorModel,
            >((contents@, setting@)),
            Err(e) => readable(path@, bytes@) == Err::<(Seq<char>, SettingModel), ErrorModel>(e@),
        },
{
    let contents = match read_utf8(bytes) {
        None => return Err(not_text(path)),
        Some(contents) => contents,
    };
    match read_setting(&contents) {
        Ok(setting) => Ok((contents, setting)),
        Err(detail) => {
            let mut message = "could not parse ".to_owned();
            message.append(&path.display());
            message.append(": ");
            message.append(&detail);
            Err(MuxError::Command(message))
        },
    }
}

/// Plans to own the title, keeping the value that was set before.
pub fn install(
    path: &UnixPath,
    bytes: &Option<Vec<u8>>,
    prior: Option<Result<SavedState, MuxError>>,
) -> (r: Result<TitleInstall, MuxError>)
    ensures
        ({
            let contents = match bytes {
                Some(b) => Some(b@),
                None => None,
            };
            match r {
                Ok(plan) => {
                    &&& install_outcome(path@, contents, prior_view(prior)) == Ok::<
                        (Seq<char>, SavedModel, bool),
                        ErrorModel,
                    >((plan.replacement@, plan.state@, plan.changed))
                    &&& title_shape(plan.replacement@) is Ok
                    &&& setting_values(title_shape(plan.replacement@)->Ok_0) == Ok::<
                        Option<Seq<Seq<char>>>,
                        ErrorModel,
                    >(Some(seq![OWNED_TITLE@]))
                },
                Err(e) => install_outcome(path@, contents, prior_view(prior)) == Err::<
                    (Seq<char>, SavedModel, bool),
                    ErrorModel,
                >(e@),
            }
        }),
{
    let nothing: Vec<u8> = Vec::new();
    assert(nothing@ =~= Seq::<u8>::empty());
    let (contents, setting) = match bytes {
        Some(b) => match read_config(path, b) {
            Ok(read) => read,
            Err(e) => return Err(e),
        },
        None => match read_config(path, &nothing) {
            Ok(read) => read,
            Err(e) => return Err(e),
        },
    };
    let current = match title_values(&setting) {
        Ok(current) => current,
        Err(e) => return Err(e),
    };
    let owned = owns_title(&current);
    let mut changed = !owned;
    let previous = match prior {
        Some(Err(e)) => return Err(e),
        Some(Ok(state)) => {
            if !state.config_path.same_as(path) {
                return Err(
                    command_error(
                        "Codex terminal-title ownership points at a different config file",
                    ),
                );
            }
            if !owned {
                return Err(
                    command_error(
                        "Codex terminal-title setting drifted; refusing to overwrite it",
                    ),
                );
            }
            changed = false;
            state.previous
        },
        None => current,
    };
    let replacement = write_setting(&contents, &owned_list());
    proof {
        strings_read_back(seq![OWNED_TITLE@]);
    }
    Ok(
        TitleInstall {
            replacement,
            state: SavedState { config_path: path.clone(), previous },
            changed,
        },
    )
}

/// What removing writes back to the configuration, or why it is refused.
pub open spec fn removal_outcome(state: SavedModel, bytes: Option<Seq<u8>>) -> Result<
    Seq<char>,
    ErrorModel,
> {
    match bytes {
        None => Err(
            ErrorModel::Command(
                "managed Codex config "@ + text::lossy_text(state.config_path) + " is missing"@,
            ),
        ),
        Some(b) => match readable(state.config_path, b) {
            Err(e) => Err(e),
            Ok((contents, setting)) => match setting_values(setting) {
                Err(e) => Err(e),
                Ok(current) => if !is_owned(current) {
                    Err(drifted())
                } else {
                    Ok(
                        match state.previous {
                            Some(values) => titled_text(contents, values),
                            None => untitled_text(contents),
                        },
                    )
                },
            },
        },
    }
}

fn missing_config(path: &UnixPath) -> (r: MuxError)
    ensures
        r@ == ErrorModel::Command(
            "managed Codex config "@ + text::lossy_text(path@) + " is missing"@,
        ),
{
    let mut message = "managed Codex config ".to_owned();
    message.append(&path.display());
    message.append(" is missing");
    MuxError::Command(message)
}

/// Plans to give the title back: the configuration text as it is to become.
pub fn uninstall(state: &SavedState, bytes: &Option<Vec<u8>>) -> (r: Result<String, MuxError>)
    ensures
        ({
            let contents = match bytes {
                Some(b) => Some(b@),
                None => None,
            };
            match r {
                Ok(new) => {
                    &&& removal_outcome(state@, contents) == Ok::<Seq<char>, ErrorModel>(new@)
                    &&& title_shape(new@) is Ok
                    &&& setting_values(title_shape(new@)->Ok_0) == Ok::<
                        Option<Seq<Seq<char>>>,
                        ErrorModel,
                    >(state@.previous)
                },
                Err(e) => removal_outcome(state@, contents) == Err::<Seq<char>, ErrorModel>(e@),
            }
        }),
{
    let b = match bytes {
        None => return Err(missing_config(&state.config_path)),
        Some(b) => b,
    };
    let (contents, setting) = match read_config(&state.config_path, b) {
        Ok(read) => read,
        Err(e) => return Err(e),
    };
    let current = match title_values(&setting) {
        Ok(current) => current,
        Err(e) => return Err(e),
    };
    if !owns_title(&current) {
        return Err(
            command_error("Codex terminal-title setting drifted; refusing to overwrite it"),
        );
    }
    match &state.previous {
        Some(values) => {
            proof {
                strings_read_back(text::texts(values@));
            }
            Ok(write_setting(&contents, values))
        },
        None => Ok(remove_setting(&contents)),
    }
}

proof fn strings_read_back(values: Seq<Seq<char>>)
    ensures
        setting_values(SettingModel::Entries(document::all_strings(values))) == Ok::<
            Option<Seq<Seq<char>>>,
            ErrorModel,
        >(Some(values)),
{
    let entries = document::all_strings(values);
    assert forall|i: int| 0 <= i < entries.len() implies (#[trigger] entries[i]) is Some by {}
    assert(strings_of(entries) =~= values);
}

/// Whether the title of a configuration is still the one that was set, or why
/// that cannot be told.
pub open spec fn status_outcome(state: SavedModel, bytes: Option<Seq<u8>>) -> Result<
    bool,
    ErrorModel,
> {
    match bytes {
        None => Err(
            ErrorModel::Command(
                "managed Codex config "@ + text::lossy_text(state.config_path) + " is missing"@,
            ),
        ),
        Some(b) => match text::utf8_decoded(b) {
            None => Err(
                ErrorModel::Command(
                    text::lossy_text(state.config_path) + " is not valid UTF-8"@,
                ),
            ),
            Some(contents) => match title_shape(contents) {
                Err(message) => Err(
                    ErrorModel::Command("could not parse Codex config: "@ + message),
                ),
                Ok(setting) => match setting_values(setting) {
                    Err(e) => Err(e),
                    Ok(current) => Ok(is_owned(current)),
                },
            },
        },
    }
}

/// Tells whether the title is free of drift.
pub fn status(state: &SavedState, bytes: &Option<Vec<u8>>) -> (r: Result<bool, MuxError>)
    ensures
        error::outcome(r) == status_outcome(
            state@,
            match bytes {
                Some(b) => Some(b@),
                None => None,
            },
        ),
{
    let b = match bytes {
        None => return Err(missing_config(&state.config_path)),
        Some(b) => b,
    };
    let contents = match read_utf8(b) {
        None => return Err(not_text(&state.config_path)),
        Some(contents) => contents,
    };
    let setting = match read_setting(&contents) {
        Ok(setting) => setting,
        Err(detail) => {
            let mut message = "could not parse Codex config: ".to_owned();
            message.append(&detail);
            return Err(MuxError::Command(message));
        },
    };
    match title_values(&setting) {
        Ok(current) => Ok(owns_title(&current)),
        Err(e) => Err(e),
    }
}

// ---------------------------------------------------------------------------
// Where the files are
// ---------------------------------------------------------------------------

/// The configuration of Codex: in `CODEX_HOME`, else in the home directory.
pub open spec fn config_location(codex_home: Option<Seq<u8>>, home: Option<Seq<u8>>) -> Option<
    Seq<u8>,
> {
    match codex_home {
        Some(root) => Some(path::joined(root, text::utf8("config.toml"@))),
        None => match home {
            Some(root) => Some(
                path::joined(
                    path::joined(root, text::utf8(".codex"@)),
                    text::utf8("config.toml"@),
                ),
            ),
            None => None,
        },
    }
}

/// The saved state: in `XDG_STATE_HOME`, else in the home directory.
pub open spec fn state_location(state_home: Option<Seq<u8>>, home: Option<Seq<u8>>) -> Option<
    Seq<u8>,
> {
    let file = text::utf8("codex-mux/codex-terminal-title.toml"@);
    match state_home {
        Some(root) => Some(path::joined(root, file)),
        None => match home {
            Some(root) => Some(
                path::joined(path::joined(root, text::utf8(".local/state"@)), file),
            ),
            None => None,
        },
    }
}

pub fn codex_config_path(codex_home: &Option<UnixPath>, home: &Option<UnixPath>) -> (r: Result<
    UnixPath,
    MuxError,
>)
    ensures
        match r {
            Ok(p) => config_location(
                domain::path_view(*codex_home),
                domain::path_view(*home),
            ) == Some(p@),
            Err(e) => config_location(
                domain::path_view(*codex_home),
                domain::path_view(*home),
            ) is None && e@ == ErrorModel::Command("Codex home is unavailable"@),
        },
{
    match codex_home {
        Some(root) => Ok(root.join(&UnixPath::new("config.toml"))),
        None => match home {
            Some(root) => Ok(
                root.join(&UnixPath::new(".codex")).join(&UnixPath::new("config.toml")),
            ),
            None => Err(command_error("Codex home is unavailable")),
        },
    }
}

pub fn optional_state_path(state_home: &Option<UnixPath>, home: &Option<UnixPath>) -> (r: Option<
    UnixPath,
>)
    ensures
        domain::path_view(r) == state_location(
            domain::path_view(*state_home),
            domain::path_view(*home),
        ),
{
    let file = UnixPath::new("codex-mux/codex-terminal-title.toml");
    match state_home {
        Some(root) => Some(root.join(&file)),
        None => match home {
            Some(root) => Some(root.join(&UnixPath::new(".local/state")).join(&file)),
            None => None,
        },
    }
}

pub fn state_path(state_home: &Option<UnixPath>, home: &Option<UnixPath>) -> (r: Result<
    UnixPath,
    MuxError,
>)
    ensures
        match r {
            Ok(p) => state_location(
                domain::path_view(*state_home),
                domain::path_view(*home),
            ) == Some(p@),
            Err(e) => state_location(
                domain::path_view(*state_home),
                domain::path_view(*home),
            ) is None && e@ == ErrorModel::Command("state home is unavailable"@),
        },
{
    match optional_state_path(state_home, home) {
        Some(p) => Ok(p),
        None => Err(command_error("state home is unavailable")),
    }
}

// ---------------------------------------------------------------------------
// Laws
// ---------------------------------------------------------------------------

/// Setting up again keeps the title that was set before the first time.
pub proof fn setting_up_again_keeps_the_previous_title(
    path: Seq<u8>,
    bytes: Option<Seq<u8>>,
    state: SavedModel,
)
    requires
        install_outcome(path, bytes, Some(Ok(state))) is Ok,
    ensures
        install_outcome(path, bytes, Some(Ok(state)))->Ok_0.1.previous == state.previous,
        !install_outcome(path, bytes, Some(Ok(state)))->Ok_0.2,
{
}

/// A title that somebody else set is never overwritten: once the title is owned,
/// setting up and removing both refuse any other value.
pub proof fn a_changed_title_is_never_overwritten(
    state: SavedModel,
    contents: Seq<char>,
    setting: SettingModel,
)
    requires
        title_shape(contents) == Ok::<SettingModel, Seq<char>>(setting),
        setting_values(setting) is Ok,
        !is_owned(setting_values(setting)->Ok_0),
    ensures
        install_outcome(
            state.config_path,
            Some(text::utf8(contents)),
            Some(Ok(state)),
        ) == Err::<(Seq<char>, SavedModel, bool), ErrorModel>(drifted()),
        removal_outcome(state, Some(text::utf8(contents))) == Err::<Seq<char>, ErrorModel>(
            drifted(),
        ),
{
    text::utf8_decodes_back(contents);
    path::same_path_is_equivalence(state.config_path, state.config_path, state.config_path);
}

} // verus!
