//! What is done to the terminal title of Codex, and how it is given back.

use vstd::prelude::*;
use crate::codex_config::title;
use crate::codex_config::title::{SavedModel, SettingModel};
use crate::error::ErrorModel;
use crate::path;
use crate::text;

verus! {

/// A configuration says a title.
pub open spec fn says_title(contents: Seq<char>, values: Option<Seq<Seq<char>>>) -> bool {
    match title::title_shape(contents) {
        Ok(setting) => title::setting_values(setting) == Ok::<Option<Seq<Seq<char>>>, ErrorModel>(
            values,
        ),
        Err(_) => false,
    }
}

/// Setting up for the first time writes the one title that shows the thread, and keeps what
/// stood there; it changed something exactly where another title stood there.
pub proof fn setting_up_keeps_what_stood_there(
    location: Seq<u8>,
    contents: Seq<char>,
    values: Option<Seq<Seq<char>>>,
)
    requires
        says_title(contents, values),
    ensures
        ({
            let r = title::install_outcome(location, Some(text::utf8(contents)), None);
            &&& r is Ok
            &&& (r->Ok_0).0 == title::titled_text(contents, seq!["thread-id"@])
            &&& (r->Ok_0).1.config_path == location
            &&& (r->Ok_0).1.previous == values
            &&& (r->Ok_0).2 <==> values != Some(seq!["thread-id"@])
        }),
{
    text::utf8_decodes_back(contents);
}

/// Removing gives back what was kept: the title that stood there, or none; and what a first
/// installation kept is what a removal gives back.
pub proof fn removing_gives_back_what_was_kept(
    location: Seq<u8>,
    before: Seq<char>,
    values: Option<Seq<Seq<char>>>,
    now: Seq<char>,
)
    requires
        says_title(before, values),
        says_title(now, Some(seq!["thread-id"@])),
    ensures
        ({
            let state = (title::install_outcome(
                location,
                Some(text::utf8(before)),
                None,
            )->Ok_0).1;
            let r = title::removal_outcome(state, Some(text::utf8(now)));
            &&& values matches Some(v) ==> r == Ok::<Seq<char>, ErrorModel>(
                title::titled_text(now, v),
            )
            &&& values is None ==> r == Ok::<Seq<char>, ErrorModel>(title::untitled_text(now))
        }),
{
    text::utf8_decodes_back(before);
    text::utf8_decodes_back(now);
}

/// The title is reported intact exactly where it is still the one that was written.
pub proof fn an_intact_title_is_reported(
    state: SavedModel,
    contents: Seq<char>,
    values: Option<Seq<Seq<char>>>,
)
    requires
        says_title(contents, values),
    ensures
        title::status_outcome(state, Some(text::utf8(contents))) == Ok::<bool, ErrorModel>(
            values == Some(seq!["thread-id"@]),
        ),
{
    text::utf8_decodes_back(contents);
}

/// A title that is not a list of texts is refused, whatever is to be done.
pub proof fn a_strange_title_is_refused(
    state: SavedModel,
    contents: Seq<char>,
    setting: SettingModel,
)
    requires
        title::title_shape(contents) == Ok::<SettingModel, Seq<char>>(setting),
        setting is TuiNotATable || setting is TitleNotAnArray,
    ensures
        title::install_outcome(state.config_path, Some(text::utf8(contents)), None) is Err,
        title::removal_outcome(state, Some(text::utf8(contents))) is Err,
        title::status_outcome(state, Some(text::utf8(contents))) is Err,
{
    text::utf8_decodes_back(contents);
}

/// The home of Codex counts before that of the user.
pub proof fn the_home_of_codex_comes_first(codex_home: Seq<u8>, home: Seq<u8>)
    ensures
        title::config_location(Some(codex_home), Some(home)) == Some(
            path::joined(codex_home, text::utf8("config.toml"@)),
        ),
        title::config_location(Some(codex_home), None) == title::config_location(
            Some(codex_home),
            Some(home),
        ),
        title::config_location(None, Some(home)) == Some(
            path::joined(path::joined(home, text::utf8(".codex"@)), text::utf8("config.toml"@)),
        ),
        title::config_location(None, None) is None,
        title::state_location(None, None) is None,
        title::state_location(Some(codex_home), Some(home)) == title::state_location(
            Some(codex_home),
            None,
        ),
{
}

} // verus!
