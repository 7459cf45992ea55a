//! Which generated titles are accepted.

use vstd::prelude::*;
use crate::error::{ErrorModel, MuxError};
use crate::scan;
use crate::scan::trim;
use crate::text;
use crate::text::to_chars;

verus! {

/// Model that names sessions in the background.
pub const NAMING_MODEL: &'static str = "gpt-5.6-luna";

/// Most characters of an accepted title.
pub const MAX_NAME_CHARS: usize = 48;

/// An error of the protocol with the app-server.
pub open spec fn protocol_error(message: Seq<char>) -> ErrorModel {
    ErrorModel::Command("Codex app-server protocol error: "@ + message)
}

pub fn protocol(message: &str) -> (r: MuxError)
    ensures
        r@ == protocol_error(message@),
{
    let mut s = "Codex app-server protocol error: ".to_owned();
    s.append(message);
    MuxError::Command(s)
}

/// The Unicode property behind `char::is_alphanumeric`.
pub uninterp spec fn is_alphanumeric(c: char) -> bool;

/// `char::is_alphanumeric` depends on the character alone; among ASCII characters
/// the letters and digits have the property.
pub assume_specification[ char::is_alphanumeric ](c: char) -> (r: bool)
    ensures
        r == is_alphanumeric(c),
        (c as u32) < 0x80 ==> r == text::is_ascii_alphanumeric(c),
;

/// Characters that reorder or hide the text around them.
pub open spec fn is_unsafe_format(c: char) -> bool {
    let n = c as u32;
    ||| n == 0x2028
    ||| n == 0x2029
    ||| n == 0x061c
    ||| 0x200b <= n <= 0x200f
    ||| 0x202a <= n <= 0x202e
    ||| 0x2060 <= n <= 0x206f
    ||| n == 0xfeff
}

/// Characters of markup.
pub open spec fn is_markup(c: char) -> bool {
    c == '*' || c == '#' || c == '[' || c == ']' || c == '<' || c == '>'
}

pub open spec fn is_quote(c: char) -> bool {
    c == '"' || c == '\'' || c == '`'
}

/// A title that can be shown: one to forty-eight plain characters, not in quotes,
/// ending in a letter or digit.
pub open spec fn is_valid_title(t: Seq<char>) -> bool {
    &&& 0 < t.len() <= MAX_NAME_CHARS
    &&& forall|i: int|
        0 <= i < t.len() ==> !text::is_control(#[trigger] t[i]) && !is_unsafe_format(t[i])
            && !is_markup(t[i])
    &&& !is_quote(t[0])
    &&& !is_quote(t.last())
    &&& is_alphanumeric(t.last())
}

pub fn is_unsafe_format_character(c: char) -> (r: bool)
    ensures
        r == is_unsafe_format(c),
{
    let n: u32 = c as u32;
    n == 0x2028 || n == 0x2029 || n == 0x061c || (0x200b <= n && n <= 0x200f) || (0x202a <= n && n
        <= 0x202e) || (0x2060 <= n && n <= 0x206f) || n == 0xfeff
}

fn quotes(c: char) -> (r: bool)
    ensures
        r == is_quote(c),
{
    c == '"' || c == '\'' || c == '`'
}

fn can_be_shown(c: char) -> (r: bool)
    ensures
        r == (!text::is_control(c) && !is_unsafe_format(c) && !is_markup(c)),
{
    !c.is_control() && !is_unsafe_format_character(c) && !(c == '*' || c == '#' || c == '[' || c
        == ']' || c == '<' || c == '>')
}

/// The trimmed title, where it is valid.
pub fn validate_name(title: &str) -> (r: Result<String, MuxError>)
    ensures
        match r {
            Ok(t) => t@ == scan::trimmed(title@) && is_valid_title(t@),
            Err(e) => !is_valid_title(scan::trimmed(title@)) && e@ == protocol_error(
                "Luna returned an invalid title"@,
            ),
        },
{
    let t = trim(title);
    let v = to_chars(&t);
    let len: usize = v.len();
    let refused = Err(protocol("Luna returned an invalid title"));
    if len == 0 || len > MAX_NAME_CHARS {
        return refused;
    }
    let mut i: usize = 0;
    while i < len
        invariant
            i <= len == v.len(),
            forall|j: int|
                0 <= j < i ==> !text::is_control(#[trigger] v@[j]) && !is_unsafe_format(v@[j])
                    && !is_markup(v@[j]),
        decreases len - i,
    {
        if !can_be_shown(v[i]) {
            return refused;
        }
        i += 1;
    }
    if quotes(v[0]) || quotes(v[len - 1]) || !v[len - 1].is_alphanumeric() {
        return refused;
    }
    Ok(t)
}

/// An accepted title is accepted again unchanged.
pub proof fn accepted_titles_stay(title: Seq<char>)
    requires
        is_valid_title(scan::trimmed(title)),
    ensures
        is_valid_title(scan::trimmed(scan::trimmed(title))),
        scan::trimmed(scan::trimmed(title)) == scan::trimmed(title),
{
    scan::trimming_again_changes_nothing(title);
}

} // verus!
