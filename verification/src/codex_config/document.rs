//! Configuration documents, as far as tables, arrays and strings tell them apart.

use vstd::prelude::*;
use crate::text;

verus! {

/// What a TOML item holds: a table with its members by key, an array whose entries are
/// `None` where they are no strings, or something else.
#[verifier::ext_equal]
pub enum TomlModel {
    Table(Map<Seq<char>, TomlModel>),
    Array(Seq<Option<Seq<char>>>),
    Other,
}

/// The member of a table under a key.
pub open spec fn member_of(item: TomlModel, key: Seq<char>) -> Option<TomlModel> {
    match item {
        TomlModel::Table(members) => if members.contains_key(key) {
            Some(members[key])
        } else {
            None
        },
        _ => None,
    }
}

/// The member under a key of the table under another key.
pub open spec fn entry_of(root: TomlModel, table: Seq<char>, key: Seq<char>) -> Option<
    TomlModel,
> {
    match member_of(root, table) {
        Some(inner) => member_of(inner, key),
        None => None,
    }
}

/// Either there is no such member, or it is a table.
pub open spec fn table_or_absent(root: TomlModel, table: Seq<char>) -> bool {
    member_of(root, table) matches Some(inner) ==> inner is Table
}

/// Entries that are all strings.
pub open spec fn all_strings(values: Seq<Seq<char>>) -> Seq<Option<Seq<char>>> {
    Seq::new(values.len(), |i: int| Some(values[i]))
}

// ---------------------------------------------------------------------------
// What toml_edit reads and writes
// ---------------------------------------------------------------------------

/// An item of `toml_edit`.
#[verifier::external_type_specification]
#[verifier::external_body]
pub struct ExItem(toml_edit::Item);

/// What an item of `toml_edit` holds. A table has the members that its `get` finds.
pub uninterp spec fn held(item: toml_edit::Item) -> TomlModel;

/// What `toml_edit` makes of a text: the table at its root, or the message of its
/// error.
pub uninterp spec fn parsed(contents: Seq<char>) -> Result<TomlModel, Seq<char>>;

/// The text that `toml_edit` writes for a text once an entry of a table is an array of
/// strings.
pub uninterp spec fn text_with(
    contents: Seq<char>,
    table: Seq<char>,
    key: Seq<char>,
    values: Seq<Seq<char>>,
) -> Seq<char>;

/// The text that `toml_edit` writes for a text once an entry of a table is gone.
pub uninterp spec fn text_without(
    contents: Seq<char>,
    table: Seq<char>,
    key: Seq<char>,
) -> Seq<char>;

/// `DocumentMut::from_str`, with the root of the document as an item and the error as
/// text. The result depends on the text alone; the root is a table.
#[verifier::external_body]
pub(crate) fn parse_document(contents: &str) -> (r: Result<toml_edit::Item, String>)
    ensures
        match r {
            Ok(root) => parsed(contents@) is Ok && parsed(contents@)->Ok_0 == held(root)
                && held(root) is Table,
            Err(message) => parsed(contents@) is Err && parsed(contents@)->Err_0 == message@,
        },
{
    match contents.parse::<toml_edit::DocumentMut>() {
        Ok(document) => Ok(document.into_item()),
        Err(error) => Err(error.to_string()),
    }
}

/// `Item::is_table_like`: whether an item is a table, inline or not.
#[verifier::external_body]
pub(crate) fn is_table(item: &toml_edit::Item) -> (r: bool)
    ensures
        r == held(*item) is Table,
{
    item.is_table_like()
}

/// `Item::is_array`: whether an item is an array of values.
#[verifier::external_body]
pub(crate) fn is_array(item: &toml_edit::Item) -> (r: bool)
    ensures
        r == held(*item) is Array,
{
    item.is_array()
}

/// `TableLike::get`: the member of a table under a key.
#[verifier::external_body]
pub(crate) fn member<'a>(item: &'a toml_edit::Item, key: &str) -> (r: Option<
    &'a toml_edit::Item,
>)
    requires
        held(*item) is Table,
    ensures
        match r {
            Some(inner) => member_of(held(*item), key@) == Some(held(*inner)),
            None => member_of(held(*item), key@) is None,
        },
{
    item.as_table_like().expect("a table").get(key)
}

/// `Array::len`: how many entries an array has.
#[verifier::external_body]
pub(crate) fn array_len(item: &toml_edit::Item) -> (r: usize)
    requires
        held(*item) is Array,
    ensures
        r == held(*item)->Array_0.len(),
{
    item.as_array().expect("an array").len()
}

/// `Array::get` and `Value::as_str`: the entry of an array at a place, if it is a
/// string.
#[verifier::external_body]
pub(crate) fn array_string(item: &toml_edit::Item, index: usize) -> (r: Option<String>)
    requires
        held(*item) is Array,
        index < held(*item)->Array_0.len(),
    ensures
        text::option_view(r) == held(*item)->Array_0[index as int],
{
    let array = item.as_array().expect("an array");
    array.get(index).and_then(|value| value.as_str()).map(str::to_owned)
}

/// Parses a text, assigns an `Array` of strings to an entry of the document by
/// `DocumentMut::index_mut` and `Item::index_mut`, and prints the document. The result
/// depends on the arguments alone, and reading it finds those strings at that place.
/// Where the table is missing the assignment makes it; a text that does not parse, or
/// with something else than a table there, is left out, since it panics. What else the
/// printed text holds is not stated.
#[verifier::external_body]
pub(crate) fn set_strings(contents: &str, table: &str, key: &str, values: &Vec<String>) -> (r:
    String)
    requires
        parsed(contents@) is Ok,
        table_or_absent(parsed(contents@)->Ok_0, table@),
    ensures
        r@ == text_with(contents@, table@, key@, text::texts(values@)),
        parsed(r@) is Ok && entry_of(parsed(r@)->Ok_0, table@, key@) == Some(
            TomlModel::Array(all_strings(text::texts(values@))),
        ),
{
    let mut document = contents.parse::<toml_edit::DocumentMut>().expect("a parsed text");
    let mut array = toml_edit::Array::new();
    values.iter().for_each(|value| array.push(value.as_str()));
    document[table][key] = toml_edit::Item::Value(toml_edit::Value::Array(array));
    document.to_string()
}

/// Parses a text, takes an entry of a table out by `TableLike::remove`, and prints the
/// document. The result depends on the arguments alone, and reading it finds the entry
/// no more, nor anything but a table where it was. A text without the entry is left
/// out. What else the printed text holds is not stated.
#[verifier::external_body]
pub(crate) fn remove_entry(contents: &str, table: &str, key: &str) -> (r: String)
    requires
        parsed(contents@) is Ok,
        entry_of(parsed(contents@)->Ok_0, table@, key@) is Some,
    ensures
        r@ == text_without(contents@, table@, key@),
        parsed(r@) is Ok && entry_of(parsed(r@)->Ok_0, table@, key@) is None
            && table_or_absent(parsed(r@)->Ok_0, table@),
{
    let mut document = contents.parse::<toml_edit::DocumentMut>().expect("a parsed text");
    document[table].as_table_like_mut().expect("a table").remove(key);
    document.to_string()
}

/// The entries of an array.
pub(crate) fn entries(item: &toml_edit::Item) -> (r: Vec<Option<String>>)
    requires
        held(*item) is Array,
    ensures
        entry_list(r@) == held(*item)->Array_0,
{
    let n: usize = array_len(item);
    let mut r: Vec<Option<String>> = Vec::new();
    let mut i: usize = 0;
    while i < n
        invariant
            i <= n == held(*item)->Array_0.len(),
            entry_list(r@) =~= held(*item)->Array_0.take(i as int),
        decreases n - i,
    {
        let ghost before = r@;
        r.push(array_string(item, i));
        assert(entry_list(r@) =~= entry_list(before).push(held(*item)->Array_0[i as int]));
        i += 1;
    }
    assert(entry_list(r@) =~= held(*item)->Array_0);
    r
}

pub open spec fn entry_list(entries: Seq<Option<String>>) -> Seq<Option<Seq<char>>> {
    Seq::new(entries.len(), |i: int| text::option_view(entries[i]))
}

} // verus!
