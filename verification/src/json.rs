//! JSON values as plain data.

use vstd::prelude::*;
use crate::number;
use crate::number::decimal_text;
use crate::text;
use crate::text::text_equal;

verus! {

/// A JSON value.
#[derive(Debug)]
pub enum Json {
    Null,
    Bool(bool),
    /// A number: its value where it is a `u64`, and how it is written.
    Number { unsigned: Option<u64>, shown: String },
    Text(String),
    Array(Vec<Json>),
    /// The member names of an object and the member values, position by position.
    Object { keys: Vec<String>, values: Vec<Json> },
}

/// What a JSON value says.
#[verifier::ext_equal]
pub enum JsonModel {
    Null,
    Bool(bool),
    Number { unsigned: Option<u64>, shown: Seq<char> },
    Text(Seq<char>),
    Array(Seq<JsonModel>),
    Object { keys: Seq<Seq<char>>, values: Seq<JsonModel> },
}

/// What a JSON value says, with the values inside it.
pub open spec fn model(value: Json) -> JsonModel
    decreases value,
{
    match value {
        Json::Null => JsonModel::Null,
        Json::Bool(b) => JsonModel::Bool(b),
        Json::Number { unsigned, shown } => JsonModel::Number { unsigned, shown: shown@ },
        Json::Text(t) => JsonModel::Text(t@),
        Json::Array(items) => JsonModel::Array(
            Seq::new(
                items@.len(),
                |i: int|
                    if 0 <= i < items@.len() {
                        model(items@[i])
                    } else {
                        JsonModel::Null
                    },
            ),
        ),
        Json::Object { keys, values } => JsonModel::Object {
            keys: text::texts(keys@),
            values: Seq::new(
                values@.len(),
                |i: int|
                    if 0 <= i < values@.len() {
                        model(values@[i])
                    } else {
                        JsonModel::Null
                    },
            ),
        },
    }
}

impl View for Json {
    type V = JsonModel;

    open spec fn view(&self) -> JsonModel {
        model(*self)
    }
}

/// What the values of a list say.
pub open spec fn list_view(items: Seq<Json>) -> Seq<JsonModel> {
    Seq::new(items.len(), |i: int| items[i]@)
}

// ---------------------------------------------------------------------------
// What serde_json reads and writes
// ---------------------------------------------------------------------------

/// A value of `serde_json`.
#[verifier::external_type_specification]
#[verifier::external_body]
pub struct ExValue(serde_json::Value);

/// What a value of `serde_json` holds. An object lists its members in the order in
/// which the crate keeps them.
pub uninterp spec fn held(value: serde_json::Value) -> JsonModel;

/// What `serde_json` makes of a byte string: a value, or the message of its error.
pub uninterp spec fn parsed(bytes: Seq<u8>) -> Result<JsonModel, Seq<char>>;

/// How `serde_json` shows a value as text.
pub uninterp spec fn shown_text(value: JsonModel) -> Seq<char>;

/// `serde_json::from_slice` into a `Value`, with its error as text. The result
/// depends on the bytes alone.
#[verifier::external_body]
fn parse_value(bytes: &[u8]) -> (r: Result<serde_json::Value, String>)
    ensures
        match r {
            Ok(value) => parsed(bytes@) is Ok && parsed(bytes@)->Ok_0 == held(value),
            Err(message) => parsed(bytes@) is Err && parsed(bytes@)->Err_0 == message@,
        },
{
    serde_json::from_slice(bytes).map_err(|error| error.to_string())
}

/// The `Display` text of a `serde_json::Value`, compact JSON. It depends on what the
/// value holds alone.
#[verifier::external_body]
fn show_value(value: &serde_json::Value) -> (r: String)
    ensures
        r@ == shown_text(held(*value)),
{
    value.to_string()
}

/// The variant of a value and its own fields, without the values inside it.
enum Outline {
    Null,
    Bool(bool),
    Number { unsigned: Option<u64>, shown: String },
    Text(String),
    Array { len: usize },
    Object { keys: Vec<String> },
}

/// Tells the variants of `serde_json::Value` apart. A number is given by
/// `Number::as_u64` and its `Display` text, an array by its length, an object by the
/// names of its members.
#[verifier::external_body]
fn outline(value: &serde_json::Value) -> (r: Outline)
    ensures
        match r {
            Outline::Null => held(*value) == JsonModel::Null,
            Outline::Bool(b) => held(*value) == JsonModel::Bool(b),
            Outline::Number { unsigned, shown } => held(*value) == (JsonModel::Number {
                unsigned,
                shown: shown@,
            }),
            Outline::Text(t) => held(*value) == JsonModel::Text(t@),
            Outline::Array { len } => held(*value) is Array && held(*value)->Array_0.len()
                == len,
            Outline::Object { keys } => held(*value) is Object && held(*value)->keys
                == text::texts(keys@) && held(*value)->values.len() == keys@.len(),
        },
{
    match value {
        serde_json::Value::Null => Outline::Null,
        serde_json::Value::Bool(b) => Outline::Bool(*b),
        serde_json::Value::Number(n) => {
            Outline::Number { unsigned: n.as_u64(), shown: n.to_string() }
        },
        serde_json::Value::String(t) => Outline::Text(t.clone()),
        serde_json::Value::Array(items) => Outline::Array { len: items.len() },
        serde_json::Value::Object(map) => Outline::Object { keys: map.keys().cloned().collect() },
    }
}

/// `Value::get` with a position: the value at that place of an array.
#[verifier::external_body]
fn element(value: &serde_json::Value, index: usize) -> (r: &serde_json::Value)
    requires
        held(*value) is Array,
        index < held(*value)->Array_0.len(),
    ensures
        held(*r) == held(*value)->Array_0[index as int],
{
    value.get(index).expect("a place inside the array")
}

/// The member at a place of an object, by `Map::values`, whose order is that of
/// `Map::keys`.
#[verifier::external_body]
fn member_at(value: &serde_json::Value, index: usize) -> (r: &serde_json::Value)
    requires
        held(*value) is Object,
        index < held(*value)->values.len(),
    ensures
        held(*r) == held(*value)->values[index as int],
{
    let map = value.as_object().expect("an object");
    map.values().nth(index).expect("a place inside the object")
}

/// A `serde_json::Value` as plain data.
fn plain(value: &serde_json::Value) -> (r: Json)
    ensures
        r@ == held(*value),
    decreases held(*value),
{
    match outline(value) {
        Outline::Null => Json::Null,
        Outline::Bool(b) => Json::Bool(b),
        Outline::Number { unsigned, shown } => Json::Number { unsigned, shown },
        Outline::Text(t) => Json::Text(t),
        Outline::Array { len } => {
            let mut items: Vec<Json> = Vec::new();
            let mut i: usize = 0;
            while i < len
                invariant
                    i <= len,
                    held(*value) is Array,
                    held(*value)->Array_0.len() == len,
                    list_view(items@) =~= held(*value)->Array_0.take(i as int),
                decreases len - i,
            {
                let child = element(value, i);
                assert(decreases_to!(held(*value) => held(*value)->Array_0));
                assert(decreases_to!(held(*value)->Array_0 => held(*value)->Array_0[i as int]));
                items.push(plain(child));
                i += 1;
            }
            let r = Json::Array(items);
            proof {
                array_view(items);
                assert(list_view(items@) =~= held(*value)->Array_0);
            }
            r
        },
        Outline::Object { keys } => {
            let mut values: Vec<Json> = Vec::new();
            let len: usize = keys.len();
            let mut i: usize = 0;
            while i < len
                invariant
                    i <= len,
                    held(*value) is Object,
                    held(*value)->values.len() == len,
                    list_view(values@) =~= held(*value)->values.take(i as int),
                decreases len - i,
            {
                let child = member_at(value, i);
                assert(decreases_to!(held(*value) => held(*value)->values));
                assert(decreases_to!(held(*value)->values => held(*value)->values[i as int]));
                values.push(plain(child));
                i += 1;
            }
            proof {
                object_view(keys, values);
                assert(list_view(values@) =~= held(*value)->values);
            }
            Json::Object { keys, values }
        },
    }
}

pub proof fn array_view(items: Vec<Json>)
    ensures
        Json::Array(items)@ == JsonModel::Array(list_view(items@)),
{
    reveal_with_fuel(model, 2);
    assert(Json::Array(items)@->Array_0 =~= list_view(items@));
}

pub proof fn object_view(keys: Vec<String>, values: Vec<Json>)
    ensures
        (Json::Object { keys, values })@ == (JsonModel::Object {
            keys: text::texts(keys@),
            values: list_view(values@),
        }),
{
    reveal_with_fuel(model, 2);
    assert((Json::Object { keys, values })@->values =~= list_view(values@));
}

/// A parse result as contracts speak of it.
pub open spec fn read_view(r: Result<Json, String>) -> Result<JsonModel, Seq<char>> {
    match r {
        Ok(value) => Ok(value@),
        Err(message) => Err(message@),
    }
}

/// Reads a JSON text.
pub fn read_json(bytes: &[u8]) -> (r: Result<Json, String>)
    ensures
        read_view(r) == parsed(bytes@),
{
    match parse_value(bytes) {
        Ok(value) => Ok(plain(&value)),
        Err(message) => Err(message),
    }
}

/// Reads a JSON text and shows its member of a name, where it has one.
pub fn read_json_showing(bytes: &[u8], key: &str) -> (r: Result<(Json, Option<String>), String>)
    ensures
        match r {
            Ok((value, shown)) => parsed(bytes@) == Ok::<JsonModel, Seq<char>>(value@)
                && text::option_view(shown) == match find_member(value@, key@) {
                Some(m) => Some(shown_text(m)),
                None => None,
            },
            Err(message) => parsed(bytes@) == Err::<JsonModel, Seq<char>>(message@),
        },
{
    match parse_value(bytes) {
        Ok(value) => {
            let json = plain(&value);
            let place: Option<usize> = json.place_of(key);
            let shown = match place {
                Some(i) => Some(show_value(member_at(&value, i))),
                None => None,
            };
            Ok((json, shown))
        },
        Err(message) => Err(message),
    }
}

// ---------------------------------------------------------------------------
// Looking into a value
// ---------------------------------------------------------------------------

/// The place of the first member of a name, the number of names where there is none.
pub open spec fn key_place(keys: Seq<Seq<char>>, key: Seq<char>, i: int) -> int
    decreases keys.len() - i,
{
    if i < 0 || i >= keys.len() || keys[i] == key {
        i
    } else {
        key_place(keys, key, i + 1)
    }
}

/// The member of an object by name.
pub open spec fn find_member(value: JsonModel, key: Seq<char>) -> Option<JsonModel> {
    match value {
        JsonModel::Object { keys, values } => {
            let i = key_place(keys, key, 0);
            if i < keys.len() && i < values.len() {
                Some(values[i])
            } else {
                None
            }
        },
        _ => None,
    }
}

/// The member of an object by name, null where there is none.
pub open spec fn member(value: JsonModel, key: Seq<char>) -> JsonModel {
    match find_member(value, key) {
        Some(found) => found,
        None => JsonModel::Null,
    }
}

/// The text of a value that is a text.
pub open spec fn text_of(value: JsonModel) -> Option<Seq<char>> {
    match value {
        JsonModel::Text(t) => Some(t),
        _ => None,
    }
}

/// A value is this unsigned number.
pub open spec fn is_number(value: JsonModel, n: u64) -> bool {
    value is Number && value->unsigned == Some(n)
}

/// A value is this text.
pub open spec fn is_text(value: JsonModel, t: Seq<char>) -> bool {
    value == JsonModel::Text(t)
}

/// An unsigned number.
pub open spec fn number_model(n: u64) -> JsonModel {
    JsonModel::Number { unsigned: Some(n), shown: number::decimal(n as nat) }
}

pub fn number(n: u64) -> (r: Json)
    ensures
        r@ == number_model(n),
{
    Json::Number { unsigned: Some(n), shown: decimal_text(n) }
}

pub fn text(t: &str) -> (r: Json)
    ensures
        r@ == JsonModel::Text(t@),
{
    Json::Text(t.to_owned())
}

/// An object without members.
pub open spec fn no_members() -> JsonModel {
    JsonModel::Object { keys: Seq::empty(), values: Seq::empty() }
}

/// An object with one more member.
pub open spec fn with_member(object: JsonModel, key: Seq<char>, value: JsonModel) -> JsonModel {
    match object {
        JsonModel::Object { keys, values } => JsonModel::Object {
            keys: keys.push(key),
            values: values.push(value),
        },
        _ => object,
    }
}

/// The member of a name is the first one of that name.
pub proof fn the_first_member_counts(keys: Seq<Seq<char>>, values: Seq<JsonModel>, i: int)
    requires
        0 <= i < keys.len(),
        keys.len() == values.len(),
        forall|j: int| 0 <= j < i ==> #[trigger] keys[j] != keys[i],
    ensures
        find_member(JsonModel::Object { keys, values }, keys[i]) == Some(values[i]),
        member(JsonModel::Object { keys, values }, keys[i]) == values[i],
{
    first_key_is(keys, i, 0);
}

proof fn first_key_is(keys: Seq<Seq<char>>, i: int, from: int)
    requires
        0 <= from <= i < keys.len(),
        forall|j: int| 0 <= j < i ==> #[trigger] keys[j] != keys[i],
    ensures
        key_place(keys, keys[i], from) == i,
    decreases i - from,
{
    if from < i {
        assert(keys[from] != keys[i]);
        first_key_is(keys, i, from + 1);
    }
}

/// A value that has no member of a name says nothing under it.
pub proof fn an_absent_member_is_null(keys: Seq<Seq<char>>, values: Seq<JsonModel>, key: Seq<char>)
    requires
        !keys.contains(key),
    ensures
        find_member(JsonModel::Object { keys, values }, key) is None,
        member(JsonModel::Object { keys, values }, key) == JsonModel::Null,
{
    no_key_is(keys, key, 0);
}

proof fn no_key_is(keys: Seq<Seq<char>>, key: Seq<char>, from: int)
    requires
        0 <= from <= keys.len(),
        !keys.contains(key),
    ensures
        key_place(keys, key, from) == keys.len(),
    decreases keys.len() - from,
{
    if from < keys.len() {
        assert(keys.contains(keys[from]));
        no_key_is(keys, key, from + 1);
    }
}

pub fn empty_object() -> (r: Json)
    ensures
        r@ == no_members(),
{
    let keys: Vec<String> = Vec::new();
    let values: Vec<Json> = Vec::new();
    proof {
        object_view(keys, values);
        assert(text::texts(keys@) =~= Seq::<Seq<char>>::empty());
        assert(list_view(values@) =~= Seq::<JsonModel>::empty());
    }
    Json::Object { keys, values }
}

/// Adds a member to an object.
pub fn put_member(object: Json, key: &str, value: Json) -> (r: Json)
    ensures
        r@ == with_member(object@, key@, value@),
{
    match object {
        Json::Object { keys, values } => {
            let mut keys = keys;
            let mut values = values;
            proof {
                object_view(keys, values);
            }
            let ghost before = list_view(values@);
            text::put(&mut keys, key);
            values.push(value);
            proof {
                object_view(keys, values);
                assert(list_view(values@) =~= before.push(value@));
            }
            Json::Object { keys, values }
        },
        other => other,
    }
}

/// A list of one value.
pub fn singleton(value: Json) -> (r: Json)
    ensures
        r@ == JsonModel::Array(seq![value@]),
{
    let mut items: Vec<Json> = Vec::new();
    items.push(value);
    proof {
        array_view(items);
        assert(list_view(items@) =~= seq![value@]);
    }
    Json::Array(items)
}

impl Clone for Json {
    fn clone(&self) -> (r: Self)
        ensures
            r@ == self@,
        decreases self,
    {
        match self {
            Json::Null => Json::Null,
            Json::Bool(b) => Json::Bool(*b),
            Json::Number { unsigned, shown } => {
                Json::Number { unsigned: *unsigned, shown: shown.clone() }
            },
            Json::Text(t) => Json::Text(t.clone()),
            Json::Array(items) => {
                let mut copy: Vec<Json> = Vec::new();
                let mut i: usize = 0;
                while i < items.len()
                    invariant
                        i <= items.len(),
                        list_view(copy@) =~= list_view(items@).take(i as int),
                    decreases items.len() - i,
                {
                    assert(decreases_to!(self => items@[i as int]));
                    copy.push(items[i].clone());
                    i += 1;
                }
                proof {
                    array_view(*items);
                    array_view(copy);
                    assert(list_view(copy@) =~= list_view(items@));
                }
                Json::Array(copy)
            },
            Json::Object { keys, values } => {
                let mut names = text::no_texts();
                text::put_all(&mut names, keys);
                let mut copy: Vec<Json> = Vec::new();
                let mut i: usize = 0;
                while i < values.len()
                    invariant
                        i <= values.len(),
                        list_view(copy@) =~= list_view(values@).take(i as int),
                    decreases values.len() - i,
                {
                    assert(decreases_to!(self => values@[i as int]));
                    copy.push(values[i].clone());
                    i += 1;
                }
                proof {
                    object_view(*keys, *values);
                    object_view(names, copy);
                    assert(text::texts(names@) =~= text::texts(keys@));
                    assert(list_view(copy@) =~= list_view(values@));
                }
                Json::Object { keys: names, values: copy }
            },
        }
    }
}

impl Json {
    /// The place of the member of a name.
    fn place_of(&self, key: &str) -> (r: Option<usize>)
        ensures
            (r is Some) == (find_member(self@, key@) is Some),
            r matches Some(i) ==> self@ is Object && i < self@->values.len()
                && find_member(self@, key@) == Some(self@->values[i as int]) && self is Object,
    {
        match self {
            Json::Object { keys, values } => {
                proof {
                    object_view(*keys, *values);
                }
                let mut i: usize = 0;
                while i < keys.len()
                    invariant
                        i <= keys.len(),
                        key_place(text::texts(keys@), key@, 0) == key_place(
                            text::texts(keys@),
                            key@,
                            i as int,
                        ),
                    decreases keys.len() - i,
                {
                    assert(text::texts(keys@)[i as int] == keys@[i as int]@);
                    if text_equal(&keys[i], key) {
                        return if i < values.len() {
                            Some(i)
                        } else {
                            None
                        };
                    }
                    i += 1;
                }
                None
            },
            _ => None,
        }
    }

    /// The member of a name, where this is an object with such a member.
    pub fn get(&self, key: &str) -> (r: Option<&Json>)
        ensures
            match r {
                Some(found) => find_member(self@, key@) == Some(found@),
                None => find_member(self@, key@) is None,
            },
    {
        match self.place_of(key) {
            Some(i) => match self {
                Json::Object { keys, values } => {
                    proof {
                        object_view(*keys, *values);
                    }
                    Some(&values[i])
                },
                _ => None,
            },
            None => None,
        }
    }

    /// The text, where this is one.
    pub fn as_text(&self) -> (r: Option<&str>)
        ensures
            match r {
                Some(t) => text_of(self@) == Some(t@),
                None => text_of(self@) is None,
            },
    {
        match self {
            Json::Text(t) => Some(t.as_str()),
            _ => None,
        }
    }

    /// The text of the member of a name, where it is a text.
    pub fn text_at(&self, key: &str) -> (r: Option<&str>)
        ensures
            match r {
                Some(t) => text_of(member(self@, key@)) == Some(t@),
                None => text_of(member(self@, key@)) is None,
            },
    {
        match self.get(key) {
            Some(found) => found.as_text(),
            None => None,
        }
    }

    /// Whether the member of a name is a given text.
    pub fn text_is(&self, key: &str, t: &str) -> (r: bool)
        ensures
            r == is_text(member(self@, key@), t@),
    {
        match self.text_at(key) {
            Some(found) => text_equal(found, t),
            None => false,
        }
    }

    /// Whether the member of a name is a given unsigned number.
    pub fn number_is(&self, key: &str, n: u64) -> (r: bool)
        ensures
            r == is_number(member(self@, key@), n),
    {
        match self.get(key) {
            Some(Json::Number { unsigned, .. }) => match unsigned {
                Some(found) => *found == n,
                None => false,
            },
            _ => false,
        }
    }

    /// The items of the member of a name, where it is an array.
    pub fn array_at(&self, key: &str) -> (r: Option<&Vec<Json>>)
        ensures
            match r {
                Some(items) => member(self@, key@) == JsonModel::Array(list_view(items@)),
                None => !(member(self@, key@) is Array),
            },
    {
        match self.get(key) {
            Some(found) => found.as_array(),
            None => None,
        }
    }

    /// The items, where this is an array.
    pub fn as_array(&self) -> (r: Option<&Vec<Json>>)
        ensures
            match r {
                Some(items) => self@ == JsonModel::Array(list_view(items@)),
                None => !(self@ is Array),
            },
    {
        match self {
            Json::Array(items) => {
                proof {
                    array_view(*items);
                }
                Some(items)
            },
            _ => None,
        }
    }
}

} // verus!
