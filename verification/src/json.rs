//! JSON values as the decoder reads them.
//!
//! Parsing is left to `serde_json`; what it hands back is copied into
//! [`Json`], a tree of plain values that the decoder can inspect.

use vstd::prelude::*;

verus! {

/// A JSON value as a mathematical tree.
pub enum JsonModel {
    Null,
    Bool(bool),
    /// A number; the value is known when it is a non-negative integer that
    /// fits 64 bits.
    Number(Option<u64>),
    Text(Seq<char>),
    Array(Seq<JsonModel>),
    /// The members of an object, each a key with its value.
    Object(Seq<(Seq<char>, JsonModel)>),
}

/// The value of the first member of `entries` whose key is `key`.
pub open spec fn member(entries: Seq<(Seq<char>, JsonModel)>, key: Seq<char>) -> Option<JsonModel>
    decreases entries.len(),
{
    if entries.len() == 0 {
        None
    } else if entries[0].0 == key {
        Some(entries[0].1)
    } else {
        member(entries.drop_first(), key)
    }
}

/// A key is looked up in a concatenation first in its left part, then in
/// its right part.
pub proof fn lemma_member_of_concatenation(
    left: Seq<(Seq<char>, JsonModel)>,
    right: Seq<(Seq<char>, JsonModel)>,
    key: Seq<char>,
)
    ensures
        member(left + right, key) == if member(left, key) is Some {
            member(left, key)
        } else {
            member(right, key)
        },
    decreases left.len(),
{
    if left.len() > 0 {
        assert((left + right).drop_first() =~= left.drop_first() + right);
        lemma_member_of_concatenation(left.drop_first(), right, key);
    }
}

impl JsonModel {
    /// The member `key` of an object; `None` for a missing member and for
    /// every value that is not an object.
    pub open spec fn get(self, key: Seq<char>) -> Option<JsonModel> {
        match self {
            JsonModel::Object(entries) => member(entries, key),
            _ => None,
        }
    }

    /// The characters of a JSON string.
    pub open spec fn text(self) -> Option<Seq<char>> {
        match self {
            JsonModel::Text(s) => Some(s),
            _ => None,
        }
    }

    /// The items of a JSON array.
    pub open spec fn items(self) -> Option<Seq<JsonModel>> {
        match self {
            JsonModel::Array(items) => Some(items),
            _ => None,
        }
    }

    /// The value of a JSON number that is a non-negative integer of at most
    /// 64 bits.
    pub open spec fn natural(self) -> Option<u64> {
        match self {
            JsonModel::Number(n) => n,
            _ => None,
        }
    }
}

/// A JSON value.
#[derive(Debug, PartialEq, Eq)]
pub enum Json {
    Null,
    Bool(bool),
    /// A number. It holds the value when that is a non-negative integer
    /// that fits 64 bits, and `None` for a negative or fractional number.
    Number(Option<u64>),
    Text(String),
    Array(Vec<Json>),
    /// The members of an object, each a key with its value.
    Object(Vec<(String, Json)>),
}

/// The trees of the first `n` values of `items`, in order.
pub open spec fn items_model(items: Vec<Json>, n: nat) -> Seq<JsonModel>
    decreases items, n,
{
    if 0 < n <= items.len() {
        items_model(items, (n - 1) as nat).push(items[n - 1].view())
    } else {
        Seq::empty()
    }
}

/// The first `n` members of `entries` as trees, in order.
pub open spec fn entries_model(entries: Vec<(String, Json)>, n: nat) -> Seq<(Seq<char>, JsonModel)>
    decreases entries, n,
{
    if 0 < n <= entries.len() {
        entries_model(entries, (n - 1) as nat).push((entries[n - 1].0@, entries[n - 1].1.view()))
    } else {
        Seq::empty()
    }
}

impl View for Json {
    type V = JsonModel;

    open spec fn view(&self) -> JsonModel
        decreases self, 0nat,
    {
        match self {
            Json::Null => JsonModel::Null,
            Json::Bool(b) => JsonModel::Bool(*b),
            Json::Number(n) => JsonModel::Number(*n),
            Json::Text(s) => JsonModel::Text(s@),
            Json::Array(items) => JsonModel::Array(items_model(*items, items.len() as nat)),
            Json::Object(entries) => JsonModel::Object(
                entries_model(*entries, entries.len() as nat),
            ),
        }
    }
}

/// The first `n` values of `items` give `n` trees, the tree of each value
/// at its index.
pub proof fn lemma_items_model(items: Vec<Json>, n: nat)
    requires
        n <= items.len(),
    ensures
        items_model(items, n).len() == n,
        forall|i: int| 0 <= i < n ==> #[trigger] items_model(items, n)[i] == items[i]@,
    decreases n,
{
    if n > 0 {
        lemma_items_model(items, (n - 1) as nat);
        assert(items_model(items, n) == items_model(items, (n - 1) as nat).push(
            items[n - 1].view(),
        ));
    }
}

/// The first `n` members of `entries` give `n` members of the tree, each
/// with its key and the tree of its value.
pub proof fn lemma_entries_model(entries: Vec<(String, Json)>, n: nat)
    requires
        n <= entries.len(),
    ensures
        entries_model(entries, n).len() == n,
        forall|i: int|
            0 <= i < n ==> #[trigger] entries_model(entries, n)[i] == (
                entries[i].0@,
                entries[i].1@,
            ),
    decreases n,
{
    if n > 0 {
        lemma_entries_model(entries, (n - 1) as nat);
        assert(entries_model(entries, n) == entries_model(entries, (n - 1) as nat).push(
            (entries[n - 1].0@, entries[n - 1].1.view()),
        ));
    }
}

/// The members `entries` as trees, in order.
pub open spec fn members_model(entries: Seq<(String, Json)>) -> Seq<(Seq<char>, JsonModel)> {
    entries.map_values(|entry: (String, Json)| (entry.0@, entry.1@))
}

/// The values `items` as trees, in order.
pub open spec fn values_model(items: Seq<Json>) -> Seq<JsonModel> {
    items.map_values(|item: Json| item@)
}

impl Json {
    /// An object with the members `entries`, in their order.
    pub fn object(entries: Vec<(String, Json)>) -> (json: Json)
        ensures
            json@ == JsonModel::Object(members_model(entries@)),
    {
        proof {
            lemma_entries_model(entries, entries.len() as nat);
            assert(entries_model(entries, entries.len() as nat) =~= members_model(entries@));
        }
        Json::Object(entries)
    }

    /// An array with the values `items`, in their order.
    pub fn array(items: Vec<Json>) -> (json: Json)
        ensures
            json@ == JsonModel::Array(values_model(items@)),
    {
        proof {
            lemma_items_model(items, items.len() as nat);
            assert(items_model(items, items.len() as nat) =~= values_model(items@));
        }
        Json::Array(items)
    }

    /// The member `key` of an object, the first one where the key occurs
    /// more than once.
    pub fn get(&self, key: &str) -> (found: Option<&Json>)
        ensures
            match found {
                Some(value) => self@.get(key@) == Some(value@),
                None => self@.get(key@) is None,
            },
    {
        match self {
            Json::Object(entries) => {
                let ghost all = self@->Object_0;
                proof {
                    lemma_entries_model(*entries, entries.len() as nat);
                    assert(all.skip(0) =~= all);
                }
                let mut i: usize = 0;
                while i < entries.len()
                    invariant
                        i <= entries.len(),
                        self@ == JsonModel::Object(all),
                        all.len() == entries.len(),
                        forall|k: int|
                            0 <= k < entries.len() ==> all[k] == (entries[k].0@, entries[k].1@),
                        member(all, key@) == member(all.skip(i as int), key@),
                    decreases entries.len() - i,
                {
                    let entry = &entries[i];
                    assert(all.skip(i as int).drop_first() =~= all.skip(i + 1));
                    if entry.0.as_str().eq(key) {
                        return Some(&entry.1);
                    }
                    i += 1;
                }
                None
            },
            _ => None,
        }
    }

    /// The characters of a JSON string.
    pub fn as_text(&self) -> (text: Option<&String>)
        ensures
            match text {
                Some(s) => self@.text() == Some(s@),
                None => self@.text() is None,
            },
    {
        match self {
            Json::Text(s) => Some(s),
            _ => None,
        }
    }

    /// The value of a number that is a non-negative integer of at most 64
    /// bits.
    pub fn as_natural(&self) -> (n: Option<u64>)
        ensures
            n == self@.natural(),
    {
        match self {
            Json::Number(n) => *n,
            _ => None,
        }
    }

    /// The items of a JSON array.
    pub fn as_items(&self) -> (items: Option<&Vec<Json>>)
        ensures
            match items {
                Some(v) => self@.items() == Some(values_model(v@)),
                None => self@.items() is None,
            },
    {
        match self {
            Json::Array(items) => {
                proof {
                    lemma_items_model(*items, items.len() as nat);
                }
                Some(items)
            },
            _ => None,
        }
    }
}

/// `serde_json::Value`, the tree that the parser builds.
#[verifier::external_type_specification]
#[verifier::external_body]
pub struct ExValue(serde_json::Value);

/// The tree that a `serde_json::Value` holds.
pub uninterp spec fn value_model(value: serde_json::Value) -> JsonModel;

/// What `serde_json::from_str` makes of `text` when asked for a
/// `serde_json::Value`: the tree it builds, or `None` where it refuses the
/// text.
pub uninterp spec fn json_of(text: Seq<char>) -> Option<JsonModel>;

/// The top of a `serde_json::Value`: its variant, with what the variant
/// holds. The values inside an array or an object are still outside values.
enum Parts<'a> {
    Null,
    Bool(bool),
    Number(Option<u64>),
    Text(&'a String),
    Array(&'a Vec<serde_json::Value>),
    Object(Vec<(&'a String, &'a serde_json::Value)>),
}

/// The tree that `parts` stands for.
spec fn parts_model(parts: Parts) -> JsonModel {
    match parts {
        Parts::Null => JsonModel::Null,
        Parts::Bool(b) => JsonModel::Bool(b),
        Parts::Number(n) => JsonModel::Number(n),
        Parts::Text(s) => JsonModel::Text(s@),
        Parts::Array(values) => JsonModel::Array(
            values@.map_values(|value: serde_json::Value| value_model(value)),
        ),
        Parts::Object(members) => JsonModel::Object(
            members@.map_values(
                |m: (&String, &serde_json::Value)| (m.0@, value_model(*m.1)),
            ),
        ),
    }
}

/// Parses `text` with `serde_json::from_str`. The result holds the tree that
/// `json_of` names for `text`, and is `None` exactly where the parser returns
/// an error: nothing is claimed about which texts it accepts.
#[verifier::external_body]
fn parse_value(text: &str) -> (parsed: Option<serde_json::Value>)
    ensures
        match parsed {
            Some(value) => json_of(text@) == Some(value_model(value)),
            None => json_of(text@) is None,
        },
{
    serde_json::from_str::<serde_json::Value>(text).ok()
}

/// Takes the top of a `serde_json::Value` apart, variant by variant. A
/// number gives what `Number::as_u64` returns for it. An object gives its
/// members in the order in which `serde_json::Map::iter` hands them out.
#[verifier::external_body]
fn value_parts<'a>(value: &'a serde_json::Value) -> (parts: Parts<'a>)
    ensures
        parts_model(parts) == value_model(*value),
{
    match value {
        serde_json::Value::Null => Parts::Null,
        serde_json::Value::Bool(b) => Parts::Bool(*b),
        serde_json::Value::Number(n) => Parts::Number(n.as_u64()),
        serde_json::Value::String(s) => Parts::Text(s),
        serde_json::Value::Array(values) => Parts::Array(values),
        serde_json::Value::Object(members) => Parts::Object(members.iter().collect()),
    }
}

/// An item of an array is a smaller tree than the array.
proof fn lemma_item_is_smaller(json: JsonModel, i: int)
    requires
        json is Array,
        0 <= i < json->Array_0.len(),
    ensures
        decreases_to!(json => json->Array_0[i]),
{
}

/// The value of a member of an object is a smaller tree than the object.
proof fn lemma_member_is_smaller(json: JsonModel, i: int)
    requires
        json is Object,
        0 <= i < json->Object_0.len(),
    ensures
        decreases_to!(json => json->Object_0[i].1),
{
}

/// Copies a parsed value into a [`Json`].
fn json_from_value(value: &serde_json::Value) -> (json: Json)
    ensures
        json@ == value_model(*value),
    decreases value_model(*value),
{
    match value_parts(value) {
        Parts::Null => Json::Null,
        Parts::Bool(b) => Json::Bool(b),
        Parts::Number(n) => Json::Number(n),
        Parts::Text(s) => Json::Text(s.clone()),
        Parts::Array(values) => {
            let ghost models = values@.map_values(|value: serde_json::Value| value_model(value));
            let mut items: Vec<Json> = Vec::new();
            let mut i: usize = 0;
            while i < values.len()
                invariant
                    i <= values.len(),
                    value_model(*value) == JsonModel::Array(models),
                    models == values@.map_values(|value: serde_json::Value| value_model(value)),
                    items.len() == i,
                    forall|k: int| 0 <= k < i ==> (#[trigger] items[k])@ == models[k],
                decreases values.len() - i,
            {
                proof {
                    lemma_item_is_smaller(value_model(*value), i as int);
                }
                items.push(json_from_value(&values[i]));
                i += 1;
            }
            assert(values_model(items@) =~= models);
            Json::array(items)
        },
        Parts::Object(members) => {
            let ghost models = members@.map_values(
                |m: (&String, &serde_json::Value)| (m.0@, value_model(*m.1)),
            );
            let mut entries: Vec<(String, Json)> = Vec::new();
            let mut i: usize = 0;
            while i < members.len()
                invariant
                    i <= members.len(),
                    value_model(*value) == JsonModel::Object(models),
                    models == members@.map_values(
                        |m: (&String, &serde_json::Value)| (m.0@, value_model(*m.1)),
                    ),
                    entries.len() == i,
                    forall|k: int|
                        0 <= k < i ==> ((#[trigger] entries[k]).0@, entries[k].1@) == models[k],
                decreases members.len() - i,
            {
                proof {
                    lemma_member_is_smaller(value_model(*value), i as int);
                }
                let member = &members[i];
                entries.push((member.0.clone(), json_from_value(member.1)));
                i += 1;
            }
            assert(members_model(entries@) =~= models);
            Json::object(entries)
        },
    }
}

impl Json {
    /// Parses `text` as JSON. Returns `None` where the parser refuses
    /// `text`.
    pub fn parse(text: &str) -> (parsed: Option<Json>)
        ensures
            match parsed {
                Some(json) => json_of(text@) == Some(json@),
                None => json_of(text@) is None,
            },
    {
        match parse_value(text) {
            Some(value) => Some(json_from_value(&value)),
            None => None,
        }
    }
}

} // verus!
