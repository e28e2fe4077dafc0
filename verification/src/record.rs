//! The record model: an author or a work, decoded from a JSON payload by
//! its shape.

use vstd::prelude::*;
use crate::json::{
    Json, JsonModel, json_of, lemma_member_of_concatenation, member, members_model, values_model,
};
use crate::text::optional_view;

verus! {

/// The identifier of an author, such as `/authors/1`.
#[derive(Debug, PartialEq, Eq)]
pub struct AuthorKey {
    pub key: String,
}

/// A link from a work to one of its authors.
#[derive(Debug, PartialEq, Eq)]
pub struct AuthorReference {
    pub author: AuthorKey,
}

/// The entity that a payload describes. Which of the two it is follows from
/// the members that the payload holds, not from a tag.
#[derive(Debug, PartialEq, Eq)]
pub enum Entity {
    Author { name: String, personal_name: Option<String> },
    Work { authors: Option<Vec<AuthorReference>>, subtitle: Option<String>, title: String },
}

/// One decoded payload.
#[derive(Debug, PartialEq, Eq)]
pub struct Record {
    pub entity: Entity,
    pub revision: u32,
}

/// Why a payload could not be decoded.
#[derive(Debug, PartialEq, Eq, Clone, Copy)]
pub enum DecodeError {
    /// The text is not JSON.
    Malformed,
    /// The value has neither the shape of an author nor that of a work.
    Shape,
    /// `revision` is missing or is not an unsigned integer of 32 bits.
    Revision,
}

/// An entity over sequences of characters. An author reference stands as
/// the author's key.
pub enum EntityModel {
    Author { name: Seq<char>, personal_name: Option<Seq<char>> },
    Work { authors: Option<Seq<Seq<char>>>, subtitle: Option<Seq<char>>, title: Seq<char> },
}

/// A record over sequences of characters.
pub struct RecordModel {
    pub entity: EntityModel,
    pub revision: u32,
}

impl View for AuthorKey {
    type V = Seq<char>;

    open spec fn view(&self) -> Seq<char> {
        self.key@
    }
}

impl View for AuthorReference {
    type V = Seq<char>;

    open spec fn view(&self) -> Seq<char> {
        self.author@
    }
}

/// The keys that `references` point to, in order.
pub open spec fn reference_keys(references: Seq<AuthorReference>) -> Seq<Seq<char>> {
    references.map_values(|r: AuthorReference| r@)
}

impl View for Entity {
    type V = EntityModel;

    open spec fn view(&self) -> EntityModel {
        match self {
            Entity::Author { name, personal_name } => EntityModel::Author {
                name: name@,
                personal_name: optional_view(*personal_name),
            },
            Entity::Work { authors, subtitle, title } => EntityModel::Work {
                authors: match authors {
                    Some(references) => Some(reference_keys(references@)),
                    None => None,
                },
                subtitle: optional_view(*subtitle),
                title: title@,
            },
        }
    }
}

impl View for Record {
    type V = RecordModel;

    open spec fn view(&self) -> RecordModel {
        RecordModel { entity: self.entity@, revision: self.revision }
    }
}

/// A member that must be a string: its characters.
pub open spec fn required_text(member: Option<JsonModel>) -> Option<Seq<char>> {
    match member {
        Some(JsonModel::Text(s)) => Some(s),
        _ => None,
    }
}

/// A member that may be missing. A missing member and `null` both stand for
/// an absent text, a string for itself, and any other value does not fit.
pub open spec fn optional_text(member: Option<JsonModel>) -> Option<Option<Seq<char>>> {
    match member {
        None => Some(None),
        Some(JsonModel::Null) => Some(None),
        Some(JsonModel::Text(s)) => Some(Some(s)),
        Some(_) => None,
    }
}

/// The author's key in an author reference: the string `key` of the object
/// `author` of `item`.
pub open spec fn author_key(item: JsonModel) -> Option<Seq<char>> {
    match item.get("author"@) {
        Some(author) => required_text(author.get("key"@)),
        None => None,
    }
}

/// The keys of a sequence of author references, provided each item is one.
pub open spec fn author_keys(items: Seq<JsonModel>) -> Option<Seq<Seq<char>>> {
    if forall|i: int| 0 <= i < items.len() ==> author_key(#[trigger] items[i]) is Some {
        Some(items.map_values(|item: JsonModel| author_key(item)->0))
    } else {
        None
    }
}

/// The member `authors`. A missing member and `null` both stand for an
/// absent sequence, an array of author references for their keys, and any
/// other value does not fit.
pub open spec fn optional_authors(member: Option<JsonModel>) -> Option<Option<Seq<Seq<char>>>> {
    match member {
        None => Some(None),
        Some(JsonModel::Null) => Some(None),
        Some(JsonModel::Array(items)) => match author_keys(items) {
            Some(keys) => Some(Some(keys)),
            None => None,
        },
        Some(_) => None,
    }
}

/// The author that `json` describes: it needs a string `name`, and its
/// `personal_name` must fit.
pub open spec fn author_shape(json: JsonModel) -> Option<EntityModel> {
    match (required_text(json.get("name"@)), optional_text(json.get("personal_name"@))) {
        (Some(name), Some(personal_name)) => Some(EntityModel::Author { name, personal_name }),
        _ => None,
    }
}

/// The work that `json` describes: it needs a string `title`, and its
/// `subtitle` and `authors` must fit.
pub open spec fn work_shape(json: JsonModel) -> Option<EntityModel> {
    match (
        required_text(json.get("title"@)),
        optional_text(json.get("subtitle"@)),
        optional_authors(json.get("authors"@)),
    ) {
        (Some(title), Some(subtitle), Some(authors)) => Some(
            EntityModel::Work { authors, subtitle, title },
        ),
        _ => None,
    }
}

/// The entity that `json` describes. The author's shape is tried first; a
/// value that fits both is an author.
pub open spec fn entity_of(json: JsonModel) -> Option<EntityModel> {
    match author_shape(json) {
        Some(author) => Some(author),
        None => work_shape(json),
    }
}

/// The member `revision`, where it is a non-negative integer of at most 32
/// bits.
pub open spec fn revision_of(json: JsonModel) -> Option<u32> {
    match json.get("revision"@) {
        Some(JsonModel::Number(Some(n))) => if n <= u32::MAX {
            Some(n as u32)
        } else {
            None
        },
        _ => None,
    }
}

/// The record that `json` decodes to. Members that neither shape knows are
/// ignored.
pub open spec fn decoded(json: JsonModel) -> Result<RecordModel, DecodeError> {
    match entity_of(json) {
        None => Err(DecodeError::Shape),
        Some(entity) => match revision_of(json) {
            None => Err(DecodeError::Revision),
            Some(revision) => Ok(RecordModel { entity, revision }),
        },
    }
}

/// The record that the JSON text `text` decodes to.
pub open spec fn decoded_text(text: Seq<char>) -> Result<RecordModel, DecodeError> {
    match json_of(text) {
        None => Err(DecodeError::Malformed),
        Some(json) => decoded(json),
    }
}

/// Whether `result` is what the model `expected` asks for: the same error,
/// or a record with the expected contents.
pub open spec fn decodes_as(
    result: Result<Record, DecodeError>,
    expected: Result<RecordModel, DecodeError>,
) -> bool {
    match result {
        Ok(record) => expected == Ok::<RecordModel, DecodeError>(record@),
        Err(error) => expected == Err::<RecordModel, DecodeError>(error),
    }
}

/// The string member `key` of `json`.
fn text_member(json: &Json, key: &str) -> (text: Option<String>)
    ensures
        optional_view(text) == required_text(json@.get(key@)),
{
    match json.get(key) {
        Some(Json::Text(s)) => Some(s.clone()),
        _ => None,
    }
}

/// The optional string member `key` of `json`; `None` where the member
/// does not fit.
fn optional_text_member(json: &Json, key: &str) -> (text: Option<Option<String>>)
    ensures
        match text {
            Some(found) => optional_text(json@.get(key@)) == Some(optional_view(found)),
            None => optional_text(json@.get(key@)) is None,
        },
{
    match json.get(key) {
        None => Some(None),
        Some(Json::Null) => Some(None),
        Some(Json::Text(s)) => Some(Some(s.clone())),
        Some(_) => None,
    }
}

/// The author reference that `item` holds.
fn author_reference(item: &Json) -> (reference: Option<AuthorReference>)
    ensures
        match reference {
            Some(r) => author_key(item@) == Some(r@),
            None => author_key(item@) is None,
        },
{
    match item.get("author") {
        Some(author) => match text_member(author, "key") {
            Some(key) => Some(AuthorReference { author: AuthorKey { key } }),
            None => None,
        },
        None => None,
    }
}

/// The author references that the array `items` holds; `None` where an
/// item is not an author reference.
fn author_references(items: &Vec<Json>) -> (references: Option<Vec<AuthorReference>>)
    ensures
        match references {
            Some(found) => author_keys(values_model(items@)) == Some(reference_keys(found@)),
            None => author_keys(values_model(items@)) is None,
        },
{
    let ghost models = values_model(items@);
    let mut found: Vec<AuthorReference> = Vec::new();
    let mut i: usize = 0;
    while i < items.len()
        invariant
            i <= items.len(),
            models == values_model(items@),
            found.len() == i,
            forall|k: int| 0 <= k < i ==> author_key(#[trigger] models[k]) == Some(found[k]@),
        decreases items.len() - i,
    {
        match author_reference(&items[i]) {
            Some(reference) => {
                found.push(reference);
            },
            None => {
                assert(author_key(models[i as int]) is None);
                return None;
            },
        }
        i += 1;
    }
    Some(found)
}

/// The optional member `authors` of `json`; `None` where the member does
/// not fit.
fn optional_authors_member(json: &Json) -> (authors: Option<Option<Vec<AuthorReference>>>)
    ensures
        match authors {
            Some(Some(found)) => optional_authors(json@.get("authors"@)) == Some(
                Some(reference_keys(found@)),
            ),
            Some(None) => optional_authors(json@.get("authors"@)) == Some(
                None::<Seq<Seq<char>>>,
            ),
            None => optional_authors(json@.get("authors"@)) is None,
        },
{
    match json.get("authors") {
        None => Some(None),
        Some(Json::Null) => Some(None),
        Some(member) => match member.as_items() {
            Some(items) => match author_references(items) {
                Some(found) => Some(Some(found)),
                None => None,
            },
            None => None,
        },
    }
}

impl Entity {
    /// Reads the entity that `json` describes, the author's shape first.
    /// Returns `None` where `json` has neither shape.
    pub fn from_json(json: &Json) -> (entity: Option<Entity>)
        ensures
            match entity {
                Some(e) => entity_of(json@) == Some(e@),
                None => entity_of(json@) is None,
            },
    {
        if let Some(name) = text_member(json, "name") {
            if let Some(personal_name) = optional_text_member(json, "personal_name") {
                return Some(Entity::Author { name, personal_name });
            }
        }
        let title = match text_member(json, "title") {
            Some(title) => title,
            None => return None,
        };
        let subtitle = match optional_text_member(json, "subtitle") {
            Some(subtitle) => subtitle,
            None => return None,
        };
        let authors = match optional_authors_member(json) {
            Some(authors) => authors,
            None => return None,
        };
        Some(Entity::Work { authors, subtitle, title })
    }
}

impl Record {
    /// Decodes the record that `json` describes. Members that neither shape
    /// knows are ignored.
    pub fn from_json(json: &Json) -> (result: Result<Record, DecodeError>)
        ensures
            decodes_as(result, decoded(json@)),
    {
        let entity = match Entity::from_json(json) {
            Some(entity) => entity,
            None => return Err(DecodeError::Shape),
        };
        let revision = match json.get("revision") {
            Some(Json::Number(Some(n))) => {
                if *n <= u32::MAX as u64 {
                    *n as u32
                } else {
                    return Err(DecodeError::Revision);
                }
            },
            _ => return Err(DecodeError::Revision),
        };
        Ok(Record { entity, revision })
    }
}

/// Decodes the JSON text `payload` into a record.
pub fn decode(payload: &str) -> (result: Result<Record, DecodeError>)
    ensures
        decodes_as(result, decoded_text(payload@)),
{
    match Json::parse(payload) {
        Some(json) => Record::from_json(&json),
        None => Err(DecodeError::Malformed),
    }
}

/// A member that is written only where the text is present.
pub open spec fn optional_member(key: Seq<char>, text: Option<Seq<char>>) -> Seq<
    (Seq<char>, JsonModel),
> {
    match text {
        Some(s) => seq![(key, JsonModel::Text(s))],
        None => Seq::empty(),
    }
}

/// An author reference as JSON: `{"author": {"key": key}}`.
pub open spec fn reference_json(key: Seq<char>) -> JsonModel {
    JsonModel::Object(
        seq![("author"@, JsonModel::Object(seq![("key"@, JsonModel::Text(key))]))],
    )
}

/// The member `authors`, written only where the sequence is present.
pub open spec fn authors_member(authors: Option<Seq<Seq<char>>>) -> Seq<(Seq<char>, JsonModel)> {
    match authors {
        Some(keys) => seq![
            (
                "authors"@,
                JsonModel::Array(Seq::new(keys.len(), |i: int| reference_json(keys[i]))),
            ),
        ],
        None => Seq::empty(),
    }
}

/// The member `revision`.
pub open spec fn revision_member(revision: u32) -> (Seq<char>, JsonModel) {
    ("revision"@, JsonModel::Number(Some(revision as u64)))
}

/// The JSON object that stands for `record`: the members of the entity,
/// then `revision`. An absent member is left out, not written as `null`.
pub open spec fn encoded(record: RecordModel) -> JsonModel {
    match record.entity {
        EntityModel::Author { name, personal_name } => JsonModel::Object(
            seq![("name"@, JsonModel::Text(name))] + optional_member(
                "personal_name"@,
                personal_name,
            ) + seq![revision_member(record.revision)],
        ),
        EntityModel::Work { authors, subtitle, title } => JsonModel::Object(
            authors_member(authors) + optional_member("subtitle"@, subtitle) + seq![
                ("title"@, JsonModel::Text(title)),
                revision_member(record.revision),
            ],
        ),
    }
}

impl AuthorReference {
    /// The reference as JSON.
    pub fn to_json(&self) -> (json: Json)
        ensures
            json@ == reference_json(self@),
    {
        let mut inner: Vec<(String, Json)> = Vec::new();
        inner.push(("key".to_owned(), Json::Text(self.author.key.clone())));
        let ghost inner_model = members_model(inner@);
        assert(inner_model =~= seq![("key"@, JsonModel::Text(self@))]);
        let mut outer: Vec<(String, Json)> = Vec::new();
        outer.push(("author".to_owned(), Json::object(inner)));
        assert(members_model(outer@) =~= seq![
            ("author"@, JsonModel::Object(inner_model)),
        ]);
        Json::object(outer)
    }
}

/// The references `references` as a JSON array.
fn references_json(references: &Vec<AuthorReference>) -> (json: Json)
    ensures
        json@ == JsonModel::Array(
            Seq::new(
                references.len() as nat,
                |i: int| reference_json(reference_keys(references@)[i]),
            ),
        ),
{
    let ghost keys = reference_keys(references@);
    let mut items: Vec<Json> = Vec::new();
    let mut i: usize = 0;
    while i < references.len()
        invariant
            i <= references.len(),
            keys == reference_keys(references@),
            items.len() == i,
            forall|k: int| 0 <= k < i ==> (#[trigger] items[k])@ == reference_json(keys[k]),
        decreases references.len() - i,
    {
        items.push(references[i].to_json());
        i += 1;
    }
    assert(values_model(items@) =~= Seq::new(
        references.len() as nat,
        |i: int| reference_json(keys[i]),
    ));
    Json::array(items)
}

impl Record {
    /// The record as a JSON object. An absent member is left out.
    pub fn to_json(&self) -> (json: Json)
        ensures
            json@ == encoded(self@),
    {
        let mut entries: Vec<(String, Json)> = Vec::new();
        match &self.entity {
            Entity::Author { name, personal_name } => {
                entries.push(("name".to_owned(), Json::Text(name.clone())));
                if let Some(text) = personal_name {
                    entries.push(("personal_name".to_owned(), Json::Text(text.clone())));
                }
            },
            Entity::Work { authors, subtitle, title } => {
                if let Some(references) = authors {
                    entries.push(("authors".to_owned(), references_json(references)));
                }
                if let Some(text) = subtitle {
                    entries.push(("subtitle".to_owned(), Json::Text(text.clone())));
                }
                entries.push(("title".to_owned(), Json::Text(title.clone())));
            },
        }
        entries.push(("revision".to_owned(), Json::Number(Some(self.revision as u64))));
        assert(members_model(entries@) =~= encoded(self@)->Object_0);
        Json::object(entries)
    }
}

/// The keys of the members that a record holds are six different texts.
pub proof fn lemma_keys_differ()
    ensures
        "name"@ != "personal_name"@,
        "name"@ != "revision"@,
        "name"@ != "title"@,
        "name"@ != "subtitle"@,
        "name"@ != "authors"@,
        "personal_name"@ != "revision"@,
        "personal_name"@ != "title"@,
        "personal_name"@ != "subtitle"@,
        "personal_name"@ != "authors"@,
        "revision"@ != "title"@,
        "revision"@ != "subtitle"@,
        "revision"@ != "authors"@,
        "title"@ != "subtitle"@,
        "title"@ != "authors"@,
        "subtitle"@ != "authors"@,
{
    reveal_strlit("name");
    reveal_strlit("personal_name");
    reveal_strlit("revision");
    reveal_strlit("title");
    reveal_strlit("subtitle");
    reveal_strlit("authors");
    assert("name"@.len() == 4);
    assert("personal_name"@.len() == 13);
    assert("revision"@.len() == 8 && "revision"@[0] == 'r');
    assert("title"@.len() == 5);
    assert("subtitle"@.len() == 8 && "subtitle"@[0] == 's');
    assert("authors"@.len() == 7);
}

/// Whether `key` is the key of a member that a record holds.
pub open spec fn is_known_key(key: Seq<char>) -> bool {
    ||| key == "name"@
    ||| key == "personal_name"@
    ||| key == "title"@
    ||| key == "subtitle"@
    ||| key == "authors"@
    ||| key == "revision"@
}

/// A member under another key does not change what a key is looked up to.
proof fn lemma_lookup_skips_other_key(
    before: Seq<(Seq<char>, JsonModel)>,
    after: Seq<(Seq<char>, JsonModel)>,
    other: Seq<char>,
    value: JsonModel,
    key: Seq<char>,
)
    requires
        other != key,
    ensures
        member(before + seq![(other, value)] + after, key) == member(before + after, key),
{
    reveal_with_fuel(member, 2);
    lemma_member_of_three(before, seq![(other, value)], after, key);
    lemma_member_of_concatenation(before, after, key);
}

/// A member that neither shape knows is ignored: an object decodes to the
/// same result with it as without it.
pub proof fn lemma_unknown_member_is_ignored(
    before: Seq<(Seq<char>, JsonModel)>,
    after: Seq<(Seq<char>, JsonModel)>,
    key: Seq<char>,
    value: JsonModel,
)
    requires
        !is_known_key(key),
    ensures
        decoded(JsonModel::Object(before + seq![(key, value)] + after)) == decoded(
            JsonModel::Object(before + after),
        ),
{
    lemma_lookup_skips_other_key(before, after, key, value, "name"@);
    lemma_lookup_skips_other_key(before, after, key, value, "personal_name"@);
    lemma_lookup_skips_other_key(before, after, key, value, "title"@);
    lemma_lookup_skips_other_key(before, after, key, value, "subtitle"@);
    lemma_lookup_skips_other_key(before, after, key, value, "authors"@);
    lemma_lookup_skips_other_key(before, after, key, value, "revision"@);
}

/// Whether `json` is an author as JSON and nothing more: an object with a
/// string `name`, an unsigned `revision` of 32 bits, a `personal_name` that
/// is a string where it is present, and no member under any other key.
pub open spec fn is_author_json(json: JsonModel) -> bool {
    &&& json is Object
    &&& json.get("name"@) matches Some(name) && name is Text
    &&& json.get("personal_name"@) matches Some(personal_name) ==> personal_name is Text
    &&& json.get("revision"@) matches Some(JsonModel::Number(Some(n))) && n <= u32::MAX
    &&& forall|key: Seq<char>|
        key != "name"@ && key != "personal_name"@ && key != "revision"@ ==> (#[trigger] json.get(
            key,
        )) is None
}

/// Whether two JSON values hold the same member under every key, whatever
/// the order of their members.
pub open spec fn same_members(a: JsonModel, b: JsonModel) -> bool {
    forall|key: Seq<char>| #[trigger] a.get(key) == b.get(key)
}

/// Decoding an author and encoding the record again gives the members that
/// were there, up to their order; an absent `personal_name` stays absent.
pub proof fn lemma_author_round_trip(json: JsonModel)
    requires
        is_author_json(json),
    ensures
        decoded(json) is Ok,
        decoded(json)->Ok_0.entity is Author,
        same_members(encoded(decoded(json)->Ok_0), json),
{
    lemma_keys_differ();
    reveal_with_fuel(member, 4);
}

/// An encoded author reference decodes to its key.
pub proof fn lemma_reference_round_trip(key: Seq<char>)
    ensures
        author_key(reference_json(key)) == Some(key),
{
    reveal_with_fuel(member, 2);
}

/// A key is looked up in a concatenation of three parts in the first part
/// that holds it.
proof fn lemma_member_of_three(
    head: Seq<(Seq<char>, JsonModel)>,
    middle: Seq<(Seq<char>, JsonModel)>,
    tail: Seq<(Seq<char>, JsonModel)>,
    key: Seq<char>,
)
    ensures
        member(head + middle + tail, key) == if member(head, key) is Some {
            member(head, key)
        } else if member(middle, key) is Some {
            member(middle, key)
        } else {
            member(tail, key)
        },
{
    lemma_member_of_concatenation(head + middle, tail, key);
    lemma_member_of_concatenation(head, middle, key);
}

/// Encoding a record and decoding the result gives the record back.
pub proof fn lemma_encode_then_decode(record: RecordModel)
    ensures
        decoded(encoded(record)) == Ok::<RecordModel, DecodeError>(record),
{
    lemma_keys_differ();
    reveal_with_fuel(member, 3);
    let json = encoded(record);
    match record.entity {
        EntityModel::Author { name, personal_name } => {
            let head = seq![("name"@, JsonModel::Text(name))];
            let middle = optional_member("personal_name"@, personal_name);
            let tail = seq![revision_member(record.revision)];
            lemma_member_of_three(head, middle, tail, "name"@);
            lemma_member_of_three(head, middle, tail, "personal_name"@);
            lemma_member_of_three(head, middle, tail, "revision"@);
        },
        EntityModel::Work { authors, subtitle, title } => {
            let head = authors_member(authors);
            let middle = optional_member("subtitle"@, subtitle);
            let tail = seq![("title"@, JsonModel::Text(title)), revision_member(record.revision)];
            lemma_member_of_three(head, middle, tail, "name"@);
            lemma_member_of_three(head, middle, tail, "title"@);
            lemma_member_of_three(head, middle, tail, "subtitle"@);
            lemma_member_of_three(head, middle, tail, "authors"@);
            lemma_member_of_three(head, middle, tail, "revision"@);
            if let Some(keys) = authors {
                let items = Seq::new(keys.len(), |i: int| reference_json(keys[i]));
                assert forall|i: int| 0 <= i < items.len() implies author_key(
                    #[trigger] items[i],
                ) == Some(keys[i]) by {
                    lemma_reference_round_trip(keys[i]);
                }
                assert(items.map_values(|item: JsonModel| author_key(item)->0) =~= keys);
            }
        },
    }
}

} // verus!
