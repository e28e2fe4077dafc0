//! The projection of input rows into output rows.
//!
//! An input row holds its key at index 1, its revision at index 2, the time
//! of its last change at index 3 and the JSON payload at index 4. Each row
//! is decoded and projected on its own; no state passes from row to row.

use vstd::prelude::*;
use vstd::string::StringExecFns;
use crate::json::JsonModel;
use crate::record::{
    DecodeError, Entity, EntityModel, Record, RecordModel, author_key, decode, decoded,
    decoded_text, reference_keys,
};
use crate::table::{
    ReadError, WriterSettings, create_reader, create_writer, read_table, render, table_of,
    table_text, uniform, TAB,
};
use crate::text::{clean_string, is_stripped, optional_view, sanitized};

verus! {

/// The number of fields that a row must hold.
pub const MIN_FIELDS: usize = 5;

/// The projection that a run applies.
#[derive(Debug, PartialEq, Eq, Clone, Copy)]
pub enum Mode {
    /// One metadata row for each record.
    Format,
    /// One row for each author of a work.
    Assign,
}

/// What became of one input row.
#[derive(Debug, PartialEq, Eq)]
pub enum Outcome {
    /// The payload was decoded; these rows go to the output.
    Emitted(Vec<Vec<String>>),
    /// The payload could not be decoded; the row is skipped with this
    /// diagnostic.
    Skipped(String),
}

/// An outcome over sequences of characters.
pub enum OutcomeModel {
    Emitted(Seq<Seq<Seq<char>>>),
    Skipped(Seq<char>),
}

impl View for Outcome {
    type V = OutcomeModel;

    open spec fn view(&self) -> OutcomeModel {
        match self {
            Outcome::Emitted(rows) => OutcomeModel::Emitted(rows.deep_view()),
            Outcome::Skipped(diagnostic) => OutcomeModel::Skipped(diagnostic@),
        }
    }
}

/// What a run produced.
#[derive(Debug, PartialEq, Eq)]
pub struct Report {
    /// The output rows, in the order of the input rows they come from.
    pub rows: Vec<Vec<String>>,
    /// One diagnostic for each skipped row, in the order of the input.
    pub diagnostics: Vec<String>,
    /// The output rows as tab-separated text.
    pub output: String,
}

/// Why a run failed as a whole.
#[derive(Debug, PartialEq, Eq, Clone, Copy)]
pub enum RunError {
    /// The input is not a table.
    Read(ReadError),
    /// Row `row` holds only `found` fields, fewer than a row must hold.
    MissingFields { row: usize, found: usize },
}

/// An absent text counts as the empty text.
pub open spec fn or_empty(text: Option<Seq<char>>) -> Seq<char> {
    match text {
        Some(s) => s,
        None => Seq::empty(),
    }
}

/// The metadata row of a record: the row's key, revision and time of last
/// change as they came, then the two cleaned texts of the entity.
pub open spec fn format_projection(
    key: Seq<char>,
    revision: Seq<char>,
    last_modified: Seq<char>,
    record: RecordModel,
) -> Seq<Seq<char>> {
    match record.entity {
        EntityModel::Author { name, personal_name } => seq![
            key,
            revision,
            last_modified,
            sanitized(name),
            sanitized(or_empty(personal_name)),
        ],
        EntityModel::Work { authors, subtitle, title } => seq![
            key,
            revision,
            last_modified,
            sanitized(title),
            sanitized(or_empty(subtitle)),
        ],
    }
}

/// The association rows of a record: for a work with authors one row for
/// each author, in their order, holding the row's key and the author's key;
/// no row for any other record.
pub open spec fn assign_projection(key: Seq<char>, record: RecordModel) -> Seq<Seq<Seq<char>>> {
    match record.entity {
        EntityModel::Work { authors: Some(authors), subtitle, title } => Seq::new(
            authors.len(),
            |i: int| seq![key, authors[i]],
        ),
        _ => Seq::empty(),
    }
}

/// The rows that a record gives in `mode`.
pub open spec fn projection(
    mode: Mode,
    key: Seq<char>,
    revision: Seq<char>,
    last_modified: Seq<char>,
    record: RecordModel,
) -> Seq<Seq<Seq<char>>> {
    match mode {
        Mode::Format => seq![format_projection(key, revision, last_modified, record)],
        Mode::Assign => assign_projection(key, record),
    }
}

/// The diagnostic for a row whose payload could not be decoded.
pub open spec fn diagnostic_text(mode: Mode, key: Seq<char>, payload: Seq<char>) -> Seq<char> {
    match mode {
        Mode::Format => "could not deserialize "@ + key + ": "@ + payload,
        Mode::Assign => "could not process work: "@ + key,
    }
}

/// What becomes of `row` once its payload has been decoded to `decoded`.
pub open spec fn settled(
    mode: Mode,
    row: Seq<Seq<char>>,
    decoded: Result<RecordModel, DecodeError>,
) -> OutcomeModel {
    match decoded {
        Ok(record) => OutcomeModel::Emitted(projection(mode, row[1], row[2], row[3], record)),
        Err(_) => OutcomeModel::Skipped(diagnostic_text(mode, row[1], row[4])),
    }
}

/// What becomes of `row`.
pub open spec fn outcome_of(mode: Mode, row: Seq<Seq<char>>) -> OutcomeModel {
    settled(mode, row, decoded_text(row[4]))
}

/// The output rows of `table`: those of its rows, one after the other.
pub open spec fn emitted_rows(mode: Mode, table: Seq<Seq<Seq<char>>>) -> Seq<Seq<Seq<char>>>
    decreases table.len(),
{
    if table.len() == 0 {
        Seq::empty()
    } else {
        emitted_rows(mode, table.drop_last()) + match outcome_of(mode, table.last()) {
            OutcomeModel::Emitted(rows) => rows,
            OutcomeModel::Skipped(_) => Seq::empty(),
        }
    }
}

/// The diagnostics of `table`: one for each row that is skipped, in order.
pub open spec fn diagnostics_of(mode: Mode, table: Seq<Seq<Seq<char>>>) -> Seq<Seq<char>>
    decreases table.len(),
{
    if table.len() == 0 {
        Seq::empty()
    } else {
        diagnostics_of(mode, table.drop_last()) + match outcome_of(mode, table.last()) {
            OutcomeModel::Emitted(_) => Seq::empty(),
            OutcomeModel::Skipped(diagnostic) => seq![diagnostic],
        }
    }
}

/// Whether every row of `table` holds the fields that a row must hold.
pub open spec fn wide_enough(table: Seq<Seq<Seq<char>>>) -> bool {
    forall|i: int| 0 <= i < table.len() ==> (#[trigger] table[i]).len() >= MIN_FIELDS
}

/// In assign mode a row whose payload is a work with a sequence of author
/// references as its `authors` gives one output row for each of them, in
/// their order: the row's key, then the key of that author.
pub proof fn lemma_assign_one_row_per_author(
    row: Seq<Seq<char>>,
    json: JsonModel,
    items: Seq<JsonModel>,
)
    requires
        decoded(json) is Ok,
        decoded(json)->Ok_0.entity is Work,
        json.get("authors"@) == Some(JsonModel::Array(items)),
    ensures
        settled(Mode::Assign, row, decoded(json)) is Emitted,
        settled(Mode::Assign, row, decoded(json))->Emitted_0.len() == items.len(),
        forall|i: int|
            0 <= i < items.len() ==> {
                &&& author_key(items[i]) is Some
                &&& #[trigger] settled(Mode::Assign, row, decoded(json))->Emitted_0[i] == seq![
                    row[1],
                    author_key(items[i])->0,
                ]
            },
{
}

/// In assign mode a row whose payload is a work with no `authors`, or with
/// an empty sequence as its `authors`, gives no output row.
pub proof fn lemma_assign_no_row_without_authors(row: Seq<Seq<char>>, json: JsonModel)
    requires
        decoded(json) is Ok,
        decoded(json)->Ok_0.entity is Work,
        json.get("authors"@) is None || json.get("authors"@) == Some(
            JsonModel::Array(Seq::empty()),
        ),
    ensures
        settled(Mode::Assign, row, decoded(json)) == OutcomeModel::Emitted(Seq::empty()),
{
    assert(assign_projection(row[1], decoded(json)->Ok_0) =~= Seq::empty());
}

/// In format mode every row gives either one output row or one diagnostic:
/// the output holds as many rows as the input, less the rows that were
/// skipped.
pub proof fn lemma_format_one_row_per_record(table: Seq<Seq<Seq<char>>>)
    ensures
        emitted_rows(Mode::Format, table).len() + diagnostics_of(Mode::Format, table).len()
            == table.len(),
    decreases table.len(),
{
    if table.len() > 0 {
        lemma_format_one_row_per_record(table.drop_last());
    }
}

/// The rows of a table are projected independently of each other: the
/// output of two tables one after the other is the output of the first
/// followed by the output of the second, and so are the diagnostics.
pub proof fn lemma_rows_are_independent(
    mode: Mode,
    first: Seq<Seq<Seq<char>>>,
    second: Seq<Seq<Seq<char>>>,
)
    ensures
        emitted_rows(mode, first + second) == emitted_rows(mode, first) + emitted_rows(
            mode,
            second,
        ),
        diagnostics_of(mode, first + second) == diagnostics_of(mode, first) + diagnostics_of(
            mode,
            second,
        ),
    decreases second.len(),
{
    if second.len() > 0 {
        assert((first + second).drop_last() =~= first + second.drop_last());
        lemma_rows_are_independent(mode, first, second.drop_last());
    }
}

/// The number of fields of every output row in `mode`: five for a metadata
/// row, two for an association row.
pub open spec fn output_width(mode: Mode) -> nat {
    match mode {
        Mode::Format => 5,
        Mode::Assign => 2,
    }
}

/// Every output row of a run holds the same number of fields.
pub proof fn lemma_output_rows_are_uniform(mode: Mode, table: Seq<Seq<Seq<char>>>)
    ensures
        forall|i: int|
            0 <= i < emitted_rows(mode, table).len() ==> (#[trigger] emitted_rows(mode, table)[i]).len()
                == output_width(mode),
    decreases table.len(),
{
    if table.len() > 0 {
        lemma_output_rows_are_uniform(mode, table.drop_last());
        let before = emitted_rows(mode, table.drop_last());
        let added = match outcome_of(mode, table.last()) {
            OutcomeModel::Emitted(rows) => rows,
            OutcomeModel::Skipped(_) => Seq::empty(),
        };
        assert forall|i: int| 0 <= i < (before + added).len() implies (#[trigger] (before
            + added)[i]).len() == output_width(mode) by {
            if i >= before.len() {
                assert((before + added)[i] == added[i - before.len()]);
            }
        }
    }
}

/// The cleaned text of an optional string; an absent one gives the empty
/// text.
fn clean_optional(text: &Option<String>) -> (cleaned: String)
    ensures
        cleaned@ == sanitized(or_empty(optional_view(*text))),
{
    match text {
        Some(s) => clean_string(s.as_str()),
        None => {
            let empty = String::new();
            clean_string(empty.as_str())
        },
    }
}

/// The metadata row of `record`.
pub fn format_record(key: &str, revision: &str, last_modified: &str, record: &Record) -> (row: Vec<
    String,
>)
    ensures
        row.deep_view() == format_projection(key@, revision@, last_modified@, record@),
        row.len() == 5,
        forall|i: int| 0 <= i < row[3]@.len() ==> !is_stripped(#[trigger] row[3]@[i]),
        forall|i: int| 0 <= i < row[4]@.len() ==> !is_stripped(#[trigger] row[4]@[i]),
{
    let (first, second) = match &record.entity {
        Entity::Author { name, personal_name } => (
            clean_string(name.as_str()),
            clean_optional(personal_name),
        ),
        Entity::Work { authors, subtitle, title } => (
            clean_string(title.as_str()),
            clean_optional(subtitle),
        ),
    };
    let mut row: Vec<String> = Vec::new();
    row.push(key.to_owned());
    row.push(revision.to_owned());
    row.push(last_modified.to_owned());
    row.push(first);
    row.push(second);
    row
}

/// The association rows of `record`: one for each author of a work, in
/// their order, and none for a work without authors or for an author.
pub fn assign_record(key: &str, record: &Record) -> (rows: Vec<Vec<String>>)
    ensures
        rows.deep_view() == assign_projection(key@, record@),
        match record@.entity {
            EntityModel::Work { authors: Some(authors), subtitle, title } => {
                &&& rows.len() == authors.len()
                &&& forall|i: int|
                    0 <= i < authors.len() ==> (#[trigger] rows[i]).deep_view() == seq![
                        key@,
                        authors[i],
                    ]
            },
            _ => rows.len() == 0,
        },
{
    let mut rows: Vec<Vec<String>> = Vec::new();
    if let Entity::Work { authors: Some(authors), subtitle, title } = &record.entity {
        let ghost keys = reference_keys(authors@);
        let mut i: usize = 0;
        while i < authors.len()
            invariant
                i <= authors.len(),
                keys == reference_keys(authors@),
                rows.len() == i,
                forall|k: int|
                    0 <= k < i ==> (#[trigger] rows[k]).deep_view() == seq![key@, keys[k]],
            decreases authors.len() - i,
        {
            let mut row: Vec<String> = Vec::new();
            row.push(key.to_owned());
            row.push(authors[i].author.key.clone());
            rows.push(row);
            i += 1;
        }
    }
    rows
}

/// The rows that `record` gives in `mode`.
pub fn project(mode: Mode, key: &str, revision: &str, last_modified: &str, record: &Record) -> (rows:
    Vec<Vec<String>>)
    ensures
        rows.deep_view() == projection(mode, key@, revision@, last_modified@, record@),
{
    match mode {
        Mode::Format => {
            let mut rows: Vec<Vec<String>> = Vec::new();
            rows.push(format_record(key, revision, last_modified, record));
            rows
        },
        Mode::Assign => assign_record(key, record),
    }
}

/// The diagnostic for a row whose payload could not be decoded.
pub fn diagnostic(mode: Mode, key: &str, payload: &str) -> (message: String)
    ensures
        message@ == diagnostic_text(mode, key@, payload@),
{
    match mode {
        Mode::Format => {
            let mut message = "could not deserialize ".to_owned();
            message.append(key);
            message.append(": ");
            message.append(payload);
            message
        },
        Mode::Assign => {
            let mut message = "could not process work: ".to_owned();
            message.append(key);
            message
        },
    }
}

/// Settles the row `fields` once its payload has been decoded to `decoded`:
/// a record is projected, a failure gives the diagnostic.
pub fn settle_row(mode: Mode, fields: &Vec<String>, decoded: &Result<Record, DecodeError>) -> (outcome:
    Outcome)
    requires
        fields.len() >= MIN_FIELDS,
    ensures
        match decoded {
            Ok(record) => outcome@ == settled(
                mode,
                fields.deep_view(),
                Ok::<RecordModel, DecodeError>(record@),
            ),
            Err(error) => outcome@ == settled(
                mode,
                fields.deep_view(),
                Err::<RecordModel, DecodeError>(*error),
            ),
        },
{
    match decoded {
        Ok(record) => Outcome::Emitted(
            project(mode, fields[1].as_str(), fields[2].as_str(), fields[3].as_str(), record),
        ),
        Err(_) => Outcome::Skipped(diagnostic(mode, fields[1].as_str(), fields[4].as_str())),
    }
}

/// Decodes the payload of the row `fields` and settles the row.
pub fn process_row(mode: Mode, fields: &Vec<String>) -> (outcome: Outcome)
    requires
        fields.len() >= MIN_FIELDS,
    ensures
        outcome@ == outcome_of(mode, fields.deep_view()),
{
    let decoded = decode(fields[4].as_str());
    settle_row(mode, fields, &decoded)
}

/// The settings of the output as a value of specifications.
pub open spec fn output_settings() -> WriterSettings {
    WriterSettings { delimiter: '\t', quote: '"' }
}

/// Whether `report` is what `table` gives in `mode`: its output rows, its
/// diagnostics, and the rows as text.
pub open spec fn reports(report: Report, mode: Mode, table: Seq<Seq<Seq<char>>>) -> bool {
    &&& report.rows.deep_view() == emitted_rows(mode, table)
    &&& report.diagnostics.deep_view() == diagnostics_of(mode, table)
    &&& report.output@ == table_text(emitted_rows(mode, table), output_settings())
}

/// Projects every row of `table` in `mode`, in order. A row whose payload
/// cannot be decoded is skipped with a diagnostic, and the rows after it
/// are processed as if it had not been there.
pub fn process_rows(mode: Mode, table: &Vec<Vec<String>>) -> (report: Report)
    requires
        wide_enough(table.deep_view()),
    ensures
        reports(report, mode, table.deep_view()),
{
    let ghost input = table.deep_view();
    let mut rows: Vec<Vec<String>> = Vec::new();
    let mut diagnostics: Vec<String> = Vec::new();
    let mut i: usize = 0;
    while i < table.len()
        invariant
            i <= table.len(),
            input == table.deep_view(),
            wide_enough(input),
            rows.deep_view() == emitted_rows(mode, input.take(i as int)),
            diagnostics.deep_view() == diagnostics_of(mode, input.take(i as int)),
        decreases table.len() - i,
    {
        assert(input.take(i + 1).drop_last() =~= input.take(i as int));
        assert(input[i as int].len() >= MIN_FIELDS);
        match process_row(mode, &table[i]) {
            Outcome::Emitted(mut emitted) => {
                rows.append(&mut emitted);
            },
            Outcome::Skipped(message) => {
                diagnostics.push(message);
            },
        }
        i += 1;
    }
    assert(input.take(table.len() as int) =~= input);
    let settings = create_writer();
    let output = render(&rows, &settings);
    Report { rows, diagnostics, output }
}

/// The index of the first row of `table` that holds fewer fields than a row
/// must hold.
pub fn first_short_row(table: &Vec<Vec<String>>) -> (found: Option<usize>)
    ensures
        match found {
            Some(row) => {
                &&& row < table.len()
                &&& table[row as int].len() < MIN_FIELDS
                &&& forall|j: int| 0 <= j < row ==> (#[trigger] table[j]).len() >= MIN_FIELDS
            },
            None => forall|j: int| 0 <= j < table.len() ==> (#[trigger] table[j]).len() >= MIN_FIELDS,
        },
{
    let mut i: usize = 0;
    while i < table.len()
        invariant
            i <= table.len(),
            forall|j: int| 0 <= j < i ==> (#[trigger] table[j]).len() >= MIN_FIELDS,
        decreases table.len() - i,
    {
        if table[i].len() < MIN_FIELDS {
            return Some(i);
        }
        i += 1;
    }
    None
}

/// The table that a dump holds: rows of fields separated by tabs, with no
/// header row, each row as long as the first.
pub open spec fn dump_of(input: Seq<u8>) -> Option<Seq<Seq<Seq<char>>>> {
    table_of(input, TAB, false, false)
}

/// Whether `result` is what a run in `mode` makes of `input`. An input that
/// is not a table is a read error; the rows of a table all have one length.
/// A table with a row that is too short is refused with the index and
/// length of its first such row. Any other table gives its report.
pub open spec fn ran(mode: Mode, input: Seq<u8>, result: Result<Report, RunError>) -> bool {
    match result {
        Ok(report) => {
            &&& dump_of(input) matches Some(table)
            &&& uniform(table)
            &&& wide_enough(table)
            &&& reports(report, mode, table)
        },
        Err(RunError::Read(_)) => dump_of(input) is None,
        Err(RunError::MissingFields { row, found }) => {
            &&& dump_of(input) matches Some(table)
            &&& uniform(table)
            &&& row < table.len()
            &&& found == table[row as int].len()
            &&& found < MIN_FIELDS
            &&& forall|j: int| 0 <= j < row ==> (#[trigger] table[j]).len() >= MIN_FIELDS
        },
    }
}

/// Runs `mode` over the dump `input`: reads the table, then projects its
/// rows in order. Nothing is produced where the input cannot be read as a
/// whole.
pub fn run(mode: Mode, input: &[u8]) -> (result: Result<Report, RunError>)
    ensures
        ran(mode, input@, result),
{
    let settings = create_reader();
    let table = match read_table(input, &settings) {
        Ok(table) => table,
        Err(error) => return Err(RunError::Read(error)),
    };
    assert(forall|j: int|
        0 <= j < table.len() ==> (#[trigger] table.deep_view()[j]).len() == table[j].len());
    match first_short_row(&table) {
        Some(row) => Err(RunError::MissingFields { row, found: table[row].len() }),
        None => Ok(process_rows(mode, &table)),
    }
}

} // verus!
