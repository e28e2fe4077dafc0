//! Tables of text: rows of fields, read from delimited bytes and written
//! back as delimited text.
//!
//! Reading is left to the `csv` crate. Writing follows the library's own
//! rule: a field is quoted only where it must be, and a quote inside a
//! field is written as it is, neither doubled nor escaped.

use vstd::prelude::*;
use vstd::string::StringExecFns;

verus! {

/// How a table is read.
#[derive(Debug, PartialEq, Eq, Clone, Copy)]
pub struct ReaderSettings {
    /// The byte that separates two fields.
    pub delimiter: u8,
    /// Whether the first row is a header, which is not handed out.
    pub has_headers: bool,
    /// Whether rows may differ in their number of fields.
    pub flexible: bool,
}

/// How a table is written.
#[derive(Debug, PartialEq, Eq, Clone, Copy)]
pub struct WriterSettings {
    /// The character that separates two fields.
    pub delimiter: char,
    /// The character that encloses a quoted field.
    pub quote: char,
}

/// Why a table could not be read.
#[derive(Debug, PartialEq, Eq, Clone, Copy)]
pub enum ReadError {
    /// A row has `found` fields where the rows before it have `expected`.
    UnequalLengths { expected: u64, found: u64 },
    /// A field is not valid UTF-8.
    InvalidText,
    /// Any other failure of the reader.
    Other,
}

/// The tab as a byte.
pub const TAB: u8 = 9;

/// The settings for a dump: fields separated by tabs, no header row, and
/// every row as long as the first.
pub fn create_reader() -> (settings: ReaderSettings)
    ensures
        settings == (ReaderSettings { delimiter: TAB, has_headers: false, flexible: false }),
{
    ReaderSettings { delimiter: TAB, has_headers: false, flexible: false }
}

/// The settings for the output: fields separated by tabs and quoted with
/// `"` where needed.
pub fn create_writer() -> (settings: WriterSettings)
    ensures
        settings == (WriterSettings { delimiter: '\t', quote: '"' }),
{
    WriterSettings { delimiter: '\t', quote: '"' }
}

/// `csv::Error`, the error of the reader.
#[verifier::external_type_specification]
#[verifier::external_body]
pub struct ExCsvError(csv::Error);

/// The rows that a `csv::Reader` with the given settings reads from `input`,
/// each field as text, or `None` where it returns an error before the input
/// ends.
pub uninterp spec fn table_of(input: Seq<u8>, delimiter: u8, has_headers: bool, flexible: bool) -> Option<
    Seq<Seq<Seq<char>>>,
>;

/// Whether all rows of `table` hold the same number of fields.
pub open spec fn uniform(table: Seq<Seq<Seq<char>>>) -> bool {
    forall|i: int, j: int|
        0 <= i < table.len() && 0 <= j < table.len() ==> (#[trigger] table[i]).len() == (
        #[trigger] table[j]).len()
}

/// Reads every row of `input` with a `csv::Reader` built by
/// `csv::ReaderBuilder` with `has_headers`, `flexible` and `delimiter` set as
/// given. The result holds the rows that `table_of` names, and is an error
/// exactly where the reader's `records` yields one: nothing is claimed about
/// which inputs it accepts. A reader that is not flexible returns an error
/// for a row that differs in length from the one before it, so the rows it
/// hands out all have one length.
#[verifier::external_body]
fn read_records(input: &[u8], delimiter: u8, has_headers: bool, flexible: bool) -> (table: Result<
    Vec<Vec<String>>,
    csv::Error,
>)
    ensures
        match table {
            Ok(rows) => table_of(input@, delimiter, has_headers, flexible) == Some(rows.deep_view()),
            Err(_) => table_of(input@, delimiter, has_headers, flexible) is None,
        },
        !flexible ==> match table {
            Ok(rows) => uniform(rows.deep_view()),
            Err(_) => true,
        },
{
    let mut reader = csv::ReaderBuilder::new()
        .has_headers(has_headers)
        .flexible(flexible)
        .delimiter(delimiter)
        .from_reader(input);
    reader.records().map(|row| row.map(|r| r.iter().map(String::from).collect())).collect()
}

/// Tells the kinds of `csv::Error` apart, as `csv::Error::into_kind` gives
/// them. Nothing is claimed about which kind an input gives.
#[verifier::external_body]
fn read_error(error: csv::Error) -> ReadError {
    match error.into_kind() {
        csv::ErrorKind::UnequalLengths { expected_len, len, .. } => ReadError::UnequalLengths {
            expected: expected_len,
            found: len,
        },
        csv::ErrorKind::Utf8 { .. } => ReadError::InvalidText,
        _ => ReadError::Other,
    }
}

/// The table that a reader with `settings` reads from `input`.
pub open spec fn table_with(input: Seq<u8>, settings: ReaderSettings) -> Option<
    Seq<Seq<Seq<char>>>,
> {
    table_of(input, settings.delimiter, settings.has_headers, settings.flexible)
}

/// Reads the table that `input` holds. Unless the settings are flexible, a
/// table whose rows differ in length is refused.
pub fn read_table(input: &[u8], settings: &ReaderSettings) -> (table: Result<
    Vec<Vec<String>>,
    ReadError,
>)
    ensures
        match table {
            Ok(rows) => {
                &&& table_with(input@, *settings) == Some(rows.deep_view())
                &&& !settings.flexible ==> uniform(rows.deep_view())
            },
            Err(_) => table_with(input@, *settings) is None,
        },
{
    match read_records(input, settings.delimiter, settings.has_headers, settings.flexible) {
        Ok(rows) => Ok(rows),
        Err(error) => Err(read_error(error)),
    }
}

/// Whether `c` cannot stand in an unquoted field: the delimiter, the quote,
/// a line feed or a carriage return.
pub open spec fn is_special(c: char, settings: WriterSettings) -> bool {
    c == settings.delimiter || c == settings.quote || c == '\n' || c == '\r'
}

/// Whether `field` must be quoted: it holds a special character.
pub open spec fn needs_quotes(field: Seq<char>, settings: WriterSettings) -> bool {
    exists|i: int| 0 <= i < field.len() && is_special(#[trigger] field[i], settings)
}

/// `field` as it is written: between two quotes where it must be quoted,
/// unchanged otherwise. A quote inside the field stays as it is.
pub open spec fn field_text(field: Seq<char>, settings: WriterSettings) -> Seq<char> {
    if needs_quotes(field, settings) {
        seq![settings.quote] + field + seq![settings.quote]
    } else {
        field
    }
}

/// The fields of `row` as they are written, with a delimiter between each
/// two.
pub open spec fn joined_text(row: Seq<Seq<char>>, settings: WriterSettings) -> Seq<char>
    decreases row.len(),
{
    if row.len() == 0 {
        Seq::empty()
    } else if row.len() == 1 {
        field_text(row[0], settings)
    } else {
        joined_text(row.drop_last(), settings) + seq![settings.delimiter] + field_text(
            row.last(),
            settings,
        )
    }
}

/// `row` as one line of output, ended by a line feed.
pub open spec fn row_text(row: Seq<Seq<char>>, settings: WriterSettings) -> Seq<char> {
    joined_text(row, settings).push('\n')
}

/// `rows` as output, one line after the other.
pub open spec fn table_text(rows: Seq<Seq<Seq<char>>>, settings: WriterSettings) -> Seq<char>
    decreases rows.len(),
{
    if rows.len() == 0 {
        Seq::empty()
    } else {
        table_text(rows.drop_last(), settings) + row_text(rows.last(), settings)
    }
}

/// Writing two tables one after the other gives the text of the first
/// followed by the text of the second: rows can be written as they come.
pub proof fn lemma_table_text_of_concatenation(
    first: Seq<Seq<Seq<char>>>,
    second: Seq<Seq<Seq<char>>>,
    settings: WriterSettings,
)
    ensures
        table_text(first + second, settings) == table_text(first, settings) + table_text(
            second,
            settings,
        ),
    decreases second.len(),
{
    if second.len() > 0 {
        assert((first + second).drop_last() =~= first + second.drop_last());
        lemma_table_text_of_concatenation(first, second.drop_last(), settings);
    }
}

/// Whether `field` must be quoted.
pub fn field_needs_quotes(field: &str, settings: &WriterSettings) -> (needed: bool)
    ensures
        needed == needs_quotes(field@, *settings),
{
    let mut needed = false;
    for c in it: field.chars()
        invariant
            it.seq() == field@,
            needed == needs_quotes(field@.take(it.index()), *settings),
    {
        proof {
            let before = field@.take(it.index());
            let after = field@.take(it.index() + 1);
            assert(after[it.index()] == c);
            if needs_quotes(before, *settings) {
                let i = choose|i: int| 0 <= i < before.len() && is_special(before[i], *settings);
                assert(is_special(after[i], *settings));
            }
            if needs_quotes(after, *settings) && !is_special(c, *settings) {
                let i = choose|i: int| 0 <= i < after.len() && is_special(after[i], *settings);
                assert(is_special(before[i], *settings));
            }
        }
        if c == settings.delimiter || c == settings.quote || c == '\n' || c == '\r' {
            needed = true;
        }
    }
    assert(field@.take(field@.len() as int) =~= field@);
    needed
}

/// Appends `field` to `out` as it is written.
pub fn write_field(out: &mut String, field: &str, settings: &WriterSettings)
    ensures
        final(out)@ == old(out)@ + field_text(field@, *settings),
{
    if field_needs_quotes(field, settings) {
        out.push(settings.quote);
        out.append(field);
        out.push(settings.quote);
    } else {
        out.append(field);
    }
}

/// Appends `row` to `out` as one line.
pub fn write_record(out: &mut String, row: &Vec<String>, settings: &WriterSettings)
    ensures
        final(out)@ == old(out)@ + row_text(row.deep_view(), *settings),
{
    let ghost fields = row.deep_view();
    let mut i: usize = 0;
    while i < row.len()
        invariant
            i <= row.len(),
            fields == row.deep_view(),
            out@ == old(out)@ + joined_text(fields.take(i as int), *settings),
        decreases row.len() - i,
    {
        assert(fields.take(i + 1).drop_last() =~= fields.take(i as int));
        if i > 0 {
            out.push(settings.delimiter);
        }
        write_field(out, row[i].as_str(), settings);
        i += 1;
    }
    out.push('\n');
    assert(fields.take(row.len() as int) =~= fields);
}

/// Writes `rows` as text, one line for each row.
pub fn render(rows: &Vec<Vec<String>>, settings: &WriterSettings) -> (text: String)
    ensures
        text@ == table_text(rows.deep_view(), *settings),
{
    let ghost table = rows.deep_view();
    let mut text = String::new();
    let mut i: usize = 0;
    while i < rows.len()
        invariant
            i <= rows.len(),
            table == rows.deep_view(),
            text@ == table_text(table.take(i as int), *settings),
        decreases rows.len() - i,
    {
        assert(table.take(i + 1).drop_last() =~= table.take(i as int));
        write_record(&mut text, &rows[i], settings);
        i += 1;
    }
    assert(table.take(rows.len() as int) =~= table);
    text
}

} // verus!
