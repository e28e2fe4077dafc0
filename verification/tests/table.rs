use formatter::table::{create_reader, create_writer, read_table, render};
use formatter::{ReadError, ReaderSettings, WriterSettings};

fn row(fields: &[&str]) -> Vec<String> {
    fields.iter().map(|s| String::from(*s)).collect()
}

#[test]
fn settings_are_tab_separated() {
    assert_eq!(
        create_reader(),
        ReaderSettings { delimiter: b'\t', has_headers: false, flexible: false }
    );
    assert_eq!(create_writer(), WriterSettings { delimiter: '\t', quote: '"' });
}

#[test]
fn read_table_splits_rows_and_fields() {
    let table = read_table(b"a\tb\tc\nd\te\tf\n", &create_reader()).unwrap();
    assert_eq!(table, vec![row(&["a", "b", "c"]), row(&["d", "e", "f"])]);
}

#[test]
fn read_table_has_no_header_row() {
    let table = read_table(b"key\tvalue\n", &create_reader()).unwrap();
    assert_eq!(table, vec![row(&["key", "value"])]);
    let with_header = ReaderSettings { delimiter: b'\t', has_headers: true, flexible: false };
    assert_eq!(read_table(b"key\tvalue\n", &with_header).unwrap(), Vec::<Vec<String>>::new());
}

#[test]
fn read_table_accepts_a_last_row_without_line_feed() {
    let table = read_table(b"a\tb\nc\td", &create_reader()).unwrap();
    assert_eq!(table, vec![row(&["a", "b"]), row(&["c", "d"])]);
}

#[test]
fn read_table_of_nothing_is_empty() {
    assert_eq!(read_table(b"", &create_reader()).unwrap(), Vec::<Vec<String>>::new());
}

#[test]
fn read_table_keeps_commas_and_empty_fields() {
    let table = read_table(b"a,b\t\tc\n", &create_reader()).unwrap();
    assert_eq!(table, vec![row(&["a,b", "", "c"])]);
}

#[test]
fn read_table_unquotes_fields() {
    let table = read_table(b"\"a\tb\"\t\"c\"\"d\"\te\n", &create_reader()).unwrap();
    assert_eq!(table, vec![row(&["a\tb", "c\"d", "e"])]);
}

#[test]
fn read_table_refuses_rows_of_unequal_length() {
    assert_eq!(
        read_table(b"a\tb\tc\nd\te\n", &create_reader()),
        Err(ReadError::UnequalLengths { expected: 3, found: 2 })
    );
    assert_eq!(
        read_table(b"a\nb\tc\n", &create_reader()),
        Err(ReadError::UnequalLengths { expected: 1, found: 2 })
    );
}

#[test]
fn read_table_accepts_unequal_rows_when_flexible() {
    let flexible = ReaderSettings { delimiter: b'\t', has_headers: false, flexible: true };
    let table = read_table(b"a\tb\tc\nd\te\n", &flexible).unwrap();
    assert_eq!(table, vec![row(&["a", "b", "c"]), row(&["d", "e"])]);
}

#[test]
fn read_table_refuses_invalid_text() {
    assert_eq!(read_table(b"a\t\xff\xfe\n", &create_reader()), Err(ReadError::InvalidText));
}

#[test]
fn read_table_uses_the_delimiter_it_is_given() {
    let commas = ReaderSettings { delimiter: b',', has_headers: false, flexible: false };
    assert_eq!(read_table(b"a,b\tc\n", &commas).unwrap(), vec![row(&["a", "b\tc"])]);
}

#[test]
fn render_joins_fields_with_tabs() {
    let rows = vec![row(&["K1", "3", "2020-01-01", "AB", ""]), row(&["K2", "/authors/9"])];
    assert_eq!(render(&rows, &create_writer()), "K1\t3\t2020-01-01\tAB\t\nK2\t/authors/9\n");
}

#[test]
fn render_of_nothing_is_empty() {
    assert_eq!(render(&vec![], &create_writer()), "");
}

#[test]
fn render_ends_every_row_with_a_line_feed() {
    assert_eq!(render(&vec![row(&["a"])], &create_writer()), "a\n");
    assert_eq!(render(&vec![row(&[])], &create_writer()), "\n");
    assert_eq!(render(&vec![row(&[""]), row(&["", ""])], &create_writer()), "\n\t\n");
}

#[test]
fn render_quotes_only_where_needed() {
    let writer = create_writer();
    assert_eq!(render(&vec![row(&["a b", "c,d", "e\\f"])], &writer), "a b\tc,d\te\\f\n");
    assert_eq!(render(&vec![row(&["a\tb", "c"])], &writer), "\"a\tb\"\tc\n");
    assert_eq!(render(&vec![row(&["a\nb", "c"])], &writer), "\"a\nb\"\tc\n");
    assert_eq!(render(&vec![row(&["a\rb", "c"])], &writer), "\"a\rb\"\tc\n");
}

#[test]
fn render_does_not_double_or_escape_quotes() {
    let writer = create_writer();
    assert_eq!(render(&vec![row(&["say \"hi\"", "x"])], &writer), "\"say \"hi\"\"\tx\n");
    assert_eq!(render(&vec![row(&["\""])], &writer), "\"\"\"\n");
}

#[test]
fn render_follows_its_settings() {
    let writer = WriterSettings { delimiter: ',', quote: '\'' };
    assert_eq!(
        render(&vec![row(&["a,b", "it's", "c\td", "\"q\""])], &writer),
        "'a,b','it's',c\td,\"q\"\n"
    );
}

#[test]
fn field_needs_quotes_names_the_special_characters() {
    let writer = create_writer();
    for field in ["\t", "\"", "\n", "\r", "a\tb", "end\n", "\"start"] {
        assert!(formatter::table::field_needs_quotes(field, &writer));
    }
    for field in ["", "plain", "a,b", "back\\slash", "it's", "é"] {
        assert!(!formatter::table::field_needs_quotes(field, &writer));
    }
}
