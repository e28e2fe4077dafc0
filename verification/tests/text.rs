use formatter::clean_string;

#[test]
fn clean_string_deletes_line_feeds_and_backslashes() {
    assert_eq!(clean_string("A\nB"), "AB");
    assert_eq!(clean_string("a\\b"), "ab");
    assert_eq!(clean_string("\n\\\n\\"), "");
    assert_eq!(clean_string("one\\ntwo"), "onentwo");
}

#[test]
fn clean_string_keeps_everything_else() {
    assert_eq!(clean_string(""), "");
    assert_eq!(clean_string("plain text"), "plain text");
    assert_eq!(clean_string("tab\there"), "tab\there");
    assert_eq!(clean_string("cr\rhere"), "cr\rhere");
    assert_eq!(clean_string("quote\"here"), "quote\"here");
    assert_eq!(clean_string("/slash/"), "/slash/");
    assert_eq!(clean_string("Émile Zola — œuvres"), "Émile Zola — œuvres");
}

#[test]
fn clean_string_is_idempotent() {
    for s in ["", "A\nB", "\\\\", "a\\\nb\n\\c", "nothing to do", "\n", "日本\n語\\"] {
        let once = clean_string(s);
        let twice = clean_string(&once);
        assert_eq!(twice, once);
    }
}

#[test]
fn clean_string_leaves_no_line_feed_or_backslash() {
    for s in ["A\nB", "\\\\", "a\\\nb\n\\c", "\n\n\n", "x\\", "\\x", "日本\n語\\"] {
        let cleaned = clean_string(s);
        assert!(!cleaned.contains('\n'));
        assert!(!cleaned.contains('\\'));
    }
}
