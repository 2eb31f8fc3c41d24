use textbuf::{FileType, HighlightingOptions, Row, SearchDirection, Type};

fn create_row(string: &str) -> (Row, HighlightingOptions) {
    let row = Row::from(string);
    let hl_opts = FileType::from("a.rs").highlighting_opts().clone();
    (row, hl_opts)
}

fn chars(row: &Row) -> Vec<char> {
    row.text().chars().collect()
}

#[test]
fn highlight_strings_test() {
    let mut row = Row::from("\"h\\nello\"");
    let hl_opts = FileType::from("a.rs").highlighting_opts().clone();
    let chars: Vec<char> = row.text().chars().collect();
    let mut index = 0;
    row.highlight_strings(&chars, &hl_opts, &mut index);
    let mut expected = Vec::new();
    for i in 0..9 {
        if i == 2 || i == 3 {
            expected.push(Type::Escape);
            continue;
        }
        expected.push(Type::String);
    }
    assert_eq!(
        row.highlighting(),
        &expected,
        "res: {:#?}, expected: {:#?}",
        row.highlighting(),
        expected
    );
}

#[test]
fn highlight_character_test() {
    let (mut row, hl_opts) = create_row("'1'");
    let mut index = 0;
    let chars1 = chars(&row);
    row.highlight_character(&chars1, &hl_opts, &mut index);
    let mut expected = Vec::new();
    for _i in 0..3 {
        expected.push(Type::Character);
    }
    assert_eq!(
        row.highlighting(),
        &expected,
        "res: {:#?}, expected: {:#?}",
        row.highlighting(),
        expected
    );
    assert_eq!(index, 3);

    let (mut row, hl_opts) = create_row("'\\n'");
    let mut index = 0;
    let chs = chars(&row);
    row.highlight_character(&chs, &hl_opts, &mut index);
    expected.clear();
    for _ in 0..4 {
        expected.push(Type::Character);
    }
    assert_eq!(
        row.highlighting(),
        &expected,
        "res: {:#?}, expected: {:#?}",
        row.highlighting(),
        expected
    );
    assert_eq!(index, 4);
}

#[test]
fn highlight_comment_test() {
    let (mut row, hl_opts) = create_row("// this is a comment");
    let mut index = 0;
    let cs = chars(&row);
    row.highlight_comment(&cs, &hl_opts, &mut index);
    let mut expected = Vec::new();
    for _i in 0..20 {
        expected.push(Type::Comment);
    }
    assert_eq!(
        row.highlighting(),
        &expected,
        "res: {:#?}, expected: {:#?}",
        row.highlighting(),
        expected
    );
    assert_eq!(index, 20);
}

#[test]
fn highlight_match_test() {
    let (mut row, _hl_opts) = create_row("111");
    row.highlight(None, &HighlightingOptions::default());
    assert_eq!(row.highlighting(), &vec![Type::Normal, Type::Normal, Type::Normal]);
    row.highlight_match(Some("1"));
    let expected = vec![Type::Match, Type::Match, Type::Match];
    assert_eq!(
        row.highlighting(),
        &expected,
        "res: {:#?}, expected: {:#?}",
        row.highlighting(),
        expected
    );
}

#[test]
fn highlight_number_test() {
    let (mut row, hl_opts) = create_row("1");
    let mut index = 0;
    let cs = chars(&row);
    row.highlight_number(&cs, &hl_opts, &mut index);

    assert_eq!(
        row.highlighting(),
        &vec![Type::Number],
        "res: {:#?}, expected: {:#?}",
        row.highlighting(),
        vec![Type::Number]
    );
    assert_eq!(index, 1);

    index = 0;
    let mut row = Row::from("1.0");
    let cs = chars(&row);
    row.highlight_number(&cs, &hl_opts, &mut index);
    assert_eq!(
        row.highlighting(),
        &vec![Type::Number, Type::Number, Type::Number],
        "res: {:#?}, expected: {:#?}",
        row.highlighting(),
        vec![Type::Number, Type::Number, Type::Number]
    );

    index = 0;
    let mut row = Row::from("\"1.0\"");
    let cs = chars(&row);
    assert!(!row.highlight_number(&cs, &hl_opts, &mut index));
}

#[test]
fn create_filetype() {
    let filetype = FileType::from("editor.rs");
    println!("{:#?}", filetype.highlighting_opts());
    assert_eq!(filetype.name(), "rs");
    assert!(filetype.highlighting_opts().comments());
    assert_eq!(FileType::from("src/a.rs/").name(), "rs");
    assert_eq!(FileType::from("dir.rs/file").name(), "No file type");
    assert_eq!(FileType::from(".rs").name(), "No file type");
    let other = FileType::from("notes.txt");
    assert_eq!(other.name(), "No file type");
    assert!(!other.highlighting_opts().numbers());
}

#[test]
fn split_then_append_restores_row() {
    let mut row = Row::from("hello world");
    let tail = row.split(5);
    assert_eq!(row.text(), "hello");
    assert_eq!(tail.text(), " world");
    assert_eq!(row.len(), 5);
    assert_eq!(tail.len(), 6);
    row.append(&tail);
    assert_eq!(row.text(), "hello world");
    assert_eq!(row.len(), 11);
}

#[test]
fn split_past_end_keeps_everything() {
    let mut row = Row::from("abc");
    let tail = row.split(10);
    assert_eq!(row.text(), "abc");
    assert_eq!(tail.text(), "");
    assert!(tail.is_empty());
    assert!(tail.highlighting().is_empty());
}

#[test]
fn insert_then_delete_restores_row() {
    let mut row = Row::from("abc");
    row.insert(1, 'x');
    assert_eq!(row.text(), "axbc");
    assert_eq!(row.len(), 4);
    row.delete(1);
    assert_eq!(row.text(), "abc");
    assert_eq!(row.len(), 3);
}

#[test]
fn insert_past_end_appends() {
    let mut row = Row::from("ab");
    row.insert(7, 'z');
    assert_eq!(row.text(), "abz");
    assert_eq!(row.len(), 3);
}

#[test]
fn delete_past_end_does_nothing() {
    let mut row = Row::from("ab");
    row.delete(2);
    assert_eq!(row.text(), "ab");
}

#[test]
fn length_counts_grapheme_clusters() {
    // A flag is two regional indicators; "e" with a combining accent is two
    // scalar values.
    let row = Row::from("\u{1F1EB}\u{1F1F7}e\u{301}x");
    assert_eq!(row.text().chars().count(), 5);
    assert_eq!(row.len(), 3);
    assert!(!row.is_empty());
}

#[test]
fn delete_removes_a_whole_cluster() {
    let mut row = Row::from("a\u{1F1EB}\u{1F1F7}b");
    row.delete(1);
    assert_eq!(row.text(), "ab");
    assert_eq!(row.len(), 2);
}

#[test]
fn comment_claims_rest_of_row() {
    let opts = FileType::from("a.rs").highlighting_opts().clone();
    let mut row = Row::from("// not a comment");
    row.highlight(None, &opts);
    assert_eq!(row.highlighting(), &vec![Type::Comment; 16]);

    let mut row = Row::from("x // \"s\" 'c' 1");
    row.highlight(None, &opts);
    let h = row.highlighting();
    assert_eq!(h[0], Type::Normal);
    assert!(h[2..].iter().all(|t| *t == Type::Comment));
}

#[test]
fn string_opened_before_slashes_stays_a_string() {
    let opts = FileType::from("a.rs").highlighting_opts().clone();
    let mut row = Row::from("\"// x\"");
    row.highlight(None, &opts);
    assert_eq!(row.highlighting(), &vec![Type::String; 6]);
}

#[test]
fn keyword_needs_separators() {
    let opts = HighlightingOptions::new(true, true, true, true, vec!["foo".to_string()], vec![]);
    let mut row = Row::from("foobar");
    row.highlight(None, &opts);
    assert!(row.highlighting().iter().all(|t| *t == Type::Normal));

    let mut row = Row::from("foo bar");
    row.highlight(None, &opts);
    let h = row.highlighting();
    assert_eq!(&h[0..3], &[Type::PrimaryKey, Type::PrimaryKey, Type::PrimaryKey]);
    assert_eq!(h[3], Type::Normal);
    assert!(h[4..].iter().all(|t| *t == Type::Normal));
}

#[test]
fn secondary_keywords_after_primary() {
    let opts = HighlightingOptions::new(
        false,
        false,
        false,
        false,
        vec!["let".to_string()],
        vec!["u8".to_string(), "let".to_string()],
    );
    let mut row = Row::from("let x: u8");
    row.highlight(None, &opts);
    let h = row.highlighting();
    assert_eq!(&h[0..3], &[Type::PrimaryKey; 3]);
    assert_eq!(&h[7..9], &[Type::SecondaryKey; 2]);
    assert_eq!(h[4], Type::Normal);
}

#[test]
fn numbers_start_tokens() {
    let opts = FileType::from("a.rs").highlighting_opts().clone();
    let mut row = Row::from("x1 2.5 a.3");
    row.highlight(None, &opts);
    let h = row.highlighting();
    assert_eq!(h[1], Type::Normal);
    assert_eq!(&h[3..6], &[Type::Number; 3]);
    assert_eq!(h[9], Type::Number);
}

#[test]
fn unterminated_string_runs_to_end() {
    let opts = FileType::from("a.rs").highlighting_opts().clone();
    let mut row = Row::from("x = \"ab\\");
    row.highlight(None, &opts);
    let h = row.highlighting();
    assert_eq!(h.len(), 8);
    assert_eq!(&h[4..7], &[Type::String; 3]);
    assert_eq!(h[7], Type::Escape);
    let cs = chars(&row);
    let mut index = 4;
    let mut fresh = Row::from("x = \"ab\\");
    assert!(!fresh.highlight_strings(&cs, &opts, &mut index));
    assert_eq!(index, 8);
}

#[test]
fn unclosed_character_literal_is_not_claimed() {
    let opts = FileType::from("a.rs").highlighting_opts().clone();
    let mut row = Row::from("'ab");
    let cs = chars(&row);
    let mut index = 0;
    assert!(!row.highlight_character(&cs, &opts, &mut index));
    assert_eq!(index, 0);
    assert!(row.highlighting().is_empty());
}

#[test]
fn disabled_rules_do_not_claim() {
    let opts = HighlightingOptions::default();
    let mut row = Row::from("// \"x\" 'c' 12");
    row.highlight(None, &opts);
    assert!(row.highlighting().iter().all(|t| *t == Type::Normal));
    assert_eq!(row.highlighting().len(), 13);
}

#[test]
fn is_separator_classifies_ascii() {
    let row = Row::from("");
    assert!(row.is_separator(' '));
    assert!(row.is_separator('('));
    assert!(row.is_separator('~'));
    assert!(!row.is_separator('a'));
    assert!(row.is_separator('_'));
    assert!(!row.is_separator('\u{e9}'));
}

#[test]
fn find_forward_and_backward_in_row() {
    let row = Row::from("abcabc");
    assert_eq!(row.find("bc", 0, SearchDirection::Forward), Some(1));
    assert_eq!(row.find("bc", 2, SearchDirection::Forward), Some(4));
    assert_eq!(row.find("bc", 6, SearchDirection::Backward), Some(4));
    assert_eq!(row.find("bc", 4, SearchDirection::Backward), Some(1));
    assert_eq!(row.find("bc", 2, SearchDirection::Backward), None);
    assert_eq!(row.find("", 0, SearchDirection::Forward), None);
    assert_eq!(row.find("a", 7, SearchDirection::Forward), None);
}

#[test]
fn find_reports_cluster_index() {
    let row = Row::from("\u{1F1EB}\u{1F1F7}-xy");
    assert_eq!(row.find("xy", 0, SearchDirection::Forward), Some(2));
}

#[test]
fn match_overlay_marks_each_occurrence() {
    let opts = HighlightingOptions::default();
    let mut row = Row::from("ab ab");
    row.highlight(Some("ab"), &opts);
    assert_eq!(
        row.highlighting(),
        &vec![Type::Match, Type::Match, Type::Normal, Type::Match, Type::Match]
    );
    let mut row = Row::from("aaa");
    row.highlight(Some("aa"), &opts);
    assert_eq!(row.highlighting(), &vec![Type::Match, Type::Match, Type::Normal]);
}

#[test]
fn render_compresses_colour_runs() {
    let opts = FileType::from("a.rs").highlighting_opts().clone();
    let mut row = Row::from("12\tx");
    row.highlight(None, &opts);
    let out = row.render(0, 10);
    let white = "\u{1b}[38;2;255;255;255m";
    let number = "\u{1b}[38;2;220;163;163m";
    let reset = "\u{1b}[39m";
    assert_eq!(out, format!("{white}{number}12{white} x{reset}"));
    let clipped = row.render(1, 2);
    assert_eq!(clipped, format!("{white}{number}2{reset}"));
    let empty = row.render(5, 3);
    assert_eq!(empty, format!("{white}{reset}"));
}

#[test]
fn type_colours() {
    assert_eq!(Type::Number.to_color(), (220, 163, 163));
    assert_eq!(Type::Normal.to_color(), (255, 255, 255));
    assert_eq!(Type::SecondaryKey.to_color(), (255, 99, 71));
}

#[test]
fn row_bytes_are_utf8() {
    let row = Row::from("h\u{e9}");
    assert_eq!(row.as_bytes(), &[0x68, 0xc3, 0xa9]);
}
