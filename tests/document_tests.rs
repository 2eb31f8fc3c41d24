use textbuf::{edit, move_cursor, scroll, Document, Edit, Movement, Position, SearchDirection, Type};

fn doc(lines: &str) -> Document {
    Document::from_contents("notes.txt", lines)
}

fn texts(d: &Document) -> Vec<String> {
    (0..d.len()).map(|i| d.row(i).unwrap().text().to_string()).collect()
}

#[test]
fn find_across_rows() {
    let d = doc("a needle b\nanother needle\n");
    assert_eq!(
        d.find("needle", &Position { x: 0, y: 0 }, SearchDirection::Forward),
        Some(Position { x: 2, y: 0 })
    );
    assert_eq!(
        d.find("needle", &Position { x: 8, y: 0 }, SearchDirection::Forward),
        Some(Position { x: 8, y: 1 })
    );
    assert_eq!(
        d.find("needle", &Position { x: 0, y: 1 }, SearchDirection::Backward),
        Some(Position { x: 2, y: 0 })
    );
}

#[test]
fn find_does_not_wrap_around() {
    let d = doc("x needle\nplain\n");
    assert_eq!(d.find("needle", &Position { x: 3, y: 0 }, SearchDirection::Forward), None);
    assert_eq!(d.find("needle", &Position { x: 5, y: 1 }, SearchDirection::Forward), None);
    assert_eq!(
        d.find("needle", &Position { x: 5, y: 1 }, SearchDirection::Backward),
        Some(Position { x: 2, y: 0 })
    );
    assert_eq!(d.find("needle", &Position { x: 0, y: 2 }, SearchDirection::Forward), None);
    assert_eq!(d.find("plain", &Position { x: 2, y: 0 }, SearchDirection::Backward), None);
}

#[test]
fn delete_at_row_end_merges_rows() {
    let mut d = doc("ab\ncd\n");
    assert_eq!(d.len(), 2);
    assert!(!d.is_dirty());
    d.delete(&Position { x: 2, y: 0 });
    assert_eq!(texts(&d), vec!["abcd"]);
    assert_eq!(d.len(), 1);
    assert!(d.is_dirty());
    assert_eq!(d.row(0).unwrap().len(), 4);
}

#[test]
fn delete_inside_row_and_out_of_range() {
    let mut d = doc("abc\n");
    d.delete(&Position { x: 5, y: 3 });
    assert!(!d.is_dirty());
    d.delete(&Position { x: 1, y: 0 });
    assert_eq!(texts(&d), vec!["ac"]);
    d.delete(&Position { x: 2, y: 0 });
    assert_eq!(texts(&d), vec!["ac"]);
    assert!(d.is_dirty());
}

#[test]
fn insert_characters_and_rows() {
    let mut d = Document::default();
    assert!(d.is_empty());
    d.insert(&Position { x: 0, y: 0 }, 'a');
    assert_eq!(texts(&d), vec!["a"]);
    assert!(d.is_dirty());
    d.insert(&Position { x: 1, y: 0 }, 'b');
    d.insert(&Position { x: 1, y: 0 }, '\n');
    assert_eq!(texts(&d), vec!["a", "b"]);
    d.insert(&Position { x: 0, y: 2 }, '\n');
    assert_eq!(texts(&d), vec!["a", "b", ""]);
    d.insert(&Position { x: 0, y: 9 }, 'z');
    assert_eq!(d.len(), 3);
}

#[test]
fn insert_newline_marks_dirty() {
    let mut d = doc("hello\n");
    d.insert_newline(&Position { x: 0, y: 5 });
    assert_eq!(d.len(), 1);
    assert!(!d.is_dirty());
    d.insert_newline(&Position { x: 2, y: 0 });
    assert_eq!(texts(&d), vec!["he", "llo"]);
    assert!(d.is_dirty());
    let mut e = doc("x\n");
    e.insert_newline(&Position { x: 0, y: 1 });
    assert_eq!(texts(&e), vec!["x", ""]);
    assert!(e.is_dirty());
}

#[test]
fn edits_rehighlight_rows() {
    let mut d = Document::from_contents("main.rs", "let x\n");
    assert_eq!(d.file_type(), "rs");
    assert_eq!(d.row(0).unwrap().highlighting()[0], Type::PrimaryKey);
    d.insert(&Position { x: 5, y: 0 }, '1');
    assert_eq!(d.row(0).unwrap().text(), "let x1");
    d.insert(&Position { x: 5, y: 0 }, ' ');
    assert_eq!(d.row(0).unwrap().text(), "let x 1");
    assert_eq!(d.row(0).unwrap().highlighting()[5], Type::Normal);
    assert_eq!(d.row(0).unwrap().highlighting()[6], Type::Number);
}

#[test]
fn lines_are_split_like_str_lines() {
    let d = doc("a\r\nb\n\nc");
    assert_eq!(texts(&d), vec!["a", "b", "", "c"]);
    let d = doc("");
    assert!(d.is_empty());
    let d = doc("x\r");
    assert_eq!(texts(&d), vec!["x\r"]);
}

#[test]
fn file_contents_end_each_row() {
    let d = doc("ab\n\ncd");
    assert_eq!(d.file_contents(), "ab\n\ncd\n");
}

#[test]
fn save_then_reload_gives_same_rows() {
    let mut d = doc("one\ntwo\n");
    d.insert(&Position { x: 3, y: 1 }, '!');
    d.insert(&Position { x: 0, y: 2 }, 'z');
    let saved = d.file_contents();
    let reloaded = Document::from_contents("notes.txt", &saved);
    assert_eq!(texts(&reloaded), texts(&d));
    assert_eq!(texts(&reloaded), vec!["one", "two!", "z"]);
}

#[test]
fn mark_saved_cleans_and_rechooses_filetype() {
    let mut d = doc("fn x\n");
    d.insert(&Position { x: 0, y: 0 }, ' ');
    assert!(d.is_dirty());
    assert_eq!(d.file_type(), "No file type");
    d.filename = Some("main.rs".to_string());
    d.mark_saved();
    assert!(!d.is_dirty());
    assert_eq!(d.file_type(), "rs");
    assert_eq!(d.row(0).unwrap().highlighting()[1], Type::PrimaryKey);

    let mut fresh = Document::default();
    fresh.insert(&Position { x: 0, y: 0 }, 'q');
    fresh.mark_saved();
    assert!(fresh.is_dirty());
}

#[test]
fn document_highlight_marks_query() {
    let mut d = doc("ab\nxab\n");
    d.highlight(Some("ab"));
    assert_eq!(d.row(0).unwrap().highlighting(), &vec![Type::Match, Type::Match]);
    assert_eq!(
        d.row(1).unwrap().highlighting(),
        &vec![Type::Normal, Type::Match, Type::Match]
    );
    d.highlight(None);
    assert_eq!(d.row(0).unwrap().highlighting(), &vec![Type::Normal, Type::Normal]);
    assert!(d.row(2).is_none());
}

#[test]
fn cursor_moves_within_text() {
    let d = doc("abc\nd\n");
    let p = Position { x: 3, y: 0 };
    assert_eq!(move_cursor(&d, &p, Movement::Right, 10), Position { x: 0, y: 1 });
    assert_eq!(move_cursor(&d, &p, Movement::Down, 10), Position { x: 1, y: 1 });
    assert_eq!(
        move_cursor(&d, &Position { x: 0, y: 1 }, Movement::Left, 10),
        Position { x: 3, y: 0 }
    );
    assert_eq!(move_cursor(&d, &Position { x: 0, y: 0 }, Movement::Left, 10), Position { x: 0, y: 0 });
    assert_eq!(move_cursor(&d, &p, Movement::Home, 10), Position { x: 0, y: 0 });
    assert_eq!(move_cursor(&d, &Position { x: 0, y: 0 }, Movement::End, 10), Position { x: 3, y: 0 });
    assert_eq!(move_cursor(&d, &p, Movement::PageDown, 10), Position { x: 0, y: 2 });
    assert_eq!(move_cursor(&d, &Position { x: 1, y: 2 }, Movement::PageUp, 1), Position { x: 1, y: 1 });
    assert_eq!(move_cursor(&d, &Position { x: 0, y: 2 }, Movement::Down, 10), Position { x: 0, y: 2 });
    assert_eq!(move_cursor(&d, &Position { x: 2, y: 0 }, Movement::Up, 10), Position { x: 2, y: 0 });
}

#[test]
fn scroll_keeps_cursor_on_screen() {
    let offset = Position { x: 0, y: 5 };
    assert_eq!(scroll(&Position { x: 3, y: 2 }, &offset, 10, 4), Position { x: 0, y: 2 });
    assert_eq!(scroll(&Position { x: 12, y: 9 }, &offset, 10, 4), Position { x: 3, y: 6 });
    assert_eq!(scroll(&Position { x: 9, y: 8 }, &offset, 10, 4), Position { x: 0, y: 5 });
}

#[test]
fn editing_keys_move_the_cursor() {
    let mut d = doc("ab\ncd\n");
    let p = edit(&mut d, &Position { x: 1, y: 0 }, Edit::Char('x'), 10);
    assert_eq!(texts(&d), vec!["axb", "cd"]);
    assert_eq!(p, Position { x: 2, y: 0 });
    let p = edit(&mut d, &p, Edit::Char('\n'), 10);
    assert_eq!(texts(&d), vec!["ax", "b", "cd"]);
    assert_eq!(p, Position { x: 0, y: 1 });
    let p = edit(&mut d, &p, Edit::Backspace, 10);
    assert_eq!(texts(&d), vec!["axb", "cd"]);
    assert_eq!(p, Position { x: 2, y: 0 });
    let p = edit(&mut d, &p, Edit::Delete, 10);
    assert_eq!(texts(&d), vec!["ax", "cd"]);
    assert_eq!(p, Position { x: 2, y: 0 });
    let start = edit(&mut d, &Position { x: 0, y: 0 }, Edit::Backspace, 10);
    assert_eq!(start, Position { x: 0, y: 0 });
    assert_eq!(texts(&d), vec!["ax", "cd"]);
}
