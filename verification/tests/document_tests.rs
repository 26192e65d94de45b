use hecto::document::Document;
use hecto::editor::Position;

fn line(d: &Document, y: usize) -> String {
    d.row(y).expect("line missing").as_str().to_string()
}

#[test]
fn open_splits_on_newlines() {
    let d = Document::open("ab\ncd\n", None);
    assert_eq!(d.len(), 2);
    assert_eq!(line(&d, 0), "ab");
    assert_eq!(line(&d, 1), "cd");
    assert!(!d.is_dirty());
}

#[test]
fn open_keeps_final_unterminated_segment() {
    let d = Document::open("ab\ncd", None);
    assert_eq!(d.len(), 2);
    assert_eq!(line(&d, 1), "cd");
}

#[test]
fn open_empty_text_has_no_lines() {
    let d = Document::open("", None);
    assert_eq!(d.len(), 0);
    assert!(d.is_empty());
    assert!(d.row(0).is_none());
}

#[test]
fn open_lone_newline_gives_one_empty_line() {
    let d = Document::open("\n", None);
    assert_eq!(d.len(), 1);
    assert_eq!(line(&d, 0), "");
    assert!(d.is_empty());
}

#[test]
fn open_keeps_carriage_returns_as_content() {
    let d = Document::open("ab\r\ncd", None);
    assert_eq!(d.len(), 2);
    assert_eq!(line(&d, 0), "ab\r");
    assert_eq!(line(&d, 1), "cd");
}

#[test]
fn open_keeps_empty_interior_lines() {
    let d = Document::open("a\n\nb\n", None);
    assert_eq!(d.len(), 3);
    assert_eq!(line(&d, 1), "");
}

#[test]
fn contents_terminates_every_line() {
    let d = Document::open("a\nb", None);
    assert_eq!(d.contents(), "a\nb\n");
    let e = Document::open("a\nb\n", None);
    assert_eq!(e.contents(), "a\nb\n");
    let f = Document::default();
    assert_eq!(f.contents(), "");
}

#[test]
fn insert_character_marks_dirty() {
    let mut d = Document::open("ab", None);
    d.insert(&Position { x: 1, y: 0 }, 'x');
    assert_eq!(line(&d, 0), "axb");
    assert!(d.is_dirty());
}

#[test]
fn insert_newline_splits_line() {
    let mut d = Document::open("abcd", None);
    d.insert(&Position { x: 2, y: 0 }, '\n');
    assert_eq!(d.len(), 2);
    assert_eq!(line(&d, 0), "ab");
    assert_eq!(line(&d, 1), "cd");
    assert!(d.is_dirty());
}

#[test]
fn insert_newline_at_document_end_appends_empty_line() {
    let mut d = Document::open("ab", None);
    d.insert(&Position { x: 0, y: 1 }, '\n');
    assert_eq!(d.len(), 2);
    assert_eq!(line(&d, 1), "");
}

#[test]
fn insert_character_at_document_end_makes_line() {
    let mut d = Document::default();
    d.insert(&Position { x: 0, y: 0 }, 'h');
    assert_eq!(d.len(), 1);
    assert_eq!(line(&d, 0), "h");
}

#[test]
fn insert_far_past_end_is_noop() {
    let mut d = Document::open("ab", None);
    d.insert(&Position { x: 0, y: 5 }, 'x');
    assert_eq!(d.len(), 1);
    assert_eq!(line(&d, 0), "ab");
    assert!(!d.is_dirty());
}

#[test]
fn delete_within_line() {
    let mut d = Document::open("abc", None);
    d.delete(&Position { x: 1, y: 0 });
    assert_eq!(line(&d, 0), "ac");
    assert!(d.is_dirty());
}

#[test]
fn delete_at_line_end_merges_next_line() {
    let mut d = Document::open("ab\ncd", None);
    d.delete(&Position { x: 2, y: 0 });
    assert_eq!(d.len(), 1);
    assert_eq!(line(&d, 0), "abcd");
    assert!(d.is_dirty());
}

#[test]
fn delete_at_end_of_last_line_is_noop() {
    let mut d = Document::open("ab", None);
    d.delete(&Position { x: 2, y: 0 });
    assert_eq!(line(&d, 0), "ab");
    assert!(!d.is_dirty());
}

#[test]
fn delete_past_document_is_noop() {
    let mut d = Document::open("ab", None);
    d.delete(&Position { x: 0, y: 3 });
    assert_eq!(d.len(), 1);
    assert!(!d.is_dirty());
}

#[test]
fn mark_saved_clears_dirty() {
    let mut d = Document::open("ab", None);
    d.insert(&Position { x: 0, y: 0 }, 'x');
    assert!(d.is_dirty());
    d.mark_saved();
    assert!(!d.is_dirty());
    assert_eq!(line(&d, 0), "xab");
}

#[test]
fn is_empty_with_text_is_false() {
    let d = Document::open("a", None);
    assert!(!d.is_empty());
    let e = Document::open("\n\n", None);
    assert!(!e.is_empty());
}

#[test]
fn file_name_is_kept() {
    let d = Document::open("ab", Some("notes.txt".to_string()));
    assert_eq!(d.file_name, Some("notes.txt".to_string()));
    let e = Document::default();
    assert!(e.file_name.is_none());
}

#[test]
fn round_trip_open_contents_open() {
    let text = "one\ntwo\u{1F1FA}\u{1F1F8}\n\nfour\n";
    let d = Document::open(text, None);
    assert_eq!(d.contents(), text);
    let e = Document::open(&d.contents(), None);
    assert_eq!(e.len(), d.len());
    for y in 0..d.len() {
        assert_eq!(line(&e, y), line(&d, y));
    }
}
