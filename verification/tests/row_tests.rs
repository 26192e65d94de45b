use hecto::row::Row;

#[test]
fn new_counts_graphemes() {
    let r = Row::new("abc");
    assert_eq!(r.len(), 3);
    assert_eq!(r.as_str(), "abc");
    assert!(!r.is_empty());
}

#[test]
fn new_counts_multi_codepoint_clusters() {
    // One combining accent, one flag (two code points each beyond ASCII).
    let r = Row::new("e\u{301}a\u{1F1FA}\u{1F1F8}b");
    assert_eq!(r.len(), 4);
}

#[test]
fn empty_row() {
    let r = Row::default();
    assert_eq!(r.len(), 0);
    assert!(r.is_empty());
    assert_eq!(r.as_str(), "");
}

#[test]
fn insert_then_delete_restores_content() {
    for at in 0..=3 {
        let mut r = Row::new("abc");
        r.insert(at, 'x');
        assert_eq!(r.len(), 4);
        r.delete(at);
        assert_eq!(r.as_str(), "abc");
        assert_eq!(r.len(), 3);
    }
}

#[test]
fn insert_then_delete_restores_around_clusters() {
    let original = "a\u{1F1FA}\u{1F1F8}e\u{301}";
    for at in 0..=3 {
        let mut r = Row::new(original);
        r.insert(at, 'x');
        assert_eq!(r.len(), 4);
        r.delete(at);
        assert_eq!(r.as_str(), original);
        assert_eq!(r.len(), 3);
    }
}

#[test]
fn insert_in_middle() {
    let mut r = Row::new("ab");
    r.insert(1, 'x');
    assert_eq!(r.as_str(), "axb");
    assert_eq!(r.len(), 3);
}

#[test]
fn insert_past_end_appends() {
    let mut r = Row::new("ab");
    r.insert(10, 'z');
    assert_eq!(r.as_str(), "abz");
    assert_eq!(r.len(), 3);
}

#[test]
fn insert_into_empty() {
    let mut r = Row::default();
    r.insert(0, 'q');
    assert_eq!(r.as_str(), "q");
    assert_eq!(r.len(), 1);
}

#[test]
fn delete_removes_whole_cluster() {
    let mut r = Row::new("a\u{1F1FA}\u{1F1F8}b");
    r.delete(1);
    assert_eq!(r.as_str(), "ab");
    assert_eq!(r.len(), 2);
}

#[test]
fn delete_at_end_is_noop() {
    let mut r = Row::new("ab");
    r.delete(2);
    assert_eq!(r.as_str(), "ab");
    r.delete(100);
    assert_eq!(r.as_str(), "ab");
    assert_eq!(r.len(), 2);
}

#[test]
fn render_full_range_keeps_clusters_whole() {
    let text = "a\u{310}e\u{301}o\u{308}\u{332}\u{1F1F7}\u{1F1FA}x";
    let r = Row::new(text);
    assert_eq!(r.len(), 5);
    assert_eq!(r.render(0, r.len()), text);
}

#[test]
fn render_subrange_by_grapheme() {
    let r = Row::new("a\u{1F1F7}\u{1F1FA}b");
    assert_eq!(r.render(1, 2), "\u{1F1F7}\u{1F1FA}");
    assert_eq!(r.render(0, 1), "a");
    assert_eq!(r.render(2, 3), "b");
}

#[test]
fn render_clamps_out_of_range() {
    let r = Row::new("abc");
    assert_eq!(r.render(0, 100), "abc");
    assert_eq!(r.render(2, 100), "c");
    assert_eq!(r.render(5, 2), "");
    assert_eq!(r.render(1, 1), "");
}

#[test]
fn split_then_append_reproduces_content() {
    let original = "ab\u{1F1FA}\u{1F1F8}e\u{301}cd";
    let n = Row::new(original).len();
    for k in 0..=n + 1 {
        let mut head = Row::new(original);
        let tail = head.split(k);
        let mut rebuilt = Row::new(head.as_str());
        rebuilt.append(&tail);
        assert_eq!(rebuilt.as_str(), original);
        assert_eq!(rebuilt.len(), n);
    }
}

#[test]
fn split_in_middle() {
    let mut r = Row::new("abcd");
    let tail = r.split(2);
    assert_eq!(r.as_str(), "ab");
    assert_eq!(tail.as_str(), "cd");
    assert_eq!(r.len(), 2);
    assert_eq!(tail.len(), 2);
}

#[test]
fn append_concatenates() {
    let mut r = Row::new("ab");
    let other = Row::new("cd");
    r.append(&other);
    assert_eq!(r.as_str(), "abcd");
    assert_eq!(r.len(), 4);
}

#[test]
fn update_len_recomputes() {
    let mut r = Row::new("a\u{1F1FA}\u{1F1F8}");
    r.update_len();
    assert_eq!(r.len(), 2);
}

#[test]
fn as_bytes_is_utf8_encoding() {
    let r = Row::new("he\u{301}y");
    assert_eq!(r.as_bytes(), "he\u{301}y".as_bytes());
}
