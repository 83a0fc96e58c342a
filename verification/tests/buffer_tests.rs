use rnano::buffer::{Buffer, Eol, LoadError};

#[test]
fn edits_and_indices() {
    let mut b = Buffer::new(false);
    b.insert(0, "abc\ndef");
    assert_eq!(b.len_lines(), 2);
    assert_eq!(b.line_len_chars(0), 3);
    assert_eq!(b.line_len_chars(1), 3);
    assert_eq!(b.char_idx(1, 1), 5);
    b.remove(0..1);
    assert_eq!(b.rope.to_string(), "bc\ndef");
    assert!(b.dirty);
}

#[test]
fn insert_sequence_keeps_char_count() {
    let mut b = Buffer::new(false);
    let ops = ["hello", "\n", "world", "\n", "!"];
    let mut expected_chars = 0usize;
    for s in ops {
        b.insert(b.rope.len_chars(), s);
        expected_chars += s.chars().count();
        assert_eq!(b.rope.len_chars(), expected_chars);
    }
}

#[test]
fn delete_sequence_reduces_char_count() {
    let mut b = Buffer::new(false);
    b.insert(0, "abcdef");
    assert_eq!(b.rope.len_chars(), 6);
    b.remove(2..4);
    assert_eq!(b.rope.len_chars(), 4);
    assert_eq!(b.rope.to_string(), "abef");
    b.remove(0..1);
    assert_eq!(b.rope.to_string(), "bef");
}

#[test]
fn insert_at_various_positions_keeps_content() {
    let mut b = Buffer::new(false);
    b.insert(0, "ac");
    b.insert(1, "b");
    assert_eq!(b.rope.to_string(), "abc");
    b.insert(3, "d");
    assert_eq!(b.rope.to_string(), "abcd");
    b.insert(0, "Z");
    assert_eq!(b.rope.to_string(), "Zabcd");
}

#[test]
fn line_len_excludes_newline() {
    let mut b = Buffer::new(false);
    b.insert(0, "abc\nde\n");
    assert_eq!(b.line_len_chars(0), 3);
    assert_eq!(b.line_len_chars(1), 2);
    assert_eq!(b.line_len_chars(2), 0);
}

#[test]
fn char_idx_matches_rope_offset() {
    let mut b = Buffer::new(false);
    b.insert(0, "ab\ncd");
    assert_eq!(b.char_idx(0, 0), 0);
    assert_eq!(b.char_idx(0, 2), 2);
    assert_eq!(b.char_idx(1, 0), 3);
    assert_eq!(b.char_idx(1, 1), 4);
}

#[test]
fn dirty_cleared_only_after_save() {
    let mut b = Buffer::new(false);
    b.insert(0, "x");
    assert!(b.dirty);
    b.mark_saved("dirty.txt".to_string());
    assert!(!b.dirty);
    assert_eq!(b.path.as_deref(), Some("dirty.txt"));
    assert_eq!(b.rope.to_string(), "x");
}

#[test]
fn binary_files_are_rejected() {
    let r = Buffer::from_bytes(b"ok\x00then", "binary".to_string(), false);
    assert!(matches!(r, Err(LoadError::Binary)));
    assert_eq!(LoadError::Binary.message(), "appears to be a binary file (contains NUL bytes)");
}

#[test]
fn non_utf8_is_rejected() {
    let r = Buffer::from_bytes(b"\xff\xfe hello", "latin1".to_string(), false);
    assert!(matches!(r, Err(LoadError::NotUtf8)));
}

#[test]
fn crlf_is_detected_and_restored() {
    let b = Buffer::from_bytes(b"one\r\ntwo\r\n", "crlf".to_string(), false).unwrap();
    assert_eq!(b.eol, Eol::Crlf);
    assert_eq!(b.rope.to_string(), "one\ntwo\n");
    assert_eq!(b.encoded_text(), "one\r\ntwo\r\n");
    assert!(!b.dirty);
    assert!(!b.is_new);
}

#[test]
fn save_lf_only_does_not_add_crlf() {
    let b = Buffer::from_bytes(b"line1\nline2\n", "lf".to_string(), false).unwrap();
    assert_eq!(b.eol, Eol::Lf);
    assert!(!b.encoded_text().contains('\r'));
    assert_eq!(b.encoded_text(), "line1\nline2\n");
}

#[test]
fn new_file_buffer_is_empty_and_named() {
    let b = Buffer::new_file("does-not-exist.txt".to_string(), true);
    assert!(b.is_new);
    assert!(b.readonly);
    assert_eq!(b.rope.len_chars(), 0);
    assert_eq!(b.path.as_deref(), Some("does-not-exist.txt"));
}

#[test]
fn line_and_slices() {
    let b = Buffer::from_text("ab\ncd", "x".to_string(), false);
    assert_eq!(b.line(0), vec!['a', 'b', '\n']);
    assert_eq!(b.line(1), vec!['c', 'd']);
    assert_eq!(b.slice_string(1, 4), "b\nc");
    assert_eq!(b.char_at(3), 'c');
    assert_eq!(b.char_to_line(3), 1);
    assert_eq!(b.to_text(), "ab\ncd");
}

#[test]
fn eol_labels() {
    assert_eq!(Eol::Lf.label(), "LF");
    assert_eq!(Eol::Crlf.label(), "CRLF");
    let b = Buffer::new(false);
    let expected = if std::path::MAIN_SEPARATOR == '\\' { Eol::Crlf } else { Eol::Lf };
    assert_eq!(b.eol, expected);
}

#[test]
fn mixed_line_endings_are_saved_as_crlf() {
    let b = Buffer::from_bytes(b"a\r\nb\nc", "mixed".to_string(), false).unwrap();
    assert_eq!(b.eol, Eol::Crlf);
    assert_eq!(b.encoded_text(), "a\r\nb\r\nc");
}

#[test]
fn missing_file_is_a_new_buffer() {
    let b = Buffer::new_file("does-not-exist.txt".to_string(), false);
    assert!(b.is_new);
    assert_eq!(b.rope.len_chars(), 0);
    assert_eq!(b.path.as_deref(), Some("does-not-exist.txt"));
}

#[test]
fn atomic_save_round_trips_and_clears_dirty() {
    let mut b = Buffer::new(false);
    b.insert(0, "hello\nworld");
    assert!(b.dirty);
    let data = b.encoded_text();
    b.mark_saved("roundtrip".to_string());
    assert!(!b.dirty);
    let reloaded = Buffer::from_bytes(data.as_bytes(), "roundtrip".to_string(), false).unwrap();
    assert_eq!(reloaded.rope.to_string(), "hello\nworld");
}

#[test]
fn new_buffers_take_the_platform_line_ending() {
    let expected = if std::path::MAIN_SEPARATOR == '\\' { Eol::Crlf } else { Eol::Lf };
    assert_eq!(Buffer::new(false).eol, expected);
    assert_eq!(Buffer::new_file("x.txt".to_string(), false).eol, expected);
}

#[test]
fn saved_text_loads_back_to_the_same_text() {
    let mut b = Buffer::from_bytes(b"one\r\ntwo\r\n", "crlf".to_string(), false).unwrap();
    b.insert(0, "zero\n");
    let saved = b.encoded_text();
    assert_eq!(saved, "zero\r\none\r\ntwo\r\n");
    let again = Buffer::from_text(&saved, "crlf".to_string(), false);
    assert_eq!(again.rope.to_string(), b.rope.to_string());
    assert_eq!(again.eol, Eol::Crlf);

    let mut b = Buffer::from_bytes(b"one\r\n", "crlf".to_string(), false).unwrap();
    b.remove(3..4);
    let again = Buffer::from_text(&b.encoded_text(), "crlf".to_string(), false);
    assert_eq!(again.rope.to_string(), "one");
    assert_eq!(again.eol, Eol::Lf);
}
