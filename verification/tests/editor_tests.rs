use rnano::buffer::Buffer;
use rnano::config::Config;
use rnano::display::display_col;
use rnano::editor::{Editor, Effect, Focus, PromptKind};
use rnano::keys::{KeyCode, KeyEvent, KeyModifiers, MouseEvent, MouseEventKind};
use rnano::save::{annotate_read_error, swap_path, HookOutcome, IoFailure, IoKind};
use rnano::search::{merge_ranges, search_matches};
use rnano::view::{gutter_cell, help_line};

fn editor_with(text: &str) -> Editor {
    let mut buf = Buffer::new(false);
    buf.insert(0, text);
    buf.dirty = false;
    Editor::new(vec![buf], 80, 24, Config::default(), 0)
}

fn key(code: KeyCode, m: KeyModifiers) -> KeyEvent {
    KeyEvent::new(code, m)
}

#[test]
fn insert_and_newline_split() {
    let mut e = editor_with("ab");
    e.cursor_col = 1;
    e.insert_char('X');
    assert_eq!(e.buf.rope.to_string(), "aXb");
    e.insert_newline();
    assert_eq!(e.buf.rope.to_string(), "aX\nb");
}

#[test]
fn backspace_joins_lines() {
    let mut e = editor_with("ab\ncd");
    e.cursor_row = 1;
    e.cursor_col = 0;
    e.delete_back();
    assert_eq!(e.buf.rope.to_string(), "abcd");
    assert_eq!((e.cursor_row, e.cursor_col), (0, 2));
}

#[test]
fn vertical_move_keeps_goal_column() {
    let mut e = editor_with("123456\nab\n123456");
    e.cursor_col = 4;
    e.update_goal();
    e.move_down();
    assert_eq!(e.cursor_col, 2);
    e.move_down();
    assert_eq!(e.cursor_col, 4);
}

#[test]
fn cut_and_paste_line() {
    let mut e = editor_with("one\ntwo\nthree");
    e.cursor_row = 1;
    e.cut_line();
    assert_eq!(e.buf.rope.to_string(), "one\nthree");
    e.cursor_row = 1;
    e.cursor_col = e.buf.line_len_chars(e.cursor_row);
    e.paste();
    assert!(e.buf.rope.to_string().contains("two\n"));
}

#[test]
fn tab_display_width_alignment() {
    let mut b = Buffer::new(false);
    b.insert(0, "\tx");
    let line = b.line(0);
    let tw = Config::default().tab_width;
    assert_eq!(display_col(&line, 0, tw), 0);
    assert_eq!(display_col(&line, 1, tw), tw);
}

#[test]
fn readonly_blocks_edits() {
    let mut buf = Buffer::new(true);
    buf.insert(0, "data");
    buf.dirty = false;
    let mut e = Editor::new(vec![buf], 80, 24, Config::default(), 0);
    e.insert_char('Z');
    assert_eq!(e.buf.rope.to_string(), "data");
}

#[test]
fn undo_single_char() {
    let mut e = editor_with("ab");
    e.cursor_col = 2;
    e.insert_char('c');
    assert_eq!(e.buf.rope.to_string(), "abc");
    e.undo();
    assert_eq!(e.buf.rope.to_string(), "ab");
    assert_eq!(e.cursor_col, 2);
}

#[test]
fn undo_squashes_consecutive_inserts() {
    let mut e = editor_with("");
    e.insert_char('a');
    e.insert_char('b');
    e.insert_char('c');
    assert_eq!(
        e.history.undo.len(),
        1,
        "three consecutive inserts should squash into one"
    );
    e.undo();
    assert_eq!(e.buf.rope.to_string(), "");
}

#[test]
fn editor_redo_after_undo() {
    let mut e = editor_with("");
    e.insert_char('x');
    e.undo();
    assert_eq!(e.buf.rope.to_string(), "");
    e.redo();
    assert_eq!(e.buf.rope.to_string(), "x");
}

#[test]
fn editor_new_edit_clears_redo() {
    let mut e = editor_with("");
    e.insert_char('a');
    e.undo();
    e.insert_char('b');
    assert!(!e.history.can_redo());
    assert_eq!(e.buf.rope.to_string(), "b");
}

#[test]
fn undo_delete_back() {
    let mut e = editor_with("abc");
    e.cursor_col = 3;
    e.delete_back();
    assert_eq!(e.buf.rope.to_string(), "ab");
    e.undo();
    assert_eq!(e.buf.rope.to_string(), "abc");
    assert_eq!(e.cursor_col, 3);
}

#[test]
fn undo_nothing_shows_message() {
    let mut e = editor_with("x");
    e.undo();
    assert_eq!(e.message, "Nothing to undo");
}

#[test]
fn gutter_width_off_by_default() {
    let e = editor_with("hello");
    assert_eq!(e.gutter_width(), 0);
    assert_eq!(e.text_width(), 80);
}

#[test]
fn gutter_width_when_enabled() {
    let mut e = editor_with("hello\nworld");
    e.cfg.line_numbers = true;
    assert_eq!(e.gutter_width(), 2);
    assert_eq!(e.text_width(), 78);
}

#[test]
fn search_matches_basic() {
    let b = Buffer::from_text("hello world\nhello again", "t".to_string(), false);
    let m = search_matches(&b, "hello", false);
    assert_eq!(m.len(), 2);
    assert_eq!(m, vec![(0, 0, 5), (1, 0, 5)]);
}

#[test]
fn search_next_wraps() {
    let mut e = editor_with("ab ab ab");
    e.open_search();
    for ch in "ab".chars() {
        e.handle_search_key(KeyEvent::new(KeyCode::Char(ch), KeyModifiers::NONE));
    }
    e.handle_search_key(KeyEvent::new(KeyCode::Char('w'), KeyModifiers::CONTROL));
    assert_eq!(e.cursor_col, 3);
    e.handle_search_key(KeyEvent::new(KeyCode::Char('w'), KeyModifiers::CONTROL));
    assert_eq!(e.cursor_col, 6);
    e.handle_search_key(KeyEvent::new(KeyCode::Char('w'), KeyModifiers::CONTROL));
    assert_eq!(e.cursor_col, 0);
}

#[test]
fn search_esc_restores_cursor() {
    let mut e = editor_with("hello");
    e.cursor_col = 3;
    e.open_search();
    e.handle_search_key(KeyEvent::new(KeyCode::Esc, KeyModifiers::NONE));
    assert_eq!(e.cursor_col, 3);
}

fn two_buf_editor(text1: &str, text2: &str) -> Editor {
    let mut b1 = Buffer::new(false);
    b1.insert(0, text1);
    b1.dirty = false;
    let mut b2 = Buffer::new(false);
    b2.insert(0, text2);
    b2.dirty = false;
    Editor::new(vec![b1, b2], 80, 24, Config::default(), 0)
}

#[test]
fn multi_buf_next_switches_content() {
    let mut e = two_buf_editor("alpha", "beta");
    assert_eq!(e.buf.rope.to_string(), "alpha");
    let _ = e.next_buffer();
    assert_eq!(e.buf.rope.to_string(), "beta");
    assert_eq!(e.buf_idx, 1);
    assert_eq!(e.buf_total, 2);
}

#[test]
fn multi_buf_prev_wraps() {
    let mut e = two_buf_editor("alpha", "beta");
    let _ = e.prev_buffer();
    assert_eq!(e.buf.rope.to_string(), "beta");
}

#[test]
fn multi_buf_round_trip() {
    let mut e = two_buf_editor("one", "two");
    let _ = e.next_buffer();
    let _ = e.next_buffer();
    assert_eq!(e.buf.rope.to_string(), "one");
    assert_eq!(e.buf_idx, 0);
}

#[test]
fn single_buf_next_shows_message() {
    let mut e = editor_with("solo");
    let _ = e.next_buffer();
    assert_eq!(e.message, "Only one buffer open");
}

#[test]
fn macro_record_and_play() {
    let mut e = editor_with("");
    let _ = e.handle_key(KeyEvent::new(KeyCode::Char('r'), KeyModifiers::CONTROL));
    assert!(e.macro_recording);
    let _ = e.handle_key(KeyEvent::new(KeyCode::Char('a'), KeyModifiers::NONE));
    let _ = e.handle_key(KeyEvent::new(KeyCode::Char('b'), KeyModifiers::NONE));
    let _ = e.handle_key(KeyEvent::new(KeyCode::Char('r'), KeyModifiers::CONTROL));
    assert!(!e.macro_recording);
    assert_eq!(e.buf.rope.to_string(), "ab");
    e.cursor_col = 2;
    let _ = e.handle_key(KeyEvent::new(KeyCode::Char('r'), KeyModifiers::ALT));
    assert_eq!(e.buf.rope.to_string(), "abab");
}

#[test]
fn macro_play_empty_shows_message() {
    let mut e = editor_with("x");
    e.macro_play();
    assert!(e.message.contains("No macro"));
}

#[test]
fn merge_ranges_overlapping() {
    let r = merge_ranges(vec![(2, 5), (0, 3), (4, 7)]);
    assert_eq!(r, vec![(0, 7)]);
}

// --- further scenarios -------------------------------------------------------

#[test]
fn new_editor_messages() {
    let e = Editor::new(vec![Buffer::new_file("f.txt".to_string(), false)], 80, 24, Config::default(), 0);
    assert_eq!(e.message, "New file");
    let e = Editor::new(vec![Buffer::new(true)], 80, 24, Config::default(), 0);
    assert_eq!(e.message, "Read-only mode");
    let e = Editor::new(vec![], 0, 0, Config::default(), 0);
    assert_eq!(e.message, "");
    assert_eq!((e.width, e.height), (1, 4));
    assert_eq!(e.buf_total, 1);
}

#[test]
fn insert_then_undo_then_redo_law() {
    let mut e = editor_with("hello");
    e.cursor_col = 5;
    e.insert_newline();
    assert_eq!(e.buf.rope.to_string(), "hello\n");
    assert_eq!((e.cursor_row, e.cursor_col), (1, 0));
    e.undo();
    assert_eq!(e.buf.rope.to_string(), "hello");
    assert_eq!((e.cursor_row, e.cursor_col), (0, 5));
    assert_eq!(e.message, "Undone");
    e.redo();
    assert_eq!(e.buf.rope.to_string(), "hello\n");
    assert_eq!((e.cursor_row, e.cursor_col), (1, 0));
    assert_eq!(e.message, "Redone");
}

#[test]
fn cut_then_undo_restores_line() {
    let mut e = editor_with("one\ntwo\nthree");
    e.cursor_row = 1;
    e.cursor_col = 2;
    e.cut_line();
    assert_eq!(e.kill.as_deref(), Some("two\n"));
    assert_eq!(e.message, "Cut line");
    e.undo();
    assert_eq!(e.buf.rope.to_string(), "one\ntwo\nthree");
    assert_eq!((e.cursor_row, e.cursor_col), (1, 2));
}

#[test]
fn cut_last_line_clamps_cursor() {
    let mut e = editor_with("one\ntwo");
    e.cursor_row = 1;
    e.cursor_col = 3;
    e.cut_line();
    assert_eq!(e.buf.rope.to_string(), "one\n");
    assert_eq!((e.cursor_row, e.cursor_col), (1, 0));
}

#[test]
fn paste_moves_cursor_past_text_and_undoes() {
    let mut e = editor_with("ab");
    e.kill = Some("x\nyz".to_string());
    e.cursor_col = 1;
    e.paste();
    assert_eq!(e.buf.rope.to_string(), "ax\nyzb");
    assert_eq!((e.cursor_row, e.cursor_col), (1, 2));
    assert_eq!(e.message, "Uncut text");
    e.undo();
    assert_eq!(e.buf.rope.to_string(), "ab");
    assert_eq!((e.cursor_row, e.cursor_col), (0, 1));
}

#[test]
fn paste_with_empty_kill_ring() {
    let mut e = editor_with("ab");
    e.paste();
    assert_eq!(e.message, "Nothing to paste");
    assert_eq!(e.buf.rope.to_string(), "ab");
}

#[test]
fn delete_forward_joins_and_undoes() {
    let mut e = editor_with("ab\ncd");
    e.cursor_col = 2;
    e.delete_forward();
    assert_eq!(e.buf.rope.to_string(), "abcd");
    e.undo();
    assert_eq!(e.buf.rope.to_string(), "ab\ncd");
    e.cursor_row = 1;
    e.cursor_col = 2;
    e.delete_forward();
    assert_eq!(e.buf.rope.to_string(), "ab\ncd");
}

#[test]
fn typing_run_is_one_undo_step() {
    let mut e = editor_with("x");
    e.cursor_col = 1;
    let _ = e.handle_key(key(KeyCode::Char('a'), KeyModifiers::NONE));
    let _ = e.handle_key(key(KeyCode::Char('b'), KeyModifiers::NONE));
    let _ = e.handle_key(key(KeyCode::Tab, KeyModifiers::NONE));
    assert_eq!(e.buf.rope.to_string(), "xab\t");
    let _ = e.handle_key(key(KeyCode::Char('z'), KeyModifiers::CONTROL));
    assert_eq!(e.buf.rope.to_string(), "x");
    assert_eq!(e.cursor_col, 1);
}

#[test]
fn movement_keys() {
    let mut e = editor_with("abc\nde");
    let _ = e.handle_key(key(KeyCode::End, KeyModifiers::NONE));
    assert_eq!(e.cursor_col, 3);
    let _ = e.handle_key(key(KeyCode::Right, KeyModifiers::NONE));
    assert_eq!((e.cursor_row, e.cursor_col), (1, 0));
    let _ = e.handle_key(key(KeyCode::Left, KeyModifiers::NONE));
    assert_eq!((e.cursor_row, e.cursor_col), (0, 3));
    let _ = e.handle_key(key(KeyCode::Down, KeyModifiers::NONE));
    assert_eq!((e.cursor_row, e.cursor_col), (1, 2));
    let _ = e.handle_key(key(KeyCode::Char('a'), KeyModifiers::CONTROL));
    assert_eq!(e.cursor_col, 0);
    let _ = e.handle_key(key(KeyCode::Char('e'), KeyModifiers::CONTROL));
    assert_eq!(e.cursor_col, 2);
    let _ = e.handle_key(key(KeyCode::PageUp, KeyModifiers::NONE));
    assert_eq!(e.cursor_row, 0);
    let _ = e.handle_key(key(KeyCode::PageDown, KeyModifiers::NONE));
    assert_eq!(e.cursor_row, 1);
    let _ = e.handle_key(key(KeyCode::Home, KeyModifiers::NONE));
    assert_eq!(e.cursor_col, 0);
}

#[test]
fn quit_clean_buffer_quits() {
    let mut e = editor_with("x");
    let _ = e.handle_key(key(KeyCode::Char('x'), KeyModifiers::CONTROL));
    assert!(e.should_quit);
}

#[test]
fn quit_dirty_buffer_asks_and_saves() {
    let mut b = Buffer::from_text("x", "f.txt".to_string(), false);
    b.insert(1, "y");
    let mut e = Editor::new(vec![b], 80, 24, Config::default(), 0);
    let _ = e.handle_key(key(KeyCode::Char('x'), KeyModifiers::CONTROL));
    assert!(!e.should_quit);
    assert!(matches!(&e.focus, Focus::Prompt(p) if matches!(p.kind, PromptKind::ConfirmQuit)));
    let r = e.handle_key(key(KeyCode::Char('y'), KeyModifiers::NONE));
    match r {
        Effect::Save { path, backup, quit_after } => {
            assert_eq!(path, "f.txt");
            assert!(!backup);
            assert!(quit_after);
        },
        _ => panic!("expected a save"),
    }
    let r = e.finish_save("f.txt".to_string(), true, Ok(()));
    assert!(matches!(r, Effect::Nothing));
    assert_eq!(e.message, "Wrote \"f.txt\"");
    assert!(e.should_quit);
    assert!(!e.buf.dirty);
}

#[test]
fn quit_dirty_buffer_no_and_cancel() {
    let mut b = Buffer::new(false);
    b.insert(0, "x");
    let mut e = Editor::new(vec![b], 80, 24, Config::default(), 0);
    let _ = e.handle_key(key(KeyCode::Char('x'), KeyModifiers::CONTROL));
    let _ = e.handle_key(key(KeyCode::Esc, KeyModifiers::NONE));
    assert_eq!(e.message, "Cancelled");
    assert!(matches!(e.focus, Focus::Edit));
    let _ = e.handle_key(key(KeyCode::Char('x'), KeyModifiers::CONTROL));
    let _ = e.handle_key(key(KeyCode::Char('q'), KeyModifiers::NONE));
    assert!(matches!(e.focus, Focus::Prompt(_)));
    let _ = e.handle_key(key(KeyCode::Char('N'), KeyModifiers::NONE));
    assert!(e.should_quit);
}

#[test]
fn save_as_prompt_trims_and_saves() {
    let mut b = Buffer::new(false);
    b.insert(0, "x");
    let mut e = Editor::new(vec![b], 80, 24, Config::default(), 0);
    let _ = e.handle_key(key(KeyCode::Char('o'), KeyModifiers::CONTROL));
    for c in " a.rs ".chars() {
        let _ = e.handle_key(key(KeyCode::Char(c), KeyModifiers::NONE));
    }
    let _ = e.handle_key(key(KeyCode::Char('z'), KeyModifiers::NONE));
    let _ = e.handle_key(key(KeyCode::Backspace, KeyModifiers::NONE));
    assert_eq!(e.status_text(), " File name to write:  a.rs ");
    let r = e.handle_key(key(KeyCode::Enter, KeyModifiers::NONE));
    match r {
        Effect::Save { path, quit_after, .. } => {
            assert_eq!(path, "a.rs");
            assert!(!quit_after);
        },
        _ => panic!("expected a save"),
    }
    assert!(matches!(e.focus, Focus::Edit));
}

#[test]
fn save_as_empty_name_cancels() {
    let mut e = editor_with("x");
    let _ = e.handle_key(key(KeyCode::Char('o'), KeyModifiers::CONTROL));
    let _ = e.handle_key(key(KeyCode::Char(' '), KeyModifiers::NONE));
    let r = e.handle_key(key(KeyCode::Enter, KeyModifiers::NONE));
    assert!(matches!(r, Effect::Nothing));
    assert_eq!(e.message, "Cancelled (no file name)");
}

#[test]
fn readonly_cannot_save() {
    let mut e = Editor::new(vec![Buffer::new(true)], 80, 24, Config::default(), 0);
    let r = e.handle_key(key(KeyCode::Char('s'), KeyModifiers::CONTROL));
    assert!(matches!(r, Effect::Nothing));
    assert_eq!(e.message, "Cannot save: read-only mode");
}

#[test]
fn toggles_and_position_message() {
    let mut e = editor_with("a\tb");
    e.cursor_col = 2;
    e.update_goal();
    let _ = e.handle_key(key(KeyCode::Char('c'), KeyModifiers::CONTROL));
    assert_eq!(e.message, "line 1 of 1, col 5");
    let _ = e.handle_key(key(KeyCode::Char('n'), KeyModifiers::CONTROL));
    assert_eq!(e.message, "Line numbers on");
    assert!(e.cfg.line_numbers);
    let _ = e.handle_key(key(KeyCode::Char('P'), KeyModifiers::CONTROL));
    assert_eq!(e.message, "Soft wrap on");
    assert!(e.cfg.soft_wrap);
    let _ = e.handle_key(key(KeyCode::Char('g'), KeyModifiers::CONTROL));
    assert!(e.help_visible);
    let _ = e.handle_key(key(KeyCode::Down, KeyModifiers::NONE));
    assert_eq!(e.help_scroll, 1);
    let _ = e.handle_key(key(KeyCode::Up, KeyModifiers::NONE));
    let _ = e.handle_key(key(KeyCode::Up, KeyModifiers::NONE));
    assert_eq!(e.help_scroll, 0);
    let _ = e.handle_key(key(KeyCode::Char('q'), KeyModifiers::NONE));
    assert!(!e.help_visible);
}

#[test]
fn clipboard_copy_and_paste_effects() {
    let mut e = editor_with("ab");
    let r = e.handle_key(key(KeyCode::Char('w'), KeyModifiers::ALT));
    assert!(matches!(r, Effect::Nothing));
    assert_eq!(e.message, "Nothing to copy (use Ctrl+K first)");
    e.kill = Some("k".to_string());
    let r = e.handle_key(key(KeyCode::Char('W'), KeyModifiers::ALT));
    assert!(matches!(r, Effect::CopyToClipboard(ref t) if t == "k"));
    e.finish_copy(false);
    assert_eq!(e.message, "Clipboard unavailable (install xclip or xsel)");
    e.finish_copy(true);
    assert_eq!(e.message, "Copied to clipboard");
    let r = e.handle_key(key(KeyCode::Char('u'), KeyModifiers::ALT));
    assert!(matches!(r, Effect::ReadClipboard));
    e.finish_paste(Some("x\r\ny\rz".to_string()));
    assert_eq!(e.buf.rope.to_string(), "x\ny\nzab");
    assert_eq!(e.kill.as_deref(), Some("x\ny\nz"));
    assert_eq!(e.message, "Pasted from clipboard");
    e.finish_paste(None);
    assert_eq!(e.message, "Clipboard empty or unavailable");
    e.finish_paste(Some(String::new()));
    assert_eq!(e.message, "Clipboard empty or unavailable");
}

#[test]
fn case_insensitive_search_and_accept() {
    let mut e = editor_with("Hello\nhello HELLO");
    e.open_search();
    for c in "hello".chars() {
        e.handle_search_key(key(KeyCode::Char(c), KeyModifiers::NONE));
    }
    assert_eq!(e.status_text(), " Search:hello [1/1] ");
    e.handle_search_key(key(KeyCode::Char('c'), KeyModifiers::ALT));
    assert_eq!(e.status_text(), " Search [i]:hello [1/3] ");
    e.handle_search_key(key(KeyCode::Char('q'), KeyModifiers::CONTROL));
    assert_eq!((e.cursor_row, e.cursor_col), (1, 6));
    e.handle_search_key(key(KeyCode::Enter, KeyModifiers::NONE));
    assert!(matches!(e.focus, Focus::Edit));
    assert_eq!(e.last_search, "hello");
    assert_eq!(e.message, "");
    assert_eq!((e.cursor_row, e.cursor_col), (1, 6));
}

#[test]
fn search_without_matches() {
    let mut e = editor_with("abc");
    e.open_search();
    e.handle_search_key(key(KeyCode::Char('z'), KeyModifiers::NONE));
    e.handle_search_key(key(KeyCode::Enter, KeyModifiers::NONE));
    assert_eq!(e.message, "No matches");
}

#[test]
fn next_then_prev_buffer_restores() {
    let mut e = two_buf_editor("one", "two");
    e.cursor_col = 2;
    let _ = e.next_buffer();
    assert_eq!(e.message, "Buffer 2/2");
    assert_eq!(e.cursor_col, 0);
    let _ = e.prev_buffer();
    assert_eq!(e.buf.rope.to_string(), "one");
    assert_eq!(e.cursor_col, 2);
    assert_eq!(e.buf_idx, 0);
}

#[test]
fn switching_to_named_buffer_asks_for_its_size() {
    let b1 = Buffer::new(false);
    let b2 = Buffer::from_text("fn main() {}", "main.rs".to_string(), false);
    let mut e = Editor::new(vec![b1, b2], 80, 24, Config::default(), 0);
    let r = e.next_buffer();
    assert!(matches!(r, Effect::MeasureFile(ref p) if p == "main.rs"));
    assert!(!e.syntax_rules.is_empty());
    e.set_file_size(4096 * 1024);
    assert!(e.highlight_disabled);
    assert_eq!(e.title_text(), " rnano  main.rs [no hl]");
}

#[test]
fn mouse_click_and_scroll() {
    let mut e = editor_with("abc\ndefgh\nij");
    e.handle_mouse(MouseEvent { kind: MouseEventKind::LeftDown, column: 3, row: 2 });
    assert_eq!((e.cursor_row, e.cursor_col), (1, 3));
    e.handle_mouse(MouseEvent { kind: MouseEventKind::LeftDown, column: 3, row: 0 });
    assert_eq!((e.cursor_row, e.cursor_col), (1, 3));
    e.handle_mouse(MouseEvent { kind: MouseEventKind::ScrollDown, column: 0, row: 0 });
    assert_eq!(e.top, 2);
    assert_eq!(e.cursor_row, 2);
    e.handle_mouse(MouseEvent { kind: MouseEventKind::ScrollUp, column: 0, row: 0 });
    assert_eq!(e.top, 0);
}

#[test]
fn status_and_title_text() {
    let mut e = two_buf_editor("ab", "cd");
    e.cursor_col = 1;
    e.update_goal();
    e.macro_recording = true;
    assert_eq!(e.status_text(), " Ln 1, Col 2   LF  [1/2]  [REC]");
    assert_eq!(e.title_text(), " rnano  New Buffer");
    e.message = "hi".to_string();
    assert_eq!(e.status_text(), " hi");
    let (t, s, h) = e.bars();
    assert_eq!(t.chars().count(), 80);
    assert!(s.starts_with(" hi "));
    assert!(h.starts_with(" ^O Write  ^X Exit"));
}

#[test]
fn scroll_keeps_cursor_visible() {
    let mut text = String::new();
    for i in 0..50 {
        text.push_str(&format!("line {}\n", i));
    }
    let mut e = Editor::new(vec![Buffer::from_text(&text, "t".to_string(), false)], 10, 10, Config::default(), 0);
    e.cursor_row = 30;
    e.cursor_col = 6;
    e.update_goal();
    e.scroll();
    assert_eq!(e.top, 24);
    assert_eq!(e.left, 0);
    assert_eq!(e.cursor_screen_pos(), (6, 7));
    e.cursor_row = 3;
    e.scroll();
    assert_eq!(e.top, 3);
}

#[test]
fn render_line_expands_tabs_and_clips() {
    let mut e = editor_with("\tab");
    e.width = 6;
    assert_eq!(e.render_line(0), "    ab");
    e.left = 2;
    assert_eq!(e.render_line(0), "  ab  ");
    e.left = 0;
    e.cfg.line_numbers = true;
    assert_eq!(e.render_line(0), "    ");
}

#[test]
fn wrapped_rows_and_subrows() {
    let mut e = editor_with("abcdefghij\nxy");
    e.width = 4;
    e.height = 7;
    assert_eq!(e.wrapped_rows(), vec![(0, 0), (0, 1), (1, 0), ]);
    assert_eq!(e.render_wrapped_subrow(0, 1, 4), "efgh");
    assert_eq!(e.text_area_rows(), vec![Some(0), Some(1), None, None]);
}

#[test]
fn search_highlight_segments() {
    let mut e = editor_with("abab");
    e.width = 6;
    e.open_search();
    e.handle_search_key(key(KeyCode::Char('b'), KeyModifiers::NONE));
    let ranges = e.highlight_screen_ranges(0);
    assert_eq!(ranges, vec![(1, 2), (3, 4)]);
    let segs = e.line_segments(0, &ranges, &[]);
    let texts: Vec<&str> = segs.iter().map(|s| s.text.as_str()).collect();
    assert_eq!(texts, vec!["a", "b", "a", "b", "  "]);
    assert_eq!(segs[1].bg, Some(e.theme.search_hl_bg));
    assert_eq!(segs[0].bg, None);
}

#[test]
fn hook_command_and_outcomes() {
    let mut cfg = Config::default();
    cfg.on_save_hook = "rustfmt %f && echo %f%".to_string();
    let mut b = Buffer::new(false);
    b.insert(0, "x");
    let mut e = Editor::new(vec![b], 80, 24, cfg, 0);
    let r = e.finish_save("a.rs".to_string(), false, Ok(()));
    assert!(matches!(r, Effect::RunHook(ref p) if p == "a.rs"));
    assert_eq!(e.hook_command("/tmp/a.rs"), "rustfmt /tmp/a.rs && echo /tmp/a.rs%");
    e.finish_hook(HookOutcome::Exited(-1));
    assert_eq!(e.message, "Hook exited -1");
    e.finish_hook(HookOutcome::Failed("no sh".to_string()));
    assert_eq!(e.message, "Hook failed: no sh");
    e.finish_hook(HookOutcome::Success);
    assert_eq!(e.message, "Hook failed: no sh");
}

#[test]
fn failed_save_messages() {
    let mut e = editor_with("x");
    let r = e.finish_save("/r/f".to_string(), false, Err(IoFailure { kind: IoKind::PermissionDenied, message: "denied".to_string() }));
    assert!(matches!(r, Effect::Nothing));
    assert_eq!(e.message, "Permission denied writing \"/r/f\" — check file permissions or try sudo");
    let _ = e.finish_save("f".to_string(), false, Err(IoFailure { kind: IoKind::StorageFull, message: String::new() }));
    assert_eq!(e.message, "No space left on device writing \"f\" — free up disk space and retry");
    let _ = e.finish_save("f".to_string(), false, Err(IoFailure { kind: IoKind::ReadOnlyFilesystem, message: String::new() }));
    assert_eq!(e.message, "Read-only filesystem writing \"f\" — remount rw or save elsewhere");
    let _ = e.finish_save("f".to_string(), false, Err(IoFailure { kind: IoKind::Other, message: "boom".to_string() }));
    assert_eq!(e.message, "Error writing \"f\": boom");
    assert!(e.buf.path.is_none());
}

#[test]
fn annotate_read_error_hint() {
    let a = annotate_read_error("f", IoFailure { kind: IoKind::PermissionDenied, message: "x".to_string() });
    assert_eq!(a.message, "f: permission denied — try opening with --readonly or check file permissions");
    let b = annotate_read_error("f", IoFailure { kind: IoKind::NotFound, message: "x".to_string() });
    assert_eq!(b.message, "x");
}

#[test]
fn autosave_decision() {
    let mut b = Buffer::from_text("x", "f".to_string(), false);
    let e = Editor::new(vec![Buffer::from_text("x", "f".to_string(), false)], 80, 24, Config::default(), 0);
    assert!(!e.wants_autosave());
    b.insert(0, "y");
    let mut e = Editor::new(vec![b], 80, 24, Config::default(), 0);
    assert!(e.wants_autosave());
    e.autosave_failed("disk");
    assert_eq!(e.message, "Autosave failed: disk");
}

#[test]
fn gutter_cells_and_help() {
    assert_eq!(gutter_cell(4, 3), " 5 ");
    assert_eq!(gutter_cell(123, 3), "124 ");
    assert_eq!(gutter_cell(0, 0), "");
    assert_eq!(help_line(0), " rnano — keyboard shortcuts");
    assert_eq!(help_line(41), "  Press any key to return.");
    assert_eq!(help_line(42), "");
    let mut e = editor_with("x");
    e.help_scroll = 40;
    let lines = e.help_screen();
    assert_eq!(lines.len(), 2);
    assert_eq!(lines[1].trim_end(), "  Press any key to return.");
}

#[test]
fn replay_stops_when_quitting() {
    let mut e = editor_with("");
    let _ = e.handle_key(key(KeyCode::Char('r'), KeyModifiers::CONTROL));
    let _ = e.handle_key(key(KeyCode::Char('a'), KeyModifiers::NONE));
    let _ = e.handle_key(key(KeyCode::Char('r'), KeyModifiers::CONTROL));
    assert_eq!(e.message, "Macro recorded (1 keys)");
    e.macro_play();
    assert_eq!(e.replay.len(), 1);
    e.should_quit = true;
    assert!(matches!(e.continue_replay(), Effect::Nothing));
    assert!(e.replay.is_empty());
    assert_eq!(e.buf.rope.to_string(), "a");
}

#[test]
fn a_macro_does_not_play_itself() {
    let mut e = editor_with("");
    let _ = e.handle_key(key(KeyCode::Char('r'), KeyModifiers::CONTROL));
    let _ = e.handle_key(key(KeyCode::Char('a'), KeyModifiers::NONE));
    let _ = e.handle_key(key(KeyCode::Char('r'), KeyModifiers::ALT));
    let _ = e.handle_key(key(KeyCode::Char('r'), KeyModifiers::CONTROL));
    assert_eq!(e.buf.rope.to_string(), "a");
    let r = e.handle_key(key(KeyCode::Char('r'), KeyModifiers::ALT));
    assert!(matches!(r, Effect::Nothing));
    assert_eq!(e.buf.rope.to_string(), "aa");
    assert_eq!(e.message, "Cannot play a macro from within a macro");
    assert!(e.replay.is_empty());
}

#[test]
fn replay_stops_at_outside_work_and_goes_on() {
    let mut buf = Buffer::new_file("m.txt".to_string(), false);
    buf.insert(0, "");
    let mut e = Editor::new(vec![buf], 80, 24, Config::default(), 0);
    let _ = e.handle_key(key(KeyCode::Char('r'), KeyModifiers::CONTROL));
    let _ = e.handle_key(key(KeyCode::Char('a'), KeyModifiers::NONE));
    let _ = e.handle_key(key(KeyCode::Char('s'), KeyModifiers::CONTROL));
    let _ = e.handle_key(key(KeyCode::Char('b'), KeyModifiers::NONE));
    let _ = e.handle_key(key(KeyCode::Char('r'), KeyModifiers::CONTROL));
    assert_eq!(e.buf.rope.to_string(), "ab");
    e.cursor_col = 2;
    let r = e.handle_key(key(KeyCode::Char('r'), KeyModifiers::ALT));
    assert!(matches!(r, Effect::Save { .. }));
    assert_eq!(e.buf.rope.to_string(), "aba");
    assert_eq!(e.replay.len(), 1);
    let r = e.continue_replay();
    assert!(matches!(r, Effect::Nothing));
    assert_eq!(e.buf.rope.to_string(), "abab");
    assert!(e.replay.is_empty());
}

#[test]
fn cut_then_paste_at_line_start_restores_text() {
    let mut e = editor_with("one\ntwo\nthree");
    e.cursor_row = 1;
    e.cursor_col = 0;
    e.cut_line();
    assert_eq!(e.buf.rope.to_string(), "one\nthree");
    e.paste();
    assert_eq!(e.buf.rope.to_string(), "one\ntwo\nthree");

    let mut e = editor_with("one\ntwo");
    e.cursor_row = 1;
    e.cursor_col = 0;
    e.cut_line();
    e.paste();
    assert_eq!(e.buf.rope.to_string(), "one\ntwo");
}

#[test]
fn typing_that_extends_an_insertion_clears_redo() {
    let mut e = editor_with("");
    e.insert_char('a');
    e.insert_char('b');
    e.insert_newline();
    e.undo();
    assert!(e.history.can_redo());
    assert_eq!((e.cursor_row, e.cursor_col), (0, 2));
    e.insert_char('c');
    assert!(!e.history.can_redo());
    assert_eq!(e.buf.rope.to_string(), "abc");
    e.undo();
    assert_eq!(e.buf.rope.to_string(), "");
}

#[test]
fn highlighting_turns_off_just_past_the_limit() {
    let mut cfg = Config::default();
    cfg.highlight_max_kb = 1;
    let b = Buffer::from_text("fn main() {}", "main.rs".to_string(), false);
    let e = Editor::new(vec![b], 80, 24, cfg.clone(), 1024);
    assert!(!e.highlight_disabled);
    let b = Buffer::from_text("fn main() {}", "main.rs".to_string(), false);
    let mut e = Editor::new(vec![b], 80, 24, cfg, 1025);
    assert!(e.highlight_disabled);
    e.set_file_size(10);
    assert!(!e.highlight_disabled);
}

#[test]
fn cut_mid_line_then_paste_at_row_start_restores_text() {
    let mut e = editor_with("one\ntwo\nthree");
    e.cursor_row = 1;
    e.cursor_col = 2;
    e.cut_line();
    assert_eq!(e.buf.rope.to_string(), "one\nthree");
    e.cursor_row = 1;
    e.cursor_col = 0;
    e.paste();
    assert_eq!(e.buf.rope.to_string(), "one\ntwo\nthree");
}

#[test]
fn swap_file_sits_beside_the_file() {
    let expected = std::path::Path::new("dir").join(".notes.txt.swp");
    assert_eq!(swap_path("dir/notes.txt"), expected.to_string_lossy());
    assert_eq!(swap_path("notes.txt"), ".notes.txt.swp");
    assert_eq!(swap_path("/"), "./.rnano.swp".replace('/', &std::path::MAIN_SEPARATOR.to_string()));
}

#[test]
fn config_trims_ascii_white_space() {
    let cfg = rnano::config::parse("\ttab_width \u{0B}=\u{0C} 8 \r\n").unwrap();
    assert_eq!(cfg.tab_width, 8);
}
