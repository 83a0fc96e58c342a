use rnano::history::{History, HistoryEntry, Op};

fn ins(pos: usize, text: &str) -> HistoryEntry {
    HistoryEntry {
        to_undo: Op::Delete {
            pos,
            char_len: text.chars().count(),
        },
        to_redo: Op::Insert {
            pos,
            text: text.to_string(),
        },
        before: (0, pos),
        after: (0, pos + text.chars().count()),
    }
}

#[test]
fn push_and_pop_undo() {
    let mut h = History::new(100);
    h.push(ins(0, "a"));
    h.push(ins(1, "b"));
    let e = h.pop_undo().unwrap();
    assert!(matches!(e.to_redo, Op::Insert { pos: 1, .. }));
    assert!(h.can_redo());
}

#[test]
fn history_redo_after_undo() {
    let mut h = History::new(100);
    h.push(ins(0, "a"));
    h.pop_undo();
    let e = h.pop_redo().unwrap();
    assert!(matches!(e.to_redo, Op::Insert { pos: 0, .. }));
    assert!(!h.can_redo());
    assert!(h.can_undo());
}

#[test]
fn history_new_edit_clears_redo() {
    let mut h = History::new(100);
    h.push(ins(0, "a"));
    h.pop_undo();
    assert!(h.can_redo());
    h.push(ins(0, "b"));
    assert!(!h.can_redo());
}

#[test]
fn squash_consecutive_inserts() {
    let mut h = History::new(100);
    h.push(ins(0, "a"));
    let squashed = h.try_squash_insert(1, 'b', (0, 2));
    assert!(squashed);
    assert_eq!(h.undo.len(), 1);
    let Op::Delete { char_len, .. } = h.undo.back().unwrap().to_undo else {
        panic!()
    };
    assert_eq!(char_len, 2);
}

#[test]
fn no_squash_when_non_adjacent() {
    let mut h = History::new(100);
    h.push(ins(0, "a"));
    let squashed = h.try_squash_insert(5, 'b', (0, 6));
    assert!(!squashed);
}

#[test]
fn max_depth_evicts_oldest() {
    let mut h = History::new(3);
    h.push(ins(0, "a"));
    h.push(ins(1, "b"));
    h.push(ins(2, "c"));
    h.push(ins(3, "d"));
    assert_eq!(h.undo.len(), 3);
    let Op::Insert { pos, .. } = &h.undo.front().unwrap().to_redo else {
        panic!()
    };
    assert_eq!(*pos, 1);
}

#[test]
fn squash_extends_redo_text_and_after() {
    let mut h = History::new(10);
    h.push(ins(0, "a"));
    assert!(h.try_squash_insert(1, 'b', (0, 2)));
    let top = h.undo.back().unwrap();
    assert!(matches!(&top.to_redo, Op::Insert { text, .. } if text == "ab"));
    assert_eq!(top.after, (0, 2));
    assert_eq!(top.before, (0, 0));
}

#[test]
fn depth_zero_keeps_one_entry() {
    let mut h = History::new(0);
    assert_eq!(h.max_depth(), 1);
    h.push(ins(0, "a"));
    h.push(ins(1, "b"));
    assert_eq!(h.undo.len(), 1);
}

#[test]
fn undo_then_redo_restores_ring() {
    let mut h = History::new(10);
    h.push(ins(0, "a"));
    h.push(ins(1, "b"));
    let u = h.pop_undo().unwrap();
    let r = h.pop_redo().unwrap();
    assert!(matches!(u.to_redo, Op::Insert { pos: 1, .. }));
    assert!(matches!(r.to_redo, Op::Insert { pos: 1, .. }));
    assert_eq!(h.undo.len(), 2);
    assert!(!h.can_redo());
    assert!(h.pop_redo().is_none());
}
