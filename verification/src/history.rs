//! Undo/redo history ring for the editor.
//!
//! Each edit produces a [`HistoryEntry`] that stores both the forward operation
//! (to re-apply on redo) and the inverse operation (to apply on undo), plus
//! before/after cursor positions.
//!
//! Consecutive single-character inserts at adjacent positions are squashed
//! into a single entry so that one undo reverses a full word of typing.
use std::collections::VecDeque;
use vstd::prelude::*;
use crate::text::string_push;

verus! {

/// A single reversible edit expressed as a text operation on char indices.
#[derive(Debug)]
pub enum Op {
    /// Insert `text` starting at char position `pos`.
    Insert { pos: usize, text: String },
    /// Delete `char_len` characters starting at char position `pos`.
    Delete { pos: usize, char_len: usize },
}

/// The mathematical value of an [`Op`]: the inserted text is a sequence of chars.
pub enum OpModel {
    Insert { pos: usize, text: Seq<char> },
    Delete { pos: usize, char_len: usize },
}

impl View for Op {
    type V = OpModel;

    open spec fn view(&self) -> OpModel {
        match self {
            Op::Insert { pos, text } => OpModel::Insert { pos: *pos, text: text@ },
            Op::Delete { pos, char_len } => OpModel::Delete { pos: *pos, char_len: *char_len },
        }
    }
}

impl Op {
    /// A copy of the operation with the same value.
    pub fn duplicate(&self) -> (r: Op)
        ensures
            r@ == self@,
    {
        match self {
            Op::Insert { pos, text } => Op::Insert { pos: *pos, text: text.clone() },
            Op::Delete { pos, char_len } => Op::Delete { pos: *pos, char_len: *char_len },
        }
    }
}

/// The result of applying `op` to `text`, or `None` when the operation
/// reaches outside the text.
pub open spec fn apply_op_spec(op: OpModel, text: Seq<char>) -> Option<Seq<char>> {
    match op {
        OpModel::Insert { pos, text: ins } => if pos <= text.len() {
            Some(text.take(pos as int) + ins + text.skip(pos as int))
        } else {
            None
        },
        OpModel::Delete { pos, char_len } => if pos + char_len <= text.len() {
            Some(text.take(pos as int) + text.skip(pos + char_len))
        } else {
            None
        },
    }
}

/// One entry in the undo/redo ring.
#[derive(Debug)]
pub struct HistoryEntry {
    /// Apply this to undo (inverse of what happened).
    pub to_undo: Op,
    /// Apply this to redo (re-apply what happened).
    pub to_redo: Op,
    /// Cursor position `(row, col)` before this edit.
    pub before: (usize, usize),
    /// Cursor position `(row, col)` after this edit.
    pub after: (usize, usize),
}

pub struct EntryModel {
    pub to_undo: OpModel,
    pub to_redo: OpModel,
    pub before: (usize, usize),
    pub after: (usize, usize),
}

impl View for HistoryEntry {
    type V = EntryModel;

    open spec fn view(&self) -> EntryModel {
        EntryModel {
            to_undo: self.to_undo@,
            to_redo: self.to_redo@,
            before: self.before,
            after: self.after,
        }
    }
}

impl HistoryEntry {
    /// A copy of the entry with the same value.
    pub fn duplicate(&self) -> (r: HistoryEntry)
        ensures
            r@ == self@,
    {
        HistoryEntry {
            to_undo: self.to_undo.duplicate(),
            to_redo: self.to_redo.duplicate(),
            before: self.before,
            after: self.after,
        }
    }
}

/// Bounded undo/redo ring.
pub struct History {
    pub undo: VecDeque<HistoryEntry>,
    redo: Vec<HistoryEntry>,
    max_depth: usize,
}

/// The mathematical value of a [`History`]: both stacks list entries from the
/// oldest to the most recent (the top is the last element).
pub struct HistoryModel {
    pub undo: Seq<EntryModel>,
    pub redo: Seq<EntryModel>,
    pub max_depth: nat,
}

impl HistoryModel {
    /// The ring after recording a new edit: the redo stack is dropped and the
    /// oldest undo entry falls out when the ring is full.
    pub open spec fn pushed(self, e: EntryModel) -> HistoryModel {
        let u = self.undo.push(e);
        HistoryModel {
            undo: if u.len() > self.max_depth { u.drop_first() } else { u },
            redo: Seq::empty(),
            max_depth: self.max_depth,
        }
    }

    /// The ring after one undo: the top undo entry moves to the redo stack.
    pub open spec fn undone(self) -> HistoryModel {
        if self.undo.len() == 0 {
            self
        } else {
            HistoryModel {
                undo: self.undo.drop_last(),
                redo: self.redo.push(self.undo.last()),
                max_depth: self.max_depth,
            }
        }
    }

    /// The ring after one redo: the top redo entry moves back to the undo stack.
    pub open spec fn redone(self) -> HistoryModel {
        if self.redo.len() == 0 {
            self
        } else {
            HistoryModel {
                undo: self.undo.push(self.redo.last()),
                redo: self.redo.drop_last(),
                max_depth: self.max_depth,
            }
        }
    }

    /// Well-formed: the depth is at least one and the ring never holds more
    /// entries than the depth allows.
    pub open spec fn wf(self) -> bool {
        &&& self.max_depth >= 1
        &&& self.undo.len() + self.redo.len() <= self.max_depth
    }

    /// Whether the top undo entry is an insertion that ends right at `pos`
    /// and can absorb one more typed char.
    pub open spec fn squashable(self, pos: usize) -> bool {
        &&& self.undo.len() > 0
        &&& self.undo.last().to_undo matches OpModel::Delete { pos: p, char_len: n }
        &&& p + n == pos
        &&& self.undo.last().to_redo is Insert
    }

    /// No arithmetic on the top entry can overflow when squashing at `pos`.
    pub open spec fn squash_fits(self, pos: usize) -> bool {
        self.undo.len() > 0 ==> match self.undo.last().to_undo {
            OpModel::Delete { pos: p, char_len: n } => p + n <= usize::MAX && (p + n == pos
                ==> n < usize::MAX),
            _ => true,
        }
    }

    /// The ring after squashing the char `ch` into the top entry, an
    /// insertion: the entry covers one more char and its cursor moves to
    /// `after`.  Like any new edit, this clears the redo stack.
    pub open spec fn squashed(self, ch: char, after: (usize, usize)) -> HistoryModel {
        let top = self.undo.last();
        match (top.to_undo, top.to_redo) {
            (OpModel::Delete { pos: p, char_len: n }, OpModel::Insert { pos: rp, text }) => {
                let new_top = EntryModel {
                    to_undo: OpModel::Delete { pos: p, char_len: (n + 1) as usize },
                    to_redo: OpModel::Insert { pos: rp, text: text.push(ch) },
                    before: top.before,
                    after: after,
                };
                HistoryModel {
                    undo: self.undo.drop_last().push(new_top),
                    redo: Seq::empty(),
                    max_depth: self.max_depth,
                }
            },
            _ => self,
        }
    }
}

impl View for History {
    type V = HistoryModel;

    closed spec fn view(&self) -> HistoryModel {
        HistoryModel {
            undo: self.undo@.map_values(|e: HistoryEntry| e@),
            redo: self.redo@.map_values(|e: HistoryEntry| e@),
            max_depth: self.max_depth as nat,
        }
    }
}

impl History {
    /// A history holding nothing, with room for `max_depth` entries (at least one).
    pub fn new(max_depth: usize) -> (h: History)
        ensures
            h@.undo.len() == 0,
            h@.redo.len() == 0,
            h@.max_depth == if max_depth >= 1 { max_depth as nat } else { 1 },
            h@.wf(),
    {
        History {
            undo: VecDeque::new(),
            redo: Vec::new(),
            max_depth: if max_depth >= 1 { max_depth } else { 1 },
        }
    }

    /// The maximum number of undo entries kept.
    pub fn max_depth(&self) -> (d: usize)
        ensures
            d == self@.max_depth,
    {
        self.max_depth
    }

    /// Push a new completed edit.  Clears the redo stack.
    pub fn push(&mut self, entry: HistoryEntry)
        requires
            old(self)@.max_depth >= 1,
        ensures
            final(self)@ == old(self)@.pushed(entry@),
            old(self)@.wf() ==> final(self)@.wf(),
    {
        self.redo.clear();
        let ghost e = entry@;
        self.undo.push_back(entry);
        if self.undo.len() > self.max_depth {
            let _ = self.undo.pop_front();
        }
        proof {
            let u = old(self)@.undo.push(e);
            assert(self.redo@.map_values(|e: HistoryEntry| e@) =~= Seq::<EntryModel>::empty());
            if u.len() > old(self)@.max_depth {
                assert(self@.undo =~= u.drop_first());
            } else {
                assert(self@.undo =~= u);
            }
        }
    }

    /// Try to squash a single-char insert into the top entry (consecutive
    /// typing coalesces into one undoable unit).  Returns `true` if the entry
    /// was extended in place, which clears the redo stack as any new edit
    /// does; `false` if a fresh push is needed, and then nothing changed.
    pub fn try_squash_insert(&mut self, pos: usize, ch: char, after: (usize, usize)) -> (r: bool)
        requires
            old(self)@.squash_fits(pos),
        ensures
            r == old(self)@.squashable(pos),
            final(self)@ == if r {
                old(self)@.squashed(ch, after)
            } else {
                old(self)@
            },
    {
        let len = self.undo.len();
        if len == 0 {
            return false;
        }
        let ghost old_model = self@;
        let mut top = match self.undo.pop_back() {
            Some(t) => t,
            None => { return false; },
        };
        proof {
            assert(self@.undo =~= old_model.undo.drop_last());
        }
        let (del_pos, char_len) = match top.to_undo {
            Op::Delete { pos: p, char_len: n } => (p, n),
            Op::Insert { .. } => {
                self.undo.push_back(top);
                proof {
                    assert(self@.undo =~= old_model.undo);
                }
                return false;
            },
        };
        let redo_inserts = match top.to_redo {
            Op::Insert { .. } => true,
            Op::Delete { .. } => false,
        };
        if del_pos + char_len != pos || !redo_inserts {
            self.undo.push_back(top);
            proof {
                assert(self@.undo =~= old_model.undo);
            }
            return false;
        }
        top.to_undo = Op::Delete { pos: del_pos, char_len: char_len + 1 };
        match top.to_redo {
            Op::Insert { pos: ref mut _p, ref mut text } => string_push(text, ch),
            Op::Delete { .. } => {},
        }
        top.after = after;
        let ghost new_top = top@;
        self.undo.push_back(top);
        self.redo.clear();
        proof {
            assert(self@.undo =~= old_model.undo.drop_last().push(new_top));
            assert(self@.undo =~= old_model.squashed(ch, after).undo);
            assert(self@.redo =~= Seq::<EntryModel>::empty());
        }
        true
    }

    /// Pop the top undo entry and push it to the redo stack.
    pub fn pop_undo(&mut self) -> (r: Option<HistoryEntry>)
        ensures
            final(self)@ == old(self)@.undone(),
            r is Some <==> old(self)@.undo.len() > 0,
            r matches Some(e) ==> e@ == old(self)@.undo.last(),
            old(self)@.wf() ==> final(self)@.wf(),
    {
        let ghost old_model = self@;
        match self.undo.pop_back() {
            Some(entry) => {
                self.redo.push(entry.duplicate());
                proof {
                    assert(self@.undo =~= old_model.undo.drop_last());
                    assert(self@.redo =~= old_model.redo.push(old_model.undo.last()));
                }
                Some(entry)
            },
            None => None,
        }
    }

    /// Pop the top redo entry and push it back to the undo stack.
    pub fn pop_redo(&mut self) -> (r: Option<HistoryEntry>)
        ensures
            final(self)@ == old(self)@.redone(),
            r is Some <==> old(self)@.redo.len() > 0,
            r matches Some(e) ==> e@ == old(self)@.redo.last(),
            old(self)@.wf() ==> final(self)@.wf(),
    {
        let ghost old_model = self@;
        match self.redo.pop() {
            Some(entry) => {
                self.undo.push_back(entry.duplicate());
                proof {
                    assert(self@.redo =~= old_model.redo.drop_last());
                    assert(self@.undo =~= old_model.undo.push(old_model.redo.last()));
                }
                Some(entry)
            },
            None => None,
        }
    }

    pub fn can_undo(&self) -> (r: bool)
        ensures
            r == (self@.undo.len() > 0),
    {
        self.undo.len() != 0
    }

    pub fn can_redo(&self) -> (r: bool)
        ensures
            r == (self@.redo.len() > 0),
    {
        self.redo.len() != 0
    }
}


/// An entry whose two operations undo each other: one inserts at `pos` the
/// same number of chars that the other deletes at `pos`.
pub open spec fn balanced(e: EntryModel) -> bool {
    match e.to_undo {
        OpModel::Delete { pos: p, char_len: n } => match e.to_redo {
            OpModel::Insert { pos: q, text } => p == q && text.len() == n,
            OpModel::Delete { .. } => false,
        },
        OpModel::Insert { pos: q, text } => match e.to_redo {
            OpModel::Delete { pos: p, char_len: n } => p == q && text.len() == n,
            OpModel::Insert { .. } => false,
        },
    }
}

/// `op` stays within a text of `len` chars.
pub open spec fn op_fits(op: OpModel, len: nat) -> bool {
    match op {
        OpModel::Insert { pos, .. } => pos <= len,
        OpModel::Delete { pos, char_len } => pos + char_len <= len,
    }
}

/// The length of a text of `len` chars after `op`.
pub open spec fn op_len(op: OpModel, len: nat) -> nat {
    match op {
        OpModel::Insert { text, .. } => len + text.len(),
        OpModel::Delete { char_len, .. } => (len - char_len) as nat,
    }
}

/// Undoing the entries from the top down, starting from a text of `len`
/// chars, never reaches outside the text.
pub open spec fn undo_fits(u: Seq<EntryModel>, len: nat) -> bool
    decreases u.len(),
{
    u.len() == 0 || (balanced(u.last()) && op_fits(u.last().to_undo, len) && undo_fits(
        u.drop_last(),
        op_len(u.last().to_undo, len),
    ))
}

/// Redoing the entries from the top down, starting from a text of `len`
/// chars, never reaches outside the text.
pub open spec fn redo_fits(r: Seq<EntryModel>, len: nat) -> bool
    decreases r.len(),
{
    r.len() == 0 || (balanced(r.last()) && op_fits(r.last().to_redo, len) && redo_fits(
        r.drop_last(),
        op_len(r.last().to_redo, len),
    ))
}

/// Every undo and redo the history can perform on a text of `len` chars
/// stays within the text.
pub open spec fn fits(h: HistoryModel, len: nat) -> bool {
    undo_fits(h.undo, len) && redo_fits(h.redo, len)
}

pub proof fn lemma_apply_fits(op: OpModel, text: Seq<char>)
    requires
        op_fits(op, text.len()),
    ensures
        apply_op_spec(op, text) matches Some(t) && t.len() == op_len(op, text.len()),
{
}

proof fn lemma_undo_fits_drop_first(u: Seq<EntryModel>, len: nat)
    requires
        undo_fits(u, len),
        u.len() > 0,
    ensures
        undo_fits(u.drop_first(), len),
    decreases u.len(),
{
    if u.len() > 1 {
        lemma_undo_fits_drop_first(u.drop_last(), op_len(u.last().to_undo, len));
        assert(u.drop_first().drop_last() =~= u.drop_last().drop_first());
        assert(u.drop_first().last() == u.last());
    } else {
        assert(u.drop_first().len() == 0);
    }
}

/// Recording an edit that took a text of `old_len` chars to `new_len` chars,
/// with an entry whose undo brings `new_len` back to `old_len`, keeps every
/// undo and redo within the text.
pub proof fn lemma_pushed_fits(h: HistoryModel, e: EntryModel, old_len: nat, new_len: nat)
    requires
        undo_fits(h.undo, old_len),
        balanced(e),
        op_fits(e.to_undo, new_len),
        op_len(e.to_undo, new_len) == old_len,
    ensures
        fits(h.pushed(e), new_len),
{
    let u = h.undo.push(e);
    assert(u.drop_last() =~= h.undo);
    assert(undo_fits(u, new_len));
    if u.len() > h.max_depth {
        lemma_undo_fits_drop_first(u, new_len);
    }
}

/// Undoing keeps every later undo and redo within the text.
pub proof fn lemma_undone_fits(h: HistoryModel, len: nat)
    requires
        fits(h, len),
        h.undo.len() > 0,
    ensures
        fits(h.undone(), op_len(h.undo.last().to_undo, len)),
        op_fits(h.undo.last().to_undo, len),
        balanced(h.undo.last()),
{
    let e = h.undo.last();
    let r = h.redo.push(e);
    assert(r.drop_last() =~= h.redo);
    assert(op_len(e.to_redo, op_len(e.to_undo, len)) == len);
}

/// Redoing keeps every later undo and redo within the text.
pub proof fn lemma_redone_fits(h: HistoryModel, len: nat)
    requires
        fits(h, len),
        h.redo.len() > 0,
    ensures
        fits(h.redone(), op_len(h.redo.last().to_redo, len)),
        op_fits(h.redo.last().to_redo, len),
        balanced(h.redo.last()),
{
    let e = h.redo.last();
    let u = h.undo.push(e);
    assert(u.drop_last() =~= h.undo);
    assert(op_len(e.to_undo, op_len(e.to_redo, len)) == len);
}

/// Squashing one more typed char into the top entry keeps every undo and
/// redo within the text, now one char longer.
pub proof fn lemma_squashed_fits(h: HistoryModel, len: nat, pos: usize, ch: char, after: (usize, usize))
    requires
        fits(h, len),
        h.squashable(pos),
        len < usize::MAX,
    ensures
        fits(h.squashed(ch, after), len + 1),
{
    let top = h.undo.last();
    let hs = h.squashed(ch, after);
    match top.to_undo {
        OpModel::Delete { pos: p, char_len: n } => {
            match top.to_redo {
                OpModel::Insert { pos: q, text } => {
                    let nt = hs.undo.last();
                    assert(nt.to_undo == OpModel::Delete { pos: p, char_len: (n + 1) as usize });
                    assert(nt.to_redo == OpModel::Insert { pos: q, text: text.push(ch) });
                    assert(balanced(nt));
                    assert(op_fits(nt.to_undo, len + 1));
                    assert(op_len(nt.to_undo, len + 1) == op_len(top.to_undo, len));
                },
                OpModel::Delete { .. } => {},
            }
        },
        OpModel::Insert { .. } => {},
    }
    assert(hs.undo.drop_last() =~= h.undo.drop_last());
}

/// A history that fits a text lets the top entry absorb a char typed at `pos`.
pub proof fn lemma_fits_squash_fits(h: HistoryModel, len: nat, pos: usize)
    requires
        fits(h, len),
        len < usize::MAX,
        pos <= len,
    ensures
        h.squash_fits(pos),
{
}

/// An entry's undo operation reverses its redo operation: inserting `text`
/// at `pos` and then deleting as many chars at `pos` gives the text back.
pub proof fn lemma_insert_then_delete(t: Seq<char>, pos: usize, text: Seq<char>)
    requires
        pos <= t.len(),
        pos + text.len() <= usize::MAX,
    ensures
        apply_op_spec(OpModel::Insert { pos, text }, t) matches Some(t1) && apply_op_spec(
            OpModel::Delete { pos, char_len: text.len() as usize },
            t1,
        ) == Some(t),
{
    let t1 = t.take(pos as int) + text + t.skip(pos as int);
    assert(t1.take(pos as int) + t1.skip(pos + text.len()) =~= t);
}

/// Deleting chars at `pos` and then inserting the deleted chars at `pos`
/// gives the text back.
pub proof fn lemma_delete_then_insert(t: Seq<char>, pos: usize, n: usize)
    requires
        pos + n <= t.len(),
    ensures
        apply_op_spec(OpModel::Delete { pos, char_len: n }, t) matches Some(t1) && apply_op_spec(
            OpModel::Insert { pos, text: t.subrange(pos as int, pos + n) },
            t1,
        ) == Some(t),
{
    let t1 = t.take(pos as int) + t.skip(pos + n);
    assert(t1.take(pos as int) + t.subrange(pos as int, pos + n) + t1.skip(pos as int) =~= t);
}

/// Undo and redo are inverse on the ring: undoing then redoing gives the
/// same history back.
pub proof fn lemma_undo_then_redo(h: HistoryModel)
    requires
        h.undo.len() > 0,
    ensures
        h.undone().redone() == h,
{
    assert(h.undone().redone().undo =~= h.undo);
    assert(h.undone().redone().redo =~= h.redo);
}

/// Redoing then undoing gives the same history back.
pub proof fn lemma_redo_then_undo(h: HistoryModel)
    requires
        h.redo.len() > 0,
    ensures
        h.redone().undone() == h,
{
    assert(h.redone().undone().undo =~= h.undo);
    assert(h.redone().undone().redo =~= h.redo);
}

/// A new edit clears the redo stack and becomes the top undo entry.
pub proof fn lemma_push_top(h: HistoryModel, e: EntryModel)
    requires
        h.max_depth >= 1,
    ensures
        h.pushed(e).redo.len() == 0,
        h.pushed(e).undo.len() > 0,
        h.pushed(e).undo.last() == e,
{
}

/// Every operation keeps the ring within its depth.
pub proof fn lemma_wf_preserved(h: HistoryModel, e: EntryModel, ch: char, after: (usize, usize))
    requires
        h.wf(),
    ensures
        h.pushed(e).wf(),
        h.undone().wf(),
        h.redone().wf(),
        h.undo.len() > 0 ==> h.squashed(ch, after).wf(),
{
}

} // verus!
