use vstd::prelude::*;
use crate::ops::Op;
use crate::position::Position;

verus! {

/// The mathematical content of a buffer: its lines, each a sequence of
/// characters, and the cursor position.
#[verifier::ext_equal]
pub struct BufView {
    pub lines: Seq<Seq<char>>,
    pub cursor: Position,
}

impl BufView {
    /// A buffer holds at least one line, and the cursor sits on an
    /// existing line, at or before that line's end.
    pub open spec fn wf(self) -> bool {
        &&& self.lines.len() >= 1
        &&& (self.cursor.line as nat) < self.lines.len()
        &&& self.cursor.offset as nat <= self.lines[self.cursor.line as int].len()
    }
}

/// An offset clamped to a line's length.
pub open spec fn clamped(off: usize, cap: nat) -> usize {
    if off as nat <= cap {
        off
    } else {
        cap as usize
    }
}

/// Moving up: one line towards the first, the offset clamped to the new
/// line's length; at the first line nothing moves.
pub open spec fn move_up_s(b: BufView) -> BufView {
    if b.cursor.line == 0 {
        b
    } else {
        let nl = (b.cursor.line - 1) as usize;
        BufView {
            lines: b.lines,
            cursor: Position { line: nl, offset: clamped(b.cursor.offset, b.lines[nl as int].len()) },
        }
    }
}

/// Moving down: one line towards the last, the offset clamped to the new
/// line's length; at the last line nothing moves.
pub open spec fn move_down_s(b: BufView) -> BufView {
    if b.cursor.line as nat + 1 < b.lines.len() {
        let nl = (b.cursor.line + 1) as usize;
        BufView {
            lines: b.lines,
            cursor: Position { line: nl, offset: clamped(b.cursor.offset, b.lines[nl as int].len()) },
        }
    } else {
        b
    }
}

/// Moving left: one column, stopping at the start of the line.
pub open spec fn move_left_s(b: BufView) -> BufView {
    if b.cursor.offset == 0 {
        b
    } else {
        BufView {
            lines: b.lines,
            cursor: Position { line: b.cursor.line, offset: (b.cursor.offset - 1) as usize },
        }
    }
}

/// Moving right: one column, stopping at the end of the line (one past
/// the last character, where insertion appends).
pub open spec fn move_right_s(b: BufView) -> BufView {
    if (b.cursor.offset as nat) < b.lines[b.cursor.line as int].len() {
        BufView {
            lines: b.lines,
            cursor: Position { line: b.cursor.line, offset: (b.cursor.offset + 1) as usize },
        }
    } else {
        b
    }
}

/// Moving to the start of the cursor's line.
pub open spec fn start_of_line_s(b: BufView) -> BufView {
    BufView { lines: b.lines, cursor: Position { line: b.cursor.line, offset: 0 } }
}

/// Moving to the end of the cursor's line.
pub open spec fn end_of_line_s(b: BufView) -> BufView {
    BufView {
        lines: b.lines,
        cursor: Position {
            line: b.cursor.line,
            offset: b.lines[b.cursor.line as int].len() as usize,
        },
    }
}

/// Relocating the cursor: only a valid position is taken; an invalid one
/// leaves the cursor where it was.
pub open spec fn move_to_s(b: BufView, p: Position) -> BufView {
    if (p.line as nat) < b.lines.len() && p.offset as nat <= b.lines[p.line as int].len() {
        BufView { lines: b.lines, cursor: p }
    } else {
        b
    }
}

/// Inserting a character at the cursor, without moving the cursor. A
/// newline splits the cursor's line at the cursor; anything else becomes
/// part of the line.
pub open spec fn insert_char_s(b: BufView, c: char) -> BufView {
    let l = b.cursor.line as int;
    let off = b.cursor.offset as int;
    if c == '\n' {
        BufView {
            lines: b.lines.update(l, b.lines[l].take(off)).insert(l + 1, b.lines[l].skip(off)),
            cursor: b.cursor,
        }
    } else {
        BufView { lines: b.lines.update(l, b.lines[l].insert(off, c)), cursor: b.cursor }
    }
}

/// Deleting at the cursor, without moving the cursor: the character under
/// the cursor goes; at the end of a line the next line is merged into it;
/// at the very end of the buffer nothing happens.
pub open spec fn delete_s(b: BufView) -> BufView {
    let l = b.cursor.line as int;
    let off = b.cursor.offset as int;
    if off < b.lines[l].len() {
        BufView { lines: b.lines.update(l, b.lines[l].remove(off)), cursor: b.cursor }
    } else if l + 1 < b.lines.len() {
        BufView {
            lines: b.lines.update(l, b.lines[l] + b.lines[l + 1]).remove(l + 1),
            cursor: b.cursor,
        }
    } else {
        b
    }
}

/// The meaning of one primitive operation on a buffer. Saving and
/// switching buffers are workspace effects: they leave the buffer's
/// content and cursor alone.
pub open spec fn apply_op_s(b: BufView, op: Op) -> BufView {
    match op {
        Op::MoveUp => move_up_s(b),
        Op::MoveDown => move_down_s(b),
        Op::MoveLeft => move_left_s(b),
        Op::MoveRight => move_right_s(b),
        Op::MoveToStartOfLine => start_of_line_s(b),
        Op::MoveToEndOfLine => end_of_line_s(b),
        Op::MoveTo(p) => move_to_s(b, p),
        Op::Delete => delete_s(b),
        Op::InsertChar(c) => insert_char_s(b, c),
        Op::Save => b,
        Op::NextBuffer => b,
    }
}

/// The meaning of a sequence of operations, applied left to right.
pub open spec fn apply_ops_s(b: BufView, ops: Seq<Op>) -> BufView
    decreases ops.len(),
{
    if ops.len() == 0 {
        b
    } else {
        apply_ops_s(apply_op_s(b, ops[0]), ops.drop_first())
    }
}

/// Every primitive operation keeps the buffer well formed: the movement
/// primitives are bounds-safe, and editing never strands the cursor.
pub proof fn lemma_apply_op_preserves_wf(b: BufView, op: Op)
    requires
        b.wf(),
    ensures
        apply_op_s(b, op).wf(),
{
}

/// A sequence of operations keeps the buffer well formed.
pub proof fn lemma_apply_ops_preserves_wf(b: BufView, ops: Seq<Op>)
    requires
        b.wf(),
    ensures
        apply_ops_s(b, ops).wf(),
    decreases ops.len(),
{
    if ops.len() > 0 {
        lemma_apply_op_preserves_wf(b, ops[0]);
        lemma_apply_ops_preserves_wf(apply_op_s(b, ops[0]), ops.drop_first());
    }
}

/// A reference buffer: the capability the controller drives, realised
/// over plain vectors so that the state machine can be exercised and
/// reasoned about without a live terminal. A host may instead carry the
/// controller's operations onto its own buffer.
pub struct TextBuffer {
    pub lines: Vec<Vec<char>>,
    pub cursor: Position,
}

impl View for TextBuffer {
    type V = BufView;

    open spec fn view(&self) -> BufView {
        BufView {
            lines: Seq::new(self.lines@.len(), |i: int| self.lines@[i]@),
            cursor: self.cursor,
        }
    }
}

impl TextBuffer {
    /// Well-formedness, as seen by the executable methods.
    pub open spec fn wf(&self) -> bool {
        self@.wf()
    }

    /// An empty buffer: one empty line, cursor at its start.
    pub fn new() -> (b: TextBuffer)
        ensures
            b.wf(),
            b@.lines =~~= seq![Seq::<char>::empty()],
            b@.cursor == (Position { line: 0, offset: 0 }),
    {
        let mut lines: Vec<Vec<char>> = Vec::new();
        lines.push(Vec::new());
        TextBuffer { lines, cursor: Position { line: 0, offset: 0 } }
    }

    pub fn move_up(&mut self)
        requires
            old(self).wf(),
        ensures
            final(self).wf(),
            final(self)@ == move_up_s(old(self)@),
    {
        if self.cursor.line > 0 {
            let nl = self.cursor.line - 1;
            let cap = self.lines[nl].len();
            let off = if self.cursor.offset <= cap {
                self.cursor.offset
            } else {
                cap
            };
            self.cursor = Position { line: nl, offset: off };
        }
        proof {
            assert(final(self)@ =~= move_up_s(old(self)@));
        }
    }

    pub fn move_down(&mut self)
        requires
            old(self).wf(),
        ensures
            final(self).wf(),
            final(self)@ == move_down_s(old(self)@),
    {
        let n = self.lines.len();
        if self.cursor.line + 1 < n {
            let nl = self.cursor.line + 1;
            let cap = self.lines[nl].len();
            let off = if self.cursor.offset <= cap {
                self.cursor.offset
            } else {
                cap
            };
            self.cursor = Position { line: nl, offset: off };
        }
        proof {
            assert(final(self)@ =~= move_down_s(old(self)@));
        }
    }

    pub fn move_left(&mut self)
        requires
            old(self).wf(),
        ensures
            final(self).wf(),
            final(self)@ == move_left_s(old(self)@),
    {
        if self.cursor.offset > 0 {
            self.cursor = Position { line: self.cursor.line, offset: self.cursor.offset - 1 };
        }
        proof {
            assert(final(self)@ =~= move_left_s(old(self)@));
        }
    }

    pub fn move_right(&mut self)
        requires
            old(self).wf(),
        ensures
            final(self).wf(),
            final(self)@ == move_right_s(old(self)@),
    {
        if self.cursor.offset < self.lines[self.cursor.line].len() {
            self.cursor = Position { line: self.cursor.line, offset: self.cursor.offset + 1 };
        }
        proof {
            assert(final(self)@ =~= move_right_s(old(self)@));
        }
    }

    pub fn move_to_start_of_line(&mut self)
        requires
            old(self).wf(),
        ensures
            final(self).wf(),
            final(self)@ == start_of_line_s(old(self)@),
    {
        self.cursor = Position { line: self.cursor.line, offset: 0 };
        proof {
            assert(final(self)@ =~= start_of_line_s(old(self)@));
        }
    }

    pub fn move_to_end_of_line(&mut self)
        requires
            old(self).wf(),
        ensures
            final(self).wf(),
            final(self)@ == end_of_line_s(old(self)@),
    {
        self.cursor = Position {
            line: self.cursor.line,
            offset: self.lines[self.cursor.line].len(),
        };
        proof {
            assert(final(self)@ =~= end_of_line_s(old(self)@));
        }
    }

    pub fn move_to(&mut self, p: Position)
        requires
            old(self).wf(),
        ensures
            final(self).wf(),
            final(self)@ == move_to_s(old(self)@, p),
    {
        if p.line < self.lines.len() && p.offset <= self.lines[p.line].len() {
            self.cursor = p;
        }
        proof {
            assert(final(self)@ =~= move_to_s(old(self)@, p));
        }
    }

    pub fn insert_char(&mut self, c: char)
        requires
            old(self).wf(),
        ensures
            final(self).wf(),
            final(self)@ == insert_char_s(old(self)@, c),
    {
        let l = self.cursor.line;
        let off = self.cursor.offset;
        let n = self.lines.len();
        if c == '\n' {
            let rest = self.lines[l].split_off(off);
            self.lines.insert(l + 1, rest);
        } else {
            self.lines[l].insert(off, c);
        }
        proof {
            assert(final(self)@.lines =~~= insert_char_s(old(self)@, c).lines);
            assert(final(self)@ =~= insert_char_s(old(self)@, c));
            lemma_apply_op_preserves_wf(old(self)@, Op::InsertChar(c));
        }
    }

    pub fn delete(&mut self)
        requires
            old(self).wf(),
        ensures
            final(self).wf(),
            final(self)@ == delete_s(old(self)@),
    {
        let l = self.cursor.line;
        let off = self.cursor.offset;
        let n = self.lines.len();
        if off < self.lines[l].len() {
            self.lines[l].remove(off);
        } else if l + 1 < n {
            let mut next = self.lines.remove(l + 1);
            self.lines[l].append(&mut next);
        }
        proof {
            assert(final(self)@.lines =~~= delete_s(old(self)@).lines);
            assert(final(self)@ =~= delete_s(old(self)@));
            lemma_apply_op_preserves_wf(old(self)@, Op::Delete);
        }
    }
}

/// Carries one primitive operation onto the reference buffer.
pub fn apply_op(buf: &mut TextBuffer, op: Op)
    requires
        old(buf).wf(),
    ensures
        final(buf).wf(),
        final(buf)@ == apply_op_s(old(buf)@, op),
{
    match op {
        Op::MoveUp => buf.move_up(),
        Op::MoveDown => buf.move_down(),
        Op::MoveLeft => buf.move_left(),
        Op::MoveRight => buf.move_right(),
        Op::MoveToStartOfLine => buf.move_to_start_of_line(),
        Op::MoveToEndOfLine => buf.move_to_end_of_line(),
        Op::MoveTo(p) => buf.move_to(p),
        Op::Delete => buf.delete(),
        Op::InsertChar(c) => buf.insert_char(c),
        Op::Save => {},
        Op::NextBuffer => {},
    }
}

/// Carries a sequence of operations onto the reference buffer, in order.
pub fn apply_ops(buf: &mut TextBuffer, ops: &Vec<Op>)
    requires
        old(buf).wf(),
    ensures
        final(buf).wf(),
        final(buf)@ == apply_ops_s(old(buf)@, ops@),
{
    let mut i: usize = 0;
    proof {
        assert(ops@.skip(0) =~= ops@);
    }
    while i < ops.len()
        invariant
            i <= ops.len(),
            buf.wf(),
            apply_ops_s(old(buf)@, ops@) == apply_ops_s(buf@, ops@.skip(i as int)),
        decreases ops.len() - i,
    {
        proof {
            assert(ops@.skip(i as int)[0] == ops@[i as int]);
            assert(ops@.skip(i as int).drop_first() =~= ops@.skip(i as int + 1));
        }
        apply_op(buf, ops[i]);
        i += 1;
    }
}

} // verus!
