use vstd::prelude::*;
use crate::buffer::{
    apply_op_s, apply_ops_s, lemma_apply_op_preserves_wf, BufView,
};
use crate::dispatch::{handle_s, session_s, StepSpec};
use crate::ops::Op;
use crate::state::Mode;
use crate::tags::TagEntry;

verus! {

/// The normal-mode keys that only move the cursor.
pub open spec fn is_movement_key(c: char) -> bool {
    c == 'h' || c == 'j' || c == 'k' || c == 'l' || c == 'H' || c == 'L'
}

/// The primitive move a movement key stands for.
pub open spec fn movement_op(c: char) -> Op {
    if c == 'h' {
        Op::MoveLeft
    } else if c == 'j' {
        Op::MoveDown
    } else if c == 'k' {
        Op::MoveUp
    } else if c == 'l' {
        Op::MoveRight
    } else if c == 'H' {
        Op::MoveToStartOfLine
    } else {
        Op::MoveToEndOfLine
    }
}

/// Applying the primitive moves of a key sequence directly, one after
/// the other.
pub open spec fn compose_moves_s(b: BufView, keys: Seq<char>) -> BufView
    decreases keys.len(),
{
    if keys.len() == 0 {
        b
    } else {
        compose_moves_s(apply_op_s(b, movement_op(keys[0])), keys.drop_first())
    }
}

/// In normal mode a movement key emits exactly its primitive move and
/// leaves the mode, the accumulator and the session alone.
pub proof fn lemma_movement_key_emits_move(
    acc: Seq<char>,
    c: char,
    offset: nat,
    tags: Seq<TagEntry>,
)
    requires
        is_movement_key(c),
    ensures
        handle_s(Mode::Normal, acc, c, offset, tags) == (StepSpec {
            mode: Mode::Normal,
            jump_input: Seq::<char>::empty(),
            ops: seq![movement_op(c)],
            quit: false,
        }),
{
    assert(handle_s(Mode::Normal, acc, c, offset, tags) =~= StepSpec {
        mode: Mode::Normal,
        jump_input: Seq::<char>::empty(),
        ops: seq![movement_op(c)],
        quit: false,
    });
}

/// Replaying any sequence of normal-mode movement keys equals composing
/// the corresponding primitive moves; the controller stays in normal
/// mode throughout, and the cursor never escapes the buffer's bounds.
pub proof fn lemma_movement_replay(b: BufView, keys: Seq<char>, tags: Seq<TagEntry>)
    requires
        b.wf(),
        forall|k: int| 0 <= k < keys.len() ==> is_movement_key(#[trigger] keys[k]),
    ensures
        session_s(Mode::Normal, Seq::empty(), b, keys, tags) == (
            Mode::Normal,
            Seq::<char>::empty(),
            compose_moves_s(b, keys),
            false,
        ),
        compose_moves_s(b, keys).wf(),
    decreases keys.len(),
{
    if keys.len() > 0 {
        let c = keys[0];
        lemma_movement_key_emits_move(Seq::empty(), c, b.cursor.offset as nat, tags);
        let s = handle_s(Mode::Normal, Seq::empty(), c, b.cursor.offset as nat, tags);
        assert(s.ops.drop_first() =~= Seq::<Op>::empty());
        assert(s.ops[0] == movement_op(c));
        assert(apply_ops_s(b, s.ops) == apply_ops_s(apply_op_s(b, movement_op(c)), s.ops.drop_first()));
        assert(apply_ops_s(b, s.ops) == apply_op_s(b, movement_op(c)));
        lemma_apply_op_preserves_wf(b, movement_op(c));
        lemma_movement_replay(apply_op_s(b, movement_op(c)), keys.drop_first(), tags);
    }
}

/// The quit command in normal mode ends the session at once: the buffer
/// is untouched and no key after it is ever consumed, whatever those
/// keys are.
pub proof fn lemma_quit_stops_the_session(b: BufView, rest: Seq<char>, tags: Seq<TagEntry>)
    ensures
        session_s(Mode::Normal, Seq::empty(), b, seq!['q'] + rest, tags) == (
            Mode::Normal,
            Seq::<char>::empty(),
            b,
            true,
        ),
{
    let keys = seq!['q'] + rest;
    assert(keys.len() > 0);
    assert(keys[0] == 'q');
    let s = handle_s(Mode::Normal, Seq::empty(), 'q', b.cursor.offset as nat, tags);
    assert(s.quit);
    assert(s.ops.len() == 0);
    assert(apply_ops_s(b, s.ops) == b);
}

/// Entering jump mode and immediately pressing escape changes nothing:
/// no operation touches the buffer or cursor, the accumulator is empty,
/// and the mode is normal again.
pub proof fn lemma_jump_then_escape_is_identity(b: BufView, tags: Seq<TagEntry>)
    ensures
        ({
            let entered = handle_s(Mode::Normal, Seq::empty(), 'f', b.cursor.offset as nat, tags);
            let b1 = apply_ops_s(b, entered.ops);
            let left = handle_s(entered.mode, entered.jump_input, '\\', b1.cursor.offset as nat, tags);
            &&& entered.mode == Mode::Jump
            &&& b1 == b
            &&& left.mode == Mode::Normal
            &&& left.jump_input == Seq::<char>::empty()
            &&& apply_ops_s(b1, left.ops) == b
        }),
{
}

/// In insert mode, a backspace at the start of a non-first line merges
/// it into the line above: one line fewer, the cursor at the previous
/// line's former end, and that line now carrying both lines' text.
pub proof fn lemma_backspace_merges_lines(b: BufView, c: char, tags: Seq<TagEntry>)
    requires
        b.wf(),
        b.cursor.offset == 0,
        b.cursor.line >= 1,
        c == '\u{8}' || c == '\u{7f}',
        b.lines[b.cursor.line - 1].len() <= usize::MAX,
    ensures
        ({
            let s = handle_s(Mode::Insert, Seq::empty(), c, b.cursor.offset as nat, tags);
            let after = apply_ops_s(b, s.ops);
            let l = b.cursor.line as int;
            &&& s.mode == Mode::Insert
            &&& after.lines.len() == b.lines.len() - 1
            &&& after.cursor.line == l - 1
            &&& after.cursor.offset == b.lines[l - 1].len()
            &&& after.lines[l - 1] == b.lines[l - 1] + b.lines[l]
        }),
{
    let s = handle_s(Mode::Insert, Seq::empty(), c, b.cursor.offset as nat, tags);
    assert(s.ops =~= seq![Op::MoveUp, Op::MoveToEndOfLine, Op::Delete]);
    let b1 = apply_op_s(b, Op::MoveUp);
    let b2 = apply_op_s(b1, Op::MoveToEndOfLine);
    let b3 = apply_op_s(b2, Op::Delete);
    assert(s.ops.drop_first() =~= seq![Op::MoveToEndOfLine, Op::Delete]);
    assert(s.ops.drop_first().drop_first() =~= seq![Op::Delete]);
    assert(s.ops.drop_first().drop_first().drop_first() =~= Seq::<Op>::empty());
    assert(s.ops[0] == Op::MoveUp);
    assert(apply_ops_s(b, s.ops) == apply_ops_s(b1, s.ops.drop_first()));
    assert(apply_ops_s(b1, s.ops.drop_first()) == apply_ops_s(b2, s.ops.drop_first().drop_first()));
    assert(apply_ops_s(b2, s.ops.drop_first().drop_first()) == apply_ops_s(
        b3,
        s.ops.drop_first().drop_first().drop_first(),
    ));
    assert(apply_ops_s(b, s.ops) == b3);
    let l = b.cursor.line as int;
    assert(b3.lines =~~= b.lines.update(l - 1, b.lines[l - 1] + b.lines[l]).remove(l));
    assert(b3.lines[l - 1] == b.lines[l - 1] + b.lines[l]);
}

} // verus!
