use vstd::prelude::*;
use crate::buffer::{apply_ops, apply_ops_s, BufView, TextBuffer};
use crate::ops::{Op, Outcome};
use crate::state::{EditorState, Mode};
use crate::tags::{lookup, match_tag, TagEntry, TagMap};

verus! {

/// What one keystroke yields, at the specification level: the next mode,
/// the next jump accumulator, the operations to perform, and whether the
/// session ends.
#[verifier::ext_equal]
pub struct StepSpec {
    pub mode: Mode,
    pub jump_input: Seq<char>,
    pub ops: Seq<Op>,
    pub quit: bool,
}

/// The two legacy byte values that terminals have historically sent for
/// backspace and delete.
pub open spec fn is_backspace(c: char) -> bool {
    c == '\u{8}' || c == '\u{7f}'
}

/// Normal mode: single-character commands. Movement keys emit one cursor
/// move each; `x` deletes, `s` saves, a tab switches buffers, `i` and `f`
/// change mode, `q` ends the session, and anything else is a no-op.
pub open spec fn handle_normal_s(c: char) -> StepSpec {
    StepSpec {
        mode: if c == 'i' {
            Mode::Insert
        } else if c == 'f' {
            Mode::Jump
        } else {
            Mode::Normal
        },
        jump_input: Seq::empty(),
        ops: if c == '\t' {
            seq![Op::NextBuffer]
        } else if c == 'j' {
            seq![Op::MoveDown]
        } else if c == 'k' {
            seq![Op::MoveUp]
        } else if c == 'h' {
            seq![Op::MoveLeft]
        } else if c == 'l' {
            seq![Op::MoveRight]
        } else if c == 'x' {
            seq![Op::Delete]
        } else if c == 's' {
            seq![Op::Save]
        } else if c == 'H' {
            seq![Op::MoveToStartOfLine]
        } else if c == 'L' {
            seq![Op::MoveToEndOfLine]
        } else {
            Seq::empty()
        },
        quit: c == 'q',
    }
}

/// Insert mode: the escape key returns to normal mode. A backspace
/// deletes the previous character — at the start of a line it first moves
/// up and to that line's end, so the deletion merges the line break;
/// anywhere else it moves left and deletes. Any other character is
/// inserted first and the cursor moved after it: right, or, for a
/// newline, down to the start of the next line.
pub open spec fn handle_insert_s(c: char, offset: nat) -> StepSpec {
    StepSpec {
        mode: if c == '\\' {
            Mode::Normal
        } else {
            Mode::Insert
        },
        jump_input: Seq::empty(),
        ops: if c == '\\' {
            Seq::empty()
        } else if is_backspace(c) {
            if offset == 0 {
                seq![Op::MoveUp, Op::MoveToEndOfLine, Op::Delete]
            } else {
                seq![Op::MoveLeft, Op::Delete]
            }
        } else if c == '\n' {
            seq![Op::InsertChar(c), Op::MoveDown, Op::MoveToStartOfLine]
        } else {
            seq![Op::InsertChar(c), Op::MoveRight]
        },
        quit: false,
    }
}

/// Jump mode: the escape key returns to normal mode and discards the
/// accumulator. Any other character is appended to it; with fewer than
/// two characters collected the controller keeps waiting, and from two
/// onwards the accumulator is resolved against the tag set — the cursor
/// is relocated on a match, nothing happens on a miss — and the mode
/// reverts to normal either way.
pub open spec fn handle_jump_s(acc: Seq<char>, c: char, tags: Seq<TagEntry>) -> StepSpec {
    if c == '\\' {
        StepSpec { mode: Mode::Normal, jump_input: Seq::empty(), ops: Seq::empty(), quit: false }
    } else {
        let grown = acc.push(c);
        if grown.len() < 2 {
            StepSpec { mode: Mode::Jump, jump_input: grown, ops: Seq::empty(), quit: false }
        } else {
            StepSpec {
                mode: Mode::Normal,
                jump_input: Seq::empty(),
                ops: match lookup(tags, grown) {
                    Some(p) => seq![Op::MoveTo(p)],
                    None => Seq::empty(),
                },
                quit: false,
            }
        }
    }
}

/// The controller's transition function: one keystroke, interpreted in
/// the current mode, against the cursor's offset in its line and the
/// current tag set.
pub open spec fn handle_s(
    mode: Mode,
    acc: Seq<char>,
    c: char,
    offset: nat,
    tags: Seq<TagEntry>,
) -> StepSpec {
    match mode {
        Mode::Normal => handle_normal_s(c),
        Mode::Insert => handle_insert_s(c, offset),
        Mode::Jump => handle_jump_s(acc, c, tags),
    }
}

fn no_ops() -> (v: Vec<Op>)
    ensures
        v@ == Seq::<Op>::empty(),
{
    Vec::new()
}

fn one_op(a: Op) -> (v: Vec<Op>)
    ensures
        v@ =~= seq![a],
{
    let mut v = Vec::new();
    v.push(a);
    v
}

fn two_ops(a: Op, b: Op) -> (v: Vec<Op>)
    ensures
        v@ =~= seq![a, b],
{
    let mut v = Vec::new();
    v.push(a);
    v.push(b);
    v
}

fn three_ops(a: Op, b: Op, c: Op) -> (v: Vec<Op>)
    ensures
        v@ =~= seq![a, b, c],
{
    let mut v = Vec::new();
    v.push(a);
    v.push(b);
    v.push(c);
    v
}

/// Consumes one input character: decides the operations to perform, the
/// mode to continue in, and whether the session ends. `offset` is the
/// cursor's offset within its line; `tags` is the tag set of the current
/// render pass (only read in jump mode).
pub fn handle(state: &mut EditorState, c: char, offset: usize, tags: &TagMap) -> (out: Outcome)
    requires
        old(state).wf(),
    ensures
        final(state).wf(),
        ({
            let step = handle_s(old(state).mode, old(state).jump_input@, c, offset as nat, tags.entries@);
            &&& final(state).mode == step.mode
            &&& final(state).jump_input@ == step.jump_input
            &&& out.ops@ == step.ops
            &&& out.quit == step.quit
        }),
{
    match state.mode {
        Mode::Normal => {
            if c == 'i' {
                state.mode = Mode::Insert;
            } else if c == 'f' {
                state.mode = Mode::Jump;
                state.jump_input = Vec::new();
            }
            let ops = if c == '\t' {
                one_op(Op::NextBuffer)
            } else if c == 'j' {
                one_op(Op::MoveDown)
            } else if c == 'k' {
                one_op(Op::MoveUp)
            } else if c == 'h' {
                one_op(Op::MoveLeft)
            } else if c == 'l' {
                one_op(Op::MoveRight)
            } else if c == 'x' {
                one_op(Op::Delete)
            } else if c == 's' {
                one_op(Op::Save)
            } else if c == 'H' {
                one_op(Op::MoveToStartOfLine)
            } else if c == 'L' {
                one_op(Op::MoveToEndOfLine)
            } else {
                no_ops()
            };
            Outcome { ops, quit: c == 'q' }
        },
        Mode::Insert => {
            if c == '\\' {
                state.mode = Mode::Normal;
                Outcome { ops: no_ops(), quit: false }
            } else if c == '\u{8}' || c == '\u{7f}' {
                let ops = if offset == 0 {
                    three_ops(Op::MoveUp, Op::MoveToEndOfLine, Op::Delete)
                } else {
                    two_ops(Op::MoveLeft, Op::Delete)
                };
                Outcome { ops, quit: false }
            } else {
                let ops = if c == '\n' {
                    three_ops(Op::InsertChar(c), Op::MoveDown, Op::MoveToStartOfLine)
                } else {
                    two_ops(Op::InsertChar(c), Op::MoveRight)
                };
                Outcome { ops, quit: false }
            }
        },
        Mode::Jump => {
            if c == '\\' {
                state.mode = Mode::Normal;
                state.jump_input = Vec::new();
                Outcome { ops: no_ops(), quit: false }
            } else {
                state.jump_input.push(c);
                if state.jump_input.len() < 2 {
                    Outcome { ops: no_ops(), quit: false }
                } else {
                    let resolved = match_tag(&state.jump_input, tags);
                    state.mode = Mode::Normal;
                    state.jump_input = Vec::new();
                    let ops = match resolved {
                        Some(p) => one_op(Op::MoveTo(p)),
                        None => no_ops(),
                    };
                    Outcome { ops, quit: false }
                }
            }
        },
    }
}

/// The meaning of feeding a key sequence through the controller, each
/// keystroke's operations carried onto the buffer, until the keys run
/// out or one of them ends the session: the final mode, accumulator and
/// buffer, and whether the session was ended. Keys after a quit are
/// never consumed.
pub open spec fn session_s(
    mode: Mode,
    acc: Seq<char>,
    b: BufView,
    keys: Seq<char>,
    tags: Seq<TagEntry>,
) -> (Mode, Seq<char>, BufView, bool)
    decreases keys.len(),
{
    if keys.len() == 0 {
        (mode, acc, b, false)
    } else {
        let s = handle_s(mode, acc, keys[0], b.cursor.offset as nat, tags);
        if s.quit {
            (s.mode, s.jump_input, apply_ops_s(b, s.ops), true)
        } else {
            session_s(s.mode, s.jump_input, apply_ops_s(b, s.ops), keys.drop_first(), tags)
        }
    }
}

/// Consumes one input character and carries its operations onto the
/// reference buffer in one move: the whole cycle of the session loop,
/// short of rendering and reading input.
pub fn step(state: &mut EditorState, buf: &mut TextBuffer, tags: &TagMap, c: char) -> (quit: bool)
    requires
        old(state).wf(),
        old(buf).wf(),
    ensures
        final(state).wf(),
        final(buf).wf(),
        ({
            let s = handle_s(
                old(state).mode,
                old(state).jump_input@,
                c,
                old(buf).cursor.offset as nat,
                tags.entries@,
            );
            &&& final(state).mode == s.mode
            &&& final(state).jump_input@ == s.jump_input
            &&& final(buf)@ == apply_ops_s(old(buf)@, s.ops)
            &&& quit == s.quit
        }),
{
    let out = handle(state, c, buf.cursor.offset, tags);
    apply_ops(buf, &out.ops);
    out.quit
}

/// Feeds a whole key sequence to the controller, as the session loop
/// would, stopping as soon as one keystroke ends the session; keys after
/// that one are not consumed. Returns whether the session was ended.
pub fn run_keys(
    state: &mut EditorState,
    buf: &mut TextBuffer,
    tags: &TagMap,
    keys: &Vec<char>,
) -> (quit: bool)
    requires
        old(state).wf(),
        old(buf).wf(),
    ensures
        final(state).wf(),
        final(buf).wf(),
        ({
            let r = session_s(
                old(state).mode,
                old(state).jump_input@,
                old(buf)@,
                keys@,
                tags.entries@,
            );
            &&& final(state).mode == r.0
            &&& final(state).jump_input@ == r.1
            &&& final(buf)@ == r.2
            &&& quit == r.3
        }),
{
    let ghost r = session_s(old(state).mode, old(state).jump_input@, old(buf)@, keys@, tags.entries@);
    let mut i: usize = 0;
    proof {
        assert(keys@.skip(0) =~= keys@);
    }
    while i < keys.len()
        invariant
            i <= keys.len(),
            state.wf(),
            buf.wf(),
            r == session_s(old(state).mode, old(state).jump_input@, old(buf)@, keys@, tags.entries@),
            r == session_s(state.mode, state.jump_input@, buf@, keys@.skip(i as int), tags.entries@),
        decreases keys.len() - i,
    {
        proof {
            assert(keys@.skip(i as int)[0] == keys@[i as int]);
            assert(keys@.skip(i as int).drop_first() =~= keys@.skip(i as int + 1));
        }
        let ghost pre_mode = state.mode;
        let ghost pre_acc = state.jump_input@;
        let ghost pre_b = buf@;
        let quit = step(state, buf, tags, keys[i]);
        if quit {
            proof {
                let s = handle_s(pre_mode, pre_acc, keys@[i as int], pre_b.cursor.offset as nat, tags.entries@);
                assert(r == (s.mode, s.jump_input, apply_ops_s(pre_b, s.ops), true));
            }
            return true;
        }
        i += 1;
    }
    false
}

} // verus!
