use amp::buffer::TextBuffer;
use amp::dispatch::{handle, run_keys, step};
use amp::ops::Op;
use amp::position::Position;
use amp::state::{EditorState, Mode};
use amp::tags::{generate, TagMap, Token};

fn line(s: &str) -> Vec<char> {
    s.chars().collect()
}

fn buffer(lines: &[&str], cursor: Position) -> TextBuffer {
    TextBuffer { lines: lines.iter().map(|s| line(s)).collect(), cursor }
}

fn no_tags() -> TagMap {
    TagMap { entries: Vec::new() }
}

#[test]
fn insert_mode_round_trip() {
    let mut st = EditorState::new();
    let mut buf = buffer(&["x"], Position { line: 0, offset: 0 });
    let tags = no_tags();
    assert!(!step(&mut st, &mut buf, &tags, 'i'));
    assert_eq!(st.mode, Mode::Insert);
    assert!(!step(&mut st, &mut buf, &tags, 'a'));
    assert_eq!(buf.lines[0], line("ax"));
    assert_eq!(buf.cursor, Position { line: 0, offset: 1 });
    assert!(!step(&mut st, &mut buf, &tags, '\\'));
    assert_eq!(st.mode, Mode::Normal);
}

#[test]
fn quit_key_ends_the_session() {
    let mut st = EditorState::new();
    let mut buf = buffer(&["abc"], Position { line: 0, offset: 1 });
    let tags = no_tags();
    assert!(step(&mut st, &mut buf, &tags, 'q'));
    assert_eq!(st.mode, Mode::Normal);
    assert_eq!(buf.lines[0], line("abc"));
    assert_eq!(buf.cursor, Position { line: 0, offset: 1 });
}

#[test]
fn movement_replay_equals_composed_moves() {
    let keys = ['j', 'l', 'l', 'k', 'h', 'L', 'H', 'j'];
    let tags = no_tags();

    let mut st = EditorState::new();
    let mut replayed = buffer(&["abc", "defg"], Position { line: 0, offset: 0 });
    for k in keys {
        assert!(!step(&mut st, &mut replayed, &tags, k));
        assert_eq!(st.mode, Mode::Normal);
    }

    let mut composed = buffer(&["abc", "defg"], Position { line: 0, offset: 0 });
    for k in keys {
        match k {
            'h' => composed.move_left(),
            'j' => composed.move_down(),
            'k' => composed.move_up(),
            'l' => composed.move_right(),
            'H' => composed.move_to_start_of_line(),
            'L' => composed.move_to_end_of_line(),
            _ => unreachable!(),
        }
    }

    assert_eq!(replayed.cursor, composed.cursor);
    assert_eq!(replayed.lines, composed.lines);
}

#[test]
fn movement_never_escapes_bounds() {
    let mut st = EditorState::new();
    let mut buf = buffer(&["ab", "c"], Position { line: 0, offset: 0 });
    let tags = no_tags();
    for k in ['k', 'h', 'j', 'j', 'l', 'l', 'l', 'k', 'L'] {
        step(&mut st, &mut buf, &tags, k);
        assert!(buf.cursor.line < buf.lines.len());
        assert!(buf.cursor.offset <= buf.lines[buf.cursor.line].len());
    }
}

#[test]
fn unknown_normal_key_is_a_no_op() {
    let mut st = EditorState::new();
    let mut buf = buffer(&["abc"], Position { line: 0, offset: 2 });
    let tags = no_tags();
    assert!(!step(&mut st, &mut buf, &tags, 'z'));
    assert_eq!(st.mode, Mode::Normal);
    assert_eq!(buf.lines[0], line("abc"));
    assert_eq!(buf.cursor, Position { line: 0, offset: 2 });
}

#[test]
fn tab_asks_for_the_next_buffer() {
    let mut st = EditorState::new();
    let tags = no_tags();
    let out = handle(&mut st, '\t', 0, &tags);
    assert_eq!(out.ops, vec![Op::NextBuffer]);
    assert!(!out.quit);
}

#[test]
fn save_key_asks_for_a_save() {
    let mut st = EditorState::new();
    let tags = no_tags();
    let out = handle(&mut st, 's', 3, &tags);
    assert_eq!(out.ops, vec![Op::Save]);
    assert!(!out.quit);
}

#[test]
fn delete_key_removes_the_character_under_the_cursor() {
    let mut st = EditorState::new();
    let mut buf = buffer(&["ab"], Position { line: 0, offset: 0 });
    let tags = no_tags();
    assert!(!step(&mut st, &mut buf, &tags, 'x'));
    assert_eq!(buf.lines[0], line("b"));
}

#[test]
fn entering_jump_mode_then_escape_changes_nothing() {
    let mut st = EditorState::new();
    let mut buf = buffer(&["ab", "cd"], Position { line: 1, offset: 1 });
    let tags = no_tags();
    assert!(!step(&mut st, &mut buf, &tags, 'f'));
    assert_eq!(st.mode, Mode::Jump);
    assert!(st.jump_input.is_empty());
    assert!(!step(&mut st, &mut buf, &tags, '\\'));
    assert_eq!(st.mode, Mode::Normal);
    assert!(st.jump_input.is_empty());
    assert_eq!(buf.lines, vec![line("ab"), line("cd")]);
    assert_eq!(buf.cursor, Position { line: 1, offset: 1 });
}

#[test]
fn completed_tag_relocates_the_cursor() {
    let toks = vec![
        Token { text: String::from("fn"), position: Position { line: 0, offset: 0 } },
        Token { text: String::from("main"), position: Position { line: 2, offset: 3 } },
    ];
    let tags = generate(&toks);
    let mut st = EditorState::new();
    let mut buf = buffer(&["fn x", "", "abcdef"], Position { line: 0, offset: 0 });
    assert!(!step(&mut st, &mut buf, &tags, 'f'));
    assert_eq!(st.mode, Mode::Jump);
    assert!(!step(&mut st, &mut buf, &tags, 'a'));
    assert_eq!(st.mode, Mode::Jump);
    assert_eq!(buf.cursor, Position { line: 0, offset: 0 });
    assert!(!step(&mut st, &mut buf, &tags, 'b'));
    assert_eq!(st.mode, Mode::Normal);
    assert_eq!(buf.cursor, Position { line: 2, offset: 3 });
}

#[test]
fn unmatched_tag_reverts_without_moving() {
    let toks = vec![
        Token { text: String::from("one"), position: Position { line: 0, offset: 0 } },
    ];
    let tags = generate(&toks);
    let mut st = EditorState::new();
    let mut buf = buffer(&["one two"], Position { line: 0, offset: 5 });
    assert!(!step(&mut st, &mut buf, &tags, 'f'));
    assert!(!step(&mut st, &mut buf, &tags, 'z'));
    assert!(!step(&mut st, &mut buf, &tags, 'z'));
    assert_eq!(st.mode, Mode::Normal);
    assert!(st.jump_input.is_empty());
    assert_eq!(buf.cursor, Position { line: 0, offset: 5 });
}

#[test]
fn quit_reads_no_further_input() {
    let mut st = EditorState::new();
    let mut buf = buffer(&["abc"], Position { line: 0, offset: 0 });
    let tags = no_tags();
    let keys = vec!['q', 'x', 'i', 'z'];
    assert!(run_keys(&mut st, &mut buf, &tags, &keys));
    assert_eq!(st.mode, Mode::Normal);
    assert_eq!(buf.lines, vec![line("abc")]);
    assert_eq!(buf.cursor, Position { line: 0, offset: 0 });
}

#[test]
fn a_whole_session_replays_key_by_key() {
    let mut st = EditorState::new();
    let mut buf = TextBuffer::new();
    let tags = no_tags();
    let keys = vec!['i', 'h', 'i', '\\', 'H', 'q'];
    assert!(run_keys(&mut st, &mut buf, &tags, &keys));
    assert_eq!(st.mode, Mode::Normal);
    assert_eq!(buf.lines, vec![line("hi")]);
    assert_eq!(buf.cursor, Position { line: 0, offset: 0 });
}

#[test]
fn jump_accumulator_is_discarded_on_escape() {
    let mut st = EditorState::new();
    let mut buf = buffer(&["ab"], Position { line: 0, offset: 0 });
    let tags = no_tags();
    assert!(!step(&mut st, &mut buf, &tags, 'f'));
    assert!(!step(&mut st, &mut buf, &tags, 'a'));
    assert_eq!(st.jump_input, vec!['a']);
    assert!(!step(&mut st, &mut buf, &tags, '\\'));
    assert_eq!(st.mode, Mode::Normal);
    assert!(st.jump_input.is_empty());
}
