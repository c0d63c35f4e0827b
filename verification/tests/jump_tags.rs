use amp::position::Position;
use amp::tags::{generate, match_tag, Token};

fn token_at(line: usize, offset: usize) -> Token {
    Token { text: String::from("word"), position: Position { line, offset } }
}

fn tokens(n: usize) -> Vec<Token> {
    let mut v = Vec::new();
    for i in 0..n {
        v.push(token_at(i, 2 * i));
    }
    v
}

#[test]
fn two_letter_tags_in_order() {
    let tags = generate(&tokens(3));
    assert_eq!(tags.entries.len(), 3);
    assert_eq!(tags.entries[0].tag, vec!['a', 'a']);
    assert_eq!(tags.entries[1].tag, vec!['a', 'b']);
    assert_eq!(tags.entries[2].tag, vec!['a', 'c']);
    assert_eq!(tags.entries[1].position, Position { line: 1, offset: 2 });
}

#[test]
fn tags_roll_over_to_the_next_leading_letter() {
    let tags = generate(&tokens(30));
    assert_eq!(tags.entries[25].tag, vec!['a', 'z']);
    assert_eq!(tags.entries[26].tag, vec!['b', 'a']);
    assert_eq!(tags.entries[27].tag, vec!['b', 'b']);
}

#[test]
fn largest_two_letter_tag() {
    let tags = generate(&tokens(676));
    assert_eq!(tags.entries[675].tag, vec!['z', 'z']);
}

#[test]
fn tags_grow_to_three_letters_when_needed() {
    let tags = generate(&tokens(677));
    assert_eq!(tags.entries[0].tag, vec!['a', 'a', 'a']);
    assert_eq!(tags.entries[676].tag, vec!['b', 'a', 'a']);
}

#[test]
fn tags_are_pairwise_distinct() {
    let tags = generate(&tokens(80));
    for i in 0..tags.entries.len() {
        for j in 0..tags.entries.len() {
            if i != j {
                assert_ne!(tags.entries[i].tag, tags.entries[j].tag);
            }
        }
    }
}

#[test]
fn every_generated_tag_resolves_to_its_token() {
    let toks = tokens(40);
    let tags = generate(&toks);
    for i in 0..toks.len() {
        let input = tags.entries[i].tag.clone();
        assert_eq!(match_tag(&input, &tags), Some(toks[i].position));
    }
}

#[test]
fn a_tag_prefix_resolves_to_nothing() {
    let tags = generate(&tokens(5));
    let input = vec!['a'];
    assert_eq!(match_tag(&input, &tags), None);
}

#[test]
fn unknown_input_resolves_to_nothing() {
    let tags = generate(&tokens(2));
    let input = vec!['z', 'z'];
    assert_eq!(match_tag(&input, &tags), None);
}

#[test]
fn empty_tag_set_never_resolves() {
    let tags = generate(&tokens(0));
    assert_eq!(tags.entries.len(), 0);
    let input = vec!['a', 'a'];
    assert_eq!(match_tag(&input, &tags), None);
}
