use amp::position::Position;
use amp::presenter::{framed_calls, open_mode_plan, PaneColors, PaneStyle, ViewCall, MAX_RESULTS};

fn line(s: &str) -> Vec<char> {
    s.chars().collect()
}

#[test]
fn one_row_per_result_with_the_selected_one_focused() {
    let results = vec![line("src/a.rs"), line("src/b.rs"), line("src/c.rs")];
    let input = line("src");
    let plan = open_mode_plan(&results, 1, &input, false, 12);
    // three result rows, two blank rows (up to the divider), the divider
    assert_eq!(plan.prints.len(), 6);
    for i in 0..3 {
        assert_eq!(plan.prints[i].position, Position { line: i, offset: 0 });
        assert_eq!(plan.prints[i].style, PaneStyle::Default);
    }
    assert_eq!(plan.prints[0].colors, PaneColors::Default);
    assert_eq!(plan.prints[1].colors, PaneColors::Focused);
    assert_eq!(plan.prints[2].colors, PaneColors::Default);
    assert_eq!(plan.prints[0].text, line("src/a.rs    "));
}

#[test]
fn blank_rows_fill_up_to_the_divider() {
    let results = vec![line("x")];
    let input = line("");
    let plan = open_mode_plan(&results, 0, &input, false, 4);
    // one result row, four blank rows, the divider
    assert_eq!(plan.prints.len(), 6);
    for r in 1..MAX_RESULTS {
        assert_eq!(plan.prints[r].position, Position { line: r, offset: 0 });
        assert_eq!(plan.prints[r].colors, PaneColors::Default);
        assert_eq!(plan.prints[r].text, line("    "));
    }
}

#[test]
fn empty_results_show_the_missing_files_message() {
    let results: Vec<Vec<char>> = Vec::new();
    let input = line("zzz");
    let plan = open_mode_plan(&results, 0, &input, false, 30);
    assert_eq!(plan.prints[0].position, Position { line: 0, offset: 0 });
    assert_eq!(plan.prints[0].style, PaneStyle::Default);
    assert_eq!(plan.prints[0].colors, PaneColors::Default);
    assert_eq!(plan.prints[0].text, line("No matching files found.      "));
    // the message row, four blank rows, the divider
    assert_eq!(plan.prints.len(), 6);
}

#[test]
fn the_divider_is_always_last_and_bold() {
    let results = vec![line("a"), line("b")];
    let input = line("ab");
    let plan = open_mode_plan(&results, 0, &input, false, 5);
    let divider = plan.prints.last().unwrap();
    assert_eq!(divider.position, Position { line: MAX_RESULTS, offset: 0 });
    assert_eq!(divider.style, PaneStyle::Bold);
    assert_eq!(divider.colors, PaneColors::Inverted);
    assert_eq!(divider.text, line("ab   "));
}

#[test]
fn the_insert_flag_recolours_the_divider() {
    let results = vec![line("a")];
    let input = line("a");
    let plan = open_mode_plan(&results, 0, &input, true, 3);
    assert_eq!(plan.prints.last().unwrap().colors, PaneColors::Insert);
}

#[test]
fn the_render_cursor_sits_after_the_input_on_the_divider() {
    let results = vec![line("a")];
    let input = line("abc");
    let plan = open_mode_plan(&results, 0, &input, true, 10);
    assert_eq!(plan.cursor, Position { line: MAX_RESULTS, offset: 3 });
}

#[test]
fn the_surface_is_cleared_first_and_presented_last() {
    let results = vec![line("a"), line("b")];
    let input = line("x");
    let plan = open_mode_plan(&results, 0, &input, false, 4);
    let prints = plan.prints.len();
    let calls = framed_calls(plan, true);
    assert_eq!(calls.len(), prints + 4);
    assert_eq!(calls[0], ViewCall::Clear);
    assert_eq!(calls[1], ViewCall::DrawBuffer);
    for k in 0..prints {
        assert!(matches!(calls[2 + k], ViewCall::Print(_)));
    }
    assert_eq!(
        calls[calls.len() - 2],
        ViewCall::SetCursor(Position { line: MAX_RESULTS, offset: 1 })
    );
    assert_eq!(calls[calls.len() - 1], ViewCall::Present);
}

#[test]
fn the_buffer_is_drawn_only_when_one_exists() {
    let results = vec![line("a")];
    let input = line("");
    let plan = open_mode_plan(&results, 0, &input, false, 4);
    let calls = framed_calls(plan, false);
    assert_eq!(calls[0], ViewCall::Clear);
    assert!(matches!(calls[1], ViewCall::Print(_)));
    assert!(!calls.iter().any(|c| *c == ViewCall::DrawBuffer));
}

#[test]
fn text_wider_than_the_pane_is_not_cut() {
    let results = vec![line("abcdefgh")];
    let input = line("");
    let plan = open_mode_plan(&results, 0, &input, false, 4);
    assert_eq!(plan.prints[0].text, line("abcdefgh"));
}
