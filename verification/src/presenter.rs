use vstd::prelude::*;
use vstd::string::StrSliceExecFns;
use crate::position::Position;

verus! {

/// The number of rows the open-mode result pane occupies; the divider
/// with the search input sits on the row just below them.
pub const MAX_RESULTS: usize = 5;

/// How a row of the pane is to be drawn.
#[derive(Clone, Copy, PartialEq, Eq, Structural, Debug)]
pub enum PaneStyle {
    Default,
    Bold,
}

/// Which colours a row of the pane is to be drawn in.
#[derive(Clone, Copy, PartialEq, Eq, Structural, Debug)]
pub enum PaneColors {
    Default,
    Focused,
    Inverted,
    Insert,
}

/// One print the host is asked to carry onto the display surface: where,
/// how, and what text.
#[derive(Debug, PartialEq, Eq)]
pub struct PrintCall {
    pub position: Position,
    pub style: PaneStyle,
    pub colors: PaneColors,
    pub text: Vec<char>,
}

/// The mathematical content of one print call.
#[verifier::ext_equal]
pub struct PrintSpec {
    pub position: Position,
    pub style: PaneStyle,
    pub colors: PaneColors,
    pub text: Seq<char>,
}

impl View for PrintCall {
    type V = PrintSpec;

    open spec fn view(&self) -> PrintSpec {
        PrintSpec {
            position: self.position,
            style: self.style,
            colors: self.colors,
            text: self.text@,
        }
    }
}

/// Everything the open-mode presenter decides: the prints to make, in
/// order, and where to leave the render cursor. The host carries these
/// onto the display surface between clearing it and presenting it.
pub struct OpenModePlan {
    pub prints: Vec<PrintCall>,
    pub cursor: Position,
}

/// The content of a list of print calls.
pub open spec fn prints_view(prints: Seq<PrintCall>) -> Seq<PrintSpec> {
    Seq::new(prints.len(), |i: int| prints[i]@)
}

/// `n` spaces.
pub open spec fn spaces(n: nat) -> Seq<char> {
    Seq::new(n, |i: int| ' ')
}

/// `s` with spaces appended up to width `w`; text already that wide is
/// left as it is.
pub open spec fn padded(s: Seq<char>, w: nat) -> Seq<char> {
    if s.len() >= w {
        s
    } else {
        s + spaces((w - s.len()) as nat)
    }
}

/// The message shown when the result list is empty.
pub open spec fn empty_message() -> Seq<char> {
    "No matching files found."@
}

/// The row showing one search result: on its own line, highlighted
/// exactly when it is the selected one.
pub open spec fn result_row_s(text: Seq<char>, row: int, selected: int, width: nat) -> PrintSpec {
    PrintSpec {
        position: Position { line: row as usize, offset: 0 },
        style: PaneStyle::Default,
        colors: if row == selected {
            PaneColors::Focused
        } else {
            PaneColors::Default
        },
        text: padded(text, width),
    }
}

/// A row wiped clean below the results.
pub open spec fn blank_row_s(row: int, width: nat) -> PrintSpec {
    PrintSpec {
        position: Position { line: row as usize, offset: 0 },
        style: PaneStyle::Default,
        colors: PaneColors::Default,
        text: padded(Seq::empty(), width),
    }
}

/// The divider row carrying the accumulated search input, drawn bold and
/// coloured for insertion exactly when the mode's insert flag is set.
pub open spec fn divider_s(input: Seq<char>, insert: bool, width: nat) -> PrintSpec {
    PrintSpec {
        position: Position { line: MAX_RESULTS, offset: 0 },
        style: PaneStyle::Bold,
        colors: if insert {
            PaneColors::Insert
        } else {
            PaneColors::Inverted
        },
        text: padded(input, width),
    }
}

/// The first row to wipe: right below the results, but never the first
/// row, which the empty-set message occupies when there is no result.
pub open spec fn blank_start(n: nat) -> nat {
    if n == 0 {
        1
    } else {
        n
    }
}

/// Everything the open-mode pane prints, in order: the empty-set message
/// when there is no result, one row per result, blank rows up to the
/// divider's line, and the divider itself last.
pub open spec fn open_prints_s(
    results: Seq<Seq<char>>,
    selected: int,
    input: Seq<char>,
    insert: bool,
    width: nat,
) -> Seq<PrintSpec> {
    let message: Seq<PrintSpec> = if results.len() == 0 {
        seq![
            PrintSpec {
                position: Position { line: 0, offset: 0 },
                style: PaneStyle::Default,
                colors: PaneColors::Default,
                text: padded(empty_message(), width),
            },
        ]
    } else {
        Seq::empty()
    };
    let rows = Seq::new(results.len(), |i: int| result_row_s(results[i], i, selected, width));
    let start = blank_start(results.len()) as int;
    let blanks: Seq<PrintSpec> = if start < MAX_RESULTS as int {
        Seq::new((MAX_RESULTS as int - start) as nat, |j: int| blank_row_s(start + j, width))
    } else {
        Seq::empty()
    };
    message + rows + blanks + seq![divider_s(input, insert, width)]
}

/// The content of a list of result texts.
pub open spec fn texts_view(texts: Seq<Vec<char>>) -> Seq<Seq<char>> {
    Seq::new(texts.len(), |i: int| texts[i]@)
}

/// One call on the display surface, in the order the host must make
/// them while presenting the pane.
#[derive(Debug, PartialEq, Eq)]
pub enum ViewCall {
    /// Wipe the slate clean.
    Clear,
    /// Draw the current buffer; asked for only when one exists.
    DrawBuffer,
    /// Make one print.
    Print(PrintCall),
    /// Place the render cursor.
    SetCursor(Position),
    /// Render the changes to the screen.
    Present,
}

/// The mathematical content of one view call.
#[verifier::ext_equal]
pub enum ViewCallSpec {
    Clear,
    DrawBuffer,
    Print(PrintSpec),
    SetCursor(Position),
    Present,
}

impl View for ViewCall {
    type V = ViewCallSpec;

    open spec fn view(&self) -> ViewCallSpec {
        match self {
            ViewCall::Clear => ViewCallSpec::Clear,
            ViewCall::DrawBuffer => ViewCallSpec::DrawBuffer,
            ViewCall::Print(p) => ViewCallSpec::Print(p@),
            ViewCall::SetCursor(p) => ViewCallSpec::SetCursor(*p),
            ViewCall::Present => ViewCallSpec::Present,
        }
    }
}

/// The content of a list of view calls.
pub open spec fn calls_view(calls: Seq<ViewCall>) -> Seq<ViewCallSpec> {
    Seq::new(calls.len(), |i: int| calls[i]@)
}

/// The order in which a plan reaches the display surface: clear first,
/// then the buffer when there is one, then every print in plan order,
/// then the render cursor, and presenting always last.
pub open spec fn framed_calls_s(
    prints: Seq<PrintSpec>,
    cursor: Position,
    has_buffer: bool,
) -> Seq<ViewCallSpec> {
    let head: Seq<ViewCallSpec> = if has_buffer {
        seq![ViewCallSpec::Clear, ViewCallSpec::DrawBuffer]
    } else {
        seq![ViewCallSpec::Clear]
    };
    head + prints.map(|i: int, p: PrintSpec| ViewCallSpec::Print(p)) + seq![
        ViewCallSpec::SetCursor(cursor),
        ViewCallSpec::Present,
    ]
}

/// Lays a plan out as the ordered calls the host makes on the display
/// surface.
pub fn framed_calls(plan: OpenModePlan, has_buffer: bool) -> (calls: Vec<ViewCall>)
    ensures
        calls_view(calls@) == framed_calls_s(prints_view(plan.prints@), plan.cursor, has_buffer),
{
    let ghost goal = framed_calls_s(prints_view(plan.prints@), plan.cursor, has_buffer);
    let OpenModePlan { mut prints, cursor } = plan;
    let ghost all_prints = prints@;
    let mut calls: Vec<ViewCall> = Vec::new();
    calls.push(ViewCall::Clear);
    if has_buffer {
        calls.push(ViewCall::DrawBuffer);
    }
    let ghost head_len = calls@.len() as int;
    let total = prints.len();
    proof {
        assert(all_prints.len() == total as nat);
        assert(all_prints.skip(0) =~= all_prints);
    }
    let mut j: usize = 0;
    while prints.len() > 0
        invariant
            all_prints.len() <= usize::MAX as nat,
            j as int + prints@.len() == all_prints.len(),
            prints@ == all_prints.skip(j as int),
            goal == framed_calls_s(prints_view(all_prints), cursor, has_buffer),
            head_len == if has_buffer { 2int } else { 1int },
            calls@.len() == head_len + j,
            forall|k: int| 0 <= k < calls@.len() ==> #[trigger] calls@[k]@ == goal[k],
        decreases prints.len(),
    {
        proof {
            assert(all_prints.skip(j as int)[0] == all_prints[j as int]);
            assert(all_prints.skip(j as int).remove(0) =~= all_prints.skip(j as int + 1));
            assert(goal[head_len + j] == ViewCallSpec::Print(prints_view(all_prints)[j as int]));
        }
        let call = prints.remove(0);
        calls.push(ViewCall::Print(call));
        j += 1;
    }
    calls.push(ViewCall::SetCursor(cursor));
    calls.push(ViewCall::Present);
    proof {
        assert(goal[goal.len() - 2] == ViewCallSpec::SetCursor(cursor));
        assert(goal[goal.len() - 1] == ViewCallSpec::Present);
        assert(calls_view(calls@) =~= goal);
    }
    calls
}

/// The shape of the open-mode pane, row by row: each result on its own
/// line with only the selected one highlighted, the empty-set message on
/// the first line when there is no result, blank rows below the results
/// up to the divider's line, and the divider always last, showing the
/// accumulated input and coloured for insertion exactly when the insert
/// flag is set.
pub proof fn lemma_open_prints_shape(
    results: Seq<Seq<char>>,
    selected: int,
    input: Seq<char>,
    insert: bool,
    width: nat,
)
    requires
        results.len() == 0 || 0 <= selected < results.len(),
    ensures
        ({
            let p = open_prints_s(results, selected, input, insert, width);
            let msg: int = if results.len() == 0 { 1int } else { 0int };
            let start = blank_start(results.len()) as int;
            let blanks: int = if start < MAX_RESULTS as int { MAX_RESULTS as int - start } else { 0int };
            &&& p.len() == msg + results.len() + blanks + 1
            &&& forall|i: int|
                0 <= i < results.len() ==> p[msg + i] == result_row_s(results[i], i, selected, width)
            &&& results.len() == 0 ==> p[0] == (PrintSpec {
                position: Position { line: 0, offset: 0 },
                style: PaneStyle::Default,
                colors: PaneColors::Default,
                text: padded(empty_message(), width),
            })
            &&& forall|r: int|
                start <= r < MAX_RESULTS as int ==> p[msg + results.len() + (r - start)]
                    == blank_row_s(r, width)
            &&& p.last() == divider_s(input, insert, width)
        }),
{
}

/// `s` with spaces appended up to width `w`.
fn pad_chars(s: &Vec<char>, w: usize) -> (r: Vec<char>)
    ensures
        r@ == padded(s@, w as nat),
{
    let mut r: Vec<char> = Vec::new();
    let mut i: usize = 0;
    while i < s.len()
        invariant
            i <= s.len(),
            r@ == s@.take(i as int),
        decreases s.len() - i,
    {
        r.push(s[i]);
        proof {
            assert(r@ =~= s@.take(i as int + 1));
        }
        i += 1;
    }
    proof {
        assert(r@ =~= s@);
    }
    while r.len() < w
        invariant
            s@.len() <= r@.len(),
            r@.len() <= s@.len() || r@.len() <= w as nat,
            r@.take(s@.len() as int) == s@,
            forall|k: int| s@.len() <= k < r@.len() ==> r@[k] == ' ',
        decreases w - r.len(),
    {
        r.push(' ');
        proof {
            assert(r@.take(s@.len() as int) =~= s@);
        }
    }
    proof {
        assert(r@ =~= padded(s@, w as nat));
    }
    r
}

/// The empty-set message, written out as characters.
fn empty_message_chars() -> (r: Vec<char>)
    ensures
        r@ == empty_message(),
{
    let msg: &str = "No matching files found.";
    let n = msg.unicode_len();
    let mut r: Vec<char> = Vec::new();
    let mut i: usize = 0;
    while i < n
        invariant
            i <= n,
            n == msg@.len(),
            msg@ == empty_message(),
            r@ == msg@.take(i as int),
        decreases n - i,
    {
        r.push(msg.get_char(i));
        proof {
            assert(r@ =~= msg@.take(i as int + 1));
        }
        i += 1;
    }
    proof {
        assert(r@ =~= msg@);
    }
    r
}

/// Decides everything the open-mode presenter draws, from plain values:
/// one row per result in order, the selected row highlighted, the
/// empty-set message when there is no result, blank rows up to the
/// divider, the divider showing the accumulated input, and the render
/// cursor placed on the divider right after that input. The host carries
/// the plan onto the display surface between clearing and presenting it.
pub fn open_mode_plan(
    results: &Vec<Vec<char>>,
    selected: usize,
    input: &Vec<char>,
    insert: bool,
    width: usize,
) -> (plan: OpenModePlan)
    requires
        results@.len() == 0 || selected < results@.len(),
    ensures
        prints_view(plan.prints@) == open_prints_s(
            texts_view(results@),
            selected as int,
            input@,
            insert,
            width as nat,
        ),
        plan.cursor == (Position { line: MAX_RESULTS, offset: input@.len() as usize }),
{
    let ghost goal = open_prints_s(
        texts_view(results@),
        selected as int,
        input@,
        insert,
        width as nat,
    );
    let mut prints: Vec<PrintCall> = Vec::new();
    if results.len() == 0 {
        let msg = empty_message_chars();
        prints.push(PrintCall {
            position: Position { line: 0, offset: 0 },
            style: PaneStyle::Default,
            colors: PaneColors::Default,
            text: pad_chars(&msg, width),
        });
    }
    let ghost msg_count = prints@.len() as int;
    let mut i: usize = 0;
    while i < results.len()
        invariant
            i <= results.len(),
            results@.len() == 0 || selected < results@.len(),
            goal == open_prints_s(texts_view(results@), selected as int, input@, insert, width as nat),
            msg_count == if results@.len() == 0 { 1int } else { 0int },
            prints@.len() == msg_count + i,
            forall|k: int| 0 <= k < prints@.len() ==> #[trigger] prints@[k]@ == goal[k],
        decreases results.len() - i,
    {
        prints.push(PrintCall {
            position: Position { line: i, offset: 0 },
            style: PaneStyle::Default,
            colors: if i == selected {
                PaneColors::Focused
            } else {
                PaneColors::Default
            },
            text: pad_chars(&results[i], width),
        });
        proof {
            assert(goal[msg_count + i] == result_row_s(
                texts_view(results@)[i as int],
                i as int,
                selected as int,
                width as nat,
            ));
        }
        i += 1;
    }
    let mut row: usize = if results.len() == 0 {
        1
    } else {
        results.len()
    };
    let ghost rows_done = prints@.len() as int;
    let ghost start = blank_start(results@.len()) as int;
    while row < MAX_RESULTS
        invariant
            start <= row as int,
            row as int <= MAX_RESULTS as int || row as int == start,
            goal == open_prints_s(texts_view(results@), selected as int, input@, insert, width as nat),
            rows_done == msg_count + results@.len(),
            msg_count == if results@.len() == 0 { 1int } else { 0int },
            start == blank_start(results@.len()) as int,
            prints@.len() == rows_done + (row as int - start),
            forall|k: int| 0 <= k < prints@.len() ==> #[trigger] prints@[k]@ == goal[k],
        decreases MAX_RESULTS - row,
    {
        let blank: Vec<char> = Vec::new();
        prints.push(PrintCall {
            position: Position { line: row, offset: 0 },
            style: PaneStyle::Default,
            colors: PaneColors::Default,
            text: pad_chars(&blank, width),
        });
        proof {
            assert(goal[rows_done + (row as int - start)] == blank_row_s(row as int, width as nat));
        }
        row += 1;
    }
    prints.push(PrintCall {
        position: Position { line: MAX_RESULTS, offset: 0 },
        style: PaneStyle::Bold,
        colors: if insert {
            PaneColors::Insert
        } else {
            PaneColors::Inverted
        },
        text: pad_chars(input, width),
    });
    proof {
        assert(goal[goal.len() - 1] == divider_s(input@, insert, width as nat));
        assert(prints_view(prints@) =~= goal);
    }
    OpenModePlan { prints, cursor: Position { line: MAX_RESULTS, offset: input.len() } }
}

} // verus!
