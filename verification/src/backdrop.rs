//! The code-editor backdrop: numbered lines of a short snippet, repeated
//! down the gutter for as far as the canvas reaches.
use vstd::prelude::*;

verus! {

/// The backdrop never shows more lines than this.
pub const MAX_CODE_ROWS: usize = 32;

/// The number of snippet lines the backdrop cycles through.
pub const SNIPPET_LINE_COUNT: usize = 6;

/// The top of the first line, in CSS pixels.
pub const FIRST_ROW_TOP: u32 = 22;

/// The distance between the tops of two lines, in CSS pixels.
pub const ROW_SPACING: u32 = 20;

/// One line of the backdrop.
#[derive(Clone, Copy, Debug, PartialEq, Eq, Structural)]
pub struct CodeRow {
    /// The number shown in the gutter, counting from 1.
    pub line_number: usize,
    /// The top of the line, in CSS pixels.
    pub top: u32,
    /// Which snippet line is written on it.
    pub snippet: usize,
}

/// The top of line `r` (counting from 0).
pub open spec fn row_top(r: int) -> int {
    FIRST_ROW_TOP + r * ROW_SPACING
}

/// `row` is line `r` of the backdrop.
pub open spec fn row_matches(r: int, row: CodeRow) -> bool {
    &&& row.line_number == r + 1
    &&& row.top == row_top(r)
    &&& row.snippet == r % (SNIPPET_LINE_COUNT as int)
}

/// How many lines fit on a canvas `height` CSS pixels tall: those whose top
/// is at most `height`, and at most `MAX_CODE_ROWS` of them.
pub open spec fn visible_rows(height: int) -> int {
    if height < FIRST_ROW_TOP {
        0
    } else if (height - FIRST_ROW_TOP) / (ROW_SPACING as int) + 1 < MAX_CODE_ROWS {
        (height - FIRST_ROW_TOP) / (ROW_SPACING as int) + 1
    } else {
        MAX_CODE_ROWS as int
    }
}

/// The lines of the backdrop on a canvas `height` CSS pixels tall, where
/// `height` is the canvas height rounded down to a whole pixel: line by
/// line from the top, stopping at the first line whose top lies below the
/// canvas, and after `MAX_CODE_ROWS` lines.
pub fn code_rows(height: u32) -> (rows: Vec<CodeRow>)
    ensures
        rows.len() == visible_rows(height as int),
        forall|r: int| 0 <= r < rows.len() ==> row_matches(r, #[trigger] rows[r]),
        forall|r: int| 0 <= r < rows.len() ==> #[trigger] row_top(r) <= height,
        rows.len() < MAX_CODE_ROWS ==> row_top(rows.len() as int) > height,
        forall|r: int| 0 <= r < rows.len() ==> (#[trigger] rows[r]).line_number == r + 1,
        forall|r: int| 0 <= r < rows.len() ==> (#[trigger] rows[r]).top == FIRST_ROW_TOP + r * ROW_SPACING,
        forall|r: int| 0 <= r < rows.len() ==> (#[trigger] rows[r]).snippet == r % (SNIPPET_LINE_COUNT as int),
        forall|r: int| 0 <= r < SNIPPET_LINE_COUNT && r < rows.len() ==> (#[trigger] rows[r]).snippet == r,
        forall|r: int|
            0 <= r && r + SNIPPET_LINE_COUNT < rows.len() ==> rows[r + SNIPPET_LINE_COUNT].snippet == (
            #[trigger] rows[r]).snippet,
        forall|r: int|
            0 <= r && r + 1 < rows.len() ==> rows[r + 1].line_number == (#[trigger] rows[r]).line_number + 1
                && rows[r + 1].top == rows[r].top + ROW_SPACING,
{
    let mut rows: Vec<CodeRow> = Vec::new();
    let mut row: usize = 0;
    while row < MAX_CODE_ROWS
        invariant
            row <= MAX_CODE_ROWS,
            rows.len() == row,
            forall|r: int| 0 <= r < rows.len() ==> row_matches(r, #[trigger] rows[r]),
            forall|r: int| 0 <= r < rows.len() ==> #[trigger] row_top(r) <= height,
        ensures
            rows.len() == row,
            row <= MAX_CODE_ROWS,
            forall|r: int| 0 <= r < rows.len() ==> row_matches(r, #[trigger] rows[r]),
            forall|r: int| 0 <= r < rows.len() ==> #[trigger] row_top(r) <= height,
            row < MAX_CODE_ROWS ==> row_top(row as int) > height,
        decreases MAX_CODE_ROWS - row,
    {
        let top: u32 = FIRST_ROW_TOP + (row as u32) * ROW_SPACING;
        if top > height {
            break;
        }
        rows.push(CodeRow { line_number: row + 1, top, snippet: row % SNIPPET_LINE_COUNT });
        row = row + 1;
    }
    proof {
        if row > 0 {
            assert(row_top(row - 1) <= height);
        }
        lemma_backdrop_lines(rows@);
    }
    rows
}

/// The lines of the backdrop are numbered 1, 2, 3, ... from the top, each
/// one `ROW_SPACING` pixels below the one before, starting at
/// `FIRST_ROW_TOP`; the snippet is written from its first line on, and
/// repeats with period `SNIPPET_LINE_COUNT` down the gutter.
pub proof fn lemma_backdrop_lines(rows: Seq<CodeRow>)
    requires
        forall|r: int| 0 <= r < rows.len() ==> row_matches(r, #[trigger] rows[r]),
    ensures
        forall|r: int| 0 <= r < rows.len() ==> (#[trigger] rows[r]).line_number == r + 1,
        forall|r: int| 0 <= r < rows.len() ==> (#[trigger] rows[r]).top == FIRST_ROW_TOP + r * ROW_SPACING,
        forall|r: int| 0 <= r < rows.len() ==> (#[trigger] rows[r]).snippet == r % (SNIPPET_LINE_COUNT as int),
        forall|r: int| 0 <= r < SNIPPET_LINE_COUNT && r < rows.len() ==> (#[trigger] rows[r]).snippet == r,
        forall|r: int|
            0 <= r && r + SNIPPET_LINE_COUNT < rows.len() ==> rows[r + SNIPPET_LINE_COUNT].snippet == (
            #[trigger] rows[r]).snippet,
        forall|r: int|
            0 <= r && r + 1 < rows.len() ==> rows[r + 1].line_number == (#[trigger] rows[r]).line_number + 1
                && rows[r + 1].top == rows[r].top + ROW_SPACING,
{
    assert forall|r: int|
        0 <= r && r + SNIPPET_LINE_COUNT < rows.len() implies rows[r + SNIPPET_LINE_COUNT].snippet == (
        #[trigger] rows[r]).snippet by {
        assert(row_matches(r + SNIPPET_LINE_COUNT, rows[r + SNIPPET_LINE_COUNT]));
    }
    assert forall|r: int|
        0 <= r && r + 1 < rows.len() implies rows[r + 1].line_number == (#[trigger] rows[r]).line_number + 1
            && rows[r + 1].top == rows[r].top + ROW_SPACING by {
        assert(row_matches(r + 1, rows[r + 1]));
    }
}

/// A taller canvas never shows fewer lines.
pub proof fn lemma_taller_canvas_more_rows(shorter: int, taller: int)
    requires
        shorter <= taller,
    ensures
        visible_rows(shorter) <= visible_rows(taller),
{
    if shorter >= FIRST_ROW_TOP {
        vstd::arithmetic::div_mod::lemma_div_is_ordered(
            shorter - FIRST_ROW_TOP,
            taller - FIRST_ROW_TOP,
            ROW_SPACING as int,
        );
    }
}

} // verus!
