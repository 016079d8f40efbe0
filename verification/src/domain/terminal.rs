//! The terminal's screen as the windows see it.

use vstd::prelude::*;

use crate::domain::rows::{RowRange, TerminalChangedRows};
use crate::error::{AppError, AppResult};
use crate::num;

verus! {

/// One character of the screen.
#[derive(Clone, Copy, Debug, PartialEq, Eq, Structural)]
pub struct TerminalCell {
    pub character: char,
}

impl TerminalCell {
    pub fn new(character: char) -> (cell: Self)
        ensures
            cell.character == character,
    {
        TerminalCell { character }
    }
}

/// Where the cursor is; outside the screen where it is not to be seen.
#[derive(Clone, Copy, Debug, PartialEq, Eq, Structural)]
pub struct CursorPosition {
    pub row: usize,
    pub column: usize,
}

impl CursorPosition {
    pub fn new(row: usize, column: usize) -> (cursor: Self)
        ensures
            cursor.row == row,
            cursor.column == column,
    {
        CursorPosition { row, column }
    }
}

/// The size of a terminal in cells and in pixels.
#[derive(Clone, Copy, Debug, PartialEq, Eq, Structural)]
pub struct TerminalSize {
    pub rows: u16,
    pub columns: u16,
    pub pixel_width: u16,
    pub pixel_height: u16,
}

/// How the display is to be moved over the history.
#[derive(Clone, Copy, Debug, PartialEq, Eq, Structural)]
pub enum TerminalScroll {
    Lines(i32),
    PageUp,
    PageDown,
    Absolute(usize),
    Top,
    Bottom,
}

/// Where the display stands in the history.
#[derive(Clone, Copy, Debug, PartialEq, Eq, Structural)]
pub struct TerminalScrollState {
    pub position: usize,
    pub max_position: usize,
    pub page_len: usize,
    pub total_len: usize,
}

impl TerminalScrollState {
    pub fn new(position: usize, max_position: usize, page_len: usize, total_len: usize) -> (state:
        Self)
        ensures
            state == (TerminalScrollState { position, max_position, page_len, total_len }),
    {
        TerminalScrollState { position, max_position, page_len, total_len }
    }
}

/// A cell of the screen.
#[derive(Clone, Copy, Debug, PartialEq, Eq, Structural)]
pub struct TerminalGridPoint {
    pub row: usize,
    pub column: usize,
}

impl TerminalGridPoint {
    pub fn new(row: usize, column: usize) -> (point: Self)
        ensures
            point.row == row,
            point.column == column,
    {
        TerminalGridPoint { row, column }
    }
}

/// Text selected with the mouse, from where it was started to where it ends.
#[derive(Clone, Copy, Debug, PartialEq, Eq, Structural)]
pub struct TerminalSelection {
    pub anchor: TerminalGridPoint,
    pub focus: TerminalGridPoint,
}

impl TerminalSelection {
    pub fn new(anchor: TerminalGridPoint, focus: TerminalGridPoint) -> (selection: Self)
        ensures
            selection.anchor == anchor,
            selection.focus == focus,
    {
        TerminalSelection { anchor, focus }
    }
}

/// The selection that a drag makes: none where it ends in the cell it
/// started in.
pub fn dragged_selection(anchor: TerminalGridPoint, focus: TerminalGridPoint) -> (selection: Option<
    TerminalSelection,
>)
    ensures
        selection == (if anchor == focus {
            None
        } else {
            Some(TerminalSelection { anchor, focus })
        }),
{
    if anchor == focus {
        None
    } else {
        Some(TerminalSelection::new(anchor, focus))
    }
}

/// Replaces a selection; reports whether it changed.
pub fn update_terminal_selection(
    current: &mut Option<TerminalSelection>,
    anchor: TerminalGridPoint,
    focus: TerminalGridPoint,
) -> (changed: bool)
    ensures
        *final(current) == (if anchor == focus {
            None
        } else {
            Some(TerminalSelection { anchor, focus })
        }),
        changed == (*final(current) != *old(current)),
{
    let selection = dragged_selection(anchor, focus);
    let same = match (&*current, &selection) {
        (None, None) => true,
        (Some(old_selection), Some(new_selection)) => *old_selection == *new_selection,
        _ => false,
    };
    if same {
        return false;
    }
    *current = selection;
    true
}

/// What a window shows of a terminal.
#[derive(Clone, Debug)]
pub struct TerminalViewport {
    pub rows: usize,
    pub columns: usize,
    pub cells: Vec<TerminalCell>,
    pub cursor: CursorPosition,
    pub scroll: TerminalScrollState,
    /// For each row, how often it changed.
    pub row_versions: Vec<u64>,
}

/// A viewport as it was, to tell later what changed.
#[derive(Clone, Debug)]
pub struct TerminalChangeBaseline {
    pub row_versions: Vec<u64>,
    pub cursor: CursorPosition,
}

impl TerminalViewport {
    /// Every row has its cells and its version.
    pub open spec fn wf(&self) -> bool {
        &&& self.cells@.len() == self.rows * self.columns
        &&& self.row_versions@.len() == self.rows
    }

    /// The cells of a row.
    pub open spec fn row_cells(&self, row: int) -> Seq<TerminalCell> {
        self.cells@.subrange(row * self.columns, (row + 1) * self.columns)
    }

    /// A viewport whose rows never changed.
    pub fn with_scroll(
        rows: usize,
        columns: usize,
        cells: Vec<TerminalCell>,
        cursor: CursorPosition,
        scroll: TerminalScrollState,
    ) -> (viewport: AppResult<Self>)
        ensures
            viewport is Ok <==> cells@.len() == rows * columns,
            viewport matches Ok(made) ==> {
                &&& made.wf()
                &&& made.rows == rows
                &&& made.columns == columns
                &&& made.cells == cells
                &&& made.cursor == cursor
                &&& made.scroll == scroll
                &&& forall|row: int| 0 <= row < rows ==> #[trigger] made.row_versions@[row] == 0
            },
            viewport matches Err(error) ==> error is InvalidInput,
    {
        let cell_count = cells.len();
        match rows.checked_mul(columns) {
            Some(count) if count == cell_count => {
                let row_versions: Vec<u64> = vec![0; rows];
                Ok(TerminalViewport { rows, columns, cells, cursor, scroll, row_versions })
            },
            _ => Err(
                AppError::InvalidInput("terminal viewport cells do not match its dimensions"),
            ),
        }
    }

    pub fn row_version(&self, row: usize) -> (version: Option<u64>)
        ensures
            version == (if row < self.row_versions@.len() {
                Some(self.row_versions@[row as int])
            } else {
                None
            }),
    {
        if row < self.row_versions.len() {
            Some(self.row_versions[row])
        } else {
            None
        }
    }

    /// The cells of a row of the screen.
    pub fn line_cells(&self, row: usize) -> (cells: Option<&[TerminalCell]>)
        requires
            self.wf(),
        ensures
            cells is Some <==> row < self.rows,
            cells matches Some(line) ==> line@ == self.row_cells(row as int),
    {
        if row >= self.rows {
            return None;
        }
        proof {
            lemma_row_bounds(row as int, self.rows as int, self.columns as int);
        }
        let total = self.cells.len();
        assert(row * self.columns + self.columns <= total);
        let start: usize = row * self.columns;
        let end: usize = start + self.columns;
        let line = &self.cells.as_slice()[start..end];
        assert(line@ =~= self.row_cells(row as int));
        Some(line)
    }

    /// Notes that the rows of a range changed.
    pub fn set_changed_rows(&mut self, changed: Option<RowRange>)
        requires
            old(self).wf(),
        ensures
            final(self).wf(),
            final(self).rows == old(self).rows,
            final(self).columns == old(self).columns,
            final(self).cells == old(self).cells,
            final(self).cursor == old(self).cursor,
            final(self).scroll == old(self).scroll,
            forall|row: int|
                0 <= row < old(self).rows ==> #[trigger] final(self).row_versions@[row] == (
                if changed matches Some(range) && range.has(row) {
                    next_version(old(self).row_versions@[row])
                } else {
                    old(self).row_versions@[row]
                }),
    {
        if let Some(range) = changed {
            let end = num::min_usize(range.end, self.rows);
            let mut row: usize = range.start;
            let ghost before = self.row_versions@;
            while row < end
                invariant
                    range.start <= row,
                    row <= num::max_int(range.start as int, end as int),
                    end <= self.rows,
                    end == num::min_int(range.end as int, self.rows as int),
                    self.rows == old(self).rows,
                    self.columns == old(self).columns,
                    self.cells == old(self).cells,
                    self.cursor == old(self).cursor,
                    self.scroll == old(self).scroll,
                    before.len() == self.rows,
                    self.row_versions@.len() == self.rows,
                    forall|r: int|
                        0 <= r < self.rows ==> #[trigger] self.row_versions@[r] == (if range.start
                            <= r < row {
                            next_version(before[r])
                        } else {
                            before[r]
                        }),
                decreases end - row,
            {
                let version: u64 = self.row_versions[row];
                let next: u64 = if version == u64::MAX {
                    0
                } else {
                    version + 1
                };
                self.row_versions.set(row, next);
                row += 1;
            }
        }
    }

    /// Remembers the viewport as it is.
    pub fn change_baseline(&self) -> (baseline: TerminalChangeBaseline)
        ensures
            baseline.row_versions@ == self.row_versions@,
            baseline.cursor == self.cursor,
    {
        let mut row_versions: Vec<u64> = Vec::new();
        row_versions.extend_from_slice(self.row_versions.as_slice());
        assert(row_versions@ =~= self.row_versions@);
        TerminalChangeBaseline { row_versions, cursor: self.cursor }
    }

    /// Whether a row looks different from what it did: its cells changed, or
    /// the cursor came or went.
    pub open spec fn row_changed(&self, baseline: TerminalChangeBaseline, row: int) -> bool {
        &&& 0 <= row < self.rows
        &&& {
            ||| baseline.row_versions@.len() != self.rows
            ||| baseline.row_versions@[row] != self.row_versions@[row]
            ||| baseline.cursor != self.cursor && (row == baseline.cursor.row || row
                == self.cursor.row)
        }
    }

    /// The rows that look different from what they did.
    pub fn changed_rows_since_baseline(&self, baseline: &TerminalChangeBaseline) -> (changed:
        Option<TerminalChangedRows>)
        requires
            self.wf(),
        ensures
            changed is None <==> forall|row: int| !self.row_changed(*baseline, row),
            changed matches Some(rows) ==> rows.wf() && forall|row: int|
                rows@.contains(row) <==> self.row_changed(*baseline, row),
    {
        let mut changed = TerminalChangedRows::empty();
        let same_shape = baseline.row_versions.len() == self.rows;
        let cursor_moved = baseline.cursor != self.cursor;
        let mut row: usize = 0;
        while row < self.rows
            invariant
                self.wf(),
                changed.wf(),
                row <= self.rows,
                same_shape == (baseline.row_versions@.len() == self.rows),
                cursor_moved == (baseline.cursor != self.cursor),
                forall|r: int|
                    changed@.contains(r) <==> r < row && self.row_changed(*baseline, r),
            decreases self.rows - row,
        {
            let differs = !same_shape || baseline.row_versions[row] != self.row_versions[row] || (
            cursor_moved && (row == baseline.cursor.row || row == self.cursor.row));
            if differs {
                let one = TerminalChangedRows::from_range(row, row + 1);
                changed.merge(&one);
            }
            row += 1;
        }
        if changed.is_empty() {
            assert forall|r: int| !self.row_changed(*baseline, r) by {
                assert(!changed@.contains(r));
            }
            None
        } else {
            proof {
                let r = choose|r: int| changed@.contains(r);
                if forall|x: int| !changed@.contains(x) {
                    assert(changed@ =~= Set::<int>::empty());
                }
                assert(self.row_changed(*baseline, r));
            }
            Some(changed)
        }
    }
}

/// Versions start again at 0 after the largest.
pub open spec fn next_version(version: u64) -> u64 {
    if version == u64::MAX {
        0
    } else {
        (version + 1) as u64
    }
}

/// A row's cells lie within the cells of all rows.
pub proof fn lemma_row_bounds(row: int, rows: int, columns: int)
    requires
        0 <= row < rows,
        0 <= columns,
    ensures
        0 <= row * columns,
        (row + 1) * columns == row * columns + columns,
        row * columns + columns <= rows * columns,
{
    assert((row + 1) * columns == row * columns + columns) by (nonlinear_arith);
    assert((row + 1) * columns <= rows * columns) by (nonlinear_arith)
        requires
            row + 1 <= rows,
            0 <= columns,
    ;
    assert(0 <= row * columns) by (nonlinear_arith)
        requires
            0 <= row,
            0 <= columns,
    ;
}

/// A row that changed never has the version that it had before, so that it is found to have
/// changed; neither a row that did not change nor one that the cursor stayed off is.
pub proof fn law_changed_rows_are_found(
    viewport: TerminalViewport,
    baseline: TerminalChangeBaseline,
    row: int,
)
    requires
        viewport.wf(),
        baseline.row_versions@.len() == viewport.rows,
        0 <= row < viewport.rows,
    ensures
        next_version(baseline.row_versions@[row]) != baseline.row_versions@[row],
        viewport.row_versions@[row] != baseline.row_versions@[row] ==> viewport.row_changed(
            baseline,
            row,
        ),
        viewport.cursor != baseline.cursor && (viewport.cursor.row == row || baseline.cursor.row
            == row) ==> viewport.row_changed(baseline, row),
        viewport.row_versions@[row] == baseline.row_versions@[row] && (viewport.cursor
            == baseline.cursor || viewport.cursor.row != row && baseline.cursor.row != row)
            ==> !viewport.row_changed(baseline, row),
        !viewport.row_changed(baseline, -1),
        !viewport.row_changed(baseline, viewport.rows as int),
{
}

/// After a change of shape every row counts as changed.
pub proof fn law_another_shape_changes_every_row(
    viewport: TerminalViewport,
    baseline: TerminalChangeBaseline,
    row: int,
)
    requires
        baseline.row_versions@.len() != viewport.rows,
    ensures
        viewport.row_changed(baseline, row) <==> 0 <= row < viewport.rows,
{
}

/// A row's cells are those that come behind all cells of the rows above it.
pub proof fn law_rows_lie_one_behind_the_other(viewport: TerminalViewport, row: int, column: int)
    requires
        viewport.wf(),
        0 <= row < viewport.rows,
        0 <= column < viewport.columns,
    ensures
        viewport.row_cells(row).len() == viewport.columns,
        viewport.row_cells(row)[column] == viewport.cells@[row * viewport.columns + column],
{
    lemma_row_bounds(row, viewport.rows as int, viewport.columns as int);
}

} // verus!
