//! Reading the emulator's grid of characters.

use vstd::prelude::*;

use alacritty_terminal::grid::{Dimensions, Grid, Scroll};
use alacritty_terminal::index::{Column, Line};
use alacritty_terminal::term::cell::Cell;

use crate::domain::rows::RowRange;
use crate::domain::terminal::{
    self as screen, CursorPosition, TerminalCell, TerminalScroll, TerminalViewport,
};
use crate::error::{AppError, AppResult};
use crate::terminal::{
    self, AlacrittyTerminalBuffer, DirtyRows, DisplayScroll, GridState, OutputEffects, SnapshotNeed,
};

verus! {

/// A cell of the emulator.
#[verifier::external_type_specification]
#[verifier::external_body]
pub struct ExCell(Cell);

/// The emulator's grid.
#[verifier::external_type_specification]
#[verifier::external_body]
#[verifier::reject_recursive_types(T)]
pub struct ExGrid<T>(Grid<T>);

/// What a grid holds: for each line the character and the flags of each cell.
/// Lines of the history have negative numbers.
pub uninterp spec fn grid_lines(grid: Grid<Cell>) -> Map<int, Seq<(char, u16)>>;

/// A grid's size, where its display stands and where its cursor is.
pub uninterp spec fn grid_state(grid: Grid<Cell>) -> GridState;

/// `Dimensions::screen_lines` of a grid: how many lines the screen has.
#[verifier::external_body]
fn screen_lines(grid: &Grid<Cell>) -> (lines: usize)
    ensures
        lines == grid_state(*grid).screen_lines,
{
    grid.screen_lines()
}

/// `Dimensions::columns` of a grid: how many cells a line has.
#[verifier::external_body]
fn columns(grid: &Grid<Cell>) -> (count: usize)
    ensures
        count == grid_state(*grid).columns,
{
    grid.columns()
}

/// `Dimensions::history_size` of a grid: how many lines there are above the
/// screen.
#[verifier::external_body]
fn history_size(grid: &Grid<Cell>) -> (lines: usize)
    ensures
        lines == grid_state(*grid).history_size,
{
    grid.history_size()
}

/// `Grid::display_offset`: how far the display is moved up.
#[verifier::external_body]
fn display_offset(grid: &Grid<Cell>) -> (offset: usize)
    ensures
        offset == grid_state(*grid).display_offset,
{
    grid.display_offset()
}

/// The field `cursor` of a grid: the line and column of its point.
#[verifier::external_body]
fn cursor_point(grid: &Grid<Cell>) -> (point: (i32, usize))
    ensures
        point.0 == grid_state(*grid).cursor_line,
        point.1 == grid_state(*grid).cursor_column,
{
    (grid.cursor.point.line.0, grid.cursor.point.column.0)
}

/// `Grid::index` and `Row::index`: the cell in a line and column that the grid
/// has, by its fields `c` and `flags`.
#[verifier::external_body]
fn cell_at(grid: &Grid<Cell>, line: i32, column: usize) -> (cell: (char, u16))
    requires
        AlacrittyTerminalBuffer::has_line(grid_state(*grid), line as int),
        column < grid_state(*grid).columns,
    ensures
        cell == grid_lines(*grid)[line as int][column as int],
{
    let cell = &grid[Line(line)][Column(column)];
    (cell.c, cell.flags.bits())
}

/// Where the display stands after it was moved: it stays between the bottom of the
/// screen and the oldest line.
pub open spec fn moved_offset(state: GridState, scroll: DisplayScroll) -> int {
    let wanted = match scroll {
        DisplayScroll::Delta(lines) => state.display_offset + lines,
        DisplayScroll::PageUp => state.display_offset + state.screen_lines,
        DisplayScroll::PageDown => state.display_offset - state.screen_lines,
        DisplayScroll::Top => state.history_size as int,
        DisplayScroll::Bottom => 0,
    };
    if wanted < 0 {
        0
    } else if scroll !is PageDown && wanted > state.history_size {
        state.history_size as int
    } else {
        wanted
    }
}

/// Whether the sums that a move makes fit into its numbers.
pub open spec fn can_move(state: GridState, scroll: DisplayScroll) -> bool {
    match scroll {
        DisplayScroll::Delta(lines) => state.display_offset <= i32::MAX && state.display_offset
            + lines <= i32::MAX,
        DisplayScroll::PageUp => state.display_offset + state.screen_lines <= usize::MAX,
        _ => true,
    }
}

/// Whether the emulator can move the display as it is asked to.
pub fn scroll_fits(grid: &Grid<Cell>, scroll: TerminalScroll) -> (fits: bool)
    ensures
        fits == can_move(
            grid_state(*grid),
            AlacrittyTerminalBuffer::display_scroll(grid_state(*grid), scroll),
        ),
{
    let state = read_grid(grid);
    let lines: i32 = match scroll {
        TerminalScroll::Lines(lines) => lines,
        TerminalScroll::Absolute(position) => terminal::scroll_delta(state.display_offset, position),
        TerminalScroll::PageUp => {
            return state.display_offset.checked_add(state.screen_lines).is_some();
        },
        _ => return true,
    };
    state.display_offset <= i32::MAX as usize && (state.display_offset as i32).checked_add(
        lines,
    ).is_some()
}

/// A grid's state with its display in another place.
pub open spec fn with_offset(state: GridState, offset: int) -> GridState {
    GridState { display_offset: offset as usize, ..state }
}

/// `Grid::scroll_display`: moves the display and nothing else. Its sums overflow
/// on moves that are left out here.
#[verifier::external_body]
fn move_display(grid: &mut Grid<Cell>, scroll: DisplayScroll)
    requires
        can_move(grid_state(*old(grid)), scroll),
    ensures
        grid_lines(*final(grid)) == grid_lines(*old(grid)),
        grid_state(*final(grid)) == with_offset(
            grid_state(*old(grid)),
            moved_offset(grid_state(*old(grid)), scroll),
        ),
{
    grid.scroll_display(
        match scroll {
            DisplayScroll::Delta(lines) => Scroll::Delta(lines),
            DisplayScroll::PageUp => Scroll::PageUp,
            DisplayScroll::PageDown => Scroll::PageDown,
            DisplayScroll::Top => Scroll::Top,
            DisplayScroll::Bottom => Scroll::Bottom,
        },
    );
}

/// What the emulator says of its grid.
pub fn read_grid(grid: &Grid<Cell>) -> (state: GridState)
    ensures
        state == grid_state(*grid),
{
    let (cursor_line, cursor_column) = cursor_point(grid);
    GridState {
        screen_lines: screen_lines(grid),
        columns: columns(grid),
        history_size: history_size(grid),
        display_offset: display_offset(grid),
        cursor_line,
        cursor_column,
    }
}

/// What is shown for a cell.
pub open spec fn shown(cell: (char, u16)) -> TerminalCell {
    TerminalCell {
        character: if cell.1 & terminal::BLANKING_FLAGS != 0 {
            ' '
        } else {
            cell.0
        },
    }
}

/// What is shown in a row of the display.
pub open spec fn shown_row(grid: Grid<Cell>, row: int) -> Seq<TerminalCell> {
    Seq::new(
        grid_state(grid).columns as nat,
        |column: int| shown(grid_lines(grid)[row - grid_state(grid).display_offset][column]),
    )
}

/// Whether the rows from `start` up to `end` can be read.
pub open spec fn rows_readable(state: GridState, start: int, end: int) -> bool {
    forall|row: int|
        start <= row < end ==> AlacrittyTerminalBuffer::row_error(state, row) is None
}

/// Whether this is what is wrong with the first row that cannot be read.
pub open spec fn first_row_error(state: GridState, start: int, end: int, error: AppError) -> bool {
    exists|row: int|
        {
            &&& start <= row < end
            &&& #[trigger] AlacrittyTerminalBuffer::row_error(state, row) == Some(error)
            &&& rows_readable(state, start, row)
        }
}

fn read_row(grid: &Grid<Cell>, line: i32, count: usize) -> (cells: Vec<TerminalCell>)
    requires
        AlacrittyTerminalBuffer::has_line(grid_state(*grid), line as int),
        count == grid_state(*grid).columns,
    ensures
        cells@ == shown_row(*grid, line + grid_state(*grid).display_offset),
{
    let mut cells: Vec<TerminalCell> = Vec::new();
    let mut column: usize = 0;
    while column < count
        invariant
            AlacrittyTerminalBuffer::has_line(grid_state(*grid), line as int),
            count == grid_state(*grid).columns,
            column <= count,
            cells@.len() == column,
            forall|i: int|
                0 <= i < column ==> #[trigger] cells@[i] == shown(
                    grid_lines(*grid)[line as int][i],
                ),
        decreases count - column,
    {
        let (character, flags) = cell_at(grid, line, column);
        cells.push(terminal::terminal_cell(character, flags));
        column += 1;
    }
    assert(cells@ =~= shown_row(*grid, line + grid_state(*grid).display_offset));
    cells
}

/// Reads rows of the display.
fn read_rows(buffer: &AlacrittyTerminalBuffer, grid: &Grid<Cell>, start: usize, end: usize) -> (rows:
    AppResult<Vec<Vec<TerminalCell>>>)
    requires
        start <= end,
        buffer.grid == grid_state(*grid),
    ensures
        rows is Ok == rows_readable(buffer.grid, start as int, end as int),
        rows matches Ok(read) ==> {
            &&& terminal::rows_of_length(read@, end - start, buffer.grid.columns as int)
            &&& forall|i: int|
                0 <= i < read@.len() ==> (#[trigger] read@[i])@ == shown_row(*grid, start + i)
        },
        rows matches Err(error) ==> first_row_error(buffer.grid, start as int, end as int, error),
{
    let lines = match buffer.display_lines(start, end) {
        Ok(lines) => lines,
        Err(error) => return Err(error),
    };
    let mut rows: Vec<Vec<TerminalCell>> = Vec::new();
    let mut index: usize = 0;
    while index < lines.len()
        invariant
            buffer.grid == grid_state(*grid),
            lines@.len() == end - start,
            index <= lines@.len(),
            rows@.len() == index,
            forall|i: int|
                0 <= i < lines@.len() ==> #[trigger] lines@[i] == start + i
                    - buffer.grid.display_offset,
            rows_readable(buffer.grid, start as int, end as int),
            forall|i: int|
                0 <= i < index ==> (#[trigger] rows@[i])@ == shown_row(*grid, start + i),
        decreases lines@.len() - index,
    {
        assert(AlacrittyTerminalBuffer::row_error(buffer.grid, start + index) is None);
        rows.push(read_row(grid, lines[index], buffer.grid.columns));
        index += 1;
    }
    Ok(rows)
}

impl AlacrittyTerminalBuffer {
    /// The cursor before a piece of output, and the effects of none of it.
    pub fn begin_output(&mut self, grid: &Grid<Cell>, byte_len: usize) -> (begun: AppResult<
        (CursorPosition, OutputEffects),
    >)
        ensures
            final(self).grid == grid_state(*grid),
            final(self).dirty_rows == old(self).dirty_rows,
            match Self::shown_cursor(grid_state(*grid)) {
                Ok(cursor) => begun is Ok && (begun->Ok_0).0 == cursor && (begun->Ok_0).1 == (
                OutputEffects {
                    byte_len,
                    screen_cell_len: 0,
                    requires_full_refresh: false,
                    may_change_visible_cells: false,
                    observed_parser_action: false,
                    needs_byte_len_refresh_estimate: false,
                }),
                Err(error) => begun is Err && begun->Err_0 == error,
            },
    {
        self.grid = read_grid(grid);
        match self.cursor_position() {
            Ok(cursor) => Ok((cursor, OutputEffects::new(byte_len))),
            Err(error) => Err(error),
        }
    }

    /// Moves the display and reports whether it stands elsewhere then. A display
    /// that moved is drawn anew.
    pub fn scroll_display(&mut self, grid: &mut Grid<Cell>, scroll: TerminalScroll) -> (changed:
        AppResult<bool>)
        requires
            old(self).wf(),
            grid_state(*old(grid)).screen_lines == old(self).grid.screen_lines,
            can_move(
                grid_state(*old(grid)),
                Self::display_scroll(grid_state(*old(grid)), scroll),
            ),
        ensures
            final(self).wf(),
            grid_lines(*final(grid)) == grid_lines(*old(grid)),
            grid_state(*final(grid)) == with_offset(
                grid_state(*old(grid)),
                moved_offset(
                    grid_state(*old(grid)),
                    Self::display_scroll(grid_state(*old(grid)), scroll),
                ),
            ),
            final(self).grid == grid_state(*final(grid)),
            changed is Ok,
            changed->Ok_0 == (grid_state(*old(grid)).display_offset != grid_state(
                *final(grid),
            ).display_offset),
            final(self).dirty_rows == (if changed->Ok_0 {
                terminal::all_rows(old(self).grid.screen_lines as int)
            } else {
                old(self).dirty_rows
            }),
    {
        self.grid = read_grid(grid);
        let request = self.scroll_request(scroll);
        move_display(grid, request);
        Ok(self.scrolled(display_offset(grid)))
    }

    /// Takes what a piece of output did: `before` is the cursor before it,
    /// `grid` the grid after it.
    pub fn ingest_output(
        &mut self,
        output_effects: OutputEffects,
        before: CursorPosition,
        grid: &Grid<Cell>,
    ) -> (result: AppResult<()>)
        requires
            old(self).wf(),
            grid_state(*grid).screen_lines == old(self).grid.screen_lines,
        ensures
            final(self).wf(),
            final(self).grid == grid_state(*grid),
            match Self::shown_cursor(grid_state(*grid)) {
                Err(error) => result == Err::<(), AppError>(error) && final(self).dirty_rows
                    == old(self).dirty_rows,
                Ok(after) => {
                    &&& result is Ok
                    &&& final(self).dirty_rows == Self::dirty_after_output(
                        old(self).dirty_rows,
                        grid_state(*grid),
                        output_effects.finished(),
                        before,
                        after,
                        old(self).grid.history_size != grid_state(*grid).history_size,
                    )
                },
            },
    {
        self.output_ingested(output_effects, before, read_grid(grid))
    }

    /// A viewport of what the display shows; nothing is left to be read again.
    /// Where there is no memory for it, the error says so.
    pub fn snapshot(&mut self, grid: &Grid<Cell>) -> (viewport: AppResult<TerminalViewport>)
        ensures
            final(self).grid == grid_state(*grid),
            snapshot_outcome(*grid, viewport),
            final(self).dirty_rows == left_by_snapshot(
                *grid,
                old(self).dirty_rows,
                match viewport {
                    Ok(_) => None,
                    Err(error) => Some(error),
                },
            ),
    {
        self.grid = read_grid(grid);
        let count = match Self::cell_count(self.grid.screen_lines, self.grid.columns) {
            Ok(count) => count,
            Err(error) => return Err(error),
        };
        let cells = match terminal::reserve_cells(count) {
            Ok(cells) => cells,
            Err(error) => return Err(error),
        };
        let rows = match read_rows(self, grid, 0, self.grid.screen_lines) {
            Ok(rows) => rows,
            Err(error) => return Err(error),
        };
        self.viewport_of_rows(cells, &rows)
    }
}

/// Whether a viewport shows what the display of a grid shows.
pub open spec fn shows(viewport: TerminalViewport, grid: Grid<Cell>, cursor: CursorPosition) -> bool {
    let state = grid_state(grid);
    &&& viewport.wf()
    &&& viewport.rows == state.screen_lines
    &&& viewport.columns == state.columns
    &&& viewport.cursor == cursor
    &&& viewport.scroll == AlacrittyTerminalBuffer::scroll_model(state)
    &&& forall|row: int|
        0 <= row < viewport.rows ==> #[trigger] viewport.row_cells(row) == shown_row(grid, row)
}

/// What reading all of a display gives: a viewport that shows it, or what is
/// wrong first. Memory may run out where there is any cell.
pub open spec fn snapshot_outcome(grid: Grid<Cell>, viewport: AppResult<TerminalViewport>) -> bool {
    let state = grid_state(grid);
    if state.screen_lines * state.columns > usize::MAX {
        viewport == Err::<TerminalViewport, AppError>(
            AppError::InvalidInput("terminal buffer dimensions are too large"),
        )
    } else if viewport == Err::<TerminalViewport, AppError>(
        AppError::InvalidInput("terminal buffer snapshot is too large"),
    ) {
        state.screen_lines * state.columns > 0
    } else if !rows_readable(state, 0, state.screen_lines as int) {
        viewport is Err && first_row_error(state, 0, state.screen_lines as int, viewport->Err_0)
    } else {
        match AlacrittyTerminalBuffer::shown_cursor(state) {
            Err(error) => viewport == Err::<TerminalViewport, AppError>(error),
            Ok(cursor) => viewport is Ok && shows(viewport->Ok_0, grid, cursor) && forall|row: int|
                0 <= row < state.screen_lines ==> #[trigger] (viewport->Ok_0).row_versions@[row]
                    == 0,
        }
    }
}

/// The rows that are still to be read again after all of a display was read, or not:
/// none are once the cells were read, though the cursor may be wrong then.
pub open spec fn left_by_snapshot(
    grid: Grid<Cell>,
    dirty: Option<DirtyRows>,
    error: Option<AppError>,
) -> Option<DirtyRows> {
    let state = grid_state(grid);
    if state.screen_lines * state.columns > usize::MAX || error == Some(
        AppError::InvalidInput("terminal buffer snapshot is too large"),
    ) || !rows_readable(state, 0, state.screen_lines as int) {
        dirty
    } else {
        None
    }
}

/// Whether the rows from `start` up to `end` of a viewport show what the display
/// shows, and its other rows what they showed before.
pub open spec fn rows_copied(
    before: TerminalViewport,
    after: TerminalViewport,
    grid: Grid<Cell>,
    start: int,
    end: int,
) -> bool {
    &&& after.wf()
    &&& after.rows == before.rows
    &&& after.columns == before.columns
    &&& forall|row: int|
        0 <= row < before.rows ==> #[trigger] after.row_cells(row) == (if start <= row < end {
            shown_row(grid, row)
        } else {
            before.row_cells(row)
        })
}

/// Whether this is what is wrong with the first row that cannot be read, and the
/// rows before it, and no others, were read.
pub open spec fn copied_up_to_error(
    grid: Grid<Cell>,
    before: TerminalViewport,
    after: TerminalViewport,
    start: int,
    end: int,
    error: AppError,
) -> bool {
    exists|row: int|
        {
            &&& start <= row < end
            &&& #[trigger] AlacrittyTerminalBuffer::row_error(grid_state(grid), row) == Some(error)
            &&& rows_readable(grid_state(grid), start, row)
            &&& rows_copied(before, after, grid, start, row)
        }
}

/// Reads rows of the display into a viewport. A row that cannot be read ends it;
/// the rows before it are read.
fn copy_snapshot_rows(
    buffer: &AlacrittyTerminalBuffer,
    viewport: &mut TerminalViewport,
    dirty_rows: DirtyRows,
    grid: &Grid<Cell>,
) -> (result: AppResult<()>)
    requires
        old(viewport).wf(),
        buffer.grid == grid_state(*grid),
        old(viewport).columns == buffer.grid.columns,
        dirty_rows.start < dirty_rows.end <= old(viewport).rows,
    ensures
        final(viewport).cursor == old(viewport).cursor,
        final(viewport).scroll == old(viewport).scroll,
        final(viewport).row_versions == old(viewport).row_versions,
        result is Ok == rows_readable(buffer.grid, dirty_rows.start as int, dirty_rows.end as int),
        result is Ok ==> rows_copied(
            *old(viewport),
            *final(viewport),
            *grid,
            dirty_rows.start as int,
            dirty_rows.end as int,
        ),
        result is Err ==> copied_up_to_error(
            *grid,
            *old(viewport),
            *final(viewport),
            dirty_rows.start as int,
            dirty_rows.end as int,
            result->Err_0,
        ),
{
    let mut row: usize = dirty_rows.start;
    let total = viewport.cells.len();
    let ghost first = *viewport;
    while row < dirty_rows.end
        invariant
            dirty_rows.start <= row <= dirty_rows.end,
            dirty_rows.end <= first.rows,
            buffer.grid == grid_state(*grid),
            first.columns == buffer.grid.columns,
            first == *old(viewport),
            total == viewport.cells@.len(),
            viewport.cursor == first.cursor,
            viewport.scroll == first.scroll,
            viewport.row_versions == first.row_versions,
            rows_readable(buffer.grid, dirty_rows.start as int, row as int),
            rows_copied(first, *viewport, *grid, dirty_rows.start as int, row as int),
        decreases dirty_rows.end - row,
    {
        let line = match AlacrittyTerminalBuffer::display_line(row, buffer.grid.display_offset) {
            Ok(line) => line,
            Err(error) => {
                assert(AlacrittyTerminalBuffer::row_error(buffer.grid, row as int) == Some(error));
                return Err(error);
            },
        };
        match AlacrittyTerminalBuffer::validate_display_line(line, &buffer.grid) {
            Ok(()) => {},
            Err(error) => {
                assert(AlacrittyTerminalBuffer::row_error(buffer.grid, row as int) == Some(error));
                return Err(error);
            },
        }
        let ghost before = *viewport;
        let columns = viewport.columns;
        proof {
            screen::lemma_row_bounds(row as int, viewport.rows as int, columns as int);
        }
        assert(row * columns + columns <= total);
        let cells = read_row(grid, line, columns);
        terminal::copy_row(&mut viewport.cells, row * columns, &cells);
        proof {
            assert forall|r: int| 0 <= r < first.rows implies #[trigger] viewport.row_cells(r) == (
            if dirty_rows.start <= r < row + 1 {
                shown_row(*grid, r)
            } else {
                first.row_cells(r)
            }) by {
                screen::lemma_row_bounds(r, viewport.rows as int, columns as int);
                if r < row {
                    screen::lemma_row_bounds(r, row as int, columns as int);
                    assert(viewport.row_cells(r) =~= before.row_cells(r));
                } else if r > row {
                    screen::lemma_row_bounds(row as int, r, columns as int);
                    assert(viewport.row_cells(r) =~= before.row_cells(r));
                } else {
                    assert(viewport.row_cells(r) =~= shown_row(*grid, r));
                }
            }
        }
        row += 1;
    }
    Ok(())
}

/// The range of rows that is read again, in an empty range where none is.
pub open spec fn dirty_bounds(rows: Option<DirtyRows>) -> (int, int) {
    match rows {
        Some(range) => (range.start as int, range.end as int),
        None => (0, 0),
    }
}

/// What bringing a viewport up to date does: `dirty` are the rows to be read
/// again before it and `left` those after it. A viewport of another shape is
/// read anew; otherwise the rows that have changed are, and their versions
/// grow.
pub open spec fn refreshed(
    grid: Grid<Cell>,
    dirty: Option<DirtyRows>,
    before: TerminalViewport,
    after: TerminalViewport,
    left: Option<DirtyRows>,
    result: AppResult<()>,
) -> bool {
    let state = grid_state(grid);
    let same_shape = before.rows == state.screen_lines && before.columns == state.columns;
    let (start, end) = dirty_bounds(dirty);
    &&& after.wf()
    &&& result is Ok ==> left is None
    &&& if state.screen_lines * state.columns > usize::MAX {
        &&& result == Err::<(), AppError>(
            AppError::InvalidInput("terminal buffer dimensions are too large"),
        )
        &&& after == before
        &&& left == dirty
    } else if !same_shape {
        &&& left == left_by_snapshot(
            grid,
            dirty,
            match result {
                Ok(_) => None,
                Err(error) => Some(error),
            },
        )
        &&& result is Err ==> after == before && snapshot_outcome(
            grid,
            Err::<TerminalViewport, AppError>(result->Err_0),
        )
        &&& result is Ok ==> {
            &&& rows_readable(state, 0, state.screen_lines as int)
            &&& AlacrittyTerminalBuffer::shown_cursor(state) is Ok
            &&& shows(after, grid, AlacrittyTerminalBuffer::shown_cursor(state)->Ok_0)
            &&& forall|row: int|
                0 <= row < state.screen_lines ==> #[trigger] after.row_versions@[row]
                    == screen::next_version(0)
        }
    } else if !rows_readable(state, start, end) {
        &&& result is Err
        &&& copied_up_to_error(grid, before, after, start, end, result->Err_0)
        &&& left == dirty
        &&& after.row_versions == before.row_versions
        &&& after.cursor == before.cursor
        &&& after.scroll == before.scroll
    } else {
        &&& rows_copied(before, after, grid, start, end)
        &&& left is None
        &&& match AlacrittyTerminalBuffer::shown_cursor(state) {
            Err(error) => {
                &&& result == Err::<(), AppError>(error)
                &&& after.row_versions == before.row_versions
                &&& after.cursor == before.cursor
                &&& after.scroll == before.scroll
            },
            Ok(cursor) => {
                &&& result is Ok
                &&& after.cursor == cursor
                &&& after.scroll == AlacrittyTerminalBuffer::scroll_model(state)
                &&& forall|row: int|
                    0 <= row < state.screen_lines ==> #[trigger] after.row_versions@[row] == (
                    if start <= row < end {
                        screen::next_version(before.row_versions@[row])
                    } else {
                        before.row_versions@[row]
                    })
            },
        }
    }
}

impl AlacrittyTerminalBuffer {
    /// Brings a viewport up to date: all of it where it has another shape than
    /// the screen, and otherwise the rows that have changed.
    pub fn snapshot_into(&mut self, viewport: &mut TerminalViewport, grid: &Grid<Cell>) -> (result:
        AppResult<()>)
        requires
            old(self).wf(),
            old(viewport).wf(),
            grid_state(*grid).screen_lines == old(self).grid.screen_lines,
        ensures
            final(self).wf(),
            final(self).grid == grid_state(*grid),
            refreshed(
                *grid,
                old(self).dirty_rows,
                *old(viewport),
                *final(viewport),
                final(self).dirty_rows,
                result,
            ),
    {
        self.grid = read_grid(grid);
        match self.snapshot_need(viewport) {
            Err(error) => return Err(error),
            Ok(SnapshotNeed::Everything) => {
                let rows = self.grid.screen_lines;
                let read = match self.snapshot(grid) {
                    Ok(read) => read,
                    Err(error) => return Err(error),
                };
                *viewport = read;
                let ghost whole = *viewport;
                let all = if rows == 0 {
                    None
                } else {
                    Some(RowRange { start: 0, end: rows })
                };
                viewport.set_changed_rows(all);
                assert forall|row: int| 0 <= row < viewport.rows implies #[trigger] viewport.row_cells(
                    row,
                ) == whole.row_cells(row) by {}
                return Ok(());
            },
            Ok(_) => {},
        }
        let changed_rows = match self.dirty_rows {
            Some(dirty_rows) => {
                match copy_snapshot_rows(self, viewport, dirty_rows, grid) {
                    Ok(()) => {},
                    Err(error) => return Err(error),
                }
                self.dirty_rows = None;
                Some(dirty_rows.range())
            },
            None => None,
        };
        let ghost copied = *viewport;
        match self.cursor_position() {
            Err(error) => Err(error),
            Ok(cursor) => {
                viewport.cursor = cursor;
                viewport.scroll = self.scroll_state();
                viewport.set_changed_rows(changed_rows);
                assert forall|row: int| 0 <= row < viewport.rows implies #[trigger] viewport.row_cells(
                    row,
                ) == copied.row_cells(row) by {}
                Ok(())
            },
        }
    }
}

/// A viewport that is brought up to date shows the display, as long as the rows
/// that were not to be read again showed it already.
pub proof fn law_refreshed_viewport_shows_the_display(
    grid: Grid<Cell>,
    dirty: Option<DirtyRows>,
    before: TerminalViewport,
    after: TerminalViewport,
    left: Option<DirtyRows>,
    result: AppResult<()>,
)
    requires
        refreshed(grid, dirty, before, after, left, result),
        result is Ok,
        before.rows == grid_state(grid).screen_lines && before.columns == grid_state(grid).columns
            ==> forall|row: int|
            0 <= row < before.rows && !(dirty_bounds(dirty).0 <= row < dirty_bounds(dirty).1)
                ==> #[trigger] before.row_cells(row) == shown_row(grid, row),
    ensures
        AlacrittyTerminalBuffer::shown_cursor(grid_state(grid)) is Ok,
        shows(after, grid, AlacrittyTerminalBuffer::shown_cursor(grid_state(grid))->Ok_0),
{
    let state = grid_state(grid);
    if before.rows == state.screen_lines && before.columns == state.columns {
        let (start, end) = dirty_bounds(dirty);
        assert forall|row: int| 0 <= row < after.rows implies #[trigger] after.row_cells(row)
            == shown_row(grid, row) by {
            if !(start <= row < end) {
                assert(before.row_cells(row) == shown_row(grid, row));
            }
        }
    }
}

/// The display never leaves the history.
pub proof fn law_display_stays_in_the_history(state: GridState, scroll: TerminalScroll)
    requires
        state.display_offset <= state.history_size,
    ensures
        0 <= moved_offset(state, AlacrittyTerminalBuffer::display_scroll(state, scroll))
            <= state.history_size,
{
}

/// Scrolling to a position ends there, or at the oldest line where the position
/// lies beyond it.
pub proof fn law_absolute_scroll_reaches_its_position(state: GridState, position: usize)
    requires
        state.display_offset <= state.history_size <= i32::MAX,
    ensures
        moved_offset(
            state,
            AlacrittyTerminalBuffer::display_scroll(state, TerminalScroll::Absolute(position)),
        ) == (if position < state.history_size {
            position as int
        } else {
            state.history_size as int
        }),
{
}

/// Scrolling back by as many lines returns the display, unless one of its ends was
/// met.
pub proof fn law_scrolling_back_returns(state: GridState, lines: i32)
    requires
        lines != i32::MIN,
        0 <= state.display_offset + lines <= state.history_size,
        state.display_offset <= state.history_size,
    ensures
        ({
            let there = with_offset(state, moved_offset(state, DisplayScroll::Delta(lines)));
            with_offset(there, moved_offset(there, DisplayScroll::Delta((-lines) as i32))) == state
        }),
{
}

/// A row of the display shows a line of the grid, as many above it as the display is moved up:
/// each cell with its own character, or a blank where one of the cell's flags says so.
pub proof fn law_display_row_shows_its_line(grid: Grid<Cell>, row: int, column: int)
    requires
        0 <= column < grid_state(grid).columns,
    ensures
        ({
            let line = grid_lines(grid)[row - grid_state(grid).display_offset];
            let flags = line[column].1;
            let blanked = flags & 0x0040 != 0 || flags & 0x0100 != 0 || flags & 0x0400 != 0;
            &&& shown_row(grid, row).len() == grid_state(grid).columns
            &&& blanked ==> shown_row(grid, row)[column].character == ' '
            &&& !blanked ==> shown_row(grid, row)[column].character == line[column].0
        }),
{
    let line = grid_lines(grid)[row - grid_state(grid).display_offset];
    terminal::law_blanking_flags(line[column].1);
}

/// A display that is moved up shows in each row what it showed so many rows further up.
pub proof fn law_moved_display_shifts_its_rows(
    before: Grid<Cell>,
    after: Grid<Cell>,
    row: int,
    lines: int,
)
    requires
        grid_lines(after) == grid_lines(before),
        grid_state(after).columns == grid_state(before).columns,
        grid_state(after).display_offset == grid_state(before).display_offset + lines,
    ensures
        shown_row(after, row + lines) == shown_row(before, row),
{
    assert(shown_row(after, row + lines) =~= shown_row(before, row));
}

/// A page moves the display by as many lines as the screen has, as far as the history goes; the
/// top is the oldest line and the bottom the newest.
pub proof fn law_pages_and_ends_are_reached(state: GridState)
    requires
        state.display_offset <= state.history_size,
    ensures
        moved_offset(state, DisplayScroll::Top) == state.history_size,
        moved_offset(state, DisplayScroll::Bottom) == 0,
        state.display_offset + state.screen_lines <= state.history_size ==> moved_offset(
            state,
            DisplayScroll::PageUp,
        ) == state.display_offset + state.screen_lines,
        state.display_offset + state.screen_lines > state.history_size ==> moved_offset(
            state,
            DisplayScroll::PageUp,
        ) == state.history_size,
        state.display_offset >= state.screen_lines ==> moved_offset(state, DisplayScroll::PageDown)
            == state.display_offset - state.screen_lines,
        state.display_offset < state.screen_lines ==> moved_offset(state, DisplayScroll::PageDown)
            == 0,
{
}

/// A viewport that was brought up to date counts the rows that were read as changed and no
/// others, and nothing is left to be read again.
pub proof fn law_read_rows_count_as_changed(
    grid: Grid<Cell>,
    dirty: Option<DirtyRows>,
    before: TerminalViewport,
    after: TerminalViewport,
    left: Option<DirtyRows>,
    result: AppResult<()>,
    row: int,
)
    requires
        refreshed(grid, dirty, before, after, left, result),
        result is Ok,
        before.rows == grid_state(grid).screen_lines,
        before.columns == grid_state(grid).columns,
        0 <= row < before.rows,
    ensures
        left is None,
        terminal::dirty(dirty, row) ==> after.row_versions@[row] != before.row_versions@[row],
        !terminal::dirty(dirty, row) ==> after.row_versions@[row] == before.row_versions@[row]
            && after.row_cells(row) == before.row_cells(row),
        terminal::dirty(dirty, row) ==> after.row_cells(row) == shown_row(grid, row),
{
}

/// A viewport is brought up to date wherever the rows that are to be read again have lines and
/// the cursor can be shown; where one of the rows has none they are all to be read again
/// still, and no row counts as changed.
pub proof fn law_readable_rows_are_brought_up_to_date(
    grid: Grid<Cell>,
    dirty: Option<DirtyRows>,
    before: TerminalViewport,
    after: TerminalViewport,
    left: Option<DirtyRows>,
    result: AppResult<()>,
)
    requires
        refreshed(grid, dirty, before, after, left, result),
        before.rows == grid_state(grid).screen_lines,
        before.columns == grid_state(grid).columns,
        before.rows * before.columns <= usize::MAX,
    ensures
        ({
            let state = grid_state(grid);
            let readable = rows_readable(state, dirty_bounds(dirty).0, dirty_bounds(dirty).1);
            &&& result is Ok <==> readable && AlacrittyTerminalBuffer::shown_cursor(state) is Ok
            &&& !readable ==> left == dirty && after.row_versions == before.row_versions
        }),
{
}

/// The display can be moved by lines as long as where it ends up is a number of the emulator's;
/// a page up needs room in a count, and the other moves need nothing.
pub proof fn law_moves_need_room_for_their_sums(state: GridState, lines: i32)
    ensures
        can_move(state, DisplayScroll::Delta(lines)) <==> state.display_offset <= i32::MAX
            && state.display_offset + lines <= i32::MAX,
        can_move(state, DisplayScroll::PageUp) <==> state.display_offset + state.screen_lines
            <= usize::MAX,
        can_move(state, DisplayScroll::PageDown),
        can_move(state, DisplayScroll::Top),
        can_move(state, DisplayScroll::Bottom),
{
}

/// Reading all of a display gives a viewport that shows it, unless its size is too large, memory
/// runs out, a row has no line or the cursor cannot be shown; no row of it counts as changed
/// yet.
pub proof fn law_whole_display_is_read(grid: Grid<Cell>, viewport: AppResult<TerminalViewport>, row: int)
    requires
        snapshot_outcome(grid, viewport),
    ensures
        ({
            let state = grid_state(grid);
            let sized = state.screen_lines * state.columns <= usize::MAX;
            let readable = rows_readable(state, 0, state.screen_lines as int);
            let cursor = AlacrittyTerminalBuffer::shown_cursor(state);
            let out_of_memory = viewport == Err::<TerminalViewport, AppError>(
                AppError::InvalidInput("terminal buffer snapshot is too large"),
            );
            &&& viewport is Ok ==> sized && readable && cursor is Ok && shows(
                viewport->Ok_0,
                grid,
                cursor->Ok_0,
            )
            &&& viewport is Ok && 0 <= row < state.screen_lines ==> (viewport->Ok_0).row_cells(row)
                == shown_row(grid, row) && (viewport->Ok_0).row_versions@[row] == 0
            &&& sized && readable && cursor is Ok && !out_of_memory ==> viewport is Ok
            &&& state.screen_lines * state.columns == 0 && readable && cursor is Ok
                ==> viewport is Ok
        }),
{
}

/// Where a row cannot be read, the rows before it are read, the first of those that cannot be
/// says what is wrong, and the others stay as they were.
pub proof fn law_rows_before_a_bad_one_are_read(
    grid: Grid<Cell>,
    before: TerminalViewport,
    after: TerminalViewport,
    start: int,
    end: int,
    error: AppError,
)
    requires
        copied_up_to_error(grid, before, after, start, end, error),
    ensures
        exists|bad: int|
            {
                &&& start <= bad < end
                &&& #[trigger] AlacrittyTerminalBuffer::row_error(grid_state(grid), bad) == Some(
                    error,
                )
                &&& forall|row: int|
                    start <= row < bad ==> AlacrittyTerminalBuffer::row_error(
                        grid_state(grid),
                        row,
                    ) is None
                &&& forall|row: int|
                    0 <= row < before.rows && start <= row < bad ==> #[trigger] after.row_cells(row)
                        == shown_row(grid, row)
                &&& forall|row: int|
                    0 <= row < before.rows && !(start <= row < bad) ==> #[trigger] after.row_cells(
                        row,
                    ) == before.row_cells(row)
            },
{
    let bad = choose|bad: int|
        {
            &&& start <= bad < end
            &&& #[trigger] AlacrittyTerminalBuffer::row_error(grid_state(grid), bad) == Some(error)
            &&& rows_readable(grid_state(grid), start, bad)
            &&& rows_copied(before, after, grid, start, bad)
        };
    assert(AlacrittyTerminalBuffer::row_error(grid_state(grid), bad) == Some(error));
}

/// A viewport of another shape that cannot be read anew stays as it is. Rows are to be read again
/// where the cells could not be read, and none are once they were.
pub proof fn law_failed_reading_keeps_the_viewport(
    grid: Grid<Cell>,
    dirty: Option<DirtyRows>,
    before: TerminalViewport,
    after: TerminalViewport,
    left: Option<DirtyRows>,
    result: AppResult<()>,
)
    requires
        refreshed(grid, dirty, before, after, left, result),
        before.rows != grid_state(grid).screen_lines || before.columns != grid_state(grid).columns,
    ensures
        result is Err ==> after == before,
        result is Ok ==> left is None,
        result == Err::<(), AppError>(
            AppError::InvalidInput("terminal buffer snapshot is too large"),
        ) ==> left == dirty,
        !rows_readable(grid_state(grid), 0, grid_state(grid).screen_lines as int) ==> left == dirty,
        grid_state(grid).screen_lines * grid_state(grid).columns > usize::MAX ==> left == dirty
            && result is Err,
{
}

} // verus!
