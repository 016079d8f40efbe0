//! Tracking of what terminal output changes on the screen.
//!
//! The emulator itself keeps the grid of characters; what is decided here is
//! which rows have to be read again, and how they get into a viewport.

use vstd::prelude::*;

use alacritty_terminal::term::cell::Flags;

use crate::domain::rows::RowRange;
use crate::domain::terminal::{
    self as screen, CursorPosition, TerminalCell, TerminalScroll, TerminalScrollState,
    TerminalSize, TerminalViewport,
};
use crate::error::{AppError, AppResult};
use crate::num;

verus! {

/// What the emulator says of its grid.
#[derive(Clone, Copy, Debug, PartialEq, Eq, Structural)]
pub struct GridState {
    pub screen_lines: usize,
    pub columns: usize,
    /// Lines above the screen.
    pub history_size: usize,
    /// How far the display is moved up into the history.
    pub display_offset: usize,
    pub cursor_line: i32,
    pub cursor_column: usize,
}

/// Rows that have to be read again.
#[derive(Clone, Copy, Debug, PartialEq, Eq, Structural)]
pub struct DirtyRows {
    pub start: usize,
    pub end: usize,
}

impl DirtyRows {
    pub open spec fn has(self, row: int) -> bool {
        self.start <= row < self.end
    }

    pub fn all(rows: usize) -> (dirty: Option<Self>)
        ensures
            dirty == (if rows == 0 {
                None
            } else {
                Some(DirtyRows { start: 0, end: rows })
            }),
    {
        if rows == 0 {
            None
        } else {
            Some(DirtyRows { start: 0, end: rows })
        }
    }

    /// The rows from `start` to `end`, both of them, as far as they exist.
    pub open spec fn inclusive(rows: int, start: int, end: int) -> Option<DirtyRows> {
        if rows == 0 {
            None
        } else {
            Some(
                DirtyRows {
                    start: num::min_int(start, rows - 1) as usize,
                    end: (num::min_int(end, rows - 1) + 1) as usize,
                },
            )
        }
    }

    pub fn from_inclusive(rows: usize, start: usize, end: usize) -> (dirty: Option<Self>)
        ensures
            dirty == Self::inclusive(rows as int, start as int, end as int),
    {
        if rows == 0 {
            return None;
        }
        let last_row = rows.saturating_sub(1);
        Some(
            DirtyRows {
                start: num::min_usize(start, last_row),
                end: num::min_usize(end, last_row).saturating_add(1),
            },
        )
    }

    /// The smallest range that holds both.
    pub open spec fn merged(self, other: Self) -> Self {
        DirtyRows {
            start: num::min_int(self.start as int, other.start as int) as usize,
            end: num::max_int(self.end as int, other.end as int) as usize,
        }
    }

    pub fn merge(self, other: Self) -> (merged: Self)
        ensures
            merged == self.merged(other),
    {
        DirtyRows {
            start: num::min_usize(self.start, other.start),
            end: num::max_usize(self.end, other.end),
        }
    }

    pub fn range(self) -> (range: RowRange)
        ensures
            range == (RowRange { start: self.start, end: self.end }),
    {
        RowRange { start: self.start, end: self.end }
    }
}

/// What the parser asks the emulator to do, other than to show a character.
#[derive(Clone, Copy, Debug, PartialEq, Eq, Structural)]
pub enum TerminalAction {
    SetTitle,
    SetCursorStyle,
    SetCursorShape,
    Goto,
    GotoLine,
    GotoCol,
    InsertBlank,
    MoveUp,
    MoveDown,
    IdentifyTerminal,
    DeviceStatus,
    MoveForward,
    MoveBackward,
    MoveDownAndCr,
    MoveUpAndCr,
    PutTab,
    Backspace,
    CarriageReturn,
    Linefeed,
    Bell,
    Substitute,
    Newline,
    SetHorizontalTabstop,
    ScrollUp,
    ScrollDown,
    InsertBlankLines,
    DeleteLines,
    EraseChars,
    DeleteChars,
    MoveBackwardTabs,
    MoveForwardTabs,
    SaveCursorPosition,
    RestoreCursorPosition,
    ClearLine,
    ClearScreen,
    ClearTabs,
    SetTabs,
    ResetState,
    ReverseIndex,
    TerminalAttribute,
    SetMode,
    UnsetMode,
    ReportMode,
    SetPrivateMode,
    UnsetPrivateMode,
    ReportPrivateMode,
    SetScrollingRegion,
    SetKeypadApplicationMode,
    UnsetKeypadApplicationMode,
    SetActiveCharset,
    ConfigureCharset,
    SetColor,
    DynamicColorSequence,
    ResetColor,
    ClipboardStore,
    ClipboardLoad,
    Decaln,
    PushTitle,
    PopTitle,
    TextAreaSizePixels,
    TextAreaSizeChars,
    SetHyperlink,
    SetMouseCursorIcon,
    ReportKeyboardMode,
    PushKeyboardMode,
    PopKeyboardModes,
    SetKeyboardMode,
    SetModifyOtherKeys,
    ReportModifyOtherKeys,
    SetScp,
}

/// What an action can do to the screen.
#[derive(Clone, Copy, Debug, PartialEq, Eq, Structural)]
pub enum ActionEffect {
    /// It changes cells near the cursor.
    Local,
    /// It moves the cursor and nothing else.
    CursorOnly,
    /// It changes nothing that a window shows.
    RenderIgnored,
    /// It may change anything.
    NonLocal,
}

/// What an action can do to the screen.
pub open spec fn effect_of(action: TerminalAction) -> ActionEffect {
    match action {
        TerminalAction::PutTab
        | TerminalAction::Backspace
        | TerminalAction::CarriageReturn
        | TerminalAction::Linefeed => ActionEffect::Local,
        TerminalAction::Goto
        | TerminalAction::GotoLine
        | TerminalAction::GotoCol
        | TerminalAction::MoveUp
        | TerminalAction::MoveDown
        | TerminalAction::MoveForward
        | TerminalAction::MoveBackward
        | TerminalAction::MoveDownAndCr
        | TerminalAction::MoveUpAndCr => ActionEffect::CursorOnly,
        TerminalAction::SetTitle
        | TerminalAction::SetCursorStyle
        | TerminalAction::SetCursorShape
        | TerminalAction::TerminalAttribute
        | TerminalAction::SetColor
        | TerminalAction::DynamicColorSequence
        | TerminalAction::ResetColor
        | TerminalAction::SetHyperlink => ActionEffect::RenderIgnored,
        _ => ActionEffect::NonLocal,
    }
}

pub fn action_effect(action: TerminalAction) -> (effect: ActionEffect)
    ensures
        effect == effect_of(action),
        effect is Local <==> (action is PutTab || action is Backspace || action is CarriageReturn
            || action is Linefeed),
        effect is CursorOnly <==> (action is Goto || action is GotoLine || action is GotoCol
            || action is MoveUp || action is MoveDown || action is MoveForward
            || action is MoveBackward || action is MoveDownAndCr || action is MoveUpAndCr),
        effect is RenderIgnored <==> (action is SetTitle || action is SetCursorStyle
            || action is SetCursorShape || action is TerminalAttribute || action is SetColor
            || action is DynamicColorSequence || action is ResetColor || action is SetHyperlink),
{
    match action {
        TerminalAction::PutTab
        | TerminalAction::Backspace
        | TerminalAction::CarriageReturn
        | TerminalAction::Linefeed => ActionEffect::Local,
        TerminalAction::Goto
        | TerminalAction::GotoLine
        | TerminalAction::GotoCol
        | TerminalAction::MoveUp
        | TerminalAction::MoveDown
        | TerminalAction::MoveForward
        | TerminalAction::MoveBackward
        | TerminalAction::MoveDownAndCr
        | TerminalAction::MoveUpAndCr => ActionEffect::CursorOnly,
        TerminalAction::SetTitle
        | TerminalAction::SetCursorStyle
        | TerminalAction::SetCursorShape
        | TerminalAction::TerminalAttribute
        | TerminalAction::SetColor
        | TerminalAction::DynamicColorSequence
        | TerminalAction::ResetColor
        | TerminalAction::SetHyperlink => ActionEffect::RenderIgnored,
        _ => ActionEffect::NonLocal,
    }
}

/// What a piece of output did, as far as it was followed.
#[derive(Clone, Copy, Debug, PartialEq, Eq, Structural)]
pub struct OutputEffects {
    pub byte_len: usize,
    /// Cells that its characters took.
    pub screen_cell_len: usize,
    pub requires_full_refresh: bool,
    pub may_change_visible_cells: bool,
    pub observed_parser_action: bool,
    /// Cells changed that `screen_cell_len` does not count.
    pub needs_byte_len_refresh_estimate: bool,
}

impl OutputEffects {
    pub fn new(byte_len: usize) -> (effects: Self)
        ensures
            effects == (OutputEffects {
                byte_len,
                screen_cell_len: 0,
                requires_full_refresh: false,
                may_change_visible_cells: false,
                observed_parser_action: false,
                needs_byte_len_refresh_estimate: false,
            }),
    {
        OutputEffects {
            byte_len,
            screen_cell_len: 0,
            requires_full_refresh: false,
            may_change_visible_cells: false,
            observed_parser_action: false,
            needs_byte_len_refresh_estimate: false,
        }
    }

    /// Plain characters, one cell each.
    pub fn local(byte_len: usize) -> (effects: Self)
        ensures
            effects == (OutputEffects {
                byte_len,
                screen_cell_len: byte_len,
                requires_full_refresh: false,
                may_change_visible_cells: true,
                observed_parser_action: true,
                needs_byte_len_refresh_estimate: false,
            }),
    {
        OutputEffects {
            byte_len,
            screen_cell_len: byte_len,
            requires_full_refresh: false,
            may_change_visible_cells: true,
            observed_parser_action: true,
            needs_byte_len_refresh_estimate: false,
        }
    }

    /// Output that may have changed anything.
    pub fn non_local(byte_len: usize) -> (effects: Self)
        ensures
            effects == (OutputEffects {
                byte_len,
                screen_cell_len: 0,
                requires_full_refresh: true,
                may_change_visible_cells: false,
                observed_parser_action: true,
                needs_byte_len_refresh_estimate: false,
            }),
    {
        OutputEffects {
            byte_len,
            screen_cell_len: 0,
            requires_full_refresh: true,
            may_change_visible_cells: false,
            observed_parser_action: true,
            needs_byte_len_refresh_estimate: false,
        }
    }

    /// Output that moved the cursor and nothing else.
    pub fn cursor_only(byte_len: usize) -> (effects: Self)
        ensures
            effects == (OutputEffects {
                byte_len,
                screen_cell_len: 0,
                requires_full_refresh: false,
                may_change_visible_cells: false,
                observed_parser_action: true,
                needs_byte_len_refresh_estimate: false,
            }),
    {
        OutputEffects {
            byte_len,
            screen_cell_len: 0,
            requires_full_refresh: false,
            may_change_visible_cells: false,
            observed_parser_action: true,
            needs_byte_len_refresh_estimate: false,
        }
    }

    /// The effects once all output is parsed: bytes that made the parser do
    /// nothing may yet have changed anything.
    pub open spec fn finished(self) -> Self {
        if self.byte_len == 0 || self.observed_parser_action {
            self
        } else {
            OutputEffects {
                byte_len: self.byte_len,
                screen_cell_len: 0,
                requires_full_refresh: true,
                may_change_visible_cells: false,
                observed_parser_action: true,
                needs_byte_len_refresh_estimate: false,
            }
        }
    }

    pub fn finish(self) -> (effects: Self)
        ensures
            effects == self.finished(),
    {
        if self.byte_len == 0 || self.observed_parser_action {
            self
        } else {
            Self::non_local(self.byte_len)
        }
    }

    /// The effects after one more action.
    pub open spec fn with_action(self, action: TerminalAction) -> Self {
        match effect_of(action) {
            ActionEffect::Local => OutputEffects {
                observed_parser_action: true,
                may_change_visible_cells: true,
                needs_byte_len_refresh_estimate: true,
                ..self
            },
            ActionEffect::CursorOnly => OutputEffects { observed_parser_action: true, ..self },
            ActionEffect::RenderIgnored => OutputEffects { observed_parser_action: true, ..self },
            ActionEffect::NonLocal => OutputEffects {
                observed_parser_action: true,
                requires_full_refresh: true,
                ..self
            },
        }
    }

    pub fn note_action(&mut self, action: TerminalAction)
        ensures
            *final(self) == old(self).with_action(action),
    {
        self.observed_parser_action = true;
        match action_effect(action) {
            ActionEffect::Local => {
                self.may_change_visible_cells = true;
                self.needs_byte_len_refresh_estimate = true;
            },
            ActionEffect::CursorOnly => {},
            ActionEffect::RenderIgnored => {},
            ActionEffect::NonLocal => {
                self.requires_full_refresh = true;
            },
        }
    }

    /// Notes a character that took so many cells.
    pub fn note_input(&mut self, screen_cell_len: usize)
        ensures
            *final(self) == (OutputEffects {
                observed_parser_action: true,
                may_change_visible_cells: true,
                screen_cell_len: num::min_int(
                    old(self).screen_cell_len + screen_cell_len,
                    usize::MAX as int,
                ) as usize,
                ..*old(self)
            }),
    {
        self.observed_parser_action = true;
        self.may_change_visible_cells = true;
        self.screen_cell_len = self.screen_cell_len.saturating_add(screen_cell_len);
    }

    /// How many cells the output may have gone over.
    pub open spec fn cells_gone_over(self) -> usize {
        if self.needs_byte_len_refresh_estimate {
            self.byte_len
        } else {
            self.screen_cell_len
        }
    }

    pub fn refresh_cell_len(self) -> (cells: usize)
        ensures
            cells == self.cells_gone_over(),
    {
        if self.needs_byte_len_refresh_estimate {
            self.byte_len
        } else {
            self.screen_cell_len
        }
    }
}

/// Where the emulator writes next.
#[derive(Clone, Copy, Debug, PartialEq, Eq, Structural)]
pub struct InputPoint {
    pub line: i32,
    pub column: usize,
    /// Whether the next character goes to the next line.
    pub needs_wrap: bool,
}

/// How many cells one character took, by where the emulator wrote before and
/// writes after it, on lines of `columns` cells.
pub open spec fn input_cells(before: InputPoint, after: InputPoint, columns: int) -> int {
    let before_column = num::min_int(before.column as int, columns - 1);
    let after_column = num::min_int(after.column as int, columns - 1);
    if columns == 0 {
        0
    } else if after.line > before.line {
        let cells = num::min_int((after.line - before.line) * columns, usize::MAX as int);
        num::min_int(cells + after_column, usize::MAX as int) - before_column
    } else if after.line == before.line && after.needs_wrap && after_column >= before_column {
        columns - before_column
    } else if after.line == before.line && after_column > before_column {
        after_column - before_column
    } else if before.needs_wrap {
        num::min_int(columns - before_column + after_column, usize::MAX as int)
    } else if after.line == before.line {
        1
    } else {
        0
    }
}

pub fn input_screen_cell_len(before: InputPoint, after: InputPoint, columns: usize) -> (cells: usize)
    ensures
        cells == input_cells(before, after, columns as int),
{
    if columns == 0 {
        return 0;
    }
    let last_column = columns.saturating_sub(1);
    let before_column = num::min_usize(before.column, last_column);
    let after_column = num::min_usize(after.column, last_column);
    if after.line > before.line {
        let line_delta = (after.line as i64 - before.line as i64) as usize;
        assert(line_delta * columns >= columns) by (nonlinear_arith)
            requires
                line_delta >= 1,
                columns >= 0,
        ;
        return num::saturating_mul_usize(line_delta, columns).saturating_add(
            after_column,
        ).saturating_sub(before_column);
    }
    if after.line == before.line && after.needs_wrap && after_column >= before_column {
        return columns.saturating_sub(before_column);
    }
    if after.line == before.line && after_column > before_column {
        return after_column - before_column;
    }
    if before.needs_wrap {
        return columns.saturating_sub(before_column).saturating_add(after_column);
    }
    if after.line == before.line {
        1
    } else {
        0
    }
}

/// The bits of a cell's flags that keep its character from being shown: the
/// spacers beside a wide character, and hidden text.
pub const BLANKING_FLAGS: u16 = 0x0540;

/// `Flags::intersects`, between sets that `Flags::from_bits_truncate` makes: whether
/// the bits have one in common. Each of the lowest 15 bits stands for a flag.
#[verifier::external_body]
fn flags_intersect(bits: u16, mask: u16) -> (common: bool)
    requires
        mask <= 0x7fff,
    ensures
        common == (bits & mask != 0),
{
    Flags::from_bits_truncate(bits).intersects(Flags::from_bits_truncate(mask))
}

/// What is shown for a cell of the emulator.
pub fn terminal_cell(character: char, flags: u16) -> (cell: TerminalCell)
    ensures
        cell.character == (if flags & BLANKING_FLAGS != 0 {
            ' '
        } else {
            character
        }),
{
    if flags_intersect(flags, BLANKING_FLAGS) {
        TerminalCell::new(' ')
    } else {
        TerminalCell::new(character)
    }
}

/// How the emulator's display is to be moved.
#[derive(Clone, Copy, Debug, PartialEq, Eq, Structural)]
pub enum DisplayScroll {
    Delta(i32),
    PageUp,
    PageDown,
    Top,
    Bottom,
}

/// The way from one display offset to another, as far as an `i32` goes.
pub fn scroll_delta(current: usize, target: usize) -> (delta: i32)
    ensures
        delta == num::clamped(target - current),
{
    if target >= current {
        num::i32_from_usize(target - current)
    } else {
        let back = current - target;
        if back > i32::MAX as usize {
            i32::MIN
        } else {
            -(back as i32)
        }
    }
}

/// The rows that a viewport has to read again.
#[derive(Clone, Copy, Debug, PartialEq, Eq, Structural)]
pub enum SnapshotNeed {
    /// The viewport has another shape: everything.
    Everything,
    Rows(DirtyRows),
    Nothing,
}

/// What is known of the emulator's grid, and which of its rows changed since
/// they were last read.
#[derive(Clone, Copy, Debug, PartialEq, Eq, Structural)]
pub struct AlacrittyTerminalBuffer {
    pub grid: GridState,
    pub dirty_rows: Option<DirtyRows>,
}

/// Whether a row is among the rows to be read again.
pub open spec fn dirty(rows: Option<DirtyRows>, row: int) -> bool {
    rows matches Some(range) && range.has(row)
}

/// The rows to be read again after those from `start` to `end` changed too.
pub open spec fn with_dirty_range(
    rows: Option<DirtyRows>,
    screen_lines: int,
    start: int,
    end: int,
) -> Option<DirtyRows> {
    match DirtyRows::inclusive(screen_lines, start, end) {
        None => rows,
        Some(range) => match rows {
            Some(existing) => Some(existing.merged(range)),
            None => Some(range),
        },
    }
}

pub open spec fn all_rows(screen_lines: int) -> Option<DirtyRows> {
    if screen_lines == 0 {
        None
    } else {
        Some(DirtyRows { start: 0, end: screen_lines as usize })
    }
}

/// Whether `cells` more cells reach the end of the screen from the cursor.
pub open spec fn reaches_bottom(cells: int, before: CursorPosition, rows: int, columns: int) -> bool {
    &&& rows > 0
    &&& columns > 0
    &&& before.row < rows
    &&& cells >= num::min_int((rows - before.row) * columns, usize::MAX as int) - num::min_int(
        before.column as int,
        columns - 1,
    )
}

/// Whether output may have changed more than the rows that the cursor went
/// over.
pub open spec fn needs_full_refresh(
    effects: OutputEffects,
    before: CursorPosition,
    after: CursorPosition,
    rows: int,
    columns: int,
) -> bool {
    &&& rows > 0
    &&& columns > 0
    &&& {
        ||| effects.requires_full_refresh
        ||| effects.may_change_visible_cells && (after.row < before.row || before.row >= rows
            || reaches_bottom(effects.cells_gone_over() as int, before, rows, columns))
    }
}

impl AlacrittyTerminalBuffer {
    /// Dirty rows are rows of the screen.
    pub open spec fn wf(&self) -> bool {
        self.dirty_rows matches Some(rows) ==> rows.start < rows.end <= self.grid.screen_lines
    }

    /// A grid that was never read.
    pub fn new(size: TerminalSize) -> (buffer: Self)
        ensures
            buffer.wf(),
            buffer.grid == (GridState {
                screen_lines: size.rows as usize,
                columns: size.columns as usize,
                history_size: 0,
                display_offset: 0,
                cursor_line: 0,
                cursor_column: 0,
            }),
            buffer.dirty_rows == all_rows(size.rows as int),
    {
        let screen_lines = size.rows as usize;
        AlacrittyTerminalBuffer {
            grid: GridState {
                screen_lines,
                columns: size.columns as usize,
                history_size: 0,
                display_offset: 0,
                cursor_line: 0,
                cursor_column: 0,
            },
            dirty_rows: DirtyRows::all(screen_lines),
        }
    }

    pub fn cell_count(rows: usize, columns: usize) -> (count: AppResult<usize>)
        ensures
            count == (if rows * columns <= usize::MAX {
                Ok::<usize, AppError>((rows * columns) as usize)
            } else {
                Err(AppError::InvalidInput("terminal buffer dimensions are too large"))
            }),
    {
        match rows.checked_mul(columns) {
            Some(count) => Ok(count),
            None => Err(AppError::InvalidInput("terminal buffer dimensions are too large")),
        }
    }

    /// The grid's line that a row of the display shows; lines of the history
    /// are negative.
    pub fn display_line(row: usize, display_offset: usize) -> (line: AppResult<i32>)
        ensures
            line == (if row > i32::MAX {
                Err(AppError::InvalidInput("terminal row index is too large"))
            } else if display_offset > i32::MAX {
                Err(AppError::InvalidInput("terminal display offset is too large"))
            } else {
                Ok::<i32, AppError>((row - display_offset) as i32)
            }),
    {
        if row > i32::MAX as usize {
            return Err(AppError::InvalidInput("terminal row index is too large"));
        }
        if display_offset > i32::MAX as usize {
            return Err(AppError::InvalidInput("terminal display offset is too large"));
        }
        Ok(row as i32 - display_offset as i32)
    }

    /// Whether a line is one of the grid's.
    pub open spec fn has_line(grid: GridState, line: int) -> bool {
        -grid.history_size <= line < grid.screen_lines
    }

    pub fn validate_display_line(line: i32, grid: &GridState) -> (valid: AppResult<()>)
        ensures
            valid == (if Self::has_line(*grid, line as int) {
                Ok::<(), AppError>(())
            } else {
                Err(AppError::InvalidState("terminal display row is outside grid"))
            }),
    {
        let outside = if line < 0 {
            (-(line as i64)) as usize > grid.history_size
        } else {
            line as usize >= grid.screen_lines
        };
        if outside {
            return Err(AppError::InvalidState("terminal display row is outside grid"));
        }
        Ok(())
    }

    /// The error, if any, of reading a row of the display.
    pub open spec fn row_error(grid: GridState, row: int) -> Option<AppError> {
        if row > i32::MAX {
            Some(AppError::InvalidInput("terminal row index is too large"))
        } else if grid.display_offset > i32::MAX {
            Some(AppError::InvalidInput("terminal display offset is too large"))
        } else if !Self::has_line(grid, row - grid.display_offset) {
            Some(AppError::InvalidState("terminal display row is outside grid"))
        } else {
            None
        }
    }

    /// The lines of the grid that rows of the display show, in order; the
    /// error of the first row that has none.
    pub fn display_lines(&self, start: usize, end: usize) -> (lines: AppResult<Vec<i32>>)
        requires
            start <= end,
        ensures
            lines matches Ok(found) ==> {
                &&& found@.len() == end - start
                &&& forall|i: int|
                    0 <= i < found@.len() ==> #[trigger] found@[i] == start + i
                        - self.grid.display_offset
                &&& forall|row: int| start <= row < end ==> Self::row_error(self.grid, row) is None
            },
            lines matches Err(error) ==> exists|row: int|
                {
                    &&& start <= row < end
                    &&& #[trigger] Self::row_error(self.grid, row) == Some(error)
                    &&& forall|r: int| start <= r < row ==> Self::row_error(self.grid, r) is None
                },
    {
        let mut lines: Vec<i32> = Vec::new();
        let mut row: usize = start;
        while row < end
            invariant
                start <= row <= end,
                lines@.len() == row - start,
                forall|i: int|
                    0 <= i < lines@.len() ==> #[trigger] lines@[i] == start + i
                        - self.grid.display_offset,
                forall|r: int| start <= r < row ==> Self::row_error(self.grid, r) is None,
            decreases end - row,
        {
            match Self::display_line(row, self.grid.display_offset) {
                Err(error) => {
                    assert(Self::row_error(self.grid, row as int) == Some(error));
                    return Err(error);
                },
                Ok(line) => match Self::validate_display_line(line, &self.grid) {
                    Err(error) => {
                        assert(Self::row_error(self.grid, row as int) == Some(error));
                        return Err(error);
                    },
                    Ok(()) => {
                        assert(Self::row_error(self.grid, row as int) is None);
                        lines.push(line);
                    },
                },
            }
            row += 1;
        }
        Ok(lines)
    }

    /// Where the cursor is on the display; nowhere on it while the display
    /// shows the history.
    pub open spec fn shown_cursor(grid: GridState) -> AppResult<CursorPosition> {
        if grid.display_offset != 0 {
            Ok(CursorPosition { row: usize::MAX, column: usize::MAX })
        } else if grid.cursor_line < 0 {
            Err(AppError::InvalidState("terminal cursor row is negative"))
        } else {
            Ok(CursorPosition { row: grid.cursor_line as usize, column: grid.cursor_column })
        }
    }

    pub fn cursor_position(&self) -> (cursor: AppResult<CursorPosition>)
        ensures
            cursor == Self::shown_cursor(self.grid),
    {
        if self.grid.display_offset != 0 {
            return Ok(CursorPosition::new(usize::MAX, usize::MAX));
        }
        if self.grid.cursor_line < 0 {
            return Err(AppError::InvalidState("terminal cursor row is negative"));
        }
        Ok(CursorPosition::new(self.grid.cursor_line as usize, self.grid.cursor_column))
    }

    /// Where the display stands: at `max_position` it shows the newest lines.
    pub open spec fn scroll_model(grid: GridState) -> TerminalScrollState {
        TerminalScrollState {
            position: (grid.history_size - num::min_int(
                grid.display_offset as int,
                grid.history_size as int,
            )) as usize,
            max_position: grid.history_size,
            page_len: grid.screen_lines,
            total_len: num::min_int(grid.history_size + grid.screen_lines, usize::MAX as int) as usize,
        }
    }

    pub fn scroll_state(&self) -> (state: TerminalScrollState)
        ensures
            state == Self::scroll_model(self.grid),
    {
        let history_size = self.grid.history_size;
        let display_offset = num::min_usize(self.grid.display_offset, history_size);
        let rows = self.grid.screen_lines;
        TerminalScrollState::new(
            history_size.saturating_sub(display_offset),
            history_size,
            rows,
            history_size.saturating_add(rows),
        )
    }

    pub fn mark_all_dirty(&mut self)
        ensures
            final(self).wf(),
            final(self).grid == old(self).grid,
            final(self).dirty_rows == all_rows(old(self).grid.screen_lines as int),
    {
        self.dirty_rows = DirtyRows::all(self.grid.screen_lines);
    }

    pub fn mark_dirty_range(&mut self, start: usize, end: usize)
        requires
            old(self).wf(),
            start <= end,
        ensures
            final(self).wf(),
            final(self).grid == old(self).grid,
            final(self).dirty_rows == with_dirty_range(
                old(self).dirty_rows,
                old(self).grid.screen_lines as int,
                start as int,
                end as int,
            ),
    {
        let rows = match DirtyRows::from_inclusive(self.grid.screen_lines, start, end) {
            Some(rows) => rows,
            None => return ,
        };
        self.dirty_rows =
        match self.dirty_rows {
            Some(existing) => Some(existing.merge(rows)),
            None => Some(rows),
        };
    }

    pub fn cursor_requires_full_refresh(
        before: CursorPosition,
        after: CursorPosition,
        rows: usize,
    ) -> (full: bool)
        ensures
            full == (after.row < before.row || before.row >= rows),
    {
        after.row < before.row || before.row >= rows
    }

    pub fn output_cell_len_requires_full_refresh(
        cell_len: usize,
        before: CursorPosition,
        rows: usize,
        columns: usize,
    ) -> (full: bool)
        ensures
            full == reaches_bottom(cell_len as int, before, rows as int, columns as int),
    {
        if rows == 0 || columns == 0 || before.row >= rows {
            return false;
        }
        let column = num::min_usize(before.column, columns.saturating_sub(1));
        assert((rows - before.row) * columns >= columns) by (nonlinear_arith)
            requires
                rows - before.row >= 1,
                columns >= 0,
        ;
        let cells_until_bottom = num::saturating_mul_usize(
            rows.saturating_sub(before.row),
            columns,
        ).saturating_sub(column);
        cell_len >= cells_until_bottom
    }

    pub fn output_requires_full_refresh(
        output_effects: OutputEffects,
        before: CursorPosition,
        after: CursorPosition,
        rows: usize,
        columns: usize,
    ) -> (full: bool)
        ensures
            full == needs_full_refresh(
                output_effects,
                before,
                after,
                rows as int,
                columns as int,
            ),
    {
        if rows == 0 || columns == 0 {
            return false;
        }
        if output_effects.requires_full_refresh {
            return true;
        }
        if !output_effects.may_change_visible_cells {
            return false;
        }
        if Self::cursor_requires_full_refresh(before, after, rows) {
            return true;
        }
        Self::output_cell_len_requires_full_refresh(
            output_effects.refresh_cell_len(),
            before,
            rows,
            columns,
        )
    }

    /// The rows to be read again after output.
    pub open spec fn dirty_after_output(
        rows: Option<DirtyRows>,
        grid: GridState,
        effects: OutputEffects,
        before: CursorPosition,
        after: CursorPosition,
        history_size_changed: bool,
    ) -> Option<DirtyRows> {
        if effects.byte_len == 0 {
            rows
        } else if history_size_changed || needs_full_refresh(
            effects,
            before,
            after,
            grid.screen_lines as int,
            grid.columns as int,
        ) {
            all_rows(grid.screen_lines as int)
        } else if !effects.may_change_visible_cells {
            rows
        } else if grid.display_offset != 0 {
            all_rows(grid.screen_lines as int)
        } else {
            with_dirty_range(
                rows,
                grid.screen_lines as int,
                num::min_int(before.row as int, after.row as int),
                num::max_int(before.row as int, after.row as int),
            )
        }
    }

    pub fn mark_dirty_after_output(
        &mut self,
        output_effects: OutputEffects,
        before: CursorPosition,
        after: CursorPosition,
        history_size_changed: bool,
    )
        requires
            old(self).wf(),
        ensures
            final(self).wf(),
            final(self).grid == old(self).grid,
            final(self).dirty_rows == Self::dirty_after_output(
                old(self).dirty_rows,
                old(self).grid,
                output_effects,
                before,
                after,
                history_size_changed,
            ),
    {
        if output_effects.byte_len == 0 {
            return ;
        }
        let rows = self.grid.screen_lines;
        let columns = self.grid.columns;
        if history_size_changed {
            self.mark_all_dirty();
            return ;
        }
        if Self::output_requires_full_refresh(output_effects, before, after, rows, columns) {
            self.mark_all_dirty();
            return ;
        }
        if !output_effects.may_change_visible_cells {
            return ;
        }
        if self.grid.display_offset != 0 {
            self.mark_all_dirty();
            return ;
        }
        self.mark_dirty_range(
            num::min_usize(before.row, after.row),
            num::max_usize(before.row, after.row),
        );
    }

    /// Takes what a piece of output did: `before` is the cursor position
    /// before it, `grid` what the emulator says after it. The size of the
    /// screen is the same.
    pub fn output_ingested(
        &mut self,
        output_effects: OutputEffects,
        before: CursorPosition,
        grid: GridState,
    ) -> (result: AppResult<()>)
        requires
            old(self).wf(),
            grid.screen_lines == old(self).grid.screen_lines,
        ensures
            final(self).wf(),
            final(self).grid == grid,
            match Self::shown_cursor(grid) {
                Err(error) => result == Err::<(), AppError>(error) && final(self).dirty_rows
                    == old(self).dirty_rows,
                Ok(after) => {
                    &&& result is Ok
                    &&& final(self).dirty_rows == Self::dirty_after_output(
                        old(self).dirty_rows,
                        grid,
                        output_effects.finished(),
                        before,
                        after,
                        old(self).grid.history_size != grid.history_size,
                    )
                },
            },
    {
        let history_size_changed = self.grid.history_size != grid.history_size;
        self.grid = grid;
        let output_effects = output_effects.finish();
        match self.cursor_position() {
            Err(error) => Err(error),
            Ok(after) => {
                self.mark_dirty_after_output(output_effects, before, after, history_size_changed);
                Ok(())
            },
        }
    }

    /// Whether a size changes the grid.
    pub fn resize_needed(&self, size: TerminalSize) -> (needed: bool)
        ensures
            needed == (self.grid.screen_lines != size.rows || self.grid.columns != size.columns),
    {
        self.grid.screen_lines != size.rows as usize || self.grid.columns != size.columns as usize
    }

    /// Takes what the emulator says after its size changed.
    pub fn resized(&mut self, grid: GridState)
        ensures
            final(self).wf(),
            final(self).grid == grid,
            final(self).dirty_rows == all_rows(grid.screen_lines as int),
    {
        self.grid = grid;
        self.mark_all_dirty();
    }

    /// What to ask of the emulator to move the display.
    pub open spec fn display_scroll(grid: GridState, scroll: TerminalScroll) -> DisplayScroll {
        match scroll {
            TerminalScroll::Lines(lines) => DisplayScroll::Delta(lines),
            TerminalScroll::PageUp => DisplayScroll::PageUp,
            TerminalScroll::PageDown => DisplayScroll::PageDown,
            TerminalScroll::Absolute(position) => DisplayScroll::Delta(
                num::clamped(position - grid.display_offset) as i32,
            ),
            TerminalScroll::Top => DisplayScroll::Top,
            TerminalScroll::Bottom => DisplayScroll::Bottom,
        }
    }

    /// What to ask of the emulator to move the display.
    pub fn scroll_request(&self, scroll: TerminalScroll) -> (request: DisplayScroll)
        ensures
            request == Self::display_scroll(self.grid, scroll),
    {
        match scroll {
            TerminalScroll::Lines(lines) => DisplayScroll::Delta(lines),
            TerminalScroll::PageUp => DisplayScroll::PageUp,
            TerminalScroll::PageDown => DisplayScroll::PageDown,
            TerminalScroll::Absolute(position) => DisplayScroll::Delta(
                scroll_delta(self.grid.display_offset, position),
            ),
            TerminalScroll::Top => DisplayScroll::Top,
            TerminalScroll::Bottom => DisplayScroll::Bottom,
        }
    }

    /// Takes the display's offset after it was moved; reports whether it
    /// changed.
    pub fn scrolled(&mut self, display_offset: usize) -> (changed: bool)
        requires
            old(self).wf(),
        ensures
            final(self).wf(),
            changed == (old(self).grid.display_offset != display_offset),
            final(self).grid == (GridState { display_offset, ..old(self).grid }),
            final(self).dirty_rows == (if changed {
                all_rows(old(self).grid.screen_lines as int)
            } else {
                old(self).dirty_rows
            }),
    {
        let changed = self.grid.display_offset != display_offset;
        self.grid.display_offset = display_offset;
        if changed {
            self.mark_all_dirty();
        }
        changed
    }
}

/// Puts one row's cells in place of those from `start` on.
pub(crate) fn copy_row(cells: &mut Vec<TerminalCell>, start: usize, source: &Vec<TerminalCell>)
    requires
        start + source@.len() <= old(cells)@.len(),
    ensures
        final(cells)@.len() == old(cells)@.len(),
        forall|i: int|
            0 <= i < old(cells)@.len() ==> #[trigger] final(cells)@[i] == (if start <= i < start
                + source@.len() {
                source@[i - start]
            } else {
                old(cells)@[i]
            }),
{
    let mut column: usize = 0;
    let total = cells.len();
    while column < source.len()
        invariant
            column <= source@.len(),
            start + source@.len() <= cells@.len(),
            cells@.len() == old(cells)@.len(),
            total == cells@.len(),
            forall|i: int|
                0 <= i < cells@.len() ==> #[trigger] cells@[i] == (if start <= i < start + column {
                    source@[i - start]
                } else {
                    old(cells)@[i]
                }),
        decreases source@.len() - column,
    {
        cells.set(start + column, source[column]);
        column += 1;
    }
}

/// Room for so many cells.
pub fn reserve_cells(count: usize) -> (cells: AppResult<Vec<TerminalCell>>)
    ensures
        cells matches Ok(reserved) ==> reserved@.len() == 0,
        count == 0 ==> cells is Ok,
        cells matches Err(error) ==> error == AppError::InvalidInput(
            "terminal buffer snapshot is too large",
        ),
{
    let mut cells: Vec<TerminalCell> = Vec::new();
    if count > 0 && cells.try_reserve(count).is_err() {
        return Err(AppError::InvalidInput("terminal buffer snapshot is too large"));
    }
    Ok(cells)
}

/// Rows that were read from the grid, all of the same length.
pub open spec fn rows_of_length(source: Seq<Vec<TerminalCell>>, count: int, columns: int) -> bool {
    &&& source.len() == count
    &&& forall|i: int| 0 <= i < source.len() ==> (#[trigger] source[i])@.len() == columns
}

impl AlacrittyTerminalBuffer {
    /// What a viewport has to read again.
    pub fn snapshot_need(&self, viewport: &TerminalViewport) -> (need: AppResult<SnapshotNeed>)
        ensures
            self.grid.screen_lines * self.grid.columns > usize::MAX ==> need == Err::<
                SnapshotNeed,
                AppError,
            >(AppError::InvalidInput("terminal buffer dimensions are too large")),
            self.grid.screen_lines * self.grid.columns <= usize::MAX ==> need == Ok::<
                SnapshotNeed,
                AppError,
            >(
                if viewport.rows != self.grid.screen_lines || viewport.columns != self.grid.columns
                    || viewport.cells@.len() != self.grid.screen_lines * self.grid.columns {
                    SnapshotNeed::Everything
                } else {
                    match self.dirty_rows {
                        Some(rows) => SnapshotNeed::Rows(rows),
                        None => SnapshotNeed::Nothing,
                    }
                },
            ),
    {
        let rows = self.grid.screen_lines;
        let columns = self.grid.columns;
        match Self::cell_count(rows, columns) {
            Err(error) => Err(error),
            Ok(count) => {
                if viewport.rows != rows || viewport.columns != columns || viewport.cells.len()
                    != count {
                    Ok(SnapshotNeed::Everything)
                } else {
                    match self.dirty_rows {
                        Some(dirty_rows) => Ok(SnapshotNeed::Rows(dirty_rows)),
                        None => Ok(SnapshotNeed::Nothing),
                    }
                }
            },
        }
    }

    /// A viewport of all rows of the display, `source`; `cells` is room for
    /// them. Nothing is left to be read again.
    pub fn viewport_of_rows(&mut self, cells: Vec<TerminalCell>, source: &Vec<Vec<TerminalCell>>) -> (viewport:
        AppResult<TerminalViewport>)
        requires
            cells@.len() == 0,
            rows_of_length(
                source@,
                old(self).grid.screen_lines as int,
                old(self).grid.columns as int,
            ),
            old(self).grid.screen_lines * old(self).grid.columns <= usize::MAX,
        ensures
            final(self).grid == old(self).grid,
            final(self).dirty_rows is None,
            match Self::shown_cursor(old(self).grid) {
                Err(error) => viewport == Err::<TerminalViewport, AppError>(error),
                Ok(cursor) => viewport matches Ok(made) && {
                    &&& made.wf()
                    &&& made.rows == old(self).grid.screen_lines
                    &&& made.columns == old(self).grid.columns
                    &&& made.cursor == cursor
                    &&& made.scroll == Self::scroll_model(old(self).grid)
                    &&& forall|row: int|
                        0 <= row < made.rows ==> #[trigger] made.row_cells(row) == source@[row]@
                    &&& forall|row: int|
                        0 <= row < made.rows ==> #[trigger] made.row_versions@[row] == 0
                },
            },
    {
        let rows = self.grid.screen_lines;
        let columns = self.grid.columns;
        let mut cells = cells;
        let mut row: usize = 0;
        assert(0 * columns == 0) by (nonlinear_arith);
        while row < rows
            invariant
                rows_of_length(source@, rows as int, columns as int),
                row <= rows,
                cells@.len() == row * columns,
                forall|r: int|
                    0 <= r < row ==> cells@.subrange(r * columns, (r + 1) * columns) == (
                    #[trigger] source@[r])@,
            decreases rows - row,
        {
            let ghost before = cells@;
            cells.extend_from_slice(source[row].as_slice());
            proof {
                let line = source@[row as int]@;
                assert(cells@ =~= before + line);
                screen::lemma_row_bounds(row as int, rows as int, columns as int);
                assert forall|r: int| 0 <= r < row + 1 implies cells@.subrange(
                    r * columns,
                    (r + 1) * columns,
                ) == (#[trigger] source@[r])@ by {
                    if r < row {
                        screen::lemma_row_bounds(r, row as int, columns as int);
                        assert(cells@.subrange(r * columns, (r + 1) * columns) =~= before.subrange(
                            r * columns,
                            (r + 1) * columns,
                        ));
                    } else {
                        assert(cells@.subrange(r * columns, (r + 1) * columns) =~= line);
                    }
                }
            }
            row += 1;
        }
        self.dirty_rows = None;
        match self.cursor_position() {
            Err(error) => Err(error),
            Ok(cursor) => {
                let made = TerminalViewport::with_scroll(
                    rows,
                    columns,
                    cells,
                    cursor,
                    self.scroll_state(),
                );
                assert forall|r: int| made is Ok && 0 <= r < rows implies #[trigger] (
                made->Ok_0).row_cells(r) == source@[r]@ by {}
                made
            },
        }
    }
}

/// Rows stay to be read again until they are: output only adds to them, and
/// it adds every row that the cursor went over where it changed cells that are
/// shown.
pub proof fn law_dirty_rows_only_grow(
    buffer: AlacrittyTerminalBuffer,
    effects: OutputEffects,
    before: CursorPosition,
    after: CursorPosition,
    history_size_changed: bool,
    row: int,
)
    requires
        buffer.wf(),
    ensures
        ({
            let rows = AlacrittyTerminalBuffer::dirty_after_output(
                buffer.dirty_rows,
                buffer.grid,
                effects,
                before,
                after,
                history_size_changed,
            );
            &&& dirty(buffer.dirty_rows, row) ==> dirty(rows, row)
            &&& effects.byte_len > 0 && effects.may_change_visible_cells && num::min_int(
                before.row as int,
                after.row as int,
            ) <= row <= num::max_int(before.row as int, after.row as int) && row
                < buffer.grid.screen_lines ==> dirty(rows, row)
        }),
{
}

/// Output that may have changed anything makes every row be read again.
pub proof fn law_non_local_output_refreshes_everything(
    buffer: AlacrittyTerminalBuffer,
    effects: OutputEffects,
    before: CursorPosition,
    after: CursorPosition,
    row: int,
)
    requires
        effects.byte_len > 0,
        effects.requires_full_refresh,
        buffer.grid.columns > 0,
        0 <= row < buffer.grid.screen_lines,
    ensures
        dirty(
            AlacrittyTerminalBuffer::dirty_after_output(
                buffer.dirty_rows,
                buffer.grid,
                effects,
                before,
                after,
                false,
            ),
            row,
        ),
{
}

/// Once an action may have changed anything, no later action makes that
/// forgotten.
pub proof fn law_full_refresh_is_not_forgotten(effects: OutputEffects, action: TerminalAction)
    ensures
        effects.requires_full_refresh ==> effects.with_action(action).requires_full_refresh,
        effects.may_change_visible_cells ==> effects.with_action(action).may_change_visible_cells,
        effect_of(action) is NonLocal ==> effects.with_action(action).requires_full_refresh,
        effects.with_action(action).finished() == effects.with_action(action),
{
}

/// Only moving the cursor, and setting the title, the cursor's look, the
/// attributes and colours of later text or a hyperlink, leave the cells as they
/// are: nothing but the note that something happened is added then. After every
/// other action, be it erasing, inserting, deleting, scrolling or resetting,
/// cells are known to have changed: near the cursor for tabs, backspaces,
/// carriage returns and line feeds, anywhere for the rest.
pub proof fn law_actions_that_change_cells_are_noted(effects: OutputEffects, action: TerminalAction)
    ensures
        ({
            let after = effects.with_action(action);
            let moves_cursor = action is Goto || action is GotoLine || action is GotoCol
                || action is MoveUp || action is MoveDown || action is MoveForward
                || action is MoveBackward || action is MoveDownAndCr || action is MoveUpAndCr;
            let sets_look = action is SetTitle || action is SetCursorStyle
                || action is SetCursorShape || action is TerminalAttribute || action is SetColor
                || action is DynamicColorSequence || action is ResetColor || action is SetHyperlink;
            let is_local = action is PutTab || action is Backspace || action is CarriageReturn
                || action is Linefeed;
            &&& after.observed_parser_action
            &&& after.byte_len == effects.byte_len
            &&& after.screen_cell_len == effects.screen_cell_len
            &&& moves_cursor || sets_look ==> {
                &&& after.requires_full_refresh == effects.requires_full_refresh
                &&& after.may_change_visible_cells == effects.may_change_visible_cells
                &&& after.needs_byte_len_refresh_estimate == effects.needs_byte_len_refresh_estimate
            }
            &&& is_local ==> {
                &&& after.may_change_visible_cells
                &&& after.needs_byte_len_refresh_estimate
                &&& after.requires_full_refresh == effects.requires_full_refresh
            }
            &&& !moves_cursor && !sets_look && !is_local ==> {
                &&& after.requires_full_refresh
                &&& after.may_change_visible_cells == effects.may_change_visible_cells
                &&& after.needs_byte_len_refresh_estimate == effects.needs_byte_len_refresh_estimate
            }
        }),
{
}

/// Output with an action in it that erases, inserts, deletes, scrolls or resets
/// makes every row be read again, wherever the cursor was and whatever else the
/// output did before that action and after it.
pub proof fn law_cells_changed_by_actions_are_read_again(
    buffer: AlacrittyTerminalBuffer,
    effects: OutputEffects,
    action: TerminalAction,
    later: TerminalAction,
    before: CursorPosition,
    after: CursorPosition,
    history_size_changed: bool,
    row: int,
)
    requires
        buffer.wf(),
        effects.byte_len > 0,
        buffer.grid.columns > 0,
        0 <= row < buffer.grid.screen_lines,
        action is InsertBlank || action is DeleteChars || action is EraseChars || action is ClearLine
            || action is ClearScreen || action is InsertBlankLines || action is DeleteLines
            || action is ScrollUp || action is ScrollDown || action is ReverseIndex
            || action is ResetState || action is Decaln || action is Newline
            || action is Substitute || action is SetMode || action is UnsetMode
            || action is SetPrivateMode || action is UnsetPrivateMode
            || action is SetScrollingRegion || action is RestoreCursorPosition,
    ensures
        dirty(
            AlacrittyTerminalBuffer::dirty_after_output(
                buffer.dirty_rows,
                buffer.grid,
                effects.with_action(action).finished(),
                before,
                after,
                history_size_changed,
            ),
            row,
        ),
        dirty(
            AlacrittyTerminalBuffer::dirty_after_output(
                buffer.dirty_rows,
                buffer.grid,
                effects.with_action(action).with_action(later).finished(),
                before,
                after,
                history_size_changed,
            ),
            row,
        ),
{
}

/// Output that does nothing but move the cursor and set the look of later text
/// leaves the rows to be read again as they are, while the history keeps its
/// length.
pub proof fn law_cursor_moves_change_no_rows(
    buffer: AlacrittyTerminalBuffer,
    byte_len: usize,
    first: TerminalAction,
    second: TerminalAction,
    before: CursorPosition,
    after: CursorPosition,
)
    requires
        first is Goto || first is GotoLine || first is GotoCol || first is MoveUp
            || first is MoveDown || first is MoveForward || first is MoveBackward
            || first is MoveDownAndCr || first is MoveUpAndCr,
        second is SetTitle || second is SetCursorStyle || second is SetCursorShape
            || second is TerminalAttribute || second is SetColor
            || second is DynamicColorSequence || second is ResetColor || second is SetHyperlink,
    ensures
        ({
            let nothing = OutputEffects {
                byte_len,
                screen_cell_len: 0,
                requires_full_refresh: false,
                may_change_visible_cells: false,
                observed_parser_action: false,
                needs_byte_len_refresh_estimate: false,
            };
            AlacrittyTerminalBuffer::dirty_after_output(
                buffer.dirty_rows,
                buffer.grid,
                nothing.with_action(first).with_action(second).finished(),
                before,
                after,
                false,
            ) == buffer.dirty_rows
        }),
{
}

/// Bytes that made the parser do nothing yet, such as the beginning of an escape
/// sequence, make every row be read again; what was followed to its end is
/// taken as it is.
pub proof fn law_unfinished_output_refreshes_everything(effects: OutputEffects)
    ensures
        effects.finished().byte_len == effects.byte_len,
        effects.byte_len > 0 && !effects.observed_parser_action
            ==> effects.finished().requires_full_refresh,
        effects.observed_parser_action ==> effects.finished() == effects,
        effects.byte_len == 0 ==> effects.finished() == effects,
{
}

/// Rows that are marked are to be read again, as are all that were before; the
/// marking adds no row outside the range that holds both.
pub proof fn law_marked_rows_are_read_again(
    rows: Option<DirtyRows>,
    screen_lines: usize,
    start: usize,
    end: usize,
    row: int,
)
    requires
        start <= end,
        rows matches Some(range) ==> range.start < range.end <= screen_lines,
    ensures
        ({
            let marked = with_dirty_range(rows, screen_lines as int, start as int, end as int);
            &&& start <= row <= end && row < screen_lines ==> dirty(marked, row)
            &&& dirty(rows, row) ==> dirty(marked, row)
            &&& dirty(marked, row) ==> 0 <= row < screen_lines
            &&& rows is None && end < screen_lines && dirty(marked, row) ==> start <= row <= end
            &&& dirty(marked, row) && row < start && start < screen_lines ==> exists|r: int|
                r <= row && dirty(rows, r)
            &&& dirty(marked, row) && row > end ==> exists|r: int| r >= row && dirty(rows, r)
        }),
{
    if rows is Some {
        assert(dirty(rows, rows->0.start as int));
        assert(dirty(rows, rows->0.end - 1));
    }
}

/// Plain output that stays above the end of the screen marks the rows that the
/// cursor went over and no others; output that goes back up, or that fills the
/// rest of the screen, marks every row, since the screen may have scrolled.
pub proof fn law_plain_output_marks_the_cursor_rows(
    buffer: AlacrittyTerminalBuffer,
    effects: OutputEffects,
    before: CursorPosition,
    after: CursorPosition,
    row: int,
)
    requires
        buffer.grid.columns > 0,
        buffer.grid.screen_lines * buffer.grid.columns <= usize::MAX,
        buffer.grid.display_offset == 0,
        buffer.dirty_rows is None,
        before.row < buffer.grid.screen_lines,
        before.column < buffer.grid.columns,
        after.row < buffer.grid.screen_lines,
        effects.byte_len > 0,
        effects.may_change_visible_cells,
        !effects.requires_full_refresh,
        !effects.needs_byte_len_refresh_estimate,
    ensures
        ({
            let rows = AlacrittyTerminalBuffer::dirty_after_output(
                buffer.dirty_rows,
                buffer.grid,
                effects,
                before,
                after,
                false,
            );
            let end = before.row * buffer.grid.columns + before.column + effects.screen_cell_len;
            let fills = end >= buffer.grid.screen_lines * buffer.grid.columns;
            &&& after.row >= before.row && !fills ==> (dirty(rows, row) <==> before.row <= row
                <= after.row)
            &&& after.row < before.row || fills ==> (dirty(rows, row) <==> 0 <= row
                < buffer.grid.screen_lines)
        }),
{
    let lines = buffer.grid.screen_lines as int;
    let columns = buffer.grid.columns as int;
    let first = before.row as int;
    assert((lines - first) * columns == lines * columns - first * columns) by (nonlinear_arith);
    assert(0 <= first * columns) by (nonlinear_arith)
        requires
            first >= 0,
            columns > 0,
    ;
}

/// A character that was written took the cells from where the emulator wrote to
/// where it writes next, counted along the lines; one that leaves the place of
/// writing at the end of its line took the cells to that end.
pub proof fn law_input_takes_the_cells_between(before: InputPoint, after: InputPoint, columns: usize)
    requires
        0 < columns,
        before.column < columns,
        after.column < columns,
        (after.line - before.line + 1) * columns <= usize::MAX,
    ensures
        after.line > before.line ==> before.line * columns + before.column + input_cells(
            before,
            after,
            columns as int,
        ) == after.line * columns + after.column,
        after.line == before.line && after.column > before.column && !after.needs_wrap
            ==> before.column + input_cells(before, after, columns as int) == after.column,
        after.line == before.line && after.column >= before.column && after.needs_wrap
            ==> before.column + input_cells(before, after, columns as int) == columns,
        after.line == before.line && after.column == before.column && !after.needs_wrap
            && !before.needs_wrap ==> input_cells(before, after, columns as int) == 1,
        0 <= input_cells(before, after, columns as int),
{
    let delta = after.line - before.line;
    let width = columns as int;
    assert(delta * width == after.line * width - before.line * width) by (nonlinear_arith)
        requires
            delta == after.line - before.line,
    ;
    assert((delta + 1) * width == delta * width + width) by (nonlinear_arith);
    if delta > 0 {
        assert(delta * width >= width) by (nonlinear_arith)
            requires
                delta >= 1,
                width >= 0,
        ;
    }
}

/// A cell shows its own character unless a blanking flag is set, whatever other
/// flags are. The blanking flags are those of the spacer after a wide character,
/// of the spacer before one, and of hidden text, and no others.
pub proof fn law_blanking_flags(flags: u16)
    ensures
        flags & BLANKING_FLAGS != 0 <==> (flags & 0x0040 != 0 || flags & 0x0100 != 0 || flags
            & 0x0400 != 0),
{
    assert(flags & 0x0540 != 0 <==> (flags & 0x0040 != 0 || flags & 0x0100 != 0 || flags & 0x0400
        != 0)) by (bit_vector);
}

/// While the display shows the newest lines, the cursor is shown where the
/// emulator has it; while it shows the history, the cursor is on no row.
pub proof fn law_cursor_is_shown_with_the_newest_lines(grid: GridState)
    ensures
        grid.display_offset == 0 && grid.cursor_line >= 0
            ==> (AlacrittyTerminalBuffer::shown_cursor(grid) matches Ok(cursor) && cursor.row
            == grid.cursor_line && cursor.column == grid.cursor_column),
        grid.display_offset > 0 ==> (AlacrittyTerminalBuffer::shown_cursor(grid) matches Ok(cursor)
            && cursor.row == usize::MAX && cursor.column == usize::MAX),
        AlacrittyTerminalBuffer::shown_cursor(grid) is Err <==> grid.display_offset == 0
            && grid.cursor_line < 0,
{
}

/// Every row of the display shows a line of the grid while the display stands
/// inside the history, and moving the display up by one line makes each row show
/// what the row above it showed.
pub proof fn law_display_rows_have_lines(grid: GridState, row: int)
    requires
        grid.display_offset <= grid.history_size,
        grid.display_offset <= i32::MAX,
        grid.screen_lines <= i32::MAX,
        0 <= row < grid.screen_lines,
    ensures
        AlacrittyTerminalBuffer::row_error(grid, row) is None,
        AlacrittyTerminalBuffer::has_line(grid, row - grid.display_offset),
        !AlacrittyTerminalBuffer::has_line(grid, grid.screen_lines as int),
        !AlacrittyTerminalBuffer::has_line(grid, -grid.history_size - 1),
{
}

/// Each way of moving the display is asked of the emulator as it is; an absolute
/// position as the way to it from where the display stands.
pub proof fn law_scroll_is_asked_for_as_it_is(grid: GridState, lines: i32, position: usize)
    requires
        position <= i32::MAX,
        grid.display_offset <= i32::MAX,
    ensures
        AlacrittyTerminalBuffer::display_scroll(grid, TerminalScroll::Lines(lines))
            == DisplayScroll::Delta(lines),
        AlacrittyTerminalBuffer::display_scroll(grid, TerminalScroll::PageUp) is PageUp,
        AlacrittyTerminalBuffer::display_scroll(grid, TerminalScroll::PageDown) is PageDown,
        AlacrittyTerminalBuffer::display_scroll(grid, TerminalScroll::Top) is Top,
        AlacrittyTerminalBuffer::display_scroll(grid, TerminalScroll::Bottom) is Bottom,
        AlacrittyTerminalBuffer::display_scroll(
            grid,
            TerminalScroll::Absolute(position),
        ) matches DisplayScroll::Delta(delta) && grid.display_offset + delta == position,
{
}

/// The display's position and its offset make up the history, and the
/// position never passes the history's end.
pub proof fn law_scroll_position_mirrors_offset(grid: GridState)
    requires
        grid.display_offset <= grid.history_size,
    ensures
        ({
            let state = AlacrittyTerminalBuffer::scroll_model(grid);
            &&& state.position + grid.display_offset == state.max_position
            &&& state.position <= state.max_position
            &&& state.max_position == grid.history_size
            &&& state.page_len == grid.screen_lines
            &&& grid.history_size + grid.screen_lines <= usize::MAX ==> state.total_len
                == state.max_position + state.page_len
        }),
{
}

/// A screen without a cell is never read anew as a whole, and output that asks for it makes any
/// other screen be.
pub proof fn law_empty_screen_needs_no_refresh(
    effects: OutputEffects,
    before: CursorPosition,
    after: CursorPosition,
    rows: int,
    columns: int,
)
    ensures
        rows <= 0 || columns <= 0 ==> !needs_full_refresh(effects, before, after, rows, columns),
        rows > 0 && columns > 0 && effects.requires_full_refresh ==> needs_full_refresh(
            effects,
            before,
            after,
            rows,
            columns,
        ),
        rows > 0 && columns > 0 && effects.may_change_visible_cells && (after.row < before.row
            || before.row >= rows) ==> needs_full_refresh(effects, before, after, rows, columns),
{
}

} // verus!
