//! Plans of what is painted, in order.

use vstd::prelude::*;

use crate::domain::geometry::UiRect;
use crate::domain::layout::{self, TabPlacement, TerminalTabView, WindowLayout};
use crate::domain::rows::RowRange;
use crate::domain::terminal::{CursorPosition, TerminalViewport};
use crate::error::{AppError, AppResult};
use crate::num;
use crate::renderer::encoding::{self, EncodedLine, LINE_TOO_LONG_MESSAGE};
use crate::renderer::geometry::{self, CellMetrics, DeviceRect};
use crate::text;

verus! {

/// Colours: red in the lowest byte, then green, then blue.
pub const CHROME_BACKGROUND: u32 = 0x2E2622;

pub const BACKGROUND: u32 = 0x120E0C;

pub const FOREGROUND: u32 = 0xEBE2DC;

pub const TAB_ACTIVE_BACKGROUND: u32 = 0x120E0C;

pub const TAB_INACTIVE_BACKGROUND: u32 = 0x483D37;

pub const TAB_HOVER_BACKGROUND: u32 = 0x5A4D46;

pub const TAB_MUTED_FOREGROUND: u32 = 0xC2B4AA;

pub const SPLITTER_BACKGROUND: u32 = 0x382F2A;

pub const SPLITTER_GRIP: u32 = 0x74645A;

pub const SELECTION_BACKGROUND: u32 = 0x9C6434;

/// A colour of its three parts.
pub fn rgb(red: u8, green: u8, blue: u8) -> (color: u32)
    ensures
        color == red + green * 256 + blue * 65536,
{
    red as u32 + green as u32 * 256 + blue as u32 * 65536
}

/// One thing to paint.
#[derive(Debug, PartialEq, Eq)]
pub enum PaintOp {
    /// Fill a rectangle; a failure is reported under the operation.
    Fill { rect: DeviceRect, color: u32, operation: &'static str },
    /// The text of a terminal row, at a point, within an area.
    Row { row: usize, x: i32, y: i32, clip: DeviceRect },
    /// A text at a point.
    Label { x: i32, y: i32, text: String, color: u32 },
    /// The character under the cursor.
    CursorText { rect: DeviceRect, character: char },
}

/// `PaintOp` with texts as sequences of characters.
pub enum PaintModel {
    Fill { rect: DeviceRect, color: u32, operation: Seq<char> },
    Row { row: int, x: i32, y: i32, clip: DeviceRect },
    Label { x: i32, y: i32, text: Seq<char>, color: u32 },
    CursorText { rect: DeviceRect, character: char },
}

impl View for PaintOp {
    type V = PaintModel;

    open spec fn view(&self) -> PaintModel {
        match self {
            PaintOp::Fill { rect, color, operation } => PaintModel::Fill {
                rect: *rect,
                color: *color,
                operation: operation@,
            },
            PaintOp::Row { row, x, y, clip } => PaintModel::Row {
                row: *row as int,
                x: *x,
                y: *y,
                clip: *clip,
            },
            PaintOp::Label { x, y, text, color } => PaintModel::Label {
                x: *x,
                y: *y,
                text: text@,
                color: *color,
            },
            PaintOp::CursorText { rect, character } => PaintModel::CursorText {
                rect: *rect,
                character: *character,
            },
        }
    }
}

/// A plan as a sequence of values.
pub open spec fn plan(ops: Seq<PaintOp>) -> Seq<PaintModel> {
    Seq::new(ops.len(), |i: int| ops[i]@)
}

fn add_op(ops: &mut Vec<PaintOp>, op: PaintOp)
    ensures
        plan(final(ops)@) == plan(old(ops)@).push(op@),
{
    ops.push(op);
    assert(plan(ops@) =~= plan(old(ops)@).push(op@));
}

/// Fills the part of a rectangle that is painted.
pub open spec fn filled(rect: DeviceRect, clip: DeviceRect, color: u32, operation: Seq<char>) -> Seq<
    PaintModel,
> {
    match geometry::intersection(rect, clip) {
        Some(part) => seq![PaintModel::Fill { rect: part, color, operation }],
        None => Seq::empty(),
    }
}

fn fill_solid_rect_intersection(
    ops: &mut Vec<PaintOp>,
    rect: &DeviceRect,
    clip: &DeviceRect,
    color: u32,
    operation: &'static str,
)
    ensures
        plan(final(ops)@) == plan(old(ops)@) + filled(*rect, *clip, color, operation@),
{
    match geometry::intersect_rects(rect, clip) {
        Some(part) => {
            add_op(ops, PaintOp::Fill { rect: part, color, operation });
            assert(plan(ops@) =~= plan(old(ops)@) + filled(*rect, *clip, color, operation@));
        },
        None => {
            assert(plan(ops@) =~= plan(old(ops)@) + filled(*rect, *clip, color, operation@));
        },
    }
}

/// A text at the left of its bounds, as much of it as fits.
pub open spec fn left_label(
    bounds: UiRect,
    text: Seq<char>,
    color: u32,
    metrics: CellMetrics,
) -> Seq<PaintModel> {
    let shown = encoding::shortened(
        text,
        bounds.width as int / num::max_int(metrics.width as int, 1),
    );
    if bounds.width <= 0 || bounds.height <= 0 || shown.len() == 0 {
        Seq::empty()
    } else {
        seq![PaintModel::Label { x: bounds.x, y: text_top(bounds, metrics), text: shown, color }]
    }
}

/// Where text starts that is centred in the height of its bounds.
pub open spec fn text_top(bounds: UiRect, metrics: CellMetrics) -> i32 {
    num::clamped(
        bounds.y + geometry::truncated_half(
            num::clamped(bounds.height - num::max_int(metrics.height as int, 1)),
        ),
    ) as i32
}

/// A text in the middle of its bounds.
pub open spec fn centered_label(
    bounds: UiRect,
    text: Seq<char>,
    color: u32,
    metrics: CellMetrics,
) -> Seq<PaintModel> {
    let width = num::clamped(
        num::clamped(encoding::utf16_text(text).len() as int) * num::max_int(
            metrics.width as int,
            1,
        ),
    );
    if text.len() == 0 || bounds.width <= 0 || bounds.height <= 0 {
        Seq::empty()
    } else {
        seq![
            PaintModel::Label {
                x: num::clamped(
                    bounds.x + geometry::truncated_half(num::clamped(bounds.width - width)),
                ) as i32,
                y: text_top(bounds, metrics),
                text,
                color,
            },
        ]
    }
}

fn is_empty_text(content: &str) -> (empty: bool)
    ensures
        empty == (content@.len() == 0),
{
    let empty = text::text_equal(content, "");
    proof {
        reveal_strlit("");
        if content@.len() == 0 {
            assert(content@ =~= ""@);
        }
    }
    empty
}

fn draw_left_text(
    ops: &mut Vec<PaintOp>,
    bounds: UiRect,
    content: &str,
    color: u32,
    metrics: CellMetrics,
)
    ensures
        plan(final(ops)@) == plan(old(ops)@) + left_label(bounds, content@, color, metrics),
{
    let ghost before = plan(ops@);
    if bounds.width <= 0 || bounds.height <= 0 {
        assert(plan(ops@) =~= before + left_label(bounds, content@, color, metrics));
        return ;
    }
    let shown = encoding::truncate_for_width(content, bounds.width, metrics.width);
    if is_empty_text(shown.as_str()) {
        assert(plan(ops@) =~= before + left_label(bounds, content@, color, metrics));
        return ;
    }
    let y = geometry::centered_text_y(bounds, metrics);
    add_op(ops, PaintOp::Label { x: bounds.x, y, text: shown, color });
    assert(plan(ops@) =~= before + left_label(bounds, content@, color, metrics));
}

fn draw_centered_text(
    ops: &mut Vec<PaintOp>,
    bounds: UiRect,
    content: &str,
    color: u32,
    metrics: CellMetrics,
)
    ensures
        plan(final(ops)@) == plan(old(ops)@) + centered_label(bounds, content@, color, metrics),
{
    let ghost before = plan(ops@);
    if is_empty_text(content) || bounds.width <= 0 || bounds.height <= 0 {
        assert(plan(ops@) =~= before + centered_label(bounds, content@, color, metrics));
        return ;
    }
    let text_width = encoding::approximate_text_width(content, metrics.width);
    let x = num::saturating_add(
        bounds.x,
        geometry::half(num::saturating_sub(bounds.width, text_width)),
    );
    let y = geometry::centered_text_y(bounds, metrics);
    add_op(ops, PaintOp::Label { x, y, text: content.to_owned(), color });
    assert(plan(ops@) =~= before + centered_label(bounds, content@, color, metrics));
}

/// Where a tab's title goes: beside its close button, where it has one.
pub open spec fn title_bounds(placement: TabPlacement) -> UiRect {
    let padding = match placement.close_bounds {
        Some(bounds) => num::clamped(bounds.width + 8),
        None => 0,
    };
    UiRect {
        x: num::clamped(placement.bounds.x + 10) as i32,
        y: placement.bounds.y,
        width: num::clamped(num::clamped(placement.bounds.width - 14) - padding) as i32,
        height: placement.bounds.height,
    }
}

fn tab_label_bounds(placement: &TabPlacement) -> (bounds: UiRect)
    ensures
        bounds == title_bounds(*placement),
{
    let close_padding = match placement.close_bounds {
        Some(bounds) => num::saturating_add(bounds.width, 8),
        None => 0,
    };
    UiRect {
        x: num::saturating_add(placement.bounds.x, 10),
        y: placement.bounds.y,
        width: num::saturating_sub(
            num::saturating_sub(placement.bounds.width, 14),
            close_padding,
        ),
        height: placement.bounds.height,
    }
}

/// What is painted of one tab.
pub open spec fn tab_plan(
    placement: TabPlacement,
    title: Seq<char>,
    clip: DeviceRect,
    metrics: CellMetrics,
) -> Seq<PaintModel> {
    let rect = geometry::edges_of(placement.bounds);
    if geometry::intersection(rect, clip) is None {
        Seq::empty()
    } else {
        let background = filled(
            rect,
            clip,
            if placement.active {
                TAB_ACTIVE_BACKGROUND
            } else {
                TAB_INACTIVE_BACKGROUND
            },
            "FillRect tab"@,
        );
        let label = left_label(title_bounds(placement), title, FOREGROUND, metrics);
        let close = match placement.close_bounds {
            Some(bounds) => if geometry::intersection(geometry::edges_of(bounds), clip) is Some {
                centered_label(bounds, "x"@, TAB_MUTED_FOREGROUND, metrics)
            } else {
                Seq::empty()
            },
            None => Seq::empty(),
        };
        background + label + close
    }
}

fn paint_tab(
    ops: &mut Vec<PaintOp>,
    placement: &TabPlacement,
    title: &str,
    paint_rect: &DeviceRect,
    metrics: CellMetrics,
)
    ensures
        plan(final(ops)@) == plan(old(ops)@) + tab_plan(*placement, title@, *paint_rect, metrics),
{
    let ghost before = plan(ops@);
    let tab_rect = geometry::rect_from_ui(placement.bounds);
    if !geometry::rects_intersect(&tab_rect, paint_rect) {
        assert(plan(ops@) =~= before + tab_plan(*placement, title@, *paint_rect, metrics));
        return ;
    }
    let background = if placement.active {
        TAB_ACTIVE_BACKGROUND
    } else {
        TAB_INACTIVE_BACKGROUND
    };
    fill_solid_rect_intersection(ops, &tab_rect, paint_rect, background, "FillRect tab");
    draw_left_text(ops, tab_label_bounds(placement), title, FOREGROUND, metrics);
    if let Some(close_bounds) = placement.close_bounds {
        if geometry::rects_intersect(&geometry::rect_from_ui(close_bounds), paint_rect) {
            draw_centered_text(ops, close_bounds, "x", TAB_MUTED_FOREGROUND, metrics);
        }
    }
    assert(plan(ops@) =~= before + tab_plan(*placement, title@, *paint_rect, metrics));
}

/// What is painted of all tabs, first to last.
pub open spec fn tabs_plan(
    placements: Seq<TabPlacement>,
    tabs: Seq<TerminalTabView>,
    clip: DeviceRect,
    metrics: CellMetrics,
) -> Seq<PaintModel>
    decreases placements.len(),
{
    if placements.len() == 0 {
        Seq::empty()
    } else {
        tabs_plan(placements.drop_last(), tabs, clip, metrics) + tab_plan(
            placements.last(),
            layout::title_of(tabs, placements.last().id, ""@),
            clip,
            metrics,
        )
    }
}

/// What is painted of the tab bar.
pub open spec fn tab_bar_plan(
    window: WindowLayout,
    tabs: Seq<TerminalTabView>,
    clip: DeviceRect,
    metrics: CellMetrics,
) -> Seq<PaintModel> {
    let bar = geometry::edges_of(window.tab_bar);
    if geometry::intersection(bar, clip) is None {
        Seq::empty()
    } else {
        let new_tab = match window.new_tab_button {
            Some(button) => if geometry::intersection(geometry::edges_of(button), clip) is Some {
                filled(
                    geometry::edges_of(button),
                    clip,
                    TAB_HOVER_BACKGROUND,
                    "FillRect new tab"@,
                ) + centered_label(button, "+"@, FOREGROUND, metrics)
            } else {
                Seq::empty()
            },
            None => Seq::empty(),
        };
        filled(bar, clip, CHROME_BACKGROUND, "FillRect tab bar"@) + tabs_plan(
            window.tabs@,
            tabs,
            clip,
            metrics,
        ) + new_tab
    }
}

/// Plans the tab bar.
pub fn paint_tab_bar(
    ops: &mut Vec<PaintOp>,
    paint_rect: &DeviceRect,
    window: &WindowLayout,
    tabs: &Vec<TerminalTabView>,
    metrics: CellMetrics,
)
    ensures
        plan(final(ops)@) == plan(old(ops)@) + tab_bar_plan(*window, tabs@, *paint_rect, metrics),
{
    let ghost before = plan(ops@);
    let bar = geometry::rect_from_ui(window.tab_bar);
    if !geometry::rects_intersect(&bar, paint_rect) {
        assert(plan(ops@) =~= before + tab_bar_plan(*window, tabs@, *paint_rect, metrics));
        return ;
    }
    fill_solid_rect_intersection(ops, &bar, paint_rect, CHROME_BACKGROUND, "FillRect tab bar");
    let ghost filled_bar = plan(ops@);
    let mut index: usize = 0;
    assert(window.tabs@.take(0) =~= Seq::<TabPlacement>::empty());
    assert(filled_bar =~= filled_bar + tabs_plan(
        window.tabs@.take(0),
        tabs@,
        *paint_rect,
        metrics,
    ));
    while index < window.tabs.len()
        invariant
            index <= window.tabs@.len(),
            plan(ops@) == filled_bar + tabs_plan(
                window.tabs@.take(index as int),
                tabs@,
                *paint_rect,
                metrics,
            ),
        decreases window.tabs@.len() - index,
    {
        let ghost done = window.tabs@.take(index as int);
        proof {
            let more = window.tabs@.take(index + 1);
            assert(more.drop_last() =~= done);
            assert(more.last() == window.tabs@[index as int]);
        }
        let placement = window.tabs[index];
        let title = layout::tab_title(tabs, placement.id, "");
        paint_tab(ops, &placement, title, paint_rect, metrics);
        assert(plan(ops@) =~= filled_bar + tabs_plan(
            window.tabs@.take(index + 1),
            tabs@,
            *paint_rect,
            metrics,
        ));
        index += 1;
    }
    assert(window.tabs@.take(index as int) =~= window.tabs@);
    if let Some(button) = window.new_tab_button {
        let rect = geometry::rect_from_ui(button);
        if geometry::rects_intersect(&rect, paint_rect) {
            fill_solid_rect_intersection(
                ops,
                &rect,
                paint_rect,
                TAB_HOVER_BACKGROUND,
                "FillRect new tab",
            );
            draw_centered_text(ops, button, "+", FOREGROUND, metrics);
        }
    }
    assert(plan(ops@) =~= before + tab_bar_plan(*window, tabs@, *paint_rect, metrics));
}

/// The grip in the middle of a splitter.
pub open spec fn grip_of(splitter: UiRect) -> UiRect {
    let width = num::min_int(2, num::max_int(splitter.width as int, 1));
    UiRect {
        x: num::clamped(
            splitter.x + geometry::truncated_half(num::clamped(splitter.width - width)),
        ) as i32,
        y: splitter.y,
        width: width as i32,
        height: splitter.height,
    }
}

/// What is painted of the splitter.
pub open spec fn splitter_plan(splitter: UiRect, clip: DeviceRect) -> Seq<PaintModel> {
    let rect = geometry::edges_of(splitter);
    if splitter.width <= 0 || splitter.height <= 0 || geometry::intersection(rect, clip) is None {
        Seq::empty()
    } else {
        filled(rect, clip, SPLITTER_BACKGROUND, "FillRect splitter"@) + filled(
            geometry::edges_of(grip_of(splitter)),
            clip,
            SPLITTER_GRIP,
            "FillRect splitter grip"@,
        )
    }
}

/// Plans the splitter.
pub fn paint_splitter(ops: &mut Vec<PaintOp>, paint_rect: &DeviceRect, splitter: UiRect)
    ensures
        plan(final(ops)@) == plan(old(ops)@) + splitter_plan(splitter, *paint_rect),
{
    let ghost before = plan(ops@);
    if splitter.width <= 0 || splitter.height <= 0 {
        assert(plan(ops@) =~= before + splitter_plan(splitter, *paint_rect));
        return ;
    }
    let rect = geometry::rect_from_ui(splitter);
    if !geometry::rects_intersect(&rect, paint_rect) {
        assert(plan(ops@) =~= before + splitter_plan(splitter, *paint_rect));
        return ;
    }
    fill_solid_rect_intersection(ops, &rect, paint_rect, SPLITTER_BACKGROUND, "FillRect splitter");
    let grip_width = num::min_i32(2, num::max_i32(splitter.width, 1));
    let grip = UiRect {
        x: num::saturating_add(
            splitter.x,
            geometry::half(num::saturating_sub(splitter.width, grip_width)),
        ),
        y: splitter.y,
        width: grip_width,
        height: splitter.height,
    };
    fill_solid_rect_intersection(
        ops,
        &geometry::rect_from_ui(grip),
        paint_rect,
        SPLITTER_GRIP,
        "FillRect splitter grip",
    );
    assert(plan(ops@) =~= before + splitter_plan(splitter, *paint_rect));
}

/// What is painted of the cursor: a filled cell with its character on it, as
/// far as it lies in the terminal; nothing outside the screen.
pub open spec fn cursor_plan(
    viewport: TerminalViewport,
    area: UiRect,
    clip: DeviceRect,
    metrics: CellMetrics,
) -> Seq<PaintModel> {
    let cursor = viewport.cursor;
    let cell = geometry::cell_area(area, metrics, cursor.row as int, cursor.column as int);
    let character = viewport.row_cells(cursor.row as int)[cursor.column as int].character;
    if cursor.row >= viewport.rows || cursor.column >= viewport.columns {
        Seq::empty()
    } else {
        match geometry::intersection(cell, geometry::edges_of(area)) {
            Some(rect) => if geometry::intersection(rect, clip) is None {
                Seq::empty()
            } else {
                seq![
                    PaintModel::Fill { rect, color: FOREGROUND, operation: "FillRect cursor"@ },
                ] + (if character == ' ' {
                    Seq::empty()
                } else {
                    seq![PaintModel::CursorText { rect, character }]
                })
            },
            None => Seq::empty(),
        }
    }
}

/// Plans the cursor.
pub fn paint_cursor(
    ops: &mut Vec<PaintOp>,
    paint_rect: &DeviceRect,
    viewport: &TerminalViewport,
    terminal_area: UiRect,
    metrics: CellMetrics,
) -> (result: AppResult<()>)
    requires
        viewport.wf(),
    ensures
        ({
            let shown = viewport.cursor.row < viewport.rows && viewport.cursor.column
                < viewport.columns;
            if shown && viewport.cursor.row > i32::MAX {
                result == Err::<(), AppError>(AppError::InvalidInput("row index is too large"))
            } else if shown && viewport.cursor.column > i32::MAX {
                result == Err::<(), AppError>(AppError::InvalidInput("column index is too large"))
            } else {
                &&& result is Ok
                &&& plan(final(ops)@) == plan(old(ops)@) + cursor_plan(
                    *viewport,
                    terminal_area,
                    *paint_rect,
                    metrics,
                )
            }
        }),
{
    let ghost before = plan(ops@);
    let CursorPosition { row, column } = viewport.cursor;
    if row >= viewport.rows || column >= viewport.columns {
        assert(plan(ops@) =~= before + cursor_plan(*viewport, terminal_area, *paint_rect, metrics));
        return Ok(());
    }
    let cell = match geometry::cell_rect(terminal_area, metrics, row, column) {
        Ok(cell) => cell,
        Err(error) => return Err(error),
    };
    let rect = match geometry::intersect_rects(&cell, &geometry::rect_from_ui(terminal_area)) {
        Some(rect) => rect,
        None => {
            assert(plan(ops@) =~= before + cursor_plan(
                *viewport,
                terminal_area,
                *paint_rect,
                metrics,
            ));
            return Ok(());
        },
    };
    if !geometry::rects_intersect(&rect, paint_rect) {
        assert(plan(ops@) =~= before + cursor_plan(*viewport, terminal_area, *paint_rect, metrics));
        return Ok(());
    }
    add_op(ops, PaintOp::Fill { rect, color: FOREGROUND, operation: "FillRect cursor" });
    if let Some(line) = viewport.line_cells(row) {
        proof {
            crate::domain::terminal::lemma_row_bounds(
                row as int,
                viewport.rows as int,
                viewport.columns as int,
            );
        }
        let character = line[column].character;
        if character != ' ' {
            add_op(ops, PaintOp::CursorText { rect, character });
        }
    }
    assert(plan(ops@) =~= before + cursor_plan(*viewport, terminal_area, *paint_rect, metrics));
    Ok(())
}

/// Columns of a row from `start` up to `end`.
#[derive(Clone, Copy, Debug, PartialEq, Eq, Structural)]
pub struct ColumnRange {
    pub start: usize,
    pub end: usize,
}

/// What is painted of one terminal row: its selected part, and its text where
/// there is any.
pub open spec fn row_plan(
    line: EncodedLine,
    selected: Option<ColumnRange>,
    content: UiRect,
    clip: DeviceRect,
    metrics: CellMetrics,
    row: int,
) -> Seq<PaintModel> {
    let background = match selected {
        Some(columns) => filled(
            geometry::cells_area(content, metrics, row, columns.start as int, columns.end as int),
            clip,
            SELECTION_BACKGROUND,
            "FillRect selection"@,
        ),
        None => Seq::empty(),
    };
    let text = match geometry::row_clip(content, metrics, row) {
        Some(row_area) => if line.wide@.len() > 0 {
            seq![
                PaintModel::Row {
                    row,
                    x: content.x,
                    y: num::clamped(num::clamped(row * metrics.height) + content.y) as i32,
                    clip: row_area,
                },
            ]
        } else {
            Seq::empty()
        },
        None => Seq::empty(),
    };
    background + text
}

/// What is painted of rows, first to last; `selected` is taken by row.
pub open spec fn rows_plan(
    cache: Seq<EncodedLine>,
    selected: Seq<Option<ColumnRange>>,
    content: UiRect,
    clip: DeviceRect,
    metrics: CellMetrics,
    start: int,
    end: int,
) -> Seq<PaintModel>
    decreases end - start,
{
    if end <= start {
        Seq::empty()
    } else {
        rows_plan(cache, selected, content, clip, metrics, start, end - 1) + row_plan(
            cache[end - 1],
            selected[end - 1],
            content,
            clip,
            metrics,
            end - 1,
        )
    }
}

proof fn lemma_rows_plan_same(
    cache: Seq<EncodedLine>,
    other: Seq<EncodedLine>,
    selected: Seq<Option<ColumnRange>>,
    content: UiRect,
    clip: DeviceRect,
    metrics: CellMetrics,
    start: int,
    end: int,
)
    requires
        forall|row: int| start <= row < end ==> #[trigger] cache[row] == other[row],
    ensures
        rows_plan(cache, selected, content, clip, metrics, start, end) == rows_plan(
            other,
            selected,
            content,
            clip,
            metrics,
            start,
            end,
        ),
    decreases end - start,
{
    if start < end {
        lemma_rows_plan_same(cache, other, selected, content, clip, metrics, start, end - 1);
        assert(cache[end - 1] == other[end - 1]);
    }
}

/// Whether a line was made for a row as it is.
pub open spec fn line_fits(line: EncodedLine, viewport: TerminalViewport, cell_width: i32, row: int) -> bool {
    let cells = viewport.row_cells(row);
    line.fits(
        viewport.columns,
        Some(viewport.row_versions@[row]),
        cell_width,
        encoding::fingerprint_of(cells) ^ (cells.len() as u64),
    )
}

/// A line that is painted for a row: the one that was made for the row earlier, or
/// else one that holds the row's text.
pub open spec fn line_refreshed(
    before: Seq<EncodedLine>,
    line: EncodedLine,
    viewport: TerminalViewport,
    cell_width: i32,
    row: int,
) -> bool {
    &&& line_fits(line, viewport, cell_width, row)
    &&& if row < before.len() && line_fits(before[row], viewport, cell_width, row) {
        line == before[row]
    } else {
        line.holds(viewport.row_cells(row))
    }
}

/// The rows from `start` up to `end` have the lines that are painted for them.
pub open spec fn rows_refreshed(
    before: Seq<EncodedLine>,
    after: Seq<EncodedLine>,
    viewport: TerminalViewport,
    cell_width: i32,
    start: int,
    end: int,
) -> bool {
    forall|row: int|
        start <= row < end ==> row < after.len() && line_refreshed(
            before,
            #[trigger] after[row],
            viewport,
            cell_width,
            row,
        )
}

/// Lines of other rows than those from `start` up to `end` stay as they were; where
/// there was none, none is valid. No line is added behind `end`.
pub open spec fn other_lines_kept(
    before: Seq<EncodedLine>,
    after: Seq<EncodedLine>,
    start: int,
    end: int,
) -> bool {
    &&& before.len() <= after.len()
    &&& after.len() <= (if start < end {
        num::max_int(before.len() as int, end)
    } else {
        before.len() as int
    })
    &&& forall|row: int|
        0 <= row < after.len() && !(start <= row < end) ==> (if row < before.len() {
            #[trigger] after[row] == before[row]
        } else {
            !after[row].is_valid
        })
}

/// No line is anything but what it was, what is painted for its row, or, where it
/// was not made for its row, invalid.
pub open spec fn lines_sound(
    before: Seq<EncodedLine>,
    after: Seq<EncodedLine>,
    viewport: TerminalViewport,
    cell_width: i32,
) -> bool {
    forall|row: int|
        0 <= row < after.len() ==> {
            ||| row < before.len() && #[trigger] after[row] == before[row]
            ||| line_refreshed(before, after[row], viewport, cell_width, row)
            ||| !after[row].is_valid && !(row < before.len() && line_fits(
                before[row],
                viewport,
                cell_width,
                row,
            ))
        }
}

/// Whether a row can be painted without memory for its line: the row is blank,
/// or its line was made for it earlier.
pub open spec fn line_is_ready(
    cache: Seq<EncodedLine>,
    viewport: TerminalViewport,
    cell_width: i32,
    row: int,
) -> bool {
    ||| encoding::visible_len(viewport.row_cells(row)) == 0
    ||| row < cache.len() && line_fits(cache[row], viewport, cell_width, row)
}

/// What keeps a row from being painted though there is memory: a coordinate
/// that is too large. A row without text has none unless a part of it is selected.
pub open spec fn row_obstacle(selected: Option<ColumnRange>, has_text: bool, row: int) -> Option<
    AppError,
> {
    if row > i32::MAX && (has_text || selected is Some) {
        Some(AppError::InvalidInput("row index is too large"))
    } else if selected is Some && (selected->0.start > i32::MAX || selected->0.end > i32::MAX) {
        Some(AppError::InvalidInput("column index is too large"))
    } else {
        None
    }
}

/// Whether an error may come up when a row is painted: there is no memory for
/// its line, which is not ready, or a coordinate is too large.
pub open spec fn row_error(
    cache: Seq<EncodedLine>,
    viewport: TerminalViewport,
    selected: Seq<Option<ColumnRange>>,
    cell_width: i32,
    row: int,
    error: AppError,
) -> bool {
    ||| error == AppError::InvalidInput(LINE_TOO_LONG_MESSAGE) && !line_is_ready(
        cache,
        viewport,
        cell_width,
        row,
    )
    ||| Some(error) == row_obstacle(selected[row], true, row)
}

/// Nothing keeps the rows from `start` up to `end` from being painted.
pub open spec fn rows_unobstructed(
    cache: Seq<EncodedLine>,
    selected: Seq<Option<ColumnRange>>,
    start: int,
    end: int,
) -> bool {
    forall|row: int|
        start <= row < end ==> row_obstacle(
            #[trigger] selected[row],
            cache[row].wide@.len() > 0,
            row,
        ) is None
}

/// Whether an error may come up when rows are painted.
pub open spec fn rows_error(
    cache: Seq<EncodedLine>,
    viewport: TerminalViewport,
    selected: Seq<Option<ColumnRange>>,
    cell_width: i32,
    start: int,
    end: int,
    error: AppError,
) -> bool {
    exists|row: int|
        start <= row < end && #[trigger] row_error(
            cache,
            viewport,
            selected,
            cell_width,
            row,
            error,
        )
}

/// What keeps the cursor from being painted: a coordinate that is too large.
pub open spec fn cursor_obstacle(viewport: TerminalViewport) -> Option<AppError> {
    let cursor = viewport.cursor;
    if cursor.row >= viewport.rows || cursor.column >= viewport.columns {
        None
    } else if cursor.row > i32::MAX {
        Some(AppError::InvalidInput("row index is too large"))
    } else if cursor.column > i32::MAX {
        Some(AppError::InvalidInput("column index is too large"))
    } else {
        None
    }
}

/// Lines that were ready stay so.
pub open spec fn ready_lines_kept(
    before: Seq<EncodedLine>,
    after: Seq<EncodedLine>,
    viewport: TerminalViewport,
    cell_width: i32,
) -> bool {
    forall|row: int|
        0 <= row < viewport.rows && line_is_ready(before, viewport, cell_width, row)
            ==> #[trigger] line_is_ready(after, viewport, cell_width, row)
}

/// Brings the cached line of a row up to date.
fn refresh_line(cache: &mut Vec<EncodedLine>, viewport: &TerminalViewport, row: usize, cell_width: i32) -> (result:
    AppResult<()>)
    requires
        viewport.wf(),
        row < viewport.rows,
        cell_width >= 1,
    ensures
        final(cache)@.len() == num::max_int(old(cache)@.len() as int, row + 1),
        other_lines_kept(old(cache)@, final(cache)@, row as int, row + 1),
        result is Ok ==> line_refreshed(
            old(cache)@,
            final(cache)@[row as int],
            *viewport,
            cell_width,
            row as int,
        ),
        result is Err ==> !final(cache)@[row as int].is_valid,
        result matches Err(error) ==> error == AppError::InvalidInput(LINE_TOO_LONG_MESSAGE)
            && !line_is_ready(old(cache)@, *viewport, cell_width, row as int),
        ready_lines_kept(old(cache)@, final(cache)@, *viewport, cell_width),
{
    let ghost before = cache@;
    while cache.len() <= row
        invariant
            row < usize::MAX,
            before.len() <= cache@.len(),
            cache@.len() == before.len() || cache@.len() <= row + 1,
            forall|i: int| 0 <= i < before.len() ==> #[trigger] cache@[i] == before[i],
            forall|i: int| before.len() <= i < cache@.len() ==> !(#[trigger] cache@[i]).is_valid,
        decreases row + 1 - cache@.len(),
    {
        cache.push(EncodedLine::default());
    }
    let version = viewport.row_version(row);
    proof {
        crate::domain::terminal::lemma_row_bounds(
            row as int,
            viewport.rows as int,
            viewport.columns as int,
        );
    }
    match viewport.line_cells(row) {
        None => Ok(()),
        Some(cells) => {
            let fingerprint = encoding::terminal_cells_fingerprint(cells);
            if cache[row].is_valid_for(viewport.columns, version, cell_width, fingerprint) {
                Ok(())
            } else {
                let ghost grown = cache@;
                let mut line = EncodedLine::default();
                std::mem::swap(&mut cache[row], &mut line);
                let result = line.refresh_utf16(cells, version, cell_width);
                cache.set(row, line);
                result
            }
        },
    }
}

/// Plans rows of the terminal and brings their cached lines up to date.
pub fn paint_rows(
    ops: &mut Vec<PaintOp>,
    cache: &mut Vec<EncodedLine>,
    paint_rect: &DeviceRect,
    viewport: &TerminalViewport,
    content: UiRect,
    selected: &Vec<Option<ColumnRange>>,
    metrics: CellMetrics,
    rows: RowRange,
) -> (result: AppResult<()>)
    requires
        viewport.wf(),
        rows.end <= viewport.rows,
        selected@.len() == viewport.rows,
    ensures
        result matches Err(error) ==> rows_error(
            old(cache)@,
            *viewport,
            selected@,
            num::max_int(metrics.width as int, 1) as i32,
            rows.start as int,
            rows.end as int,
            error,
        ),
        ready_lines_kept(
            old(cache)@,
            final(cache)@,
            *viewport,
            num::max_int(metrics.width as int, 1) as i32,
        ),
        result is Ok ==> {
            &&& plan(final(ops)@) == plan(old(ops)@) + rows_plan(
                final(cache)@,
                selected@,
                content,
                *paint_rect,
                metrics,
                rows.start as int,
                rows.end as int,
            )
            &&& rows_refreshed(
                old(cache)@,
                final(cache)@,
                *viewport,
                num::max_int(metrics.width as int, 1) as i32,
                rows.start as int,
                rows.end as int,
            )
            &&& rows_unobstructed(
                final(cache)@,
                selected@,
                rows.start as int,
                rows.end as int,
            )
        },
        other_lines_kept(old(cache)@, final(cache)@, rows.start as int, rows.end as int),
        lines_sound(
            old(cache)@,
            final(cache)@,
            *viewport,
            num::max_int(metrics.width as int, 1) as i32,
        ),
{
    let ghost before = plan(ops@);
    let cell_width = num::max_i32(metrics.width, 1);
    let mut row: usize = rows.start;
    assert(before =~= before + rows_plan(
        cache@,
        selected@,
        content,
        *paint_rect,
        metrics,
        rows.start as int,
        rows.start as int,
    ));
    while row < rows.end
        invariant
            viewport.wf(),
            rows.end <= viewport.rows,
            selected@.len() == viewport.rows,
            rows.start <= row,
            row <= num::max_int(rows.start as int, rows.end as int),
            cell_width == num::max_int(metrics.width as int, 1),
            ready_lines_kept(old(cache)@, cache@, *viewport, cell_width),
            plan(ops@) == before + rows_plan(
                cache@,
                selected@,
                content,
                *paint_rect,
                metrics,
                rows.start as int,
                row as int,
            ),
            rows_refreshed(
                old(cache)@,
                cache@,
                *viewport,
                cell_width,
                rows.start as int,
                row as int,
            ),
            other_lines_kept(old(cache)@, cache@, rows.start as int, row as int),
            lines_sound(old(cache)@, cache@, *viewport, cell_width),
            rows_unobstructed(cache@, selected@, rows.start as int, row as int),
        decreases rows.end - row,
    {
        let ghost done = cache@;
        let ghost planned = plan(ops@);
        if let Some(columns) = selected[row] {
            match geometry::selection_rect(content, metrics, row, columns.start, columns.end) {
                Err(error) => {
                    assert(row_error(
                        old(cache)@,
                        *viewport,
                        selected@,
                        cell_width,
                        row as int,
                        error,
                    ));
                    return Err(error);
                },
                Ok(rect) => {
                    fill_solid_rect_intersection(
                        ops,
                        &rect,
                        paint_rect,
                        SELECTION_BACKGROUND,
                        "FillRect selection",
                    );
                },
            }
        }
        if let Err(error) = refresh_line(cache, viewport, row, cell_width) {
            assert(row_error(
                old(cache)@,
                *viewport,
                selected@,
                cell_width,
                row as int,
                error,
            ));
            return Err(error);
        }
        if cache[row].wide.len() > 0 {
            if row > i32::MAX as usize {
                let error = AppError::InvalidInput("row index is too large");
                assert(row_error(
                    old(cache)@,
                    *viewport,
                    selected@,
                    cell_width,
                    row as int,
                    error,
                ));
                return Err(error);
            }
            let y = num::saturating_add(
                num::saturating_mul(row as i32, metrics.height),
                content.y,
            );
            if let Some(clip) = geometry::terminal_row_clip_rect(content, metrics, row) {
                add_op(ops, PaintOp::Row { row, x: content.x, y, clip });
            }
        }
        proof {
            lemma_rows_plan_same(
                done,
                cache@,
                selected@,
                content,
                *paint_rect,
                metrics,
                rows.start as int,
                row as int,
            );
            let this = row_plan(
                cache@[row as int],
                selected@[row as int],
                content,
                *paint_rect,
                metrics,
                row as int,
            );
            assert(plan(ops@) =~= planned + this);
            assert(before + (rows_plan(
                cache@,
                selected@,
                content,
                *paint_rect,
                metrics,
                rows.start as int,
                row as int,
            ) + this) =~= planned + this);
        }
        row += 1;
    }
    if rows.end < rows.start {
        assert(rows_plan(
            cache@,
            selected@,
            content,
            *paint_rect,
            metrics,
            rows.start as int,
            rows.end as int,
        ) =~= rows_plan(
            cache@,
            selected@,
            content,
            *paint_rect,
            metrics,
            rows.start as int,
            row as int,
        ));
    }
    Ok(())
}

/// What is shown in a window.
pub struct PaintScene<'a> {
    pub viewport: &'a TerminalViewport,
    pub window: &'a WindowLayout,
    pub tabs: &'a Vec<TerminalTabView>,
    /// The part of the terminal that holds its cells.
    pub content: UiRect,
    /// The selected columns of each row of the screen.
    pub selected: &'a Vec<Option<ColumnRange>>,
}

/// What is painted of a whole window, back to front.
pub open spec fn scene_plan(
    scene: PaintScene<'_>,
    cache: Seq<EncodedLine>,
    clip: DeviceRect,
    metrics: CellMetrics,
) -> Seq<PaintModel> {
    let rows = geometry::painted_rows(
        clip,
        scene.content,
        scene.viewport.rows as int,
        metrics.height as int,
    );
    seq![
        PaintModel::Fill { rect: clip, color: CHROME_BACKGROUND, operation: "FillRect chrome"@ },
    ] + tab_bar_plan(*scene.window, scene.tabs@, clip, metrics) + filled(
        geometry::edges_of(scene.window.terminal),
        clip,
        BACKGROUND,
        "FillRect terminal"@,
    ) + rows_plan(
        cache,
        scene.selected@,
        scene.content,
        clip,
        metrics,
        rows.start as int,
        rows.end as int,
    ) + splitter_plan(scene.window.splitter, clip) + cursor_plan(
        *scene.viewport,
        scene.content,
        clip,
        metrics,
    )
}

/// The rows of a scene that an area shows.
pub open spec fn shown_rows(scene: PaintScene<'_>, clip: DeviceRect, metrics: CellMetrics) -> RowRange {
    geometry::painted_rows(
        clip,
        scene.content,
        scene.viewport.rows as int,
        metrics.height as int,
    )
}

/// Whether an error may come up when an area of a window is painted.
pub open spec fn scene_error(
    scene: PaintScene<'_>,
    cache: Seq<EncodedLine>,
    clip: DeviceRect,
    metrics: CellMetrics,
    error: AppError,
) -> bool {
    let rows = geometry::painted_rows(
        clip,
        scene.content,
        scene.viewport.rows as int,
        metrics.height as int,
    );
    ||| rows_error(
        cache,
        *scene.viewport,
        scene.selected@,
        num::max_int(metrics.width as int, 1) as i32,
        rows.start as int,
        rows.end as int,
        error,
    )
    ||| Some(error) == cursor_obstacle(*scene.viewport)
}

/// Nothing keeps the rows that an area shows from being painted.
pub open spec fn area_unobstructed(scene: PaintScene<'_>, clip: DeviceRect, metrics: CellMetrics) -> bool {
    forall|row: int|
        shown_rows(scene, clip, metrics).has(row) ==> row_obstacle(
            #[trigger] scene.selected@[row],
            true,
            row,
        ) is None
}

/// The rows that an area shows can be counted in an `i32`.
proof fn lemma_shown_rows_fit(scene: PaintScene<'_>, clip: DeviceRect, metrics: CellMetrics)
    ensures
        shown_rows(scene, clip, metrics).end <= i32::MAX,
{
    let height = num::max_int(metrics.height as int, 1);
    let bottom = num::clamped(scene.content.y + scene.content.height);
    let paint_bottom = num::min_int(clip.bottom as int, bottom);
    let end_offset = num::clamped(paint_bottom - scene.content.y);
    let padded = num::clamped(end_offset + (height - 1));
    assert(padded / height <= i32::MAX) by (nonlinear_arith)
        requires
            padded <= i32::MAX,
            height >= 1,
    ;
    assert(padded >= 0 ==> padded / height >= 0) by (nonlinear_arith)
        requires
            height >= 1,
    ;
}

/// Plans a window, as far as it has to be painted.
pub fn paint_scene(
    scene: &PaintScene<'_>,
    cache: &mut Vec<EncodedLine>,
    paint_rect: &DeviceRect,
    metrics: CellMetrics,
) -> (ops: AppResult<Vec<PaintOp>>)
    requires
        scene.viewport.wf(),
        scene.selected@.len() == scene.viewport.rows,
    ensures
        ops matches Err(error) ==> scene_error(*scene, old(cache)@, *paint_rect, metrics, error),
        ops is Ok ==> cursor_obstacle(*scene.viewport) is None,
        ops is Ok ==> area_unobstructed(*scene, *paint_rect, metrics),
        ready_lines_kept(
            old(cache)@,
            final(cache)@,
            *scene.viewport,
            num::max_int(metrics.width as int, 1) as i32,
        ),
        ops matches Ok(planned) ==> plan(planned@) == scene_plan(
            *scene,
            final(cache)@,
            *paint_rect,
            metrics,
        ),
        ops is Ok ==> rows_refreshed(
            old(cache)@,
            final(cache)@,
            *scene.viewport,
            num::max_int(metrics.width as int, 1) as i32,
            shown_rows(*scene, *paint_rect, metrics).start as int,
            shown_rows(*scene, *paint_rect, metrics).end as int,
        ),
        other_lines_kept(
            old(cache)@,
            final(cache)@,
            shown_rows(*scene, *paint_rect, metrics).start as int,
            shown_rows(*scene, *paint_rect, metrics).end as int,
        ),
        lines_sound(
            old(cache)@,
            final(cache)@,
            *scene.viewport,
            num::max_int(metrics.width as int, 1) as i32,
        ),
{
    let mut ops: Vec<PaintOp> = Vec::new();
    add_op(
        &mut ops,
        PaintOp::Fill {
            rect: *paint_rect,
            color: CHROME_BACKGROUND,
            operation: "FillRect chrome",
        },
    );
    paint_tab_bar(&mut ops, paint_rect, scene.window, scene.tabs, metrics);
    fill_solid_rect_intersection(
        &mut ops,
        &geometry::rect_from_ui(scene.window.terminal),
        paint_rect,
        BACKGROUND,
        "FillRect terminal",
    );
    let rows = geometry::terminal_paint_row_range(
        paint_rect,
        scene.content,
        scene.viewport.rows,
        metrics.height,
    );
    if let Err(error) = paint_rows(
        &mut ops,
        cache,
        paint_rect,
        scene.viewport,
        scene.content,
        scene.selected,
        metrics,
        rows,
    ) {
        return Err(error);
    }
    paint_splitter(&mut ops, paint_rect, scene.window.splitter);
    if let Err(error) = paint_cursor(
        &mut ops,
        paint_rect,
        scene.viewport,
        scene.content,
        metrics,
    ) {
        return Err(error);
    }
    assert(plan(ops@) =~= scene_plan(*scene, cache@, *paint_rect, metrics));
    proof {
        lemma_shown_rows_fit(*scene, *paint_rect, metrics);
    }
    Ok(ops)
}

/// The areas to paint where only some rows of the terminal changed.
pub open spec fn changed_areas(
    ranges: Seq<RowRange>,
    content: UiRect,
    metrics: CellMetrics,
    visible_rows: int,
    clip: DeviceRect,
) -> Seq<DeviceRect>
    decreases ranges.len(),
{
    if ranges.len() == 0 {
        Seq::empty()
    } else {
        let rest = changed_areas(ranges.drop_last(), content, metrics, visible_rows, clip);
        match geometry::row_range_area(content, metrics, ranges.last(), visible_rows) {
            Some(area) => match geometry::intersection(geometry::edges_of(area), clip) {
                Some(part) => rest.push(part),
                None => rest,
            },
            None => rest,
        }
    }
}

/// The areas to paint where only some rows of the terminal changed.
pub fn changed_row_areas(
    ranges: &Vec<RowRange>,
    content: UiRect,
    metrics: CellMetrics,
    visible_rows: usize,
    paint_rect: &DeviceRect,
) -> (areas: Vec<DeviceRect>)
    ensures
        areas@ == changed_areas(ranges@, content, metrics, visible_rows as int, *paint_rect),
{
    let mut areas: Vec<DeviceRect> = Vec::new();
    let mut index: usize = 0;
    assert(ranges@.take(0) =~= Seq::<RowRange>::empty());
    while index < ranges.len()
        invariant
            index <= ranges@.len(),
            areas@ == changed_areas(
                ranges@.take(index as int),
                content,
                metrics,
                visible_rows as int,
                *paint_rect,
            ),
        decreases ranges@.len() - index,
    {
        proof {
            let more = ranges@.take(index + 1);
            assert(more.drop_last() =~= ranges@.take(index as int));
            assert(more.last() == ranges@[index as int]);
        }
        if let Some(area) = geometry::terminal_row_range_rect(
            content,
            metrics,
            ranges[index],
            visible_rows,
        ) {
            if let Some(part) = geometry::intersect_rects(
                &geometry::rect_from_ui(area),
                paint_rect,
            ) {
                areas.push(part);
            }
        }
        index += 1;
    }
    assert(ranges@.take(index as int) =~= ranges@);
    areas
}

/// Whether one of some areas shows a row.
pub open spec fn row_is_shown(
    scene: PaintScene<'_>,
    areas: Seq<DeviceRect>,
    metrics: CellMetrics,
    row: int,
) -> bool {
    exists|i: int|
        0 <= i < areas.len() && shown_rows(scene, #[trigger] areas[i], metrics).has(row)
}

/// Every row that is shown has the line that is painted for it.
pub open spec fn shown_lines_refreshed(
    scene: PaintScene<'_>,
    before: Seq<EncodedLine>,
    after: Seq<EncodedLine>,
    areas: Seq<DeviceRect>,
    metrics: CellMetrics,
) -> bool {
    forall|row: int| #[trigger]
        row_is_shown(scene, areas, metrics, row) ==> row < after.len() && line_refreshed(
            before,
            after[row],
            *scene.viewport,
            num::max_int(metrics.width as int, 1) as i32,
            row,
        )
}

/// Whether one of some areas shows a row, or one behind it.
pub open spec fn row_is_covered(
    scene: PaintScene<'_>,
    areas: Seq<DeviceRect>,
    metrics: CellMetrics,
    row: int,
) -> bool {
    exists|i: int|
        {
            let rows = shown_rows(scene, #[trigger] areas[i], metrics);
            0 <= i < areas.len() && rows.start < rows.end && row < rows.end
        }
}

/// Lines of rows that are not shown stay as they were; where there was none, none is
/// valid. No line is added behind the last row that is shown.
pub open spec fn hidden_lines_kept(
    scene: PaintScene<'_>,
    before: Seq<EncodedLine>,
    after: Seq<EncodedLine>,
    areas: Seq<DeviceRect>,
    metrics: CellMetrics,
) -> bool {
    &&& before.len() <= after.len()
    &&& forall|row: int|
        before.len() <= row < after.len() ==> #[trigger] row_is_covered(scene, areas, metrics, row)
    &&& forall|row: int|
        0 <= row < after.len() && !row_is_shown(scene, areas, metrics, row) ==> (if row
            < before.len() {
            #[trigger] after[row] == before[row]
        } else {
            !after[row].is_valid
        })
}

proof fn lemma_shown_with_next(
    scene: PaintScene<'_>,
    areas: Seq<DeviceRect>,
    metrics: CellMetrics,
    k: int,
    row: int,
)
    requires
        0 <= k < areas.len(),
    ensures
        row_is_shown(scene, areas.take(k + 1), metrics, row) <==> row_is_shown(
            scene,
            areas.take(k),
            metrics,
            row,
        ) || shown_rows(scene, areas[k], metrics).has(row),
{
    let shorter = areas.take(k);
    let longer = areas.take(k + 1);
    if row_is_shown(scene, longer, metrics, row) {
        let i = choose|i: int|
            0 <= i < longer.len() && shown_rows(scene, #[trigger] longer[i], metrics).has(row);
        if i < k {
            assert(shorter[i] == longer[i]);
        }
    }
    if row_is_shown(scene, shorter, metrics, row) {
        let i = choose|i: int|
            0 <= i < shorter.len() && shown_rows(scene, #[trigger] shorter[i], metrics).has(row);
        assert(longer[i] == shorter[i]);
    }
    if shown_rows(scene, areas[k], metrics).has(row) {
        assert(longer[k] == areas[k]);
    }
}

/// Painting one more area keeps the lines of those before it.
proof fn lemma_next_area(
    scene: PaintScene<'_>,
    before: Seq<EncodedLine>,
    mid: Seq<EncodedLine>,
    after: Seq<EncodedLine>,
    areas: Seq<DeviceRect>,
    metrics: CellMetrics,
    k: int,
)
    requires
        0 <= k < areas.len(),
        shown_lines_refreshed(scene, before, mid, areas.take(k), metrics),
        hidden_lines_kept(scene, before, mid, areas.take(k), metrics),
        rows_refreshed(
            mid,
            after,
            *scene.viewport,
            num::max_int(metrics.width as int, 1) as i32,
            shown_rows(scene, areas[k], metrics).start as int,
            shown_rows(scene, areas[k], metrics).end as int,
        ),
        other_lines_kept(
            mid,
            after,
            shown_rows(scene, areas[k], metrics).start as int,
            shown_rows(scene, areas[k], metrics).end as int,
        ),
    ensures
        shown_lines_refreshed(scene, before, after, areas.take(k + 1), metrics),
        hidden_lines_kept(scene, before, after, areas.take(k + 1), metrics),
        forall|i: int|
            0 <= i < k ==> scene_plan(scene, after, #[trigger] areas[i], metrics) == scene_plan(
                scene,
                mid,
                areas[i],
                metrics,
            ),
{
    let cell_width = num::max_int(metrics.width as int, 1) as i32;
    let next = shown_rows(scene, areas[k], metrics);
    assert forall|row: int| #[trigger]
        row_is_shown(scene, areas.take(k + 1), metrics, row) implies row < after.len()
        && line_refreshed(before, after[row], *scene.viewport, cell_width, row) by {
        lemma_shown_with_next(scene, areas, metrics, k, row);
        if row_is_shown(scene, areas.take(k), metrics, row) {
            assert(line_refreshed(before, mid[row], *scene.viewport, cell_width, row));
            assert(after[row] == mid[row]);
        } else if row < mid.len() {
            assert(if row < before.len() {
                mid[row] == before[row]
            } else {
                !mid[row].is_valid
            });
            assert(line_refreshed(mid, after[row], *scene.viewport, cell_width, row));
        } else {
            assert(line_refreshed(mid, after[row], *scene.viewport, cell_width, row));
        }
    }
    assert forall|row: int|
        0 <= row < after.len() && !row_is_shown(scene, areas.take(k + 1), metrics, row) implies (
    if row < before.len() {
        #[trigger] after[row] == before[row]
    } else {
        !after[row].is_valid
    }) by {
        lemma_shown_with_next(scene, areas, metrics, k, row);
        if row < mid.len() {
            assert(after[row] == mid[row]);
        }
    }
    assert forall|row: int| before.len() <= row < after.len() implies #[trigger] row_is_covered(
        scene,
        areas.take(k + 1),
        metrics,
        row,
    ) by {
        if row < mid.len() {
            assert(row_is_covered(scene, areas.take(k), metrics, row));
            let i = choose|i: int|
                {
                    let rows = shown_rows(scene, #[trigger] areas.take(k)[i], metrics);
                    0 <= i < areas.take(k).len() && rows.start < rows.end && row < rows.end
                };
            assert(areas.take(k + 1)[i] == areas.take(k)[i]);
        } else {
            assert(areas.take(k + 1)[k] == areas[k]);
        }
    }
    assert forall|i: int| 0 <= i < k implies scene_plan(scene, after, #[trigger] areas[i], metrics)
        == scene_plan(scene, mid, areas[i], metrics) by {
        let rows = shown_rows(scene, areas[i], metrics);
        assert forall|row: int| rows.start <= row < rows.end implies #[trigger] after[row]
            == mid[row] by {
            assert(areas.take(k)[i] == areas[i]);
            assert(row_is_shown(scene, areas.take(k), metrics, row));
            assert(line_refreshed(before, mid[row], *scene.viewport, cell_width, row));
            if next.has(row) {
                assert(line_refreshed(mid, after[row], *scene.viewport, cell_width, row));
            }
        }
        lemma_rows_plan_same(
            after,
            mid,
            scene.selected@,
            scene.content,
            areas[i],
            metrics,
            rows.start as int,
            rows.end as int,
        );
    }
}

/// Where an area cannot be painted, the lines of the areas before it stay as they
/// are, and so do those of rows that neither it nor one of them shows.
proof fn lemma_failed_area(
    scene: PaintScene<'_>,
    before: Seq<EncodedLine>,
    mid: Seq<EncodedLine>,
    after: Seq<EncodedLine>,
    areas: Seq<DeviceRect>,
    metrics: CellMetrics,
    k: int,
)
    requires
        0 <= k < areas.len(),
        shown_lines_refreshed(scene, before, mid, areas.take(k), metrics),
        hidden_lines_kept(scene, before, mid, areas.take(k), metrics),
        other_lines_kept(
            mid,
            after,
            shown_rows(scene, areas[k], metrics).start as int,
            shown_rows(scene, areas[k], metrics).end as int,
        ),
        lines_sound(
            mid,
            after,
            *scene.viewport,
            num::max_int(metrics.width as int, 1) as i32,
        ),
    ensures
        shown_lines_refreshed(scene, before, after, areas.take(k), metrics),
        hidden_lines_kept(scene, before, after, areas.take(k + 1), metrics),
        forall|i: int|
            0 <= i < k ==> scene_plan(scene, after, #[trigger] areas[i], metrics) == scene_plan(
                scene,
                mid,
                areas[i],
                metrics,
            ),
{
    let cell_width = num::max_int(metrics.width as int, 1) as i32;
    assert forall|row: int| #[trigger]
        row_is_shown(scene, areas.take(k), metrics, row) implies row < after.len()
        && line_refreshed(before, after[row], *scene.viewport, cell_width, row) && after[row]
        == mid[row] by {
        assert(line_refreshed(before, mid[row], *scene.viewport, cell_width, row));
        assert(line_fits(mid[row], *scene.viewport, cell_width, row));
        let kept = after[row];
    }
    assert forall|row: int|
        0 <= row < after.len() && !row_is_shown(scene, areas.take(k + 1), metrics, row) implies (
    if row < before.len() {
        #[trigger] after[row] == before[row]
    } else {
        !after[row].is_valid
    }) by {
        lemma_shown_with_next(scene, areas, metrics, k, row);
        if row < mid.len() {
            assert(after[row] == mid[row]);
        }
    }
    assert forall|row: int| before.len() <= row < after.len() implies #[trigger] row_is_covered(
        scene,
        areas.take(k + 1),
        metrics,
        row,
    ) by {
        if row < mid.len() {
            assert(row_is_covered(scene, areas.take(k), metrics, row));
            let i = choose|i: int|
                {
                    let rows = shown_rows(scene, #[trigger] areas.take(k)[i], metrics);
                    0 <= i < areas.take(k).len() && rows.start < rows.end && row < rows.end
                };
            assert(areas.take(k + 1)[i] == areas.take(k)[i]);
        } else {
            assert(areas.take(k + 1)[k] == areas[k]);
        }
    }
    assert forall|i: int| 0 <= i < k implies scene_plan(scene, after, #[trigger] areas[i], metrics)
        == scene_plan(scene, mid, areas[i], metrics) by {
        let rows = shown_rows(scene, areas[i], metrics);
        assert forall|row: int| rows.start <= row < rows.end implies #[trigger] after[row]
            == mid[row] by {
            assert(areas.take(k)[i] == areas[i]);
            assert(row_is_shown(scene, areas.take(k), metrics, row));
        }
        lemma_rows_plan_same(
            after,
            mid,
            scene.selected@,
            scene.content,
            areas[i],
            metrics,
            rows.start as int,
            rows.end as int,
        );
    }
}

/// Lines stay sound over two paintings.
proof fn lemma_sound_twice(
    before: Seq<EncodedLine>,
    mid: Seq<EncodedLine>,
    after: Seq<EncodedLine>,
    viewport: TerminalViewport,
    cell_width: i32,
)
    requires
        before.len() <= mid.len(),
        lines_sound(before, mid, viewport, cell_width),
        lines_sound(mid, after, viewport, cell_width),
    ensures
        lines_sound(before, after, viewport, cell_width),
{
    assert forall|row: int| 0 <= row < after.len() implies {
        ||| row < before.len() && #[trigger] after[row] == before[row]
        ||| line_refreshed(before, after[row], viewport, cell_width, row)
        ||| !after[row].is_valid && !(row < before.len() && line_fits(
            before[row],
            viewport,
            cell_width,
            row,
        ))
    } by {
        if row < mid.len() {
            let kept = mid[row];
        }
    }
}

/// The areas that are painted: those of changed rows, or all. Of an empty area
/// nothing is.
pub open spec fn painted_areas(
    scene: PaintScene<'_>,
    changed_rows: Option<Seq<RowRange>>,
    clip: DeviceRect,
    metrics: CellMetrics,
) -> Seq<DeviceRect> {
    match changed_rows {
        Some(ranges) => changed_areas(
            ranges,
            scene.content,
            metrics,
            scene.viewport.rows as int,
            clip,
        ),
        None => if geometry::buffer_size(clip) is Some {
            seq![clip]
        } else {
            Seq::empty()
        },
    }
}

/// No area that is painted is empty.
pub proof fn law_painted_areas_are_not_empty(
    scene: PaintScene<'_>,
    changed_rows: Option<Seq<RowRange>>,
    clip: DeviceRect,
    metrics: CellMetrics,
    at: int,
)
    requires
        0 <= at < painted_areas(scene, changed_rows, clip, metrics).len(),
    ensures
        geometry::buffer_size(painted_areas(scene, changed_rows, clip, metrics)[at]) is Some,
{
    if changed_rows is Some {
        lemma_changed_areas_are_not_empty(
            changed_rows->0,
            scene.content,
            metrics,
            scene.viewport.rows as int,
            clip,
            at,
        );
    }
}

proof fn lemma_changed_areas_are_not_empty(
    ranges: Seq<RowRange>,
    content: UiRect,
    metrics: CellMetrics,
    visible_rows: int,
    clip: DeviceRect,
    at: int,
)
    requires
        0 <= at < changed_areas(ranges, content, metrics, visible_rows, clip).len(),
    ensures
        geometry::buffer_size(
            changed_areas(ranges, content, metrics, visible_rows, clip)[at],
        ) is Some,
    decreases ranges.len(),
{
    let rest = changed_areas(ranges.drop_last(), content, metrics, visible_rows, clip);
    if at < rest.len() {
        lemma_changed_areas_are_not_empty(
            ranges.drop_last(),
            content,
            metrics,
            visible_rows,
            clip,
            at,
        );
    }
}

/// Areas to be shown one after the other, each with its plan, and the error that
/// ended the painting, if one did.
#[derive(Debug)]
pub struct PaintPlan {
    pub areas: Vec<(DeviceRect, Vec<PaintOp>)>,
    pub error: Option<AppError>,
}

/// How a renderer paints a scene: of the whole area, or of the changed rows in it,
/// each with its own area. An area that cannot be painted ends the painting; those
/// before it are shown.
pub open spec fn scene_painted(
    before: GdiRenderer,
    after: GdiRenderer,
    scene: PaintScene<'_>,
    clip: DeviceRect,
    changed_rows: Option<Seq<RowRange>>,
    painting: PaintPlan,
) -> bool {
    let metrics = before.metrics;
    let areas = painted_areas(scene, changed_rows, clip, metrics);
    let done = painting.areas@.len() as int;
    let lines = after.line_cache@;
    &&& after == (GdiRenderer { line_cache: after.line_cache, ..before })
    &&& painting.error is None ==> done == areas.len()
    &&& painting.error matches Some(error) ==> done < areas.len() && scene_error(
        scene,
        before.line_cache@,
        areas[done],
        metrics,
        error,
    )
    &&& done <= areas.len()
    &&& forall|i: int|
        0 <= i < done ==> {
            &&& (#[trigger] painting.areas@[i]).0 == areas[i]
            &&& plan(painting.areas@[i].1@) == scene_plan(scene, lines, areas[i], metrics)
            &&& area_unobstructed(scene, areas[i], metrics)
        }
    &&& done > 0 ==> cursor_obstacle(*scene.viewport) is None
    &&& shown_lines_refreshed(scene, before.line_cache@, lines, areas.take(done), metrics)
    &&& hidden_lines_kept(
        scene,
        before.line_cache@,
        lines,
        if painting.error is Some {
            areas.take(done + 1)
        } else {
            areas
        },
        metrics,
    )
    &&& lines_sound(
        before.line_cache@,
        lines,
        *scene.viewport,
        num::max_int(metrics.width as int, 1) as i32,
    )
}

/// Ranges of rows as a value.
pub open spec fn range_list(ranges: Option<&Vec<RowRange>>) -> Option<Seq<RowRange>> {
    match ranges {
        Some(ranges) => Some(ranges@),
        None => None,
    }
}

/// What a renderer remembers from one painting to the next.
pub struct GdiRenderer {
    pub metrics: CellMetrics,
    pub metrics_initialized: bool,
    pub font_family: String,
    pub font_size_points: u16,
    /// The resolution that the font in use was made for.
    pub font_dpi: Option<i32>,
    pub line_cache: Vec<EncodedLine>,
}

impl GdiRenderer {
    pub fn new(font_family: String, font_size_points: u16) -> (renderer: Self)
        ensures
            renderer.metrics == (CellMetrics { width: 8, height: 16 }),
            !renderer.metrics_initialized,
            renderer.font_family == font_family,
            renderer.font_size_points == font_size_points,
            renderer.font_dpi is None,
            renderer.line_cache@.len() == 0,
    {
        GdiRenderer {
            metrics: CellMetrics::default(),
            metrics_initialized: false,
            font_family,
            font_size_points,
            font_dpi: None,
            line_cache: Vec::new(),
        }
    }

    pub fn cell_metrics(&self) -> (metrics: CellMetrics)
        ensures
            metrics == self.metrics,
    {
        self.metrics
    }

    /// Takes what a device measured.
    pub fn refresh_metrics(&mut self, measured: CellMetrics) -> (metrics: CellMetrics)
        ensures
            metrics == measured,
            *final(self) == (GdiRenderer {
                metrics: measured,
                metrics_initialized: true,
                ..*old(self)
            }),
    {
        self.metrics = measured;
        self.metrics_initialized = true;
        measured
    }

    /// The metrics; `measured` is taken where none were measured yet.
    pub fn ensure_metrics(&mut self, measured: CellMetrics) -> (metrics: CellMetrics)
        ensures
            metrics == (if old(self).metrics_initialized {
                old(self).metrics
            } else {
                measured
            }),
            *final(self) == (GdiRenderer { metrics, metrics_initialized: true, ..*old(self) }),
    {
        if self.metrics_initialized {
            return self.metrics;
        }
        self.refresh_metrics(measured)
    }

    /// Takes another font: everything that was made with the old one goes.
    /// Reports whether the font is another one.
    pub fn set_font(&mut self, family: String, size_points: u16) -> (changed: bool)
        ensures
            changed == !(old(self).font_family@ == family@ && old(self).font_size_points
                == size_points),
            !changed ==> *final(self) == *old(self),
            changed ==> {
                &&& final(self).font_family == family
                &&& final(self).font_size_points == size_points
                &&& final(self).font_dpi is None
                &&& !final(self).metrics_initialized
                &&& final(self).metrics == old(self).metrics
                &&& final(self).line_cache@.len() == 0
            },
    {
        if self.font_family == family && self.font_size_points == size_points {
            return false;
        }
        self.font_family = family;
        self.font_size_points = size_points;
        self.font_dpi = None;
        self.metrics_initialized = false;
        self.line_cache.clear();
        true
    }

    /// Whether the font has to be made anew for a device.
    pub fn font_outdated(&self, dpi_y: i32) -> (outdated: bool)
        ensures
            outdated == (self.font_dpi != Some(dpi_y)),
    {
        match self.font_dpi {
            Some(held) => held != dpi_y,
            None => true,
        }
    }

    /// Takes the font for a device; `made` says whether it could be made anew, where
    /// it had to be. What was made with an old font goes then. Where it could not be
    /// made, all stays as it is, and the font is made at the next attempt.
    pub fn select_font(&mut self, dpi_y: i32, made: AppResult<()>) -> (recreated: AppResult<bool>)
        ensures
            old(self).font_dpi == Some(dpi_y) ==> recreated == Ok::<bool, AppError>(false)
                && *final(self) == *old(self),
            old(self).font_dpi != Some(dpi_y) ==> match made {
                Err(error) => recreated == Err::<bool, AppError>(error) && *final(self) == *old(
                    self,
                ),
                Ok(()) => {
                    &&& recreated == Ok::<bool, AppError>(true)
                    &&& final(self).font_dpi == Some(dpi_y)
                    &&& !final(self).metrics_initialized
                    &&& final(self).line_cache@.len() == 0
                    &&& final(self).metrics == old(self).metrics
                    &&& final(self).font_family == old(self).font_family
                    &&& final(self).font_size_points == old(self).font_size_points
                },
            },
    {
        if !self.font_outdated(dpi_y) {
            return Ok(false);
        }
        match made {
            Err(error) => Err(error),
            Ok(()) => {
                self.font_dpi = Some(dpi_y);
                self.metrics_initialized = false;
                self.line_cache.clear();
                Ok(true)
            },
        }
    }

    pub fn clear_terminal_line_cache(&mut self)
        ensures
            final(self).line_cache@.len() == 0,
            final(self).metrics == old(self).metrics,
            final(self).metrics_initialized == old(self).metrics_initialized,
            final(self).font_family == old(self).font_family,
            final(self).font_size_points == old(self).font_size_points,
            final(self).font_dpi == old(self).font_dpi,
    {
        self.line_cache.clear();
    }

    /// What of a window has to be painted again: nothing of an empty area.
    pub fn invalidate_rect(rect: UiRect) -> (area: Option<DeviceRect>)
        ensures
            area == (if rect.width <= 0 || rect.height <= 0 {
                None
            } else {
                Some(geometry::edges_of(rect))
            }),
    {
        if rect.width <= 0 || rect.height <= 0 {
            return None;
        }
        Some(geometry::rect_from_ui(rect))
    }

    /// Plans a painting: of the whole area, or of the changed rows in it, each
    /// with its own area.
    #[verifier::spinoff_prover]
    pub fn paint(
        &mut self,
        scene: &PaintScene<'_>,
        paint_rect: &DeviceRect,
        changed_rows: Option<&Vec<RowRange>>,
    ) -> (painting: PaintPlan)
        requires
            scene.viewport.wf(),
            scene.selected@.len() == scene.viewport.rows,
        ensures
            scene_painted(
                *old(self),
                *final(self),
                *scene,
                *paint_rect,
                range_list(changed_rows),
                painting,
            ),
    {
        let areas = match changed_rows {
            Some(ranges) => changed_row_areas(
                ranges,
                scene.content,
                self.metrics,
                scene.viewport.rows,
                paint_rect,
            ),
            None => match geometry::paint_buffer_size(paint_rect) {
                Some(_) => vec![*paint_rect],
                None => Vec::new(),
            },
        };
        let ghost metrics = self.metrics;
        let ghost cell_width = num::max_int(metrics.width as int, 1) as i32;
        let ghost first = self.line_cache@;
        let mut planned: Vec<(DeviceRect, Vec<PaintOp>)> = Vec::new();
        let mut index: usize = 0;
        while index < areas.len()
            invariant
                scene.viewport.wf(),
                scene.selected@.len() == scene.viewport.rows,
                metrics == old(self).metrics,
                cell_width == num::max_int(metrics.width as int, 1),
                first == old(self).line_cache@,
                *self == (GdiRenderer { line_cache: self.line_cache, ..*old(self) }),
                areas@ == painted_areas(
                    *scene,
                    range_list(changed_rows),
                    *paint_rect,
                    metrics,
                ),
                shown_lines_refreshed(
                    *scene,
                    first,
                    self.line_cache@,
                    areas@.take(index as int),
                    metrics,
                ),
                hidden_lines_kept(
                    *scene,
                    first,
                    self.line_cache@,
                    areas@.take(index as int),
                    metrics,
                ),
                lines_sound(first, self.line_cache@, *scene.viewport, cell_width),
                ready_lines_kept(first, self.line_cache@, *scene.viewport, cell_width),
                index <= areas@.len(),
                planned@.len() == index,
                index > 0 ==> cursor_obstacle(*scene.viewport) is None,
                forall|i: int|
                    0 <= i < index ==> {
                        &&& (#[trigger] planned@[i]).0 == areas@[i]
                        &&& plan(planned@[i].1@) == scene_plan(
                            *scene,
                            self.line_cache@,
                            areas@[i],
                            metrics,
                        )
                        &&& area_unobstructed(*scene, areas@[i], metrics)
                    },
            decreases areas@.len() - index,
        {
            let ghost lines = self.line_cache@;
            match paint_scene(scene, &mut self.line_cache, &areas[index], self.metrics) {
                Err(error) => {
                    proof {
                        lemma_sound_twice(
                            first,
                            lines,
                            self.line_cache@,
                            *scene.viewport,
                            cell_width,
                        );
                        lemma_failed_area(
                            *scene,
                            first,
                            lines,
                            self.line_cache@,
                            areas@,
                            metrics,
                            index as int,
                        );
                        lemma_same_error(
                            *scene,
                            first,
                            lines,
                            areas@[index as int],
                            metrics,
                            error,
                        );
                    }
                    let painting = PaintPlan { areas: planned, error: Some(error) };
                    assert(painting.areas@.len() == index);
                    assert forall|i: int| 0 <= i < index implies plan(
                        (#[trigger] painting.areas@[i]).1@,
                    ) == scene_plan(*scene, self.line_cache@, areas@[i], metrics) by {
                        assert(planned@[i].0 == areas@[i]);
                    }
                    return painting;
                },
                Ok(ops) => {
                    proof {
                        lemma_sound_twice(
                            first,
                            lines,
                            self.line_cache@,
                            *scene.viewport,
                            cell_width,
                        );
                        lemma_next_area(
                            *scene,
                            first,
                            lines,
                            self.line_cache@,
                            areas@,
                            metrics,
                            index as int,
                        );
                    }
                    planned.push((areas[index], ops));
                },
            }
            index += 1;
        }
        assert(areas@.take(index as int) =~= areas@);
        PaintPlan { areas: planned, error: None }
    }
}

/// An error that comes up after other areas were painted may come up at first, too.
proof fn lemma_same_error(
    scene: PaintScene<'_>,
    before: Seq<EncodedLine>,
    mid: Seq<EncodedLine>,
    clip: DeviceRect,
    metrics: CellMetrics,
    error: AppError,
)
    requires
        scene_error(scene, mid, clip, metrics, error),
        ready_lines_kept(
            before,
            mid,
            *scene.viewport,
            num::max_int(metrics.width as int, 1) as i32,
        ),
    ensures
        scene_error(scene, before, clip, metrics, error),
{
    let cell_width = num::max_int(metrics.width as int, 1) as i32;
    let rows = shown_rows(scene, clip, metrics);
    if Some(error) != cursor_obstacle(*scene.viewport) {
        let row = choose|row: int|
            rows.start <= row < rows.end && #[trigger] row_error(
                mid,
                *scene.viewport,
                scene.selected@,
                cell_width,
                row,
                error,
            );
        assert(line_is_ready(mid, *scene.viewport, cell_width, row) || !line_is_ready(
            before,
            *scene.viewport,
            cell_width,
            row,
        ));
        assert(row_error(before, *scene.viewport, scene.selected@, cell_width, row, error));
    }
}

} // verus!
