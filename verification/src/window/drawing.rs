//! Plans of what a window that draws itself draws, in order.

use vstd::prelude::*;

use crate::domain::geometry::UiRect;
use crate::domain::layout::{self, TabPlacement, TerminalTabView, WindowLayout};
use crate::domain::rows::RowRange;
use crate::domain::terminal::TerminalViewport;
use crate::num;
use crate::renderer::geometry::{self, CellMetrics};
use crate::renderer::paint::{
    ColumnRange, BACKGROUND, CHROME_BACKGROUND, FOREGROUND, SELECTION_BACKGROUND, SPLITTER_BACKGROUND, SPLITTER_GRIP,
    TAB_ACTIVE_BACKGROUND, TAB_INACTIVE_BACKGROUND, TAB_MUTED_FOREGROUND,
};
use crate::window::grid;
use crate::window::invalidation::SurfaceShape;

verus! {

/// What a tab is called that has no title.
pub const TAB_FALLBACK: &'static str = "Tab";

/// One thing to draw.
#[derive(Debug, PartialEq, Eq)]
pub enum DrawOp {
    Fill { rect: UiRect, color: u32 },
    Text { x: i32, y: i32, text: String, color: u32 },
    /// The text of a terminal row, where it has any; within an area, or
    /// anywhere.
    Row { row: usize, x: i32, y: i32, clip: Option<UiRect> },
    Outline { rect: UiRect, color: u32 },
    /// The drawing of the terminal that is kept.
    Surface { rect: UiRect },
}

/// `DrawOp` with texts as sequences of characters.
pub enum DrawModel {
    Fill(UiRect, u32),
    Text(i32, i32, Seq<char>, u32),
    Row(int, i32, i32, Option<UiRect>),
    Outline(UiRect, u32),
    Surface(UiRect),
}

impl View for DrawOp {
    type V = DrawModel;

    open spec fn view(&self) -> DrawModel {
        match self {
            DrawOp::Fill { rect, color } => DrawModel::Fill(*rect, *color),
            DrawOp::Text { x, y, text, color } => DrawModel::Text(*x, *y, text@, *color),
            DrawOp::Row { row, x, y, clip } => DrawModel::Row(*row as int, *x, *y, *clip),
            DrawOp::Outline { rect, color } => DrawModel::Outline(*rect, *color),
            DrawOp::Surface { rect } => DrawModel::Surface(*rect),
        }
    }
}

/// A drawing as a sequence of values.
pub open spec fn drawing(ops: Seq<DrawOp>) -> Seq<DrawModel> {
    ops.map_values(|op: DrawOp| op@)
}

fn add_op(ops: &mut Vec<DrawOp>, op: DrawOp)
    ensures
        drawing(final(ops)@) == drawing(old(ops)@).push(op@),
{
    ops.push(op);
    assert(drawing(ops@) =~= drawing(old(ops)@).push(op@));
}

/// A rectangle that is filled, if there is anything of it.
pub open spec fn filled(rect: UiRect, color: u32) -> Seq<DrawModel> {
    if rect.width <= 0 || rect.height <= 0 {
        Seq::empty()
    } else {
        seq![DrawModel::Fill(rect, color)]
    }
}

fn fill_rect(ops: &mut Vec<DrawOp>, rect: UiRect, color: u32)
    ensures
        drawing(final(ops)@) == drawing(old(ops)@) + filled(rect, color),
{
    if rect.width <= 0 || rect.height <= 0 {
        assert(drawing(ops@) + filled(rect, color) =~= drawing(ops@));
        return;
    }
    add_op(ops, DrawOp::Fill { rect, color });
    assert(drawing(ops@) =~= drawing(old(ops)@) + filled(rect, color));
}

/// A text, so far right and down of a rectangle's corner.
pub open spec fn label(bounds: UiRect, right: int, down: int, text: Seq<char>, color: u32) -> DrawModel {
    DrawModel::Text(
        num::clamped(bounds.x + right) as i32,
        num::clamped(bounds.y + down) as i32,
        text,
        color,
    )
}

fn draw_text(ops: &mut Vec<DrawOp>, bounds: UiRect, right: i32, down: i32, text: &str, color: u32)
    ensures
        drawing(final(ops)@) == drawing(old(ops)@).push(
            label(bounds, right as int, down as int, text@, color),
        ),
{
    add_op(
        ops,
        DrawOp::Text {
            x: num::saturating_add(bounds.x, right),
            y: num::saturating_add(bounds.y, down),
            text: text.to_owned(),
            color,
        },
    );
}

/// A tab: its background, its title and its close button.
pub open spec fn tab_drawn(tab: TabPlacement, views: Seq<TerminalTabView>) -> Seq<DrawModel> {
    let foreground = if tab.active {
        FOREGROUND
    } else {
        TAB_MUTED_FOREGROUND
    };
    filled(
        tab.bounds,
        if tab.active {
            TAB_ACTIVE_BACKGROUND
        } else {
            TAB_INACTIVE_BACKGROUND
        },
    ) + seq![
        label(tab.bounds, 8, 19, layout::title_of(views, tab.id, TAB_FALLBACK@), foreground),
    ] + (match tab.close_bounds {
        Some(close) => seq![label(close, 4, 13, "x"@, foreground)],
        None => Seq::empty(),
    })
}

pub open spec fn tabs_drawn(tabs: Seq<TabPlacement>, views: Seq<TerminalTabView>) -> Seq<DrawModel>
    decreases tabs.len(),
{
    if tabs.len() == 0 {
        Seq::empty()
    } else {
        tabs_drawn(tabs.drop_last(), views) + tab_drawn(tabs.last(), views)
    }
}

/// The tab bar: the tabs, and the button for a new one behind them.
pub open spec fn tab_bar_drawn(layout: WindowLayout, views: Seq<TerminalTabView>) -> Seq<DrawModel> {
    tabs_drawn(layout.tabs@, views) + (match layout.new_tab_button {
        Some(bounds) => filled(bounds, TAB_INACTIVE_BACKGROUND) + seq![
            label(bounds, 8, 19, "+"@, FOREGROUND),
        ],
        None => Seq::empty(),
    })
}

fn draw_tab(ops: &mut Vec<DrawOp>, tab: TabPlacement, views: &Vec<TerminalTabView>)
    ensures
        drawing(final(ops)@) == drawing(old(ops)@) + tab_drawn(tab, views@),
{
    let ghost before = drawing(ops@);
    let background = if tab.active {
        TAB_ACTIVE_BACKGROUND
    } else {
        TAB_INACTIVE_BACKGROUND
    };
    let foreground = if tab.active {
        FOREGROUND
    } else {
        TAB_MUTED_FOREGROUND
    };
    fill_rect(ops, tab.bounds, background);
    draw_text(
        ops,
        tab.bounds,
        8,
        19,
        layout::tab_title(views, tab.id, TAB_FALLBACK),
        foreground,
    );
    match tab.close_bounds {
        Some(close) => draw_text(ops, close, 4, 13, "x", foreground),
        None => {},
    }
    assert(drawing(ops@) =~= before + tab_drawn(tab, views@));
}

pub fn draw_tab_bar(ops: &mut Vec<DrawOp>, layout: &WindowLayout, views: &Vec<TerminalTabView>)
    ensures
        drawing(final(ops)@) == drawing(old(ops)@) + tab_bar_drawn(*layout, views@),
{
    let ghost before = drawing(ops@);
    let ghost tabs = layout.tabs@;
    let mut index: usize = 0;
    assert(before + tabs_drawn(tabs.take(0), views@) =~= before);
    while index < layout.tabs.len()
        invariant
            tabs == layout.tabs@,
            index <= tabs.len(),
            drawing(ops@) == before + tabs_drawn(tabs.take(index as int), views@),
        decreases tabs.len() - index,
    {
        assert(tabs.take(index + 1).drop_last() =~= tabs.take(index as int));
        draw_tab(ops, layout.tabs[index], views);
        assert(drawing(ops@) =~= before + tabs_drawn(tabs.take(index + 1), views@));
        index += 1;
    }
    assert(tabs.take(index as int) =~= tabs);
    match layout.new_tab_button {
        Some(bounds) => {
            fill_rect(ops, bounds, TAB_INACTIVE_BACKGROUND);
            draw_text(ops, bounds, 8, 19, "+", FOREGROUND);
        },
        None => {},
    }
    assert(drawing(ops@) =~= before + tab_bar_drawn(*layout, views@));
}

/// The line in the middle of the splitter.
pub open spec fn grip(splitter: UiRect) -> UiRect {
    UiRect {
        x: num::clamped(splitter.x + geometry::truncated_half(splitter.width as int)) as i32,
        y: num::clamped(splitter.y + 12) as i32,
        width: 1,
        height: num::max_int(num::clamped(splitter.height - 24), 1) as i32,
    }
}

/// The splitter with its line.
pub open spec fn splitter_drawn(splitter: UiRect) -> Seq<DrawModel> {
    filled(splitter, SPLITTER_BACKGROUND) + seq![DrawModel::Fill(grip(splitter), SPLITTER_GRIP)]
}

pub fn draw_splitter(ops: &mut Vec<DrawOp>, splitter: UiRect)
    ensures
        drawing(final(ops)@) == drawing(old(ops)@) + splitter_drawn(splitter),
{
    let ghost before = drawing(ops@);
    fill_rect(ops, splitter, SPLITTER_BACKGROUND);
    let rect = UiRect {
        x: num::saturating_add(splitter.x, geometry::half(splitter.width)),
        y: num::saturating_add(splitter.y, 12),
        width: 1,
        height: num::max_i32(num::saturating_sub(splitter.height, 24), 1),
    };
    add_op(ops, DrawOp::Fill { rect, color: SPLITTER_GRIP });
    assert(drawing(ops@) =~= before + splitter_drawn(splitter));
}

/// Where so many cells begin behind an origin.
pub open spec fn behind(origin: i32, cells: int, extent: i32) -> int {
    num::clamped(origin + num::clamped(num::clamped(cells) * extent))
}

fn cells_behind(origin: i32, cells: usize, extent: i32) -> (position: i32)
    ensures
        position == behind(origin, cells as int, extent),
{
    num::saturating_add(origin, num::saturating_mul(num::i32_from_usize(cells), extent))
}

/// The area of some columns of a row.
pub open spec fn columns_area(content: UiRect, metrics: CellMetrics, row: int, columns: ColumnRange) -> UiRect {
    UiRect {
        x: behind(content.x, columns.start as int, metrics.width) as i32,
        y: behind(content.y, row, metrics.height) as i32,
        width: num::clamped(
            num::clamped(num::max_int(columns.end - columns.start, 0)) * metrics.width,
        ) as i32,
        height: metrics.height,
    }
}

fn columns_rect(content: UiRect, metrics: CellMetrics, row: usize, columns: ColumnRange) -> (rect:
    UiRect)
    ensures
        rect == columns_area(content, metrics, row as int, columns),
{
    let count = if columns.end > columns.start {
        columns.end - columns.start
    } else {
        0
    };
    UiRect {
        x: cells_behind(content.x, columns.start, metrics.width),
        y: cells_behind(content.y, row, metrics.height),
        width: num::saturating_mul(num::i32_from_usize(count), metrics.width),
        height: metrics.height,
    }
}

/// A row: what of it is selected, and its text.
pub open spec fn row_drawn(
    content: UiRect,
    metrics: CellMetrics,
    baseline: i32,
    row: int,
    selected: Option<ColumnRange>,
) -> Seq<DrawModel> {
    (match selected {
        Some(columns) => filled(
            columns_area(content, metrics, row, columns),
            SELECTION_BACKGROUND,
        ),
        None => Seq::empty(),
    }) + seq![
        DrawModel::Row(
            row,
            content.x,
            num::clamped(behind(content.y, row, metrics.height) + baseline) as i32,
            None,
        ),
    ]
}

/// The rows from `start` up to `end`; `selected` says of each row which columns
/// are.
pub open spec fn rows_drawn(
    content: UiRect,
    metrics: CellMetrics,
    baseline: i32,
    selected: Seq<Option<ColumnRange>>,
    start: int,
    end: int,
) -> Seq<DrawModel>
    decreases end - start,
{
    if start >= end {
        Seq::empty()
    } else {
        rows_drawn(content, metrics, baseline, selected, start, end - 1) + row_drawn(
            content,
            metrics,
            baseline,
            end - 1,
            selected[end - 1],
        )
    }
}

pub fn draw_terminal_rows(
    ops: &mut Vec<DrawOp>,
    content: UiRect,
    metrics: CellMetrics,
    baseline: i32,
    selected: &Vec<Option<ColumnRange>>,
    start: usize,
    end: usize,
)
    requires
        end <= selected@.len(),
    ensures
        drawing(final(ops)@) == drawing(old(ops)@) + rows_drawn(
            content,
            metrics,
            baseline,
            selected@,
            start as int,
            end as int,
        ),
{
    let ghost before = drawing(ops@);
    let mut row = start;
    assert(before + rows_drawn(content, metrics, baseline, selected@, start as int, start as int)
        =~= before);
    if start >= end {
        assert(before + rows_drawn(content, metrics, baseline, selected@, start as int, end as int)
            =~= before);
        return;
    }
    while row < end
        invariant
            start <= row <= end <= selected@.len(),
            drawing(ops@) == before + rows_drawn(
                content,
                metrics,
                baseline,
                selected@,
                start as int,
                row as int,
            ),
        decreases end - row,
    {
        let ghost so_far = drawing(ops@);
        match selected[row] {
            Some(columns) => fill_rect(
                ops,
                columns_rect(content, metrics, row, columns),
                SELECTION_BACKGROUND,
            ),
            None => {},
        }
        let y = num::saturating_add(cells_behind(content.y, row, metrics.height), baseline);
        add_op(ops, DrawOp::Row { row, x: content.x, y, clip: None });
        assert(drawing(ops@) =~= so_far + row_drawn(
            content,
            metrics,
            baseline,
            row as int,
            selected@[row as int],
        ));
        assert(drawing(ops@) =~= before + rows_drawn(
            content,
            metrics,
            baseline,
            selected@,
            start as int,
            row + 1,
        ));
        row += 1;
    }
}

/// The selection over rows that are drawn already: the selected part again, on
/// another background.
pub open spec fn overlay_drawn(
    content: UiRect,
    metrics: CellMetrics,
    baseline: i32,
    selected: Seq<Option<ColumnRange>>,
    rows: int,
) -> Seq<DrawModel>
    decreases rows,
{
    if rows <= 0 {
        Seq::empty()
    } else {
        overlay_drawn(content, metrics, baseline, selected, rows - 1) + (
        match selected[rows - 1] {
            Some(columns) => {
                let area = columns_area(content, metrics, rows - 1, columns);
                filled(area, SELECTION_BACKGROUND) + seq![
                    DrawModel::Row(
                        rows - 1,
                        content.x,
                        num::clamped(area.y + baseline) as i32,
                        Some(
                            UiRect {
                                width: num::max_int(area.width as int, 1) as i32,
                                height: num::max_int(area.height as int, 1) as i32,
                                ..area
                            },
                        ),
                    ),
                ]
            },
            None => Seq::empty(),
        })
    }
}

pub fn draw_terminal_selection_overlay(
    ops: &mut Vec<DrawOp>,
    content: UiRect,
    metrics: CellMetrics,
    baseline: i32,
    selected: &Vec<Option<ColumnRange>>,
)
    ensures
        drawing(final(ops)@) == drawing(old(ops)@) + overlay_drawn(
            content,
            metrics,
            baseline,
            selected@,
            selected@.len() as int,
        ),
{
    let ghost before = drawing(ops@);
    let mut row: usize = 0;
    assert(before + overlay_drawn(content, metrics, baseline, selected@, 0) =~= before);
    while row < selected.len()
        invariant
            row <= selected@.len(),
            drawing(ops@) == before + overlay_drawn(
                content,
                metrics,
                baseline,
                selected@,
                row as int,
            ),
        decreases selected@.len() - row,
    {
        match selected[row] {
            Some(columns) => {
                let area = columns_rect(content, metrics, row, columns);
                fill_rect(ops, area, SELECTION_BACKGROUND);
                let clip = UiRect {
                    x: area.x,
                    y: area.y,
                    width: num::max_i32(area.width, 1),
                    height: num::max_i32(area.height, 1),
                };
                let y = num::saturating_add(area.y, baseline);
                add_op(ops, DrawOp::Row { row, x: content.x, y, clip: Some(clip) });
            },
            None => {},
        }
        assert(drawing(ops@) =~= before + overlay_drawn(
            content,
            metrics,
            baseline,
            selected@,
            row + 1,
        ));
        row += 1;
    }
}

/// The cursor, where it is on the screen.
pub open spec fn cursor_drawn(content: UiRect, metrics: CellMetrics, viewport: TerminalViewport) -> Seq<
    DrawModel,
> {
    if viewport.cursor.row < viewport.rows && viewport.cursor.column < viewport.columns {
        seq![
            DrawModel::Outline(
                UiRect {
                    x: behind(content.x, viewport.cursor.column as int, metrics.width) as i32,
                    y: behind(content.y, viewport.cursor.row as int, metrics.height) as i32,
                    width: num::max_int(metrics.width as int, 1) as i32,
                    height: num::max_int(metrics.height as int, 1) as i32,
                },
                FOREGROUND,
            ),
        ]
    } else {
        Seq::empty()
    }
}

pub fn draw_terminal_cursor(
    ops: &mut Vec<DrawOp>,
    content: UiRect,
    metrics: CellMetrics,
    viewport: &TerminalViewport,
)
    ensures
        drawing(final(ops)@) == drawing(old(ops)@) + cursor_drawn(content, metrics, *viewport),
{
    let ghost before = drawing(ops@);
    if viewport.cursor.row < viewport.rows && viewport.cursor.column < viewport.columns {
        let rect = UiRect {
            x: cells_behind(content.x, viewport.cursor.column, metrics.width),
            y: cells_behind(content.y, viewport.cursor.row, metrics.height),
            width: num::max_i32(metrics.width, 1),
            height: num::max_i32(metrics.height, 1),
        };
        add_op(ops, DrawOp::Outline { rect, color: FOREGROUND });
    }
    assert(drawing(ops@) =~= before + cursor_drawn(content, metrics, *viewport));
}

/// What is drawn of the terminal in front of its background. Where its rows are
/// drawn from a surface that is kept, only the selection and the cursor come on
/// top of it.
pub open spec fn terminal_drawn(
    content: UiRect,
    metrics: CellMetrics,
    baseline: i32,
    viewport: TerminalViewport,
    selected: Seq<Option<ColumnRange>>,
    from_surface: bool,
) -> Seq<DrawModel> {
    (if from_surface {
        seq![
            DrawModel::Surface(
                UiRect {
                    width: num::max_int(content.width as int, 1) as i32,
                    height: num::max_int(content.height as int, 1) as i32,
                    ..content
                },
            ),
        ] + overlay_drawn(content, metrics, baseline, selected, viewport.rows as int)
    } else {
        rows_drawn(content, metrics, baseline, selected, 0, viewport.rows as int)
    }) + cursor_drawn(content, metrics, viewport)
}

pub fn draw_terminal(
    ops: &mut Vec<DrawOp>,
    content: UiRect,
    metrics: CellMetrics,
    baseline: i32,
    viewport: &TerminalViewport,
    selected: &Vec<Option<ColumnRange>>,
    from_surface: bool,
)
    requires
        selected@.len() == viewport.rows,
    ensures
        drawing(final(ops)@) == drawing(old(ops)@) + terminal_drawn(
            content,
            metrics,
            baseline,
            *viewport,
            selected@,
            from_surface,
        ),
{
    let ghost before = drawing(ops@);
    if from_surface {
        let rect = UiRect {
            x: content.x,
            y: content.y,
            width: num::max_i32(content.width, 1),
            height: num::max_i32(content.height, 1),
        };
        add_op(ops, DrawOp::Surface { rect });
        draw_terminal_selection_overlay(ops, content, metrics, baseline, selected);
    } else {
        draw_terminal_rows(ops, content, metrics, baseline, selected, 0, viewport.rows);
    }
    draw_terminal_cursor(ops, content, metrics, viewport);
    assert(drawing(ops@) =~= before + terminal_drawn(
        content,
        metrics,
        baseline,
        *viewport,
        selected@,
        from_surface,
    ));
}

/// What a window shows of its terminal.
pub struct ShownTerminal<'a> {
    pub viewport: &'a TerminalViewport,
    /// The part of the terminal that holds its cells.
    pub content: UiRect,
    pub metrics: CellMetrics,
    pub baseline: i32,
    /// The selected columns of each row of the screen.
    pub selected: &'a Vec<Option<ColumnRange>>,
    /// Whether the rows are shown from a drawing that is kept.
    pub from_surface: bool,
}

/// A whole window: its background, the tab bar, the splitter, and the terminal on
/// its own background.
pub open spec fn scene_drawn(
    width: i32,
    height: i32,
    layout: WindowLayout,
    views: Seq<TerminalTabView>,
    shown: Option<ShownTerminal<'_>>,
) -> Seq<DrawModel> {
    seq![DrawModel::Fill(UiRect { x: 0, y: 0, width, height }, CHROME_BACKGROUND)] + tab_bar_drawn(
        layout,
        views,
    ) + splitter_drawn(layout.splitter) + filled(layout.terminal, BACKGROUND) + (match shown {
        Some(shown) => terminal_drawn(
            shown.content,
            shown.metrics,
            shown.baseline,
            *shown.viewport,
            shown.selected@,
            shown.from_surface,
        ),
        None => Seq::empty(),
    })
}

pub fn draw_scene(
    ops: &mut Vec<DrawOp>,
    width: i32,
    height: i32,
    layout: &WindowLayout,
    views: &Vec<TerminalTabView>,
    shown: Option<ShownTerminal<'_>>,
)
    requires
        shown is Some ==> (shown->0).selected@.len() == (shown->0).viewport.rows,
    ensures
        drawing(final(ops)@) == drawing(old(ops)@) + scene_drawn(
            width,
            height,
            *layout,
            views@,
            shown,
        ),
{
    let ghost before = drawing(ops@);
    add_op(
        ops,
        DrawOp::Fill { rect: UiRect { x: 0, y: 0, width, height }, color: CHROME_BACKGROUND },
    );
    draw_tab_bar(ops, layout, views);
    draw_splitter(ops, layout.splitter);
    draw_terminal_background(ops, layout.terminal);
    match &shown {
        Some(terminal) => draw_terminal(
            ops,
            terminal.content,
            terminal.metrics,
            terminal.baseline,
            terminal.viewport,
            terminal.selected,
            terminal.from_surface,
        ),
        None => {},
    }
    assert(drawing(ops@) =~= before + scene_drawn(width, height, *layout, views@, shown));
}

/// The terminal's background.
pub fn draw_terminal_background(ops: &mut Vec<DrawOp>, terminal: UiRect)
    ensures
        drawing(final(ops)@) == drawing(old(ops)@) + filled(terminal, BACKGROUND),
{
    fill_rect(ops, terminal, BACKGROUND);
}

/// The area of a surface of this shape.
pub open spec fn surface_area(shape: SurfaceShape) -> UiRect {
    UiRect { x: 0, y: 0, width: shape.content_width, height: shape.content_height }
}

/// The texts of the rows from `start` up to `end`.
pub open spec fn texts_drawn(
    content: UiRect,
    metrics: CellMetrics,
    baseline: i32,
    start: int,
    end: int,
) -> Seq<DrawModel>
    decreases end - start,
{
    if start >= end {
        Seq::empty()
    } else {
        texts_drawn(content, metrics, baseline, start, end - 1) + row_drawn(
            content,
            metrics,
            baseline,
            end - 1,
            None,
        )
    }
}

/// Rows of a surface that are drawn again: their background, and the texts of those
/// that the terminal has. Rows below the surface are not drawn.
pub open spec fn range_redrawn(shape: SurfaceShape, range: RowRange) -> Seq<
    DrawModel,
> {
    match grid::rows_area(surface_area(shape), shape.metrics, range) {
        Some(area) => filled(area, BACKGROUND) + texts_drawn(
            surface_area(shape),
            shape.metrics,
            shape.baseline,
            range.start as int,
            num::min_int(range.end as int, shape.viewport_rows as int),
        ),
        None => Seq::empty(),
    }
}

pub open spec fn ranges_redrawn(shape: SurfaceShape, ranges: Seq<RowRange>) -> Seq<
    DrawModel,
>
    decreases ranges.len(),
{
    if ranges.len() == 0 {
        Seq::empty()
    } else {
        ranges_redrawn(shape, ranges.drop_last()) + range_redrawn(
            shape,
            ranges.last(),
        )
    }
}

fn redraw_rows(ops: &mut Vec<DrawOp>, shape: SurfaceShape, start: usize, end: usize)
    ensures
        drawing(final(ops)@) == drawing(old(ops)@) + texts_drawn(
            surface_area(shape),
            shape.metrics,
            shape.baseline,
            start as int,
            end as int,
        ),
{
    let ghost before = drawing(ops@);
    let ghost content = surface_area(shape);
    assert(before + Seq::<DrawModel>::empty() =~= before);
    let mut row = start;
    while row < end
        invariant
            content == surface_area(shape),
            row == start || start <= row <= end,
            drawing(ops@) == before + texts_drawn(
                content,
                shape.metrics,
                shape.baseline,
                start as int,
                row as int,
            ),
        decreases end - row,
    {
        let y = num::saturating_add(cells_behind(0, row, shape.metrics.height), shape.baseline);
        add_op(ops, DrawOp::Row { row, x: 0, y, clip: None });
        assert(drawing(ops@) =~= before + texts_drawn(
            content,
            shape.metrics,
            shape.baseline,
            start as int,
            row + 1,
        ));
        row += 1;
    }
}

/// Draws rows of a surface that is kept again.
pub fn redraw_row_ranges(
    ops: &mut Vec<DrawOp>,
    shape: SurfaceShape,
    ranges: &Vec<RowRange>,
)
    ensures
        drawing(final(ops)@) == drawing(old(ops)@) + ranges_redrawn(shape, ranges@),
{
    let ghost before = drawing(ops@);
    let content = UiRect { x: 0, y: 0, width: shape.content_width, height: shape.content_height };
    let mut index: usize = 0;
    assert(before + ranges_redrawn(shape, ranges@.take(0)) =~= before);
    while index < ranges.len()
        invariant
            content == surface_area(shape),
            index <= ranges@.len(),
            drawing(ops@) == before + ranges_redrawn(shape, ranges@.take(index as int)),
        decreases ranges@.len() - index,
    {
        let ghost so_far = drawing(ops@);
        let range = ranges[index];
        match grid::terminal_rows_rect(content, shape.metrics, range) {
            Some(area) => {
                fill_rect(ops, area, BACKGROUND);
                let end = if range.end < shape.viewport_rows {
                    range.end
                } else {
                    shape.viewport_rows
                };
                redraw_rows(ops, shape, range.start, end);
            },
            None => {},
        }
        assert(drawing(ops@) =~= so_far + range_redrawn(shape, range));
        assert(ranges@.take(index + 1).drop_last() =~= ranges@.take(index as int));
        assert(drawing(ops@) =~= before + ranges_redrawn(
            shape,
            ranges@.take(index + 1),
        ));
        index += 1;
    }
    assert(ranges@.take(index as int) =~= ranges@);
}

} // verus!
