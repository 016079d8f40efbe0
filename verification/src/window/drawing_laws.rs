//! What holds of every drawing of a window.

use vstd::prelude::*;

use crate::domain::geometry::UiRect;
use crate::domain::layout::{self, TabPlacement, TerminalTabView, WindowLayout};
use crate::domain::rows::RowRange;
use crate::domain::terminal::TerminalViewport;
use crate::num;
use crate::renderer::geometry::{self, CellMetrics};
use crate::renderer::paint::{
    ColumnRange, BACKGROUND, CHROME_BACKGROUND, FOREGROUND, SELECTION_BACKGROUND, SPLITTER_BACKGROUND, SPLITTER_GRIP,
    TAB_ACTIVE_BACKGROUND, TAB_INACTIVE_BACKGROUND, TAB_MUTED_FOREGROUND,
};
use crate::window::drawing::{self, DrawModel, ShownTerminal};
use crate::window::grid;
use crate::window::invalidation::SurfaceShape;

verus! {

/// Whether a drawing writes the text of a row, at a step.
pub open spec fn writes_row(steps: Seq<DrawModel>, at: int, row: int) -> bool {
    &&& 0 <= at < steps.len()
    &&& steps[at] is Row
    &&& steps[at]->Row_0 == row
}

/// So many cells take up so many times the extent of one, as long as nothing leaves the range
/// of an `i32`.
pub proof fn law_cells_lie_one_behind_the_other(origin: i32, cells: int, extent: i32)
    requires
        0 <= cells,
        1 <= extent,
        (cells + 1) * extent <= i32::MAX,
        origin + (cells + 1) * extent <= i32::MAX,
    ensures
        drawing::behind(origin, cells, extent) == origin + cells * extent,
        drawing::behind(origin, cells + 1, extent) == drawing::behind(origin, cells, extent)
            + extent,
        drawing::behind(origin, 0, extent) == origin,
{
    let width = extent as int;
    assert(cells <= cells * width && 0 <= cells * width && (cells + 1) * width == cells * width
        + width && cells + 1 <= (cells + 1) * width) by (nonlinear_arith)
        requires
            cells >= 0,
            width >= 1,
    ;
    assert(0 * width == 0);
}

/// A row's text stands the baseline below the top edge of the row's cells, at the left edge of
/// the content, and it is the last thing that is drawn of the row. Two rows, one below the
/// other, are one cell height apart.
pub proof fn law_row_text_stands_on_its_baseline(
    content: UiRect,
    metrics: CellMetrics,
    baseline: i32,
    row: int,
    selected: Option<ColumnRange>,
    next_selected: Option<ColumnRange>,
)
    requires
        0 <= row,
        1 <= metrics.width,
        1 <= metrics.height,
        0 <= baseline <= metrics.height,
        (row + 3) * metrics.height <= i32::MAX,
        content.y + (row + 3) * metrics.height <= i32::MAX,
    ensures
        ({
            let own = drawing::row_drawn(content, metrics, baseline, row, selected).last();
            let next = drawing::row_drawn(
                content,
                metrics,
                baseline,
                row + 1,
                next_selected,
            ).last();
            let cell = geometry::cell_area(content, metrics, row, 0);
            &&& own is Row
            &&& own->Row_0 == row
            &&& own->Row_1 == content.x
            &&& own->Row_2 == content.y + row * metrics.height + baseline
            &&& own->Row_2 == cell.top + baseline
            &&& own->Row_3 is None
            &&& next->Row_2 == own->Row_2 + metrics.height
            &&& next->Row_0 == row + 1
        }),
{
    let height = metrics.height as int;
    assert((row + 3) * height == row * height + 3 * height && (row + 2) * height == row * height + 2
        * height && (row + 1) * height == row * height + height && 0 <= row * height)
        by (nonlinear_arith)
        requires
            row >= 0,
            height >= 1,
    ;
    law_cells_lie_one_behind_the_other(content.y, row, metrics.height);
    law_cells_lie_one_behind_the_other(content.y, row + 1, metrics.height);
}

/// The area of some columns of a row is that of their cells: it holds the pixels of the cells
/// from the first one up to the last, and no others.
pub proof fn law_columns_area_holds_its_cells(
    content: UiRect,
    metrics: CellMetrics,
    row: int,
    columns: ColumnRange,
    x: int,
    y: int,
)
    requires
        0 <= row,
        columns.start <= columns.end,
        1 <= metrics.width,
        1 <= metrics.height,
        (columns.end + 1) * metrics.width <= i32::MAX,
        content.x + (columns.end + 1) * metrics.width <= i32::MAX,
        (row + 1) * metrics.height <= i32::MAX,
        content.y + (row + 1) * metrics.height <= i32::MAX,
    ensures
        drawing::columns_area(content, metrics, row, columns).covers(x, y) <==> {
            &&& content.x + columns.start * metrics.width <= x < content.x + columns.end
                * metrics.width
            &&& content.y + row * metrics.height <= y < content.y + row * metrics.height
                + metrics.height
        },
{
    let width = metrics.width as int;
    let start = columns.start as int;
    let end = columns.end as int;
    assert((start + 1) * width <= (end + 1) * width && (end - start) * width == end * width - start
        * width && 0 <= start * width <= end * width && end * width <= (end + 1) * width && end
        - start <= (end - start) * width) by (nonlinear_arith)
        requires
            0 <= start <= end,
            width >= 1,
    ;
    law_cells_lie_one_behind_the_other(content.x, start, metrics.width);
    law_cells_lie_one_behind_the_other(content.y, row, metrics.height);
}

/// What of a row is selected is filled before the text is written, and nothing else is filled.
pub proof fn law_selection_is_filled_behind_the_text(
    content: UiRect,
    metrics: CellMetrics,
    baseline: i32,
    row: int,
    selected: Option<ColumnRange>,
)
    ensures
        ({
            let steps = drawing::row_drawn(content, metrics, baseline, row, selected);
            let area = drawing::columns_area(content, metrics, row, selected->0);
            let shown = selected is Some && area.width > 0 && area.height > 0;
            &&& steps.len() == (if shown {
                2nat
            } else {
                1nat
            })
            &&& shown ==> steps[0] == DrawModel::Fill(area, SELECTION_BACKGROUND)
            &&& steps.last() is Row
        }),
{
}

/// Each row of a range is written once, in order, and no other row is.
pub proof fn law_rows_are_drawn_once_in_order(
    content: UiRect,
    metrics: CellMetrics,
    baseline: i32,
    selected: Seq<Option<ColumnRange>>,
    start: int,
    end: int,
    row: int,
    first: int,
    second: int,
)
    ensures
        ({
            let steps = drawing::rows_drawn(content, metrics, baseline, selected, start, end);
            &&& (exists|at: int| writes_row(steps, at, row)) <==> start <= row < end
            &&& 0 <= first < second < steps.len() && steps[first] is Row && steps[second] is Row
                ==> steps[first]->Row_0 < steps[second]->Row_0
            &&& 0 <= first < steps.len() && steps[first] is Row ==> start <= steps[first]->Row_0
                < end
        }),
    decreases end - start,
{
    let steps = drawing::rows_drawn(content, metrics, baseline, selected, start, end);
    if start < end {
        let last = end - 1;
        let rest = drawing::rows_drawn(content, metrics, baseline, selected, start, last);
        let own = drawing::row_drawn(content, metrics, baseline, last, selected[last]);
        law_rows_are_drawn_once_in_order(
            content,
            metrics,
            baseline,
            selected,
            start,
            last,
            row,
            first,
            second,
        );
        law_selection_is_filled_behind_the_text(content, metrics, baseline, last, selected[last]);
        assert(steps =~= rest + own);
        assert(steps[steps.len() - 1] == own.last());
        assert(own.len() == 2 ==> own[0] is Fill);
        if start <= row < end {
            if row == last {
                assert(writes_row(steps, steps.len() - 1, row));
            } else {
                let at = choose|at: int| writes_row(rest, at, row);
                assert(steps[at] == rest[at]);
                assert(writes_row(steps, at, row));
            }
        }
        if exists|at: int| writes_row(steps, at, row) {
            let at = choose|at: int| writes_row(steps, at, row);
            if at < rest.len() {
                assert(steps[at] == rest[at]);
                assert(writes_row(rest, at, row));
            } else {
                assert(steps[at] == own[at - rest.len()]);
            }
        }
        if 0 <= first < steps.len() {
            if first < rest.len() {
                assert(steps[first] == rest[first]);
            } else {
                assert(steps[first] == own[first - rest.len()]);
            }
        }
        if 0 <= second < steps.len() {
            if second < rest.len() {
                assert(steps[second] == rest[second]);
            } else {
                assert(steps[second] == own[second - rest.len()]);
            }
        }
    }
}

/// Whether a drawing writes a row over its selected part: the part is filled, and the text is
/// written within it right after.
pub open spec fn overlays_row(steps: Seq<DrawModel>, at: int, row: int, area: UiRect) -> bool {
    &&& 0 < at < steps.len()
    &&& steps[at - 1] == DrawModel::Fill(area, SELECTION_BACKGROUND)
    &&& steps[at] is Row
    &&& steps[at]->Row_0 == row
    &&& steps[at]->Row_3 == Some(area)
}

/// Where the rows are drawn already, the selection comes on top of them: every row with a
/// selected part is written again within that part, on the background of a selection, and rows
/// without one are not.
pub proof fn law_selection_is_drawn_over_the_rows(
    content: UiRect,
    metrics: CellMetrics,
    baseline: i32,
    selected: Seq<Option<ColumnRange>>,
    rows: int,
    row: int,
    at: int,
)
    ensures
        ({
            let steps = drawing::overlay_drawn(content, metrics, baseline, selected, rows);
            let area = drawing::columns_area(content, metrics, row, selected[row]->0);
            &&& 0 <= row < rows && selected[row] is Some && area.width > 0 && area.height > 0
                ==> exists|i: int| overlays_row(steps, i, row, area)
            &&& 0 <= at < steps.len() && steps[at] is Row ==> 0 <= steps[at]->Row_0 < rows
                && selected[steps[at]->Row_0] is Some && steps[at]->Row_1 == content.x
                && steps[at]->Row_2 == num::clamped(
                drawing::behind(content.y, steps[at]->Row_0, metrics.height) + baseline,
            )
        }),
    decreases rows,
{
    let steps = drawing::overlay_drawn(content, metrics, baseline, selected, rows);
    if rows > 0 {
        let last = rows - 1;
        let rest = drawing::overlay_drawn(content, metrics, baseline, selected, last);
        law_selection_is_drawn_over_the_rows(
            content,
            metrics,
            baseline,
            selected,
            last,
            row,
            at,
        );
        let area = drawing::columns_area(content, metrics, row, selected[row]->0);
        if 0 <= row < rows && selected[row] is Some && area.width > 0 && area.height > 0 {
            if row == last {
                assert(overlays_row(steps, rest.len() as int + 1, row, area));
            } else {
                let i = choose|i: int| overlays_row(rest, i, row, area);
                assert(steps[i] == rest[i] && steps[i - 1] == rest[i - 1]);
                assert(overlays_row(steps, i, row, area));
            }
        }
        if 0 <= at < rest.len() {
            assert(steps[at] == rest[at]);
        }
    }
}

/// The cursor is an outline of its own cell, where it is on the screen, and is not drawn where
/// it is not.
pub proof fn law_cursor_outlines_its_cell(
    content: UiRect,
    metrics: CellMetrics,
    viewport: TerminalViewport,
)
    requires
        1 <= metrics.width,
        1 <= metrics.height,
        (viewport.cursor.column + 2) * metrics.width <= i32::MAX,
        (viewport.cursor.row + 2) * metrics.height <= i32::MAX,
        content.x + (viewport.cursor.column + 2) * metrics.width <= i32::MAX,
        content.y + (viewport.cursor.row + 2) * metrics.height <= i32::MAX,
    ensures
        ({
            let steps = drawing::cursor_drawn(content, metrics, viewport);
            let cell = geometry::cell_area(
                content,
                metrics,
                viewport.cursor.row as int,
                viewport.cursor.column as int,
            );
            let on_screen = viewport.cursor.row < viewport.rows && viewport.cursor.column
                < viewport.columns;
            &&& !on_screen ==> steps.len() == 0
            &&& on_screen ==> {
                &&& steps.len() == 1
                &&& steps[0] is Outline
                &&& steps[0]->Outline_1 == FOREGROUND
                &&& geometry::edges_of(steps[0]->Outline_0) == cell
            }
        }),
{
    let column = viewport.cursor.column as int;
    let row = viewport.cursor.row as int;
    let width = metrics.width as int;
    let height = metrics.height as int;
    assert((column + 1) * width <= (column + 2) * width && (row + 1) * height <= (row + 2) * height)
        by (nonlinear_arith)
        requires
            width >= 1,
            height >= 1,
    ;
    law_cells_lie_one_behind_the_other(content.x, column, metrics.width);
    law_cells_lie_one_behind_the_other(content.y, row, metrics.height);
    geometry::law_cells_lie_side_by_side(content, metrics, row, column);
}

/// The cursor is drawn last, on top of the rows; these come from the drawing that is kept, with
/// the selection over it, or are drawn one by one.
pub proof fn law_cursor_is_drawn_last(
    content: UiRect,
    metrics: CellMetrics,
    baseline: i32,
    viewport: TerminalViewport,
    selected: Seq<Option<ColumnRange>>,
    from_surface: bool,
)
    ensures
        ({
            let steps = drawing::terminal_drawn(
                content,
                metrics,
                baseline,
                viewport,
                selected,
                from_surface,
            );
            let cursor = drawing::cursor_drawn(content, metrics, viewport);
            let rows = drawing::rows_drawn(
                content,
                metrics,
                baseline,
                selected,
                0,
                viewport.rows as int,
            );
            let overlay = drawing::overlay_drawn(
                content,
                metrics,
                baseline,
                selected,
                viewport.rows as int,
            );
            &&& steps.len() >= cursor.len()
            &&& steps.skip(steps.len() - cursor.len()) == cursor
            &&& !from_surface ==> steps.take(steps.len() - cursor.len()) == rows
            &&& from_surface ==> {
                &&& steps[0] is Surface
                &&& steps.subrange(1, steps.len() - cursor.len()) == overlay
                &&& content.width > 0 && content.height > 0 ==> steps[0]->Surface_0 == content
            }
        }),
{
    let steps = drawing::terminal_drawn(
        content,
        metrics,
        baseline,
        viewport,
        selected,
        from_surface,
    );
    let cursor = drawing::cursor_drawn(content, metrics, viewport);
    let rows = drawing::rows_drawn(content, metrics, baseline, selected, 0, viewport.rows as int);
    let overlay = drawing::overlay_drawn(
        content,
        metrics,
        baseline,
        selected,
        viewport.rows as int,
    );
    assert(steps.skip(steps.len() - cursor.len()) =~= cursor);
    if from_surface {
        assert(steps.subrange(1, steps.len() - cursor.len()) =~= overlay);
    } else {
        assert(steps.take(steps.len() - cursor.len()) =~= rows);
    }
}

/// A tab is filled first, then its title is written on it, then its close button, where it has
/// one; the active tab stands out by its colours. A tab without a title of its own has the
/// fallback.
pub proof fn law_tab_is_drawn_with_its_title(
    tab: TabPlacement,
    views: Seq<TerminalTabView>,
    i: int,
)
    requires
        0 < tab.bounds.width,
        0 < tab.bounds.height,
        tab.bounds.x + 8 <= i32::MAX,
        tab.bounds.y + 19 <= i32::MAX,
    ensures
        ({
            let steps = drawing::tab_drawn(tab, views);
            let color = if tab.active {
                FOREGROUND
            } else {
                TAB_MUTED_FOREGROUND
            };
            &&& steps.len() == (if tab.close_bounds is Some {
                3nat
            } else {
                2nat
            })
            &&& steps[0] == DrawModel::Fill(
                tab.bounds,
                if tab.active {
                    TAB_ACTIVE_BACKGROUND
                } else {
                    TAB_INACTIVE_BACKGROUND
                },
            )
            &&& steps[1] is Text
            &&& steps[1]->Text_0 == tab.bounds.x + 8
            &&& steps[1]->Text_1 == tab.bounds.y + 19
            &&& steps[1]->Text_3 == color
            &&& 0 <= i < views.len() && views[i].id == tab.id && (forall|j: int|
                0 <= j < i ==> (#[trigger] views[j]).id != tab.id) ==> steps[1]->Text_2
                == views[i].title@
            &&& (forall|j: int| 0 <= j < views.len() ==> (#[trigger] views[j]).id != tab.id)
                ==> steps[1]->Text_2 == "Tab"@
            &&& tab.close_bounds is Some ==> steps[2] is Text && steps[2]->Text_2 == "x"@
                && steps[2]->Text_3 == color
            &&& tab.close_bounds is Some && tab.close_bounds->0.x + 4 <= i32::MAX
                && tab.close_bounds->0.y + 13 <= i32::MAX ==> steps[2]->Text_0
                == tab.close_bounds->0.x + 4 && steps[2]->Text_1 == tab.close_bounds->0.y + 13
        }),
{
    layout::law_tab_is_shown_with_its_title(views, tab.id, drawing::TAB_FALLBACK@, i);
}

/// Whether a drawing holds the steps of a part, one after the other, from a place on.
pub open spec fn holds_steps(steps: Seq<DrawModel>, at: int, part: Seq<DrawModel>) -> bool {
    &&& 0 <= at
    &&& at + part.len() <= steps.len()
    &&& steps.subrange(at, at + part.len()) == part
}

/// Every tab is drawn.
pub proof fn law_every_tab_is_drawn(tabs: Seq<TabPlacement>, views: Seq<TerminalTabView>, i: int)
    requires
        0 <= i < tabs.len(),
    ensures
        exists|at: int|
            holds_steps(
                drawing::tabs_drawn(tabs, views),
                at,
                drawing::tab_drawn(tabs[i], views),
            ),
    decreases tabs.len(),
{
    let steps = drawing::tabs_drawn(tabs, views);
    let rest = drawing::tabs_drawn(tabs.drop_last(), views);
    let own = drawing::tab_drawn(tabs[i], views);
    if i == tabs.len() - 1 {
        assert(steps.subrange(rest.len() as int, rest.len() as int + own.len()) =~= own);
        assert(holds_steps(steps, rest.len() as int, own));
    } else {
        law_every_tab_is_drawn(tabs.drop_last(), views, i);
        let at = choose|at: int| holds_steps(rest, at, own);
        assert(steps.subrange(at, at + own.len()) =~= rest.subrange(at, at + own.len()));
        assert(holds_steps(steps, at, own));
    }
}

/// The splitter is filled, and its line is drawn on it: a pixel wide, in the middle of the
/// splitter's width to the pixel, and as far from its top as from its bottom.
pub proof fn law_line_is_in_the_middle_of_the_splitter(splitter: UiRect)
    requires
        1 <= splitter.width,
        25 <= splitter.height,
        splitter.x + splitter.width <= i32::MAX,
        splitter.y + splitter.height <= i32::MAX,
    ensures
        ({
            let steps = drawing::splitter_drawn(splitter);
            let line = steps[1]->Fill_0;
            let left = line.x - splitter.x;
            let right = splitter.x + splitter.width - (line.x + line.width);
            &&& steps.len() == 2
            &&& steps[0] == DrawModel::Fill(splitter, SPLITTER_BACKGROUND)
            &&& steps[1] is Fill
            &&& steps[1]->Fill_1 == SPLITTER_GRIP
            &&& line.width == 1
            &&& 0 <= left
            &&& 0 <= right
            &&& -1 <= left - right <= 1
            &&& line.y - splitter.y == 12
            &&& splitter.y + splitter.height - (line.y + line.height) == 12
        }),
{
}

/// A window is drawn back to front: first its background over all of it, then the tab bar, the
/// splitter, the background of the terminal, and the terminal last.
pub proof fn law_window_is_drawn_back_to_front(
    width: i32,
    height: i32,
    window: WindowLayout,
    views: Seq<TerminalTabView>,
    shown: ShownTerminal<'_>,
)
    ensures
        ({
            let steps = drawing::scene_drawn(width, height, window, views, Some(shown));
            let bar = drawing::tab_bar_drawn(window, views);
            let splitter = drawing::splitter_drawn(window.splitter);
            let ground = drawing::filled(window.terminal, BACKGROUND);
            let terminal = drawing::terminal_drawn(
                shown.content,
                shown.metrics,
                shown.baseline,
                *shown.viewport,
                shown.selected@,
                shown.from_surface,
            );
            let first = 1 + bar.len() as int;
            let second = first + splitter.len();
            let third = second + ground.len();
            &&& steps[0] == DrawModel::Fill(
                UiRect { x: 0, y: 0, width, height },
                CHROME_BACKGROUND,
            )
            &&& holds_steps(steps, 1, bar)
            &&& holds_steps(steps, first, splitter)
            &&& holds_steps(steps, second, ground)
            &&& holds_steps(steps, third, terminal)
            &&& third + terminal.len() == steps.len()
            &&& drawing::scene_drawn(width, height, window, views, None) == steps.take(third)
        }),
{
    let steps = drawing::scene_drawn(width, height, window, views, Some(shown));
    let bar = drawing::tab_bar_drawn(window, views);
    let splitter = drawing::splitter_drawn(window.splitter);
    let ground = drawing::filled(window.terminal, BACKGROUND);
    let terminal = drawing::terminal_drawn(
        shown.content,
        shown.metrics,
        shown.baseline,
        *shown.viewport,
        shown.selected@,
        shown.from_surface,
    );
    let first = 1 + bar.len() as int;
    let second = first + splitter.len();
    let third = second + ground.len();
    assert(steps.subrange(1, first) =~= bar);
    assert(steps.subrange(first, second) =~= splitter);
    assert(steps.subrange(second, third) =~= ground);
    assert(steps.subrange(third, third + terminal.len()) =~= terminal);
    assert(drawing::scene_drawn(width, height, window, views, None) =~= steps.take(third));
}

/// Rows of a kept drawing that are drawn again get their background first, over the pixel lines
/// of those rows, and then their texts; of rows that the terminal does not have nothing but the
/// background is drawn.
pub proof fn law_changed_rows_are_drawn_again(
    shape: SurfaceShape,
    range: RowRange,
    row: int,
    x: int,
    y: int,
)
    requires
        1 <= shape.metrics.height,
        1 <= shape.content_width,
        1 <= shape.content_height,
        range.start < range.end,
        range.start * shape.metrics.height < shape.content_height,
    ensures
        ({
            let steps = drawing::range_redrawn(shape, range);
            &&& steps.len() > 0
            &&& steps[0] is Fill
            &&& steps[0]->Fill_1 == BACKGROUND
            &&& steps[0]->Fill_0.covers(x, y) <==> {
                &&& 0 <= x < shape.content_width
                &&& 0 <= y < shape.content_height
                &&& range.start * shape.metrics.height <= y < range.end * shape.metrics.height
            }
            &&& (exists|at: int| writes_row(steps, at, row)) <==> range.start <= row < range.end
                && row < shape.viewport_rows
        }),
{
    let content = drawing::surface_area(shape);
    let steps = drawing::range_redrawn(shape, range);
    let end = if range.end < shape.viewport_rows {
        range.end as int
    } else {
        shape.viewport_rows as int
    };
    let texts = drawing::texts_drawn(
        content,
        shape.metrics,
        shape.baseline,
        range.start as int,
        end,
    );
    let height = shape.metrics.height as int;
    assert(0 <= range.start * height < range.end * height) by (nonlinear_arith)
        requires
            0 <= range.start < range.end,
            height >= 1,
    ;
    grid::law_rows_area_holds_its_rows(content, shape.metrics, range, x, y);
    let area = grid::rows_area(content, shape.metrics, range)->0;
    assert(steps =~= seq![DrawModel::Fill(area, BACKGROUND)] + texts);
    lemma_texts_drawn(content, shape.metrics, shape.baseline, range.start as int, end, row);
    if exists|at: int| writes_row(steps, at, row) {
        let at = choose|at: int| writes_row(steps, at, row);
        assert(steps[at] == texts[at - 1]);
        assert(writes_row(texts, at - 1, row));
    }
    if exists|at: int| writes_row(texts, at, row) {
        let at = choose|at: int| writes_row(texts, at, row);
        assert(steps[at + 1] == texts[at]);
        assert(writes_row(steps, at + 1, row));
    }
}

proof fn lemma_texts_drawn(
    content: UiRect,
    metrics: CellMetrics,
    baseline: i32,
    start: int,
    end: int,
    row: int,
)
    ensures
        (exists|at: int|
            writes_row(
                drawing::texts_drawn(content, metrics, baseline, start, end),
                at,
                row,
            )) <==> start <= row < end,
    decreases end - start,
{
    let steps = drawing::texts_drawn(content, metrics, baseline, start, end);
    if start < end {
        let rest = drawing::texts_drawn(content, metrics, baseline, start, end - 1);
        let own = drawing::row_drawn(content, metrics, baseline, end - 1, None);
        lemma_texts_drawn(content, metrics, baseline, start, end - 1, row);
        assert(steps =~= rest + own);
        assert(own.len() == 1 && own[0] is Row && own[0]->Row_0 == end - 1);
        if exists|at: int| writes_row(steps, at, row) {
            let at = choose|at: int| writes_row(steps, at, row);
            if at < rest.len() {
                assert(writes_row(rest, at, row));
            } else {
                assert(steps[at] == own[0]);
            }
        }
        if exists|at: int| writes_row(rest, at, row) {
            let at = choose|at: int| writes_row(rest, at, row);
            assert(writes_row(steps, at, row));
        }
        if row == end - 1 {
            assert(steps[rest.len() as int] == own[0]);
            assert(writes_row(steps, rest.len() as int, row));
        }
    }
}

/// Ranges of rows are drawn again one after the other, in their order: to draw some and then the
/// rest is to draw all of them.
pub proof fn law_ranges_are_redrawn_in_order(shape: SurfaceShape, ranges: Seq<RowRange>, count: int)
    requires
        0 <= count <= ranges.len(),
    ensures
        drawing::ranges_redrawn(shape, ranges) == drawing::ranges_redrawn(shape, ranges.take(count))
            + drawing::ranges_redrawn(shape, ranges.skip(count)),
        ranges.len() == 1 ==> drawing::ranges_redrawn(shape, ranges) == drawing::range_redrawn(
            shape,
            ranges[0],
        ),
    decreases ranges.len(),
{
    let rest = ranges.skip(count);
    if ranges.len() == 1 {
        assert(ranges.drop_last() =~= Seq::<RowRange>::empty());
        assert(drawing::ranges_redrawn(shape, ranges.drop_last()) =~= Seq::empty());
        assert(drawing::ranges_redrawn(shape, ranges) =~= drawing::range_redrawn(shape, ranges[0]));
    }
    if count < ranges.len() {
        law_ranges_are_redrawn_in_order(shape, ranges.drop_last(), count);
        assert(rest.drop_last() =~= ranges.drop_last().skip(count));
        assert(ranges.drop_last().take(count) =~= ranges.take(count));
        assert(rest.last() == ranges.last());
        assert(drawing::ranges_redrawn(shape, ranges) =~= drawing::ranges_redrawn(
            shape,
            ranges.take(count),
        ) + drawing::ranges_redrawn(shape, rest));
    } else {
        assert(ranges.take(count) =~= ranges);
        assert(rest =~= Seq::<RowRange>::empty());
        assert(drawing::ranges_redrawn(shape, ranges) =~= drawing::ranges_redrawn(shape, ranges)
            + drawing::ranges_redrawn(shape, rest));
    }
}

/// Behind the tabs the button for a new one is drawn, where there is one: its background and a
/// plus sign in it.
pub proof fn law_new_tab_button_is_drawn_behind_the_tabs(
    layout: WindowLayout,
    views: Seq<TerminalTabView>,
)
    ensures
        ({
            let steps = drawing::tab_bar_drawn(layout, views);
            let tabs = drawing::tabs_drawn(layout.tabs@, views);
            &&& steps.take(tabs.len() as int) == tabs
            &&& layout.new_tab_button is None ==> steps == tabs
            &&& layout.new_tab_button matches Some(bounds) ==> {
                &&& steps.skip(tabs.len() as int).drop_last() == drawing::filled(
                    bounds,
                    TAB_INACTIVE_BACKGROUND,
                )
                &&& steps.len() > tabs.len()
                &&& steps.last() is Text
                &&& steps.last()->Text_2 == "+"@
                &&& bounds.x + 8 <= i32::MAX ==> steps.last()->Text_0 == bounds.x + 8
                &&& bounds.y + 19 <= i32::MAX ==> steps.last()->Text_1 == bounds.y + 19
            }
        }),
{
    let steps = drawing::tab_bar_drawn(layout, views);
    let tabs = drawing::tabs_drawn(layout.tabs@, views);
    assert(steps.take(tabs.len() as int) =~= tabs);
    match layout.new_tab_button {
        Some(bounds) => {
            assert(steps.skip(tabs.len() as int).drop_last() =~= drawing::filled(
                bounds,
                TAB_INACTIVE_BACKGROUND,
            ));
        },
        None => {
            assert(steps =~= tabs);
        },
    }
}

} // verus!
