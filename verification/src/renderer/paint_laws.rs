//! What holds of every painting.

use vstd::prelude::*;

use crate::domain::geometry::UiRect;
use crate::domain::layout::{self, TabPlacement, TerminalTabView, WindowLayout};
use crate::domain::rows::RowRange;
use crate::domain::terminal::TerminalViewport;
use crate::renderer::encoding::{self, EncodedLine};
use crate::renderer::geometry::{self, CellMetrics, DeviceRect};
use crate::renderer::paint::{
    self, ColumnRange, GdiRenderer, PaintModel, PaintPlan, PaintScene,
};

verus! {

/// Whether a plan writes the text of a row, at a step.
pub open spec fn writes_row(steps: Seq<PaintModel>, at: int, row: int) -> bool {
    &&& 0 <= at < steps.len()
    &&& steps[at] is Row
    &&& steps[at]->Row_row == row
}

/// A row inside the content that has text is written once, in its last step: at the
/// left edge of the content and at the top edge of the row's first cell, which is so
/// many cell heights below the top of the content as there are rows above it. The
/// area that the text is kept to begins at that very point.
pub proof fn law_row_text_is_at_its_cells(
    line: EncodedLine,
    selected: Option<ColumnRange>,
    content: UiRect,
    clip: DeviceRect,
    metrics: CellMetrics,
    row: int,
)
    requires
        0 <= row,
        1 <= metrics.width,
        1 <= metrics.height,
        0 < content.width,
        row * metrics.height < content.height,
        row * metrics.height + metrics.height <= i32::MAX,
        content.x + content.width <= i32::MAX,
        content.y + content.height <= i32::MAX,
        line.wide@.len() > 0,
    ensures
        ({
            let steps = paint::row_plan(line, selected, content, clip, metrics, row);
            let cell = geometry::cell_area(content, metrics, row, 0);
            &&& steps.len() > 0
            &&& steps.last() matches PaintModel::Row { row: written, x, y, clip: area }
            &&& written == row
            &&& y == content.y + row * metrics.height
            &&& y == cell.top
            &&& x == content.x
            &&& x == cell.left
            &&& area.left == x
            &&& area.top == y
            &&& area.covers(x as int, y as int)
            &&& area.bottom <= y + metrics.height
            &&& area.bottom <= content.y + content.height
            &&& area.right == content.x + content.width
            &&& forall|at: int| 0 <= at < steps.len() - 1 ==> !((#[trigger] steps[at]) is Row)
        }),
{
    let steps = paint::row_plan(line, selected, content, clip, metrics, row);
    let height = metrics.height as int;
    assert(0 <= row * height && row <= row * height) by (nonlinear_arith)
        requires
            row >= 0,
            height >= 1,
    ;
    assert(0 * (metrics.width as int) == 0);
    geometry::law_row_clip_is_the_row(
        content,
        metrics,
        row,
        content.x as int,
        content.y + row * height,
    );
    assert(steps.last() is Row);
}

/// The texts of two rows, one below the other, are one cell height apart.
pub proof fn law_rows_are_one_cell_apart(
    line: EncodedLine,
    next: EncodedLine,
    selected: Option<ColumnRange>,
    next_selected: Option<ColumnRange>,
    content: UiRect,
    clip: DeviceRect,
    metrics: CellMetrics,
    row: int,
)
    requires
        0 <= row,
        1 <= metrics.width,
        1 <= metrics.height,
        0 < content.width,
        (row + 1) * metrics.height < content.height,
        (row + 1) * metrics.height + metrics.height <= i32::MAX,
        content.x + content.width <= i32::MAX,
        content.y + content.height <= i32::MAX,
        line.wide@.len() > 0,
        next.wide@.len() > 0,
    ensures
        ({
            let above = paint::row_plan(line, selected, content, clip, metrics, row).last();
            let below = paint::row_plan(
                next,
                next_selected,
                content,
                clip,
                metrics,
                row + 1,
            ).last();
            &&& above is Row
            &&& below is Row
            &&& below->Row_y == above->Row_y + metrics.height
            &&& below->Row_x == above->Row_x
            &&& above->Row_clip.bottom <= below->Row_clip.top
        }),
{
    let height = metrics.height as int;
    assert((row + 1) * height == row * height + height) by (nonlinear_arith);
    law_row_text_is_at_its_cells(line, selected, content, clip, metrics, row);
    law_row_text_is_at_its_cells(next, next_selected, content, clip, metrics, row + 1);
}

/// A row without text, and one that begins below the content, is not written.
pub proof fn law_blank_rows_are_not_written(
    line: EncodedLine,
    selected: Option<ColumnRange>,
    content: UiRect,
    clip: DeviceRect,
    metrics: CellMetrics,
    row: int,
    at: int,
)
    requires
        0 <= row,
        1 <= metrics.height,
        row * metrics.height + metrics.height <= i32::MAX,
        content.x + content.width <= i32::MAX,
        content.y + content.height <= i32::MAX,
        line.wide@.len() == 0 || row * metrics.height >= content.height,
        0 <= at < paint::row_plan(line, selected, content, clip, metrics, row).len(),
    ensures
        paint::row_plan(line, selected, content, clip, metrics, row)[at] is Fill,
{
    geometry::law_row_clip_is_the_row(content, metrics, row, 0, 0);
}

/// The selected cells of a row, and no other pixels, get the background of a
/// selection, as far as they are painted, and before the row's text is written.
pub proof fn law_selected_cells_are_filled(
    line: EncodedLine,
    columns: ColumnRange,
    content: UiRect,
    clip: DeviceRect,
    metrics: CellMetrics,
    row: int,
    column: int,
    x: int,
    y: int,
)
    requires
        0 <= row,
        0 <= column,
        columns.start <= columns.end,
        1 <= metrics.width,
        1 <= metrics.height,
        (column + 2) * metrics.width <= i32::MAX,
        content.x + (column + 2) * metrics.width <= i32::MAX,
        columns.end * metrics.width <= i32::MAX,
        content.x + columns.end * metrics.width <= i32::MAX,
        (row + 2) * metrics.height <= i32::MAX,
        content.y + (row + 2) * metrics.height <= i32::MAX,
        geometry::cell_area(content, metrics, row, column).covers(x, y),
        clip.covers(x, y),
    ensures
        ({
            let steps = paint::row_plan(line, Some(columns), content, clip, metrics, row);
            columns.start <= column < columns.end <==> (steps.len() > 0 && steps[0] is Fill
                && steps[0]->Fill_color == paint::SELECTION_BACKGROUND
                && steps[0]->Fill_rect.covers(x, y))
        }),
{
    let area = geometry::cells_area(
        content,
        metrics,
        row,
        columns.start as int,
        columns.end as int,
    );
    geometry::law_cells_area_holds_its_cells(
        content,
        metrics,
        row,
        columns.start as int,
        columns.end as int,
        column,
        x,
        y,
    );
    geometry::law_intersection_is_common_area(area, clip, x, y);
}

/// A row that nothing is selected in gets no background of a selection.
pub proof fn law_unselected_row_is_not_filled(
    line: EncodedLine,
    content: UiRect,
    clip: DeviceRect,
    metrics: CellMetrics,
    row: int,
    at: int,
)
    requires
        0 <= at < paint::row_plan(line, None, content, clip, metrics, row).len(),
    ensures
        paint::row_plan(line, None, content, clip, metrics, row)[at] is Row,
{
}

/// The rows of a range are written once each and in order, those of them that have
/// text and begin inside the content, and no others.
pub proof fn law_rows_are_written_once_in_order(
    cache: Seq<EncodedLine>,
    selected: Seq<Option<ColumnRange>>,
    content: UiRect,
    clip: DeviceRect,
    metrics: CellMetrics,
    start: int,
    end: int,
    row: int,
    first: int,
    second: int,
)
    requires
        0 <= start,
        1 <= metrics.width,
        1 <= metrics.height,
        0 < content.width,
        0 < content.height,
        content.x + content.width <= i32::MAX,
        content.y + content.height <= i32::MAX,
        end * metrics.height <= i32::MAX,
    ensures
        ({
            let steps = paint::rows_plan(cache, selected, content, clip, metrics, start, end);
            &&& (exists|at: int| writes_row(steps, at, row)) <==> (start <= row < end
                && cache[row].wide@.len() > 0 && row * metrics.height < content.height)
            &&& 0 <= first < second < steps.len() && steps[first] is Row && steps[second] is Row
                ==> steps[first]->Row_row < steps[second]->Row_row
            &&& 0 <= first < steps.len() && steps[first] is Row ==> {
                &&& start <= steps[first]->Row_row < end
                &&& steps[first]->Row_y == content.y + steps[first]->Row_row * metrics.height
                &&& steps[first]->Row_x == content.x
            }
        }),
    decreases end - start,
{
    let steps = paint::rows_plan(cache, selected, content, clip, metrics, start, end);
    let height = metrics.height as int;
    if start < end {
        let last = end - 1;
        let rest = paint::rows_plan(cache, selected, content, clip, metrics, start, last);
        let own = paint::row_plan(cache[last], selected[last], content, clip, metrics, last);
        assert(last * height + height == end * height) by (nonlinear_arith)
            requires
                last == end - 1,
        ;
        assert(steps =~= rest + own);
        law_rows_are_written_once_in_order(
            cache,
            selected,
            content,
            clip,
            metrics,
            start,
            last,
            row,
            first,
            second,
        );
        if cache[last].wide@.len() > 0 && last * height < content.height {
            law_row_text_is_at_its_cells(
                cache[last],
                selected[last],
                content,
                clip,
                metrics,
                last,
            );
        }
        assert forall|at: int| 0 <= at < own.len() implies ((#[trigger] own[at]) is Row <==> at
            == own.len() - 1 && cache[last].wide@.len() > 0 && last * height < content.height) by {
            if !(cache[last].wide@.len() > 0 && last * height < content.height) {
                law_blank_rows_are_not_written(
                    cache[last],
                    selected[last],
                    content,
                    clip,
                    metrics,
                    last,
                    at,
                );
            }
        }
        assert forall|at: int| 0 <= at < own.len() && (#[trigger] own[at]) is Row implies {
            &&& own[at]->Row_row == last
            &&& own[at]->Row_y == content.y + last * height
            &&& own[at]->Row_x == content.x
        } by {}
        if start <= row < end && cache[row].wide@.len() > 0 && row * height < content.height {
            if row == last {
                assert(steps[steps.len() - 1] == own.last());
                assert(writes_row(steps, steps.len() - 1, row));
            } else {
                let at = choose|at: int| writes_row(rest, at, row);
                assert(steps[at] == rest[at]);
                assert(writes_row(steps, at, row));
            }
        }
        if exists|at: int| writes_row(steps, at, row) {
            let at = choose|at: int| writes_row(steps, at, row);
            if at < rest.len() {
                assert(steps[at] == rest[at]);
                assert(writes_row(rest, at, row));
            } else {
                assert(steps[at] == own[at - rest.len()]);
            }
        }
        if 0 <= first < steps.len() && steps[first] is Row {
            if first < rest.len() {
                assert(steps[first] == rest[first]);
            } else {
                assert(steps[first] == own[first - rest.len()]);
            }
        }
        if 0 <= first < second < steps.len() && steps[first] is Row && steps[second] is Row {
            if second < rest.len() {
                assert(steps[second] == rest[second]);
            } else {
                assert(steps[second] == own[second - rest.len()]);
                if first >= rest.len() {
                    assert(own[first - rest.len()] is Row);
                    assert(false);
                }
            }
        }
    }
}

/// The cursor is painted on its own cell, as far as that lies in the terminal, with
/// the character of that cell on it unless it is a blank; it is not painted where it
/// is on no cell of the screen.
pub proof fn law_cursor_is_on_its_cell(
    viewport: TerminalViewport,
    area: UiRect,
    clip: DeviceRect,
    metrics: CellMetrics,
    x: int,
    y: int,
)
    ensures
        ({
            let steps = paint::cursor_plan(viewport, area, clip, metrics);
            let cursor = viewport.cursor;
            let on_screen = cursor.row < viewport.rows && cursor.column < viewport.columns;
            let cell = geometry::cell_area(
                area,
                metrics,
                cursor.row as int,
                cursor.column as int,
            );
            let character = viewport.row_cells(
                cursor.row as int,
            )[cursor.column as int].character;
            &&& !on_screen ==> steps.len() == 0
            &&& on_screen && cell.covers(x, y) && geometry::edges_of(area).covers(x, y)
                && clip.covers(x, y) ==> steps.len() > 0
            &&& steps.len() > 0 ==> {
                &&& steps[0] is Fill
                &&& steps[0]->Fill_color == paint::FOREGROUND
                &&& steps[0]->Fill_rect.covers(x, y) <==> cell.covers(x, y) && geometry::edges_of(
                    area,
                ).covers(x, y)
                &&& character == ' ' ==> steps.len() == 1
                &&& character != ' ' ==> steps.len() == 2 && steps[1] is CursorText
                    && steps[1]->CursorText_character == character && steps[1]->CursorText_rect
                    == steps[0]->Fill_rect
            }
        }),
{
    let cell = geometry::cell_area(
        area,
        metrics,
        viewport.cursor.row as int,
        viewport.cursor.column as int,
    );
    geometry::law_intersection_is_common_area(cell, geometry::edges_of(area), x, y);
    if geometry::intersection(cell, geometry::edges_of(area)) is Some {
        let rect = geometry::intersection(cell, geometry::edges_of(area))->0;
        geometry::law_intersection_is_common_area(rect, clip, x, y);
    }
}

/// A text that is centred in the height of its bounds has as much room above it as
/// below it, or a pixel less.
pub proof fn law_text_is_centred(bounds: UiRect, metrics: CellMetrics)
    requires
        1 <= metrics.height <= bounds.height,
        bounds.y + bounds.height <= i32::MAX,
    ensures
        ({
            let above = paint::text_top(bounds, metrics) - bounds.y;
            let below = bounds.y + bounds.height - (paint::text_top(bounds, metrics)
                + metrics.height);
            &&& 0 <= above
            &&& above <= below <= above + 1
        }),
{
}

/// A tab's title has room beside the close button: it begins inside the tab and ends
/// before the button does.
pub proof fn law_tab_title_keeps_off_the_close_button(placement: TabPlacement)
    requires
        0 <= placement.bounds.x,
        0 <= placement.bounds.width,
        placement.bounds.x + placement.bounds.width + 10 <= i32::MAX,
        placement.close_bounds matches Some(close) ==> 0 <= close.width <= placement.bounds.width,
    ensures
        ({
            let title = paint::title_bounds(placement);
            let right = placement.bounds.x + placement.bounds.width;
            &&& title.x == placement.bounds.x + 10
            &&& title.y == placement.bounds.y
            &&& title.height == placement.bounds.height
            &&& title.x + title.width == right - 4 - (match placement.close_bounds {
                Some(close) => close.width + 8,
                None => 0,
            })
        }),
{
}

/// A tab that is painted is filled with the background of an active tab, where it is
/// the active one, and of an inactive tab, where it is not; its close button, where it
/// has one that is painted, is the last thing of it. A tab outside the painted area
/// is not painted.
pub proof fn law_tab_shows_whether_it_is_active(
    placement: TabPlacement,
    title: Seq<char>,
    clip: DeviceRect,
    metrics: CellMetrics,
    x: int,
    y: int,
)
    ensures
        ({
            let steps = paint::tab_plan(placement, title, clip, metrics);
            let rect = geometry::edges_of(placement.bounds);
            &&& rect.covers(x, y) && clip.covers(x, y) ==> {
                &&& steps.len() > 0
                &&& steps[0] is Fill
                &&& steps[0]->Fill_rect.covers(x, y)
                &&& steps[0]->Fill_color == (if placement.active {
                    paint::TAB_ACTIVE_BACKGROUND
                } else {
                    paint::TAB_INACTIVE_BACKGROUND
                })
                &&& placement.close_bounds is Some && geometry::edges_of(
                    placement.close_bounds->0,
                ).covers(x, y) && placement.close_bounds->0.width > 0
                    && placement.close_bounds->0.height > 0 ==> {
                    &&& steps.last() is Label
                    &&& steps.last()->Label_text == "x"@
                    &&& steps.last()->Label_y == paint::text_top(placement.close_bounds->0, metrics)
                }
            }
            &&& steps.len() > 0 ==> geometry::intersection(rect, clip) is Some
        }),
{
    let rect = geometry::edges_of(placement.bounds);
    geometry::law_intersection_is_common_area(rect, clip, x, y);
    reveal_strlit("x");
    if placement.close_bounds is Some {
        geometry::law_intersection_is_common_area(
            geometry::edges_of(placement.close_bounds->0),
            clip,
            x,
            y,
        );
    }
}

/// A text that fits into its bounds is shown whole, in its colour, from their left
/// edge on.
pub proof fn law_left_label_begins_at_its_bounds(
    bounds: UiRect,
    text: Seq<char>,
    color: u32,
    metrics: CellMetrics,
)
    requires
        1 <= metrics.width,
        0 < bounds.height,
        0 < text.len(),
        text.len() * metrics.width <= bounds.width,
    ensures
        ({
            let steps = paint::left_label(bounds, text, color, metrics);
            &&& steps.len() == 1
            &&& steps[0] is Label
            &&& steps[0]->Label_x == bounds.x
            &&& steps[0]->Label_y == paint::text_top(bounds, metrics)
            &&& steps[0]->Label_text == text
            &&& steps[0]->Label_color == color
        }),
{
    let width = metrics.width as int;
    let count = text.len() as int;
    let room = bounds.width as int;
    assert(room / width >= count && room >= count) by (nonlinear_arith)
        requires
            count * width <= room,
            width >= 1,
            count >= 0,
    ;
}

/// A text that does not fit is cut to what does: as many characters as there is room
/// for, which are the first ones of the text, the last three of them dots where there
/// is room for more than that.
pub proof fn law_shortened_text_fits(text: Seq<char>, room: int, at: int)
    requires
        0 <= room,
    ensures
        ({
            let shown = encoding::shortened(text, room);
            &&& shown.len() <= room
            &&& text.len() <= room ==> shown == text
            &&& text.len() > room ==> shown.len() == room
            &&& text.len() > room && 0 <= at < room && (room <= 3 || at < room - 3) ==> shown[at]
                == text[at]
            &&& text.len() > room && room > 3 && room - 3 <= at < room ==> shown[at] == '.'
        }),
{
}

/// A centred text has as much room on its left as on its right, or a pixel less,
/// where it is no wider than its bounds.
pub proof fn law_centred_label_is_in_the_middle(
    bounds: UiRect,
    text: Seq<char>,
    color: u32,
    metrics: CellMetrics,
)
    requires
        1 <= metrics.width,
        0 < bounds.width,
        0 < bounds.height,
        0 < text.len(),
        encoding::utf16_text(text).len() * metrics.width <= bounds.width,
        bounds.x + bounds.width <= i32::MAX,
    ensures
        ({
            let steps = paint::centered_label(bounds, text, color, metrics);
            let width = encoding::utf16_text(text).len() * metrics.width;
            let left = steps[0]->Label_x - bounds.x;
            let right = bounds.x + bounds.width - (steps[0]->Label_x + width);
            &&& steps.len() == 1
            &&& steps[0] is Label
            &&& 0 <= left
            &&& left <= right <= left + 1
            &&& steps[0]->Label_y == paint::text_top(bounds, metrics)
            &&& steps[0]->Label_text == text
            &&& steps[0]->Label_color == color
        }),
{
    let count = encoding::utf16_text(text).len() as int;
    let width = metrics.width as int;
    assert(0 <= count <= count * width) by (nonlinear_arith)
        requires
            count >= 0,
            width >= 1,
    ;
}

/// The splitter's grip lies inside the splitter, over its whole height, in the middle
/// of its width to the pixel.
pub proof fn law_grip_is_in_the_middle(splitter: UiRect)
    requires
        1 <= splitter.width,
        splitter.x + splitter.width <= i32::MAX,
    ensures
        ({
            let grip = paint::grip_of(splitter);
            let left = grip.x - splitter.x;
            let right = splitter.x + splitter.width - (grip.x + grip.width);
            &&& 1 <= grip.width <= 2
            &&& splitter.width >= 2 ==> grip.width == 2
            &&& grip.y == splitter.y
            &&& grip.height == splitter.height
            &&& 0 <= left
            &&& left <= right <= left + 1
        }),
{
}

/// A splitter that is painted is filled with its background first and then with its
/// grip, each as far as it is painted.
pub proof fn law_grip_is_painted_on_the_splitter(splitter: UiRect, clip: DeviceRect, x: int, y: int)
    requires
        0 < splitter.width,
        0 < splitter.height,
        geometry::edges_of(splitter).covers(x, y),
        clip.covers(x, y),
    ensures
        ({
            let steps = paint::splitter_plan(splitter, clip);
            &&& steps.len() >= 1
            &&& steps[0] is Fill
            &&& steps[0]->Fill_rect.covers(x, y)
            &&& steps[0]->Fill_color == paint::SPLITTER_BACKGROUND
            &&& geometry::edges_of(paint::grip_of(splitter)).covers(x, y) ==> steps.len() == 2
                && steps[1] is Fill && steps[1]->Fill_rect.covers(x, y) && steps[1]->Fill_color
                == paint::SPLITTER_GRIP
        }),
{
    geometry::law_intersection_is_common_area(geometry::edges_of(splitter), clip, x, y);
    geometry::law_intersection_is_common_area(
        geometry::edges_of(paint::grip_of(splitter)),
        clip,
        x,
        y,
    );
}

/// Whether a plan holds the steps of a part, one after the other, from a place on.
pub open spec fn holds_steps(steps: Seq<PaintModel>, at: int, part: Seq<PaintModel>) -> bool {
    &&& 0 <= at
    &&& at + part.len() <= steps.len()
    &&& steps.subrange(at, at + part.len()) == part
}

/// Whether a plan holds the steps of some parts, each part at its place, and none
/// before the end of the part before it.
pub open spec fn holds_parts(
    steps: Seq<PaintModel>,
    parts: Seq<Seq<PaintModel>>,
    places: Seq<int>,
) -> bool {
    &&& places.len() == parts.len()
    &&& forall|i: int| 0 <= i < parts.len() ==> #[trigger] holds_steps(steps, places[i], parts[i])
    &&& forall|i: int, j: int|
        0 <= i < j < parts.len() ==> #[trigger] places[i] + (#[trigger] parts[i]).len()
            <= #[trigger] places[j]
}

/// What is painted of the tab at a place, with the title of that tab.
pub open spec fn steps_of_tab(
    placements: Seq<TabPlacement>,
    tabs: Seq<TerminalTabView>,
    clip: DeviceRect,
    metrics: CellMetrics,
    i: int,
) -> Seq<PaintModel> {
    paint::tab_plan(
        placements[i],
        layout::title_of(tabs, placements[i].id, ""@),
        clip,
        metrics,
    )
}

/// Every tab is painted, each with the title of the tab that is there, and one that is
/// placed after another is painted after it.
pub proof fn law_every_tab_is_painted(
    placements: Seq<TabPlacement>,
    tabs: Seq<TerminalTabView>,
    clip: DeviceRect,
    metrics: CellMetrics,
    i: int,
    j: int,
)
    requires
        0 <= i < j < placements.len(),
    ensures
        exists|places: Seq<int>|
            holds_parts(
                paint::tabs_plan(placements, tabs, clip, metrics),
                seq![
                    steps_of_tab(placements, tabs, clip, metrics, i),
                    steps_of_tab(placements, tabs, clip, metrics, j),
                ],
                places,
            ),
{
    let steps = paint::tabs_plan(placements, tabs, clip, metrics);
    let own = steps_of_tab(placements, tabs, clip, metrics, i);
    let next = steps_of_tab(placements, tabs, clip, metrics, j);
    let first = paint::tabs_plan(placements.take(i), tabs, clip, metrics).len() as int;
    let second = paint::tabs_plan(placements.take(j), tabs, clip, metrics).len() as int;
    lemma_tab_is_painted_behind_earlier_ones(placements, tabs, clip, metrics, i);
    lemma_tab_is_painted_behind_earlier_ones(placements, tabs, clip, metrics, j);
    lemma_tab_is_painted_behind_earlier_ones(placements.take(j), tabs, clip, metrics, i);
    assert(placements.take(j).take(i) =~= placements.take(i));
    assert(steps_of_tab(placements.take(j), tabs, clip, metrics, i) == own);
    lemma_two_parts(steps, first, own, second, next);
}

proof fn lemma_two_parts(
    steps: Seq<PaintModel>,
    first: int,
    own: Seq<PaintModel>,
    second: int,
    next: Seq<PaintModel>,
)
    requires
        holds_steps(steps, first, own),
        holds_steps(steps, second, next),
        first + own.len() <= second,
    ensures
        holds_parts(steps, seq![own, next], seq![first, second]),
{
    let parts = seq![own, next];
    let places = seq![first, second];
    assert(parts[0] == own && parts[1] == next);
    assert(places[0] == first && places[1] == second);
}

proof fn lemma_tab_is_painted_behind_earlier_ones(
    placements: Seq<TabPlacement>,
    tabs: Seq<TerminalTabView>,
    clip: DeviceRect,
    metrics: CellMetrics,
    i: int,
)
    requires
        0 <= i < placements.len(),
    ensures
        holds_steps(
            paint::tabs_plan(placements, tabs, clip, metrics),
            paint::tabs_plan(placements.take(i), tabs, clip, metrics).len() as int,
            steps_of_tab(placements, tabs, clip, metrics, i),
        ),
    decreases placements.len(),
{
    let steps = paint::tabs_plan(placements, tabs, clip, metrics);
    let rest = placements.drop_last();
    let before = paint::tabs_plan(rest, tabs, clip, metrics);
    let own = steps_of_tab(placements, tabs, clip, metrics, i);
    let at = paint::tabs_plan(placements.take(i), tabs, clip, metrics).len() as int;
    if i == rest.len() {
        assert(placements.take(i) =~= rest);
        assert(steps.subrange(at, at + own.len()) =~= own);
    } else {
        lemma_tab_is_painted_behind_earlier_ones(rest, tabs, clip, metrics, i);
        assert(rest.take(i) =~= placements.take(i));
        assert(steps.subrange(at, at + own.len()) =~= before.subrange(at, at + own.len()));
    }
}

/// The parts of a window: the tab bar, the background of the terminal, the rows that
/// the painted area touches, the splitter and the cursor.
pub open spec fn parts_of_window(
    scene: PaintScene<'_>,
    cache: Seq<EncodedLine>,
    clip: DeviceRect,
    metrics: CellMetrics,
) -> Seq<Seq<PaintModel>> {
    let rows = geometry::painted_rows(
        clip,
        scene.content,
        scene.viewport.rows as int,
        metrics.height as int,
    );
    seq![
        paint::tab_bar_plan(*scene.window, scene.tabs@, clip, metrics),
        paint::filled(
            geometry::edges_of(scene.window.terminal),
            clip,
            paint::BACKGROUND,
            "FillRect terminal"@,
        ),
        paint::rows_plan(
            cache,
            scene.selected@,
            scene.content,
            clip,
            metrics,
            rows.start as int,
            rows.end as int,
        ),
        paint::splitter_plan(scene.window.splitter, clip),
        paint::cursor_plan(*scene.viewport, scene.content, clip, metrics),
    ]
}

/// A window is painted back to front: first the whole area, then the tab bar, then the
/// background of the terminal, the rows that the area touches, the splitter, and the
/// cursor last of all.
pub proof fn law_window_is_painted_back_to_front(
    scene: PaintScene<'_>,
    cache: Seq<EncodedLine>,
    clip: DeviceRect,
    metrics: CellMetrics,
)
    ensures
        ({
            let steps = paint::scene_plan(scene, cache, clip, metrics);
            &&& steps.len() > 0
            &&& steps[0] is Fill
            &&& steps[0]->Fill_rect == clip
            &&& steps[0]->Fill_color == paint::CHROME_BACKGROUND
        }),
        exists|places: Seq<int>|
            holds_parts(
                paint::scene_plan(scene, cache, clip, metrics),
                parts_of_window(scene, cache, clip, metrics),
                places,
            ) && places[0] == 1 && places[4] + paint::cursor_plan(
                *scene.viewport,
                scene.content,
                clip,
                metrics,
            ).len() == paint::scene_plan(scene, cache, clip, metrics).len(),
{
    let steps = paint::scene_plan(scene, cache, clip, metrics);
    let parts = parts_of_window(scene, cache, clip, metrics);
    let second = 1 + parts[0].len() as int;
    let third = second + parts[1].len();
    let fourth = third + parts[2].len();
    let fifth = fourth + parts[3].len();
    let places = seq![1int, second, third, fourth, fifth];
    lemma_five_parts(steps, steps[0], parts[0], parts[1], parts[2], parts[3], parts[4]);
    assert(parts =~= seq![parts[0], parts[1], parts[2], parts[3], parts[4]]);
    assert(holds_parts(steps, parts, places));
}

proof fn lemma_five_parts(
    steps: Seq<PaintModel>,
    ground: PaintModel,
    a: Seq<PaintModel>,
    b: Seq<PaintModel>,
    c: Seq<PaintModel>,
    d: Seq<PaintModel>,
    e: Seq<PaintModel>,
)
    requires
        steps == seq![ground] + a + b + c + d + e,
    ensures
        holds_parts(
            steps,
            seq![a, b, c, d, e],
            seq![
                1int,
                1 + a.len() as int,
                1 + a.len() + b.len() as int,
                1 + a.len() + b.len() + c.len() as int,
                1 + a.len() + b.len() + c.len() + d.len() as int,
            ],
        ),
{
    let second = 1 + a.len() as int;
    let third = second + b.len();
    let fourth = third + c.len();
    let fifth = fourth + d.len();
    let parts = seq![a, b, c, d, e];
    let places = seq![1int, second, third, fourth, fifth];
    assert(steps.subrange(1, second) =~= a);
    assert(steps.subrange(second, third) =~= b);
    assert(steps.subrange(third, fourth) =~= c);
    assert(steps.subrange(fourth, fifth) =~= d);
    assert(steps.subrange(fifth, fifth + e.len()) =~= e);
    assert(parts[0] == a && parts[1] == b && parts[2] == c && parts[3] == d && parts[4] == e);
    assert(places[0] == 1 && places[1] == second && places[2] == third && places[3] == fourth
        && places[4] == fifth);
}

/// Whether one of some areas holds a pixel.
pub open spec fn some_area_covers(areas: Seq<DeviceRect>, x: int, y: int) -> bool {
    exists|i: int| 0 <= i < areas.len() && (#[trigger] areas[i]).covers(x, y)
}

/// Whether a pixel lies in the part of the content that one of some row ranges takes up.
pub open spec fn some_range_covers(
    ranges: Seq<RowRange>,
    content: UiRect,
    metrics: CellMetrics,
    visible_rows: int,
    x: int,
    y: int,
) -> bool {
    exists|i: int|
        0 <= i < ranges.len() && (geometry::row_range_area(
            content,
            metrics,
            #[trigger] ranges[i],
            visible_rows,
        ) matches Some(area) && geometry::edges_of(area).covers(x, y))
}

/// Where only some rows changed, the pixels of those rows are painted again, as far as
/// they lie in the area that has to be painted, and no others.
pub proof fn law_changed_rows_are_painted(
    ranges: Seq<RowRange>,
    content: UiRect,
    metrics: CellMetrics,
    visible_rows: int,
    clip: DeviceRect,
    x: int,
    y: int,
)
    ensures
        some_area_covers(
            paint::changed_areas(ranges, content, metrics, visible_rows, clip),
            x,
            y,
        ) <==> clip.covers(x, y) && some_range_covers(
            ranges,
            content,
            metrics,
            visible_rows,
            x,
            y,
        ),
    decreases ranges.len(),
{
    if ranges.len() > 0 {
        let rest = ranges.drop_last();
        let areas = paint::changed_areas(ranges, content, metrics, visible_rows, clip);
        let before = paint::changed_areas(rest, content, metrics, visible_rows, clip);
        law_changed_rows_are_painted(rest, content, metrics, visible_rows, clip, x, y);
        let last = geometry::row_range_area(content, metrics, ranges.last(), visible_rows);
        let own = last is Some && geometry::edges_of(last->0).covers(x, y);
        if last is Some {
            geometry::law_intersection_is_common_area(geometry::edges_of(last->0), clip, x, y);
        }
        assert(some_range_covers(ranges, content, metrics, visible_rows, x, y) <==> (own
            || some_range_covers(rest, content, metrics, visible_rows, x, y))) by {
            if own {
                assert(ranges[ranges.len() - 1] == ranges.last());
            }
            if some_range_covers(rest, content, metrics, visible_rows, x, y) {
                let i = choose|i: int|
                    0 <= i < rest.len() && (geometry::row_range_area(
                        content,
                        metrics,
                        #[trigger] rest[i],
                        visible_rows,
                    ) matches Some(area) && geometry::edges_of(area).covers(x, y));
                assert(ranges[i] == rest[i]);
            }
            if some_range_covers(ranges, content, metrics, visible_rows, x, y) && !own {
                let i = choose|i: int|
                    0 <= i < ranges.len() && (geometry::row_range_area(
                        content,
                        metrics,
                        #[trigger] ranges[i],
                        visible_rows,
                    ) matches Some(area) && geometry::edges_of(area).covers(x, y));
                assert(rest[i] == ranges[i]);
            }
        }
        assert(some_area_covers(areas, x, y) <==> (own && clip.covers(x, y)
            || some_area_covers(before, x, y))) by {
            if some_area_covers(before, x, y) {
                let i = choose|i: int| 0 <= i < before.len() && (#[trigger] before[i]).covers(x, y);
                assert(areas[i] == before[i]);
            }
            if own && clip.covers(x, y) {
                assert(areas[areas.len() - 1].covers(x, y));
            }
            if some_area_covers(areas, x, y) && !(own && clip.covers(x, y)) {
                let i = choose|i: int| 0 <= i < areas.len() && (#[trigger] areas[i]).covers(x, y);
                assert(before[i] == areas[i]);
            }
        }
    }
}

/// The tab bar is painted where it shows in what is painted, and only there: its background
/// first, then its tabs, then the button for a new tab, where that shows.
pub proof fn law_tab_bar_is_painted_where_it_shows(
    window: WindowLayout,
    tabs: Seq<TerminalTabView>,
    clip: DeviceRect,
    metrics: CellMetrics,
)
    ensures
        ({
            let steps = paint::tab_bar_plan(window, tabs, clip, metrics);
            let shown = geometry::intersection(geometry::edges_of(window.tab_bar), clip);
            let inner = paint::tabs_plan(window.tabs@, tabs, clip, metrics);
            let behind = 1 + inner.len() as int;
            let button = match window.new_tab_button {
                Some(bounds) => geometry::intersection(geometry::edges_of(bounds), clip),
                None => None,
            };
            &&& shown is None ==> steps.len() == 0
            &&& shown is Some ==> {
                &&& steps.len() >= behind
                &&& steps[0] is Fill
                &&& steps[0]->Fill_rect == shown->0
                &&& steps[0]->Fill_color == paint::CHROME_BACKGROUND
                &&& steps.subrange(1, behind) == inner
                &&& button is None ==> steps.len() == behind
                &&& button is Some ==> {
                    &&& steps.len() > behind
                    &&& steps[behind] is Fill
                    &&& steps[behind]->Fill_rect == button->0
                    &&& steps[behind]->Fill_color == paint::TAB_HOVER_BACKGROUND
                }
            }
        }),
{
    let steps = paint::tab_bar_plan(window, tabs, clip, metrics);
    let inner = paint::tabs_plan(window.tabs@, tabs, clip, metrics);
    if geometry::intersection(geometry::edges_of(window.tab_bar), clip) is Some {
        assert(steps.subrange(1, 1 + inner.len() as int) =~= inner);
    }
}

/// The cursor cannot be painted where it is shown at a coordinate that is too large, and only
/// there.
pub proof fn law_cursor_can_be_painted(viewport: TerminalViewport)
    ensures
        paint::cursor_obstacle(viewport) is Some <==> viewport.cursor.row < viewport.rows
            && viewport.cursor.column < viewport.columns && (viewport.cursor.row > i32::MAX
            || viewport.cursor.column > i32::MAX),
{
}

/// A row can be painted unless a coordinate of it is too large.
pub proof fn law_row_can_be_painted(selected: Option<ColumnRange>, has_text: bool, row: int)
    ensures
        row <= i32::MAX && (selected matches Some(columns) ==> columns.start <= i32::MAX
            && columns.end <= i32::MAX) ==> paint::row_obstacle(selected, has_text, row) is None,
        row > i32::MAX && (has_text || selected is Some) ==> paint::row_obstacle(
            selected,
            has_text,
            row,
        ) is Some,
        (selected matches Some(columns) && (columns.start > i32::MAX || columns.end > i32::MAX))
            ==> paint::row_obstacle(selected, has_text, row) is Some,
{
}

/// A scene that is painted without an error has a plan for every area that is painted, in the
/// areas' order; one that ends with an error has those before the area that the error came up
/// in. The renderer keeps its font.
pub proof fn law_every_area_is_painted(
    before: GdiRenderer,
    after: GdiRenderer,
    scene: PaintScene<'_>,
    clip: DeviceRect,
    changed_rows: Option<Seq<RowRange>>,
    painting: PaintPlan,
    i: int,
)
    requires
        paint::scene_painted(before, after, scene, clip, changed_rows, painting),
    ensures
        ({
            let areas = paint::painted_areas(scene, changed_rows, clip, before.metrics);
            &&& painting.error is None <==> painting.areas@.len() == areas.len()
            &&& painting.error is Some <==> painting.areas@.len() < areas.len()
            &&& 0 <= i < painting.areas@.len() ==> painting.areas@[i].0 == areas[i]
                && paint::plan(painting.areas@[i].1@) == paint::scene_plan(
                scene,
                after.line_cache@,
                areas[i],
                before.metrics,
            )
            &&& after.metrics == before.metrics
            &&& after.metrics_initialized == before.metrics_initialized
            &&& after.font_family == before.font_family
            &&& after.font_size_points == before.font_size_points
            &&& after.font_dpi == before.font_dpi
        }),
{
}

/// Of a scene that is painted, every row that an area shows has a line for the row as it is: the
/// one from before where that is for the row as it is, or else one with the row's text.
pub proof fn law_painted_rows_have_their_text(
    before: GdiRenderer,
    after: GdiRenderer,
    scene: PaintScene<'_>,
    clip: DeviceRect,
    changed_rows: Option<Seq<RowRange>>,
    painting: PaintPlan,
    i: int,
    row: int,
)
    requires
        paint::scene_painted(before, after, scene, clip, changed_rows, painting),
        0 <= i < painting.areas@.len(),
        geometry::painted_rows(
            painting.areas@[i].0,
            scene.content,
            scene.viewport.rows as int,
            before.metrics.height as int,
        ).has(row),
    ensures
        ({
            let width = if before.metrics.width >= 1 {
                before.metrics.width
            } else {
                1
            };
            let old = before.line_cache@;
            let line = after.line_cache@[row];
            &&& 0 <= row < after.line_cache@.len()
            &&& paint::line_fits(line, *scene.viewport, width, row)
            &&& line.holds(scene.viewport.row_cells(row)) || (row < old.len() && line == old[row])
            &&& !(row < old.len() && paint::line_fits(old[row], *scene.viewport, width, row))
                ==> line.holds(scene.viewport.row_cells(row))
        }),
{
    let areas = paint::painted_areas(scene, changed_rows, clip, before.metrics);
    let done = areas.take(painting.areas@.len() as int);
    assert(done[i] == areas[i]);
    assert(painting.areas@[i].0 == areas[i]);
    assert(paint::shown_rows(scene, done[i], before.metrics).has(row));
    assert(paint::row_is_shown(scene, done, before.metrics, row));
}

/// A colour by its parts, the red one in the lowest byte.
pub open spec fn rgb(red: int, green: int, blue: int) -> int {
    red + 256 * green + 65536 * blue
}

/// Text is light on dark: the active tab has the terminal's background, other tabs a lighter one,
/// and each part of the window its own colour.
pub proof fn law_colours_of_the_window()
    ensures
        paint::BACKGROUND == rgb(12, 14, 18),
        paint::FOREGROUND == rgb(220, 226, 235),
        paint::CHROME_BACKGROUND == rgb(34, 38, 46),
        paint::TAB_ACTIVE_BACKGROUND == paint::BACKGROUND,
        paint::TAB_INACTIVE_BACKGROUND == rgb(55, 61, 72),
        paint::TAB_HOVER_BACKGROUND == rgb(70, 77, 90),
        paint::TAB_MUTED_FOREGROUND == rgb(170, 180, 194),
        paint::SPLITTER_BACKGROUND == rgb(42, 47, 56),
        paint::SPLITTER_GRIP == rgb(90, 100, 116),
        paint::SELECTION_BACKGROUND == rgb(52, 100, 156),
{
}

/// Where all may have changed, the area that has to be painted is painted, in one piece.
pub proof fn law_whole_area_is_painted(
    scene: PaintScene<'_>,
    clip: DeviceRect,
    metrics: CellMetrics,
    x: int,
    y: int,
)
    requires
        clip.right - clip.left <= i32::MAX,
        clip.bottom - clip.top <= i32::MAX,
    ensures
        some_area_covers(paint::painted_areas(scene, None, clip, metrics), x, y) <==> clip.covers(
            x,
            y,
        ),
        paint::painted_areas(scene, None, clip, metrics).len() <= 1,
{
    let areas = paint::painted_areas(scene, None, clip, metrics);
    geometry::law_buffer_has_the_size_of_its_area(clip, x, y);
    if clip.covers(x, y) {
        assert(areas[0].covers(x, y));
    }
}

/// Of a scene that is painted without an error, the lines of rows that no painted area shows stay
/// as they were.
pub proof fn law_other_rows_keep_their_lines(
    before: GdiRenderer,
    after: GdiRenderer,
    scene: PaintScene<'_>,
    clip: DeviceRect,
    changed_rows: Option<Seq<RowRange>>,
    painting: PaintPlan,
    row: int,
)
    requires
        paint::scene_painted(before, after, scene, clip, changed_rows, painting),
        painting.error is None,
        0 <= row < before.line_cache@.len(),
        forall|i: int|
            0 <= i < painting.areas@.len() ==> !geometry::painted_rows(
                (#[trigger] painting.areas@[i]).0,
                scene.content,
                scene.viewport.rows as int,
                before.metrics.height as int,
            ).has(row),
    ensures
        row < after.line_cache@.len(),
        after.line_cache@[row] == before.line_cache@[row],
{
    let areas = paint::painted_areas(scene, changed_rows, clip, before.metrics);
    if paint::row_is_shown(scene, areas, before.metrics, row) {
        let i = choose|i: int|
            0 <= i < areas.len() && paint::shown_rows(
                scene,
                #[trigger] areas[i],
                before.metrics,
            ).has(row);
        assert(painting.areas@[i].0 == areas[i]);
    }
}

/// The splitter is painted where it has an extent and shows in what is painted, and only there:
/// its background first, its grip on top of it.
pub proof fn law_splitter_is_painted_where_it_shows(splitter: UiRect, clip: DeviceRect)
    ensures
        ({
            let steps = paint::splitter_plan(splitter, clip);
            let shown = geometry::intersection(geometry::edges_of(splitter), clip);
            let painted = splitter.width > 0 && splitter.height > 0 && shown is Some;
            &&& steps.len() > 0 <==> painted
            &&& painted ==> {
                &&& steps[0] is Fill
                &&& steps[0]->Fill_rect == shown->0
                &&& steps[0]->Fill_color == paint::SPLITTER_BACKGROUND
            }
            &&& steps.len() <= 2
            &&& steps.len() == 2 ==> steps[1] is Fill && steps[1]->Fill_color
                == paint::SPLITTER_GRIP
        }),
{
}

/// Nothing is written into bounds without an extent, and at most one text into others.
pub proof fn law_labels_need_room(
    bounds: UiRect,
    text: Seq<char>,
    color: u32,
    metrics: CellMetrics,
)
    ensures
        bounds.width <= 0 || bounds.height <= 0 ==> paint::left_label(
            bounds,
            text,
            color,
            metrics,
        ).len() == 0,
        text.len() == 0 ==> paint::left_label(bounds, text, color, metrics).len() == 0,
        paint::left_label(bounds, text, color, metrics).len() <= 1,
{
}

} // verus!
