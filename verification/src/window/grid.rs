//! From pixels to the terminal's cells and back.

use vstd::prelude::*;

use crate::domain::geometry::{UiPoint, UiRect};
use crate::domain::layout::WindowLayout;
use crate::domain::rows::RowRange;
use crate::domain::terminal::{TerminalGridPoint, TerminalSize};
use crate::num;
use crate::renderer::geometry::CellMetrics;

verus! {

/// A cell's extent, which is at least one pixel.
pub open spec fn at_least_one(extent: i32) -> int {
    num::max_int(extent as int, 1)
}

/// The pixels that cells cover: as many as they need, where the content has
/// them.
pub open spec fn covered(cells: int, extent: i32, available: i32) -> int {
    num::min_int(cells * at_least_one(extent), available as int)
}

/// The part of the content that cells cover, where there is any.
pub open spec fn grid_area(content: UiRect, metrics: CellMetrics, rows: int, columns: int) -> Option<
    UiRect,
> {
    if rows <= 0 || columns <= 0 || content.width <= 0 || content.height <= 0 {
        None
    } else {
        Some(
            UiRect {
                x: content.x,
                y: content.y,
                width: covered(columns, metrics.width, content.width) as i32,
                height: covered(rows, metrics.height, content.height) as i32,
            },
        )
    }
}

/// The pixel nearest to an offset among the first `extent` ones.
pub open spec fn nearest(offset: int, extent: int) -> int {
    if offset < 0 {
        0
    } else if offset >= extent {
        extent - 1
    } else {
        offset
    }
}

/// The cell at a point. A point beside the cells has none, unless it is to be
/// taken for the nearest one.
pub open spec fn grid_point(
    content: UiRect,
    metrics: CellMetrics,
    rows: int,
    columns: int,
    point: UiPoint,
    clamp_to_grid: bool,
) -> Option<TerminalGridPoint> {
    match grid_area(content, metrics, rows, columns) {
        Some(grid) => if !clamp_to_grid && !grid.covers(point.x as int, point.y as int) {
            None
        } else {
            Some(
                TerminalGridPoint {
                    row: (nearest(point.y - grid.y, grid.height as int) / at_least_one(
                        metrics.height,
                    )) as usize,
                    column: (nearest(point.x - grid.x, grid.width as int) / at_least_one(
                        metrics.width,
                    )) as usize,
                },
            )
        },
        None => None,
    }
}

/// The extent of `cells` cells in an area.
fn covered_extent(cells: usize, extent: i32, available: i32) -> (pixels: i32)
    requires
        cells > 0,
        available > 0,
    ensures
        pixels == covered(cells as int, extent, available),
        pixels > 0,
{
    let cell = num::max_i32(extent, 1);
    let count = num::i32_from_usize(cells);
    let all = num::saturating_mul(count, cell);
    proof {
        let exact = cells * cell;
        assert(cells * cell >= count * cell) by (nonlinear_arith)
            requires
                cells >= count,
                cell >= 1,
        ;
        assert(count * cell >= count) by (nonlinear_arith)
            requires
                count >= 1,
                cell >= 1,
        ;
        if cells > i32::MAX {
            assert(exact >= cells) by (nonlinear_arith)
                requires
                    exact == cells * cell,
                    cell >= 1,
            ;
        }
    }
    num::min_i32(all, available)
}

/// The index of the cell that holds the pixel nearest to a coordinate.
fn cell_index(coordinate: i32, origin: i32, pixels: i32, cells: usize, extent: i32) -> (index: usize)
    requires
        cells > 0,
        0 < pixels <= cells * at_least_one(extent),
    ensures
        index == nearest(coordinate - origin, pixels as int) / at_least_one(extent),
        index < cells,
{
    let cell = num::max_i32(extent, 1);
    let offset = num::saturating_sub(coordinate, origin);
    let pixel: i32 = if offset < 0 {
        0
    } else if offset >= pixels {
        pixels - 1
    } else {
        offset
    };
    assert(pixel == nearest(coordinate - origin, pixels as int));
    let index = pixel / cell;
    assert(0 <= index < cells) by (nonlinear_arith)
        requires
            index == pixel as int / cell as int,
            0 <= pixel < cells * cell,
            cell >= 1,
    ;
    index as usize
}

/// The cell at a point of the window, in a viewport of some rows and columns.
pub fn terminal_grid_point_at(
    content: UiRect,
    metrics: CellMetrics,
    rows: usize,
    columns: usize,
    point: UiPoint,
    clamp_to_grid: bool,
) -> (cell: Option<TerminalGridPoint>)
    ensures
        cell == grid_point(content, metrics, rows as int, columns as int, point, clamp_to_grid),
        cell is Some ==> (cell->0).row < rows && (cell->0).column < columns,
{
    if rows == 0 || columns == 0 || content.width <= 0 || content.height <= 0 {
        return None;
    }
    let grid = UiRect {
        x: content.x,
        y: content.y,
        width: covered_extent(columns, metrics.width, content.width),
        height: covered_extent(rows, metrics.height, content.height),
    };
    if !clamp_to_grid && !grid.contains(point) {
        return None;
    }
    let column = cell_index(point.x, grid.x, grid.width, columns, metrics.width);
    let row = cell_index(point.y, grid.y, grid.height, rows, metrics.height);
    Some(TerminalGridPoint { row, column })
}

/// A point on the cells is in the cell that is found for it.
pub proof fn law_point_is_in_its_cell(
    content: UiRect,
    metrics: CellMetrics,
    rows: int,
    columns: int,
    point: UiPoint,
    clamp_to_grid: bool,
)
    requires
        0 < rows <= usize::MAX,
        0 < columns <= usize::MAX,
        content.width > 0,
        content.height > 0,
        (grid_area(content, metrics, rows, columns)->0).covers(point.x as int, point.y as int),
    ensures
        ({
            let cell = grid_point(content, metrics, rows, columns, point, clamp_to_grid);
            let width = at_least_one(metrics.width);
            let height = at_least_one(metrics.height);
            &&& cell is Some
            &&& (cell->0).column * width <= point.x - content.x < ((cell->0).column + 1) * width
            &&& (cell->0).row * height <= point.y - content.y < ((cell->0).row + 1) * height
        }),
{
    lemma_cell_of(point.x - content.x, at_least_one(metrics.width));
    lemma_cell_of(point.y - content.y, at_least_one(metrics.height));
    lemma_covered(columns, metrics.width, content.width);
    lemma_covered(rows, metrics.height, content.height);
}

proof fn lemma_covered(cells: int, extent: i32, available: i32)
    requires
        cells > 0,
        available > 0,
    ensures
        0 < covered(cells, extent, available) <= available,
{
    assert(cells * at_least_one(extent) >= 1) by (nonlinear_arith)
        requires
            cells >= 1,
            at_least_one(extent) >= 1,
    ;
}

proof fn lemma_cell_of(offset: int, extent: int)
    requires
        0 <= offset <= i32::MAX,
        extent >= 1,
    ensures
        0 <= offset / extent <= offset,
        (offset / extent) * extent <= offset < (offset / extent + 1) * extent,
{
    assert(0 <= offset / extent <= offset && (offset / extent) * extent <= offset < (offset / extent
        + 1) * extent) by (nonlinear_arith)
        requires
            offset >= 0,
            extent >= 1,
    ;
}

/// A value that is brought into the range of `u16`.
pub open spec fn clamped_u16(value: int) -> int {
    num::max_int(0, num::min_int(value, u16::MAX as int))
}

pub fn to_u16_saturating(value: i32) -> (result: u16)
    ensures
        result == clamped_u16(value as int),
{
    if value <= 0 {
        0
    } else if value > u16::MAX as i32 {
        u16::MAX
    } else {
        value as u16
    }
}

/// How many cells fit, but no fewer than the least number.
pub open spec fn cells_in(pixels: i32, extent: i32, least: u16) -> int {
    clamped_u16(
        num::max_int(num::max_int(pixels as int, 1) / at_least_one(extent), least as int),
    )
}

fn cells_that_fit(pixels: i32, extent: i32, least: u16) -> (cells: u16)
    ensures
        cells == cells_in(pixels, extent, least),
{
    let available = num::max_i32(pixels, 1);
    let cell = num::max_i32(extent, 1);
    let fitting = available / cell;
    to_u16_saturating(num::max_i32(fitting, least as i32))
}

/// The terminal's size in a content area, with a least number of rows and
/// columns.
pub fn terminal_size_from_area(
    content: UiRect,
    metrics: CellMetrics,
    min_rows: u16,
    min_columns: u16,
) -> (size: TerminalSize)
    ensures
        size.rows == cells_in(content.height, metrics.height, min_rows),
        size.columns == cells_in(content.width, metrics.width, min_columns),
        size.pixel_width == clamped_u16(num::max_int(content.width as int, 1)),
        size.pixel_height == clamped_u16(num::max_int(content.height as int, 1)),
{
    TerminalSize {
        rows: cells_that_fit(content.height, metrics.height, min_rows),
        columns: cells_that_fit(content.width, metrics.width, min_columns),
        pixel_width: to_u16_saturating(num::max_i32(content.width, 1)),
        pixel_height: to_u16_saturating(num::max_i32(content.height, 1)),
    }
}

/// Whether two sizes differ in their cells.
pub fn terminal_grid_changed(previous: TerminalSize, next: TerminalSize) -> (changed: bool)
    ensures
        changed == (previous.rows != next.rows || previous.columns != next.columns),
{
    previous.rows != next.rows || previous.columns != next.columns
}

/// The part of the content from one pixel row to another.
pub open spec fn band(content: UiRect, top: int, bottom: int) -> UiRect {
    UiRect {
        x: content.x,
        y: num::clamped(content.y + top) as i32,
        width: content.width,
        height: (bottom - top) as i32,
    }
}

/// The area of some rows, as far as it lies in the content.
pub open spec fn rows_area(content: UiRect, metrics: CellMetrics, rows: RowRange) -> Option<UiRect> {
    let extent = at_least_one(metrics.height);
    if rows.start >= rows.end || content.width <= 0 || rows.start * extent >= content.height {
        None
    } else {
        Some(
            band(
                content,
                rows.start * extent,
                num::min_int(rows.end * extent, content.height as int),
            ),
        )
    }
}

/// The pixels above a row, where they are fewer than `limit`.
fn row_offset(row: usize, extent: i32, limit: i32) -> (offset: Option<i32>)
    requires
        extent >= 1,
    ensures
        offset is Some == (row * extent < limit),
        offset is Some ==> offset->0 == row * extent,
{
    let count = num::i32_from_usize(row);
    let pixels = num::saturating_mul(count, extent);
    proof {
        assert(row * extent >= count * extent && row * extent >= row) by (nonlinear_arith)
            requires
                row >= count,
                row >= 0,
                extent >= 1,
        ;
        if row == count {
        } else {
            assert(count == i32::MAX);
            assert(count * extent >= count) by (nonlinear_arith)
                requires
                    count >= 0,
                    extent >= 1,
            ;
        }
    }
    if pixels < limit {
        Some(pixels)
    } else {
        None
    }
}

/// The area of some rows; it ends with the content.
pub fn terminal_rows_rect(content_area: UiRect, metrics: CellMetrics, rows: RowRange) -> (area:
    Option<UiRect>)
    ensures
        area == rows_area(content_area, metrics, rows),
{
    if rows.start >= rows.end || content_area.width <= 0 || content_area.height <= 0 {
        proof {
            let extent = at_least_one(metrics.height);
            assert(rows.start * extent >= 0) by (nonlinear_arith)
                requires
                    rows.start >= 0,
                    extent >= 1,
            ;
        }
        return None;
    }
    let extent = num::max_i32(metrics.height, 1);
    let top = match row_offset(rows.start, extent, content_area.height) {
        Some(top) => top,
        None => return None,
    };
    let bottom = match row_offset(rows.end, extent, content_area.height) {
        Some(bottom) => bottom,
        None => content_area.height,
    };
    proof {
        assert(rows.end * extent > rows.start * extent) by (nonlinear_arith)
            requires
                rows.end > rows.start,
                extent >= 1,
        ;
        assert(rows.start * extent >= 0) by (nonlinear_arith)
            requires
                rows.start >= 0,
                extent >= 1,
        ;
    }
    Some(
        UiRect {
            x: content_area.x,
            y: num::saturating_add(content_area.y, top),
            width: content_area.width,
            height: bottom - top,
        },
    )
}

/// The area of some rows of those that are visible; below the last visible row
/// it reaches to the end of the content.
pub open spec fn visible_rows_area(
    content: UiRect,
    metrics: CellMetrics,
    rows: RowRange,
    visible_rows: int,
) -> Option<UiRect> {
    let extent = at_least_one(metrics.height);
    let start = num::min_int(rows.start as int, visible_rows);
    let end = num::min_int(rows.end as int, visible_rows);
    if start >= end || content.width <= 0 || start * extent >= content.height {
        None
    } else {
        Some(
            band(
                content,
                start * extent,
                if end == visible_rows {
                    content.height as int
                } else {
                    num::min_int(end * extent, content.height as int)
                },
            ),
        )
    }
}

pub fn visible_terminal_rows_rect(
    content_area: UiRect,
    metrics: CellMetrics,
    rows: RowRange,
    visible_rows: usize,
) -> (area: Option<UiRect>)
    ensures
        area == visible_rows_area(content_area, metrics, rows, visible_rows as int),
{
    let start = num::min_usize(rows.start, visible_rows);
    let end = num::min_usize(rows.end, visible_rows);
    let ghost extent = at_least_one(metrics.height);
    proof {
        assert(start * extent >= 0) by (nonlinear_arith)
            requires
                start >= 0,
                extent >= 1,
        ;
    }
    match terminal_rows_rect(content_area, metrics, RowRange { start, end }) {
        Some(area) => if end >= visible_rows {
            let extent = num::max_i32(metrics.height, 1);
            match row_offset(start, extent, content_area.height) {
                Some(top) => Some(
                    UiRect {
                        x: area.x,
                        y: area.y,
                        width: area.width,
                        height: content_area.height - top,
                    },
                ),
                None => None,
            }
        } else {
            Some(area)
        },
        None => None,
    }
}

/// The window's size as its layout has it.
pub fn layout_client_size(layout: &WindowLayout) -> (size: (i32, i32))
    ensures
        size.0 == num::max_int(layout.tab_bar.width as int, 1),
        size.1 == num::max_int(
            num::clamped(layout.tab_bar.height + layout.terminal.height),
            1,
        ),
{
    (
        num::max_i32(layout.tab_bar.width, 1),
        num::max_i32(num::saturating_add(layout.tab_bar.height, layout.terminal.height), 1),
    )
}

/// A point beside the cells has no cell of its own. Where it is to be taken for the nearest
/// one, it is in the first row above the cells and in the last one below them, in the first
/// column left of them and in the last one right of them.
pub proof fn law_point_beside_the_cells(
    content: UiRect,
    metrics: CellMetrics,
    rows: int,
    columns: int,
    point: UiPoint,
)
    requires
        0 < rows <= usize::MAX,
        0 < columns <= usize::MAX,
        rows * at_least_one(metrics.height) <= content.height,
        columns * at_least_one(metrics.width) <= content.width,
    ensures
        ({
            let width = at_least_one(metrics.width);
            let height = at_least_one(metrics.height);
            let on_cells = content.x <= point.x < content.x + columns * width && content.y
                <= point.y < content.y + rows * height;
            let cell = grid_point(content, metrics, rows, columns, point, true);
            &&& grid_point(content, metrics, rows, columns, point, false) is Some <==> on_cells
            &&& on_cells ==> grid_point(content, metrics, rows, columns, point, false) == cell
            &&& cell is Some
            &&& point.y < content.y ==> (cell->0).row == 0
            &&& point.y >= content.y + rows * height ==> (cell->0).row == rows - 1
            &&& point.x < content.x ==> (cell->0).column == 0
            &&& point.x >= content.x + columns * width ==> (cell->0).column == columns - 1
        }),
{
    let width = at_least_one(metrics.width);
    let height = at_least_one(metrics.height);
    assert(rows * height >= 1 && columns * width >= 1) by (nonlinear_arith)
        requires
            rows >= 1,
            columns >= 1,
            width >= 1,
            height >= 1,
    ;
    assert((rows * height - 1) / height == rows - 1) by (nonlinear_arith)
        requires
            rows >= 1,
            height >= 1,
    ;
    assert((columns * width - 1) / width == columns - 1) by (nonlinear_arith)
        requires
            columns >= 1,
            width >= 1,
    ;
    assert(0int / height == 0 && 0int / width == 0) by (nonlinear_arith)
        requires
            width >= 1,
            height >= 1,
    ;
    assert(rows - 1 <= rows * height && columns - 1 <= columns * width) by (nonlinear_arith)
        requires
            rows >= 1,
            columns >= 1,
            width >= 1,
            height >= 1,
    ;
}

/// A terminal has as many rows and columns as fit: one more would not fit, unless the least
/// number is asked for, and no more are counted than can be.
pub proof fn law_as_many_cells_as_fit(pixels: i32, extent: i32, least: u16)
    requires
        1 <= pixels,
        1 <= extent,
    ensures
        ({
            let cells = cells_in(pixels, extent, least);
            &&& least <= cells <= u16::MAX
            &&& cells == least || cells * extent <= pixels
            &&& cells == u16::MAX || pixels < (cells + 1) * extent
        }),
{
    let fitting = pixels as int / extent as int;
    assert(0 <= fitting && fitting * extent <= pixels < (fitting + 1) * extent) by (nonlinear_arith)
        requires
            fitting == pixels as int / extent as int,
            pixels >= 1,
            extent >= 1,
    ;
    let cells = cells_in(pixels, extent, least);
    if cells < u16::MAX {
        assert((cells + 1) * extent >= (fitting + 1) * extent) by (nonlinear_arith)
            requires
                cells >= fitting,
                extent >= 1,
        ;
    }
    if cells != least {
        assert(cells * extent <= fitting * extent) by (nonlinear_arith)
            requires
                cells <= fitting,
                extent >= 1,
        ;
    }
}

/// Rows take up the pixels of the content that are on their pixel lines.
pub proof fn law_rows_area_holds_its_rows(
    content: UiRect,
    metrics: CellMetrics,
    rows: RowRange,
    x: int,
    y: int,
)
    requires
        1 <= metrics.height,
        rows.start < rows.end,
        content.y + content.height <= i32::MAX,
    ensures
        (rows_area(content, metrics, rows) matches Some(area) && area.covers(x, y)) <==> (
        content.covers(x, y) && content.y + rows.start * metrics.height <= y < content.y + rows.end
            * metrics.height),
{
    let height = metrics.height as int;
    let start = rows.start as int;
    let end = rows.end as int;
    assert(0 <= start * height < end * height) by (nonlinear_arith)
        requires
            0 <= start < end,
            height >= 1,
    ;
}

/// Visible rows take up the pixels of the content that are on their pixel lines; the last
/// one takes the rest of the content with it.
pub proof fn law_visible_rows_area_holds_its_rows(
    content: UiRect,
    metrics: CellMetrics,
    rows: RowRange,
    visible_rows: int,
    x: int,
    y: int,
)
    requires
        1 <= metrics.height,
        rows.start < rows.end <= visible_rows,
        content.y + content.height <= i32::MAX,
    ensures
        (visible_rows_area(content, metrics, rows, visible_rows) matches Some(area) && area.covers(
            x,
            y,
        )) <==> (content.covers(x, y) && content.y + rows.start * metrics.height <= y && (rows.end
            == visible_rows || y < content.y + rows.end * metrics.height)),
{
    let height = metrics.height as int;
    let start = rows.start as int;
    let end = rows.end as int;
    assert(0 <= start * height < end * height) by (nonlinear_arith)
        requires
            0 <= start < end,
            height >= 1,
    ;
}

/// A number that is a `u16` stays as it is; another one becomes the nearest that is.
pub proof fn law_u16_is_nearest(value: int)
    ensures
        0 <= value <= u16::MAX ==> clamped_u16(value) == value,
        value < 0 ==> clamped_u16(value) == 0,
        value > u16::MAX ==> clamped_u16(value) == u16::MAX,
{
}

} // verus!
