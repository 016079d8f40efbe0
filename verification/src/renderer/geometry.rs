//! Rectangles on a device.

use vstd::prelude::*;

use crate::domain::geometry::UiRect;
use crate::domain::rows::RowRange;
use crate::error::{AppError, AppResult};
use crate::num;

verus! {

/// A paint buffer is used again where it has at most this many times the area
/// that is needed.
pub const PAINT_BUFFER_MAX_RETAINED_AREA_FACTOR: i64 = 4;

/// The size of a character cell in pixels.
#[derive(Clone, Copy, Debug, PartialEq, Eq, Structural)]
pub struct CellMetrics {
    pub width: i32,
    pub height: i32,
}

impl Default for CellMetrics {
    fn default() -> (metrics: Self)
        ensures
            metrics == (CellMetrics { width: 8, height: 16 }),
    {
        CellMetrics { width: 8, height: 16 }
    }
}

/// The metrics for what a device measured; no cell is empty.
pub fn measured_metrics(average_width: i32, height: i32) -> (metrics: CellMetrics)
    ensures
        metrics.width == num::max_int(average_width as int, 1),
        metrics.height == num::max_int(height as int, 1),
{
    CellMetrics { width: num::max_i32(average_width, 1), height: num::max_i32(height, 1) }
}

/// A rectangle by its edges; the right and bottom one are outside.
#[derive(Clone, Copy, Debug, PartialEq, Eq, Structural)]
pub struct DeviceRect {
    pub left: i32,
    pub top: i32,
    pub right: i32,
    pub bottom: i32,
}

impl DeviceRect {
    /// Whether the pixel at a point belongs to the rectangle.
    pub open spec fn covers(self, x: int, y: int) -> bool {
        &&& self.left <= x < self.right
        &&& self.top <= y < self.bottom
    }
}

pub open spec fn edges_of(rect: UiRect) -> DeviceRect {
    DeviceRect {
        left: rect.x,
        top: rect.y,
        right: num::clamped(rect.x + rect.width) as i32,
        bottom: num::clamped(rect.y + rect.height) as i32,
    }
}

pub fn rect_from_ui(rect: UiRect) -> (edges: DeviceRect)
    ensures
        edges == edges_of(rect),
{
    DeviceRect {
        left: rect.x,
        top: rect.y,
        right: num::saturating_add(rect.x, rect.width),
        bottom: num::saturating_add(rect.y, rect.height),
    }
}

/// What two rectangles have in common.
pub open spec fn intersection(left: DeviceRect, right: DeviceRect) -> Option<DeviceRect> {
    let rect = DeviceRect {
        left: num::max_int(left.left as int, right.left as int) as i32,
        top: num::max_int(left.top as int, right.top as int) as i32,
        right: num::min_int(left.right as int, right.right as int) as i32,
        bottom: num::min_int(left.bottom as int, right.bottom as int) as i32,
    };
    if rect.right <= rect.left || rect.bottom <= rect.top {
        None
    } else {
        Some(rect)
    }
}

pub fn intersect_rects(left: &DeviceRect, right: &DeviceRect) -> (common: Option<DeviceRect>)
    ensures
        common == intersection(*left, *right),
{
    let rect = DeviceRect {
        left: num::max_i32(left.left, right.left),
        top: num::max_i32(left.top, right.top),
        right: num::min_i32(left.right, right.right),
        bottom: num::min_i32(left.bottom, right.bottom),
    };
    if rect.right <= rect.left || rect.bottom <= rect.top {
        None
    } else {
        Some(rect)
    }
}

pub fn rects_intersect(left: &DeviceRect, right: &DeviceRect) -> (intersect: bool)
    ensures
        intersect == (intersection(*left, *right) is Some),
{
    intersect_rects(left, right).is_some()
}

/// The intersection holds exactly the pixels that both rectangles hold, in
/// either order; there is none where they have no pixel in common.
pub proof fn law_intersection_is_common_area(left: DeviceRect, right: DeviceRect, x: int, y: int)
    ensures
        intersection(left, right) == intersection(right, left),
        (intersection(left, right) matches Some(rect) && rect.covers(x, y)) <==> (left.covers(x, y)
            && right.covers(x, y)),
{
}

/// The part of a rectangle that is no wider than an `i32` keeps its pixels
/// when it is written by its edges.
pub proof fn law_edges_keep_the_area(rect: UiRect, x: int, y: int)
    requires
        rect.x + rect.width <= i32::MAX,
        rect.y + rect.height <= i32::MAX,
        rect.width >= 0,
        rect.height >= 0,
    ensures
        edges_of(rect).covers(x, y) == rect.covers(x, y),
{
}

/// A value that is not negative, as a count.
pub fn usize_from_i32_saturating(value: i32) -> (count: usize)
    ensures
        count == num::max_int(value as int, 0),
{
    if value <= 0 {
        0
    } else {
        value as usize
    }
}

/// The rows that a painted area touches.
pub open spec fn painted_rows(
    paint_rect: DeviceRect,
    content: UiRect,
    rows: int,
    cell_height: int,
) -> RowRange {
    let bottom = num::clamped(content.y + content.height);
    let paint_top = num::max_int(paint_rect.top as int, content.y as int);
    let paint_bottom = num::min_int(paint_rect.bottom as int, bottom);
    let height = num::max_int(cell_height, 1);
    if rows == 0 || paint_bottom <= paint_top {
        RowRange { start: 0, end: 0 }
    } else {
        let start_offset = num::clamped(paint_top - content.y);
        let end_offset = num::clamped(paint_bottom - content.y);
        RowRange {
            start: num::min_int(start_offset / height, rows) as usize,
            end: num::min_int(num::clamped(end_offset + (height - 1)) / height, rows) as usize,
        }
    }
}

pub fn terminal_paint_row_range(
    paint_rect: &DeviceRect,
    terminal_content: UiRect,
    rows: usize,
    cell_height: i32,
) -> (range: RowRange)
    ensures
        range == painted_rows(*paint_rect, terminal_content, rows as int, cell_height as int),
{
    if rows == 0 {
        return RowRange { start: 0, end: 0 };
    }
    let content_top = terminal_content.y;
    let content_bottom = num::saturating_add(terminal_content.y, terminal_content.height);
    let paint_top = num::max_i32(paint_rect.top, content_top);
    let paint_bottom = num::min_i32(paint_rect.bottom, content_bottom);
    if paint_bottom <= paint_top {
        return RowRange { start: 0, end: 0 };
    }
    let cell_height = num::max_i32(cell_height, 1);
    let start_offset = num::saturating_sub(paint_top, content_top);
    let end_offset = num::saturating_sub(paint_bottom, content_top);
    let padded = num::saturating_add(end_offset, cell_height - 1);
    let first: i32 = start_offset / cell_height;
    let behind: i32 = padded / cell_height;
    assert(start_offset >= 0 && padded >= 0);
    assert(0 <= start_offset as int / cell_height as int) by (nonlinear_arith)
        requires
            start_offset >= 0,
            cell_height >= 1,
    ;
    assert(0 <= padded as int / cell_height as int) by (nonlinear_arith)
        requires
            padded >= 0,
            cell_height >= 1,
    ;
    let start = num::min_usize(usize_from_i32_saturating(first), rows);
    let end = num::min_usize(usize_from_i32_saturating(behind), rows);
    RowRange { start, end }
}

/// Whether a pixel line of a row lies in the painted part of the content.
pub open spec fn line_is_painted(
    paint_rect: DeviceRect,
    content: UiRect,
    cell_height: int,
    row: int,
    y: int,
) -> bool {
    &&& content.y + row * cell_height <= y < content.y + row * cell_height + cell_height
    &&& paint_rect.top <= y < paint_rect.bottom
    &&& content.y <= y < content.y + content.height
}

/// A row is painted exactly where one of its pixel lines lies in the painted
/// part of the content, as long as nothing leaves the range of an `i32`.
pub proof fn law_painted_rows_are_those_touched(
    paint_rect: DeviceRect,
    content: UiRect,
    rows: int,
    cell_height: int,
    row: int,
)
    requires
        0 <= rows <= usize::MAX,
        1 <= cell_height,
        0 <= content.height,
        content.y + content.height <= i32::MAX,
        content.height + cell_height - 1 <= i32::MAX,
        0 <= row < rows,
    ensures
        painted_rows(paint_rect, content, rows, cell_height).has(row) <==> exists|y: int| #[trigger]
            line_is_painted(paint_rect, content, cell_height, row, y),
{
    let bottom = content.y + content.height;
    let paint_top = num::max_int(paint_rect.top as int, content.y as int);
    let paint_bottom = num::min_int(paint_rect.bottom as int, bottom);
    let start_offset = paint_top - content.y;
    let end_offset = paint_bottom - content.y;
    let painted = painted_rows(paint_rect, content, rows, cell_height);
    if paint_bottom > paint_top {
        let first = start_offset / cell_height;
        let behind = (end_offset + (cell_height - 1)) / cell_height;
        assert(0 <= first) by (nonlinear_arith)
            requires
                first == start_offset / cell_height,
                start_offset >= 0,
                cell_height >= 1,
        ;
        assert(0 <= behind) by (nonlinear_arith)
            requires
                behind == (end_offset + (cell_height - 1)) / cell_height,
                end_offset >= 0,
                cell_height >= 1,
        ;
        assert(first <= row <==> start_offset < row * cell_height + cell_height)
            by (nonlinear_arith)
            requires
                first == start_offset / cell_height,
                cell_height >= 1,
        ;
        assert(row < behind <==> row * cell_height < end_offset) by (nonlinear_arith)
            requires
                behind == (end_offset + (cell_height - 1)) / cell_height,
                cell_height >= 1,
        ;
        assert(painted.has(row) <==> first <= row < behind);
        if painted.has(row) {
            let y = content.y + num::max_int(row * cell_height, start_offset);
            assert(line_is_painted(paint_rect, content, cell_height, row, y));
        }
    }
    if exists|y: int| #[trigger] line_is_painted(paint_rect, content, cell_height, row, y) {
        let y = choose|y: int| #[trigger]
            line_is_painted(paint_rect, content, cell_height, row, y);
        assert(paint_top <= y < paint_bottom);
    }
}

/// The part of the content that rows take up; the last visible row takes all
/// that is left.
pub open spec fn row_range_area(
    content: UiRect,
    metrics: CellMetrics,
    rows: RowRange,
    visible_rows: int,
) -> Option<UiRect> {
    let start = num::min_int(rows.start as int, visible_rows);
    let end = num::min_int(rows.end as int, visible_rows);
    let row_height = num::max_int(metrics.height as int, 1);
    let top = num::clamped(num::clamped(start) * row_height);
    let bottom = if end >= visible_rows {
        content.height as int
    } else {
        num::min_int(num::clamped(num::clamped(end) * row_height), content.height as int)
    };
    if start >= end || content.width <= 0 || content.height <= 0 || top >= content.height || bottom
        <= top {
        None
    } else {
        Some(
            UiRect {
                x: content.x,
                y: num::clamped(content.y + top) as i32,
                width: content.width,
                height: (bottom - top) as i32,
            },
        )
    }
}

pub fn terminal_row_range_rect(
    content_area: UiRect,
    metrics: CellMetrics,
    rows: RowRange,
    visible_rows: usize,
) -> (area: Option<UiRect>)
    ensures
        area == row_range_area(content_area, metrics, rows, visible_rows as int),
{
    let start = num::min_usize(rows.start, visible_rows);
    let end = num::min_usize(rows.end, visible_rows);
    if start >= end || content_area.width <= 0 || content_area.height <= 0 {
        return None;
    }
    let row_height = num::max_i32(metrics.height, 1);
    let top_offset = num::saturating_mul(num::i32_from_usize(start), row_height);
    if top_offset >= content_area.height {
        return None;
    }
    assert(num::clamped(start as int) * row_height >= 0) by (nonlinear_arith)
        requires
            num::clamped(start as int) >= 0,
            row_height >= 1,
    ;
    let bottom_offset = if end >= visible_rows {
        content_area.height
    } else {
        num::min_i32(
            num::saturating_mul(num::i32_from_usize(end), row_height),
            content_area.height,
        )
    };
    let height = num::saturating_sub(bottom_offset, top_offset);
    if height <= 0 {
        return None;
    }
    Some(
        UiRect {
            x: content_area.x,
            y: num::saturating_add(content_area.y, top_offset),
            width: content_area.width,
            height,
        },
    )
}

/// The area that a row's text may be painted in.
pub open spec fn row_clip(content: UiRect, metrics: CellMetrics, row: int) -> Option<DeviceRect> {
    let row_height = num::max_int(metrics.height as int, 1);
    let top = num::clamped(num::clamped(row) * row_height);
    if content.width <= 0 || content.height <= 0 || top >= content.height {
        None
    } else {
        Some(
            DeviceRect {
                left: content.x,
                top: num::clamped(content.y + top) as i32,
                right: num::clamped(content.x + content.width) as i32,
                bottom: num::clamped(
                    content.y + num::min_int(
                        num::clamped(top + row_height),
                        content.height as int,
                    ),
                ) as i32,
            },
        )
    }
}

pub fn terminal_row_clip_rect(content_area: UiRect, metrics: CellMetrics, row: usize) -> (clip:
    Option<DeviceRect>)
    ensures
        clip == row_clip(content_area, metrics, row as int),
{
    if content_area.width <= 0 || content_area.height <= 0 {
        return None;
    }
    let row_height = num::max_i32(metrics.height, 1);
    let top_offset = num::saturating_mul(num::i32_from_usize(row), row_height);
    if top_offset >= content_area.height {
        return None;
    }
    Some(
        DeviceRect {
            left: content_area.x,
            top: num::saturating_add(content_area.y, top_offset),
            right: num::saturating_add(content_area.x, content_area.width),
            bottom: num::saturating_add(
                content_area.y,
                num::min_i32(num::saturating_add(top_offset, row_height), content_area.height),
            ),
        },
    )
}

/// A row's text never leaves the content.
pub proof fn law_row_clip_stays_inside(content: UiRect, metrics: CellMetrics, row: int, x: int, y: int)
    requires
        row >= 0,
        row_clip(content, metrics, row) matches Some(clip) && clip.covers(x, y),
    ensures
        edges_of(content).covers(x, y),
{
    let row_height = num::max_int(metrics.height as int, 1);
    assert(num::clamped(row) * row_height >= 0) by (nonlinear_arith)
        requires
            num::clamped(row) >= 0,
            row_height >= 1,
    ;
}

/// The part of a row's cells from one column up to another.
pub open spec fn cells_area(
    area: UiRect,
    metrics: CellMetrics,
    row: int,
    start: int,
    end: int,
) -> DeviceRect {
    let width = num::max_int(metrics.width as int, 1);
    let height = num::max_int(metrics.height as int, 1);
    let top = num::clamped(area.y + num::clamped(row * height));
    DeviceRect {
        left: num::clamped(area.x + num::clamped(start * width)) as i32,
        top: top as i32,
        right: num::clamped(area.x + num::clamped(end * width)) as i32,
        bottom: num::clamped(top + height) as i32,
    }
}

pub fn selection_rect(
    area: UiRect,
    metrics: CellMetrics,
    row: usize,
    start_column: usize,
    end_column: usize,
) -> (rect: AppResult<DeviceRect>)
    ensures
        rect == (if row > i32::MAX {
            Err(AppError::InvalidInput("row index is too large"))
        } else if start_column > i32::MAX || end_column > i32::MAX {
            Err(AppError::InvalidInput("column index is too large"))
        } else {
            Ok::<DeviceRect, AppError>(
                cells_area(area, metrics, row as int, start_column as int, end_column as int),
            )
        }),
{
    if row > i32::MAX as usize {
        return Err(AppError::InvalidInput("row index is too large"));
    }
    if start_column > i32::MAX as usize || end_column > i32::MAX as usize {
        return Err(AppError::InvalidInput("column index is too large"));
    }
    let cell_width = num::max_i32(metrics.width, 1);
    let cell_height = num::max_i32(metrics.height, 1);
    let top = num::saturating_add(area.y, num::saturating_mul(row as i32, cell_height));
    Ok(
        DeviceRect {
            left: num::saturating_add(
                area.x,
                num::saturating_mul(start_column as i32, cell_width),
            ),
            top,
            right: num::saturating_add(area.x, num::saturating_mul(end_column as i32, cell_width)),
            bottom: num::saturating_add(top, cell_height),
        },
    )
}

/// The area of one cell.
pub open spec fn cell_area(area: UiRect, metrics: CellMetrics, row: int, column: int) -> DeviceRect {
    let width = num::max_int(metrics.width as int, 1);
    let height = num::max_int(metrics.height as int, 1);
    let left = num::clamped(area.x + num::clamped(column * width));
    let top = num::clamped(area.y + num::clamped(row * height));
    DeviceRect {
        left: left as i32,
        top: top as i32,
        right: num::clamped(left + width) as i32,
        bottom: num::clamped(top + height) as i32,
    }
}

pub fn cell_rect(area: UiRect, metrics: CellMetrics, row: usize, column: usize) -> (rect: AppResult<
    DeviceRect,
>)
    ensures
        rect == (if row > i32::MAX {
            Err(AppError::InvalidInput("row index is too large"))
        } else if column > i32::MAX {
            Err(AppError::InvalidInput("column index is too large"))
        } else {
            Ok::<DeviceRect, AppError>(cell_area(area, metrics, row as int, column as int))
        }),
{
    if row > i32::MAX as usize {
        return Err(AppError::InvalidInput("row index is too large"));
    }
    if column > i32::MAX as usize {
        return Err(AppError::InvalidInput("column index is too large"));
    }
    let width = num::max_i32(metrics.width, 1);
    let height = num::max_i32(metrics.height, 1);
    let left = num::saturating_add(area.x, num::saturating_mul(column as i32, width));
    let top = num::saturating_add(area.y, num::saturating_mul(row as i32, height));
    Ok(
        DeviceRect {
            left,
            top,
            right: num::saturating_add(left, width),
            bottom: num::saturating_add(top, height),
        },
    )
}

/// Where text starts that is centred in the height of its bounds.
pub fn centered_text_y(bounds: UiRect, metrics: CellMetrics) -> (y: i32)
    ensures
        y == num::clamped(
            bounds.y + truncated_half(
                num::clamped(bounds.height - num::max_int(metrics.height as int, 1)),
            ),
        ),
{
    let room = num::saturating_sub(bounds.height, num::max_i32(metrics.height, 1));
    num::saturating_add(bounds.y, half(room))
}

/// Half a number, rounded towards 0.
pub open spec fn truncated_half(value: int) -> int {
    if value >= 0 {
        value / 2
    } else {
        -((-value) / 2)
    }
}

pub fn half(value: i32) -> (result: i32)
    ensures
        result == truncated_half(value as int),
{
    if value >= 0 {
        value / 2
    } else {
        let magnitude: i64 = -(value as i64);
        let halved: i64 = magnitude / 2;
        (-halved) as i32
    }
}

/// The height to ask a device for: negative, since it is the height of the
/// characters and not of their cell.
pub fn point_size_to_logical_height(size_points: u16, dpi_y: i32) -> (height: i32)
    ensures
        height == -num::max_int(
            num::clamped(num::clamped(size_points * num::max_int(dpi_y as int, 1)) + 36) / 72,
            1,
        ),
{
    let dpi = num::max_i32(dpi_y, 1);
    assert(size_points * dpi >= 0) by (nonlinear_arith)
        requires
            size_points >= 0,
            dpi >= 1,
    ;
    let pixels: i32 = num::saturating_add(num::saturating_mul(size_points as i32, dpi), 36) / 72;
    -num::max_i32(pixels, 1)
}

/// A device's resolution, at least the usual one.
pub fn device_dpi(reported: i32) -> (dpi: i32)
    ensures
        dpi == num::max_int(reported as int, 96),
{
    num::max_i32(reported, 96)
}

/// The size of a buffer that is painted into.
#[derive(Clone, Copy, Debug, PartialEq, Eq, Structural)]
pub struct PaintBufferSize {
    pub width: i32,
    pub height: i32,
}

impl PaintBufferSize {
    pub open spec fn pixels(self) -> int {
        num::max_int(self.width as int, 0) * num::max_int(self.height as int, 0)
    }

    pub open spec fn spans(self, required: Self) -> bool {
        self.width >= required.width && self.height >= required.height
    }

    pub fn covers(self, required: Self) -> (covers: bool)
        ensures
            covers == self.spans(required),
    {
        self.width >= required.width && self.height >= required.height
    }

    pub fn area(self) -> (area: i64)
        ensures
            area == self.pixels(),
    {
        let width = num::max_i32(self.width, 0);
        let height = num::max_i32(self.height, 0);
        assert(0 <= width * height <= 0x3fff_ffff_0000_0001) by (nonlinear_arith)
            requires
                0 <= width <= 0x7fff_ffff,
                0 <= height <= 0x7fff_ffff,
        ;
        width as i64 * height as i64
    }

    /// Whether the buffer can be used again: large enough, and not far too
    /// large.
    pub fn reusable_for(self, required: Self) -> (reusable: bool)
        ensures
            reusable == (self.spans(required) && self.pixels() <= num::min_int(
                required.pixels() * PAINT_BUFFER_MAX_RETAINED_AREA_FACTOR,
                i64::MAX as int,
            )),
            reusable ==> self.width >= required.width && self.height >= required.height
                && self.pixels() <= 4 * required.pixels(),
    {
        let available = required.area();
        let limit: i64 = match available.checked_mul(PAINT_BUFFER_MAX_RETAINED_AREA_FACTOR) {
            Some(limit) => limit,
            None => i64::MAX,
        };
        assert(required.pixels() >= 0) by (nonlinear_arith)
            requires
                required.pixels() == num::max_int(required.width as int, 0) * num::max_int(
                    required.height as int,
                    0,
                ),
                num::max_int(required.width as int, 0) >= 0,
                num::max_int(required.height as int, 0) >= 0,
        ;
        self.covers(required) && self.area() <= limit
    }
}

/// The size of a buffer for a painted area, where it is not empty.
pub open spec fn buffer_size(rect: DeviceRect) -> Option<PaintBufferSize> {
    let width = num::clamped(rect.right - rect.left);
    let height = num::clamped(rect.bottom - rect.top);
    if width <= 0 || height <= 0 {
        None
    } else {
        Some(PaintBufferSize { width: width as i32, height: height as i32 })
    }
}

pub fn paint_buffer_size(rect: &DeviceRect) -> (size: Option<PaintBufferSize>)
    ensures
        size == buffer_size(*rect),
{
    let width = num::saturating_sub(rect.right, rect.left);
    let height = num::saturating_sub(rect.bottom, rect.top);
    if width <= 0 || height <= 0 {
        None
    } else {
        Some(PaintBufferSize { width, height })
    }
}

/// What a paint buffer must have in common with the device it is made for.
#[derive(Clone, Copy, Debug, PartialEq, Eq, Structural)]
pub struct PaintBufferCompatibility {
    pub technology: i32,
    pub bits_pixel: i32,
    pub planes: i32,
}

/// Whether a buffer has to be made anew.
pub fn paint_buffer_outdated(
    held: Option<(PaintBufferSize, PaintBufferCompatibility)>,
    size: PaintBufferSize,
    compatibility: PaintBufferCompatibility,
) -> (outdated: bool)
    ensures
        held is None ==> outdated,
        held matches Some(buffer) ==> outdated == !(buffer.1 == compatibility && buffer.0.spans(size)
            && buffer.0.pixels() <= num::min_int(
            size.pixels() * PAINT_BUFFER_MAX_RETAINED_AREA_FACTOR,
            i64::MAX as int,
        )),
{
    match held {
        None => true,
        Some((held_size, held_compatibility)) => !(held_compatibility == compatibility
            && held_size.reusable_for(size)),
    }
}

/// Cells lie side by side, each as large as the metrics say, the first one in the
/// corner of the area, as long as nothing leaves the range of an `i32`.
pub proof fn law_cells_lie_side_by_side(area: UiRect, metrics: CellMetrics, row: int, column: int)
    requires
        0 <= row,
        0 <= column,
        1 <= metrics.width,
        1 <= metrics.height,
        (column + 2) * metrics.width <= i32::MAX,
        (row + 2) * metrics.height <= i32::MAX,
        area.x + (column + 2) * metrics.width <= i32::MAX,
        area.y + (row + 2) * metrics.height <= i32::MAX,
    ensures
        ({
            let cell = cell_area(area, metrics, row, column);
            &&& cell.left == area.x + column * metrics.width
            &&& cell.top == area.y + row * metrics.height
            &&& cell.right - cell.left == metrics.width
            &&& cell.bottom - cell.top == metrics.height
            &&& cell_area(area, metrics, row, column + 1).left == cell.right
            &&& cell_area(area, metrics, row, column + 1).top == cell.top
            &&& cell_area(area, metrics, row + 1, column).top == cell.bottom
            &&& cell_area(area, metrics, row + 1, column).left == cell.left
            &&& cell_area(area, metrics, 0, 0).left == area.x
            &&& cell_area(area, metrics, 0, 0).top == area.y
            &&& cells_area(area, metrics, row, column, column + 1) == cell
        }),
{
    let width = metrics.width as int;
    let height = metrics.height as int;
    assert(0 <= column * width && column * width + 2 * width == (column + 2) * width && (column + 1)
        * width == column * width + width) by (nonlinear_arith)
        requires
            column >= 0,
            width >= 1,
    ;
    assert(0 <= row * height && row * height + 2 * height == (row + 2) * height && (row + 1) * height
        == row * height + height) by (nonlinear_arith)
        requires
            row >= 0,
            height >= 1,
    ;
    assert(0 * width == 0 && 0 * height == 0);
}

/// The cells of a row from one column up to another take up the pixels of those
/// cells and no others.
pub proof fn law_cells_area_holds_its_cells(
    area: UiRect,
    metrics: CellMetrics,
    row: int,
    start: int,
    end: int,
    column: int,
    x: int,
    y: int,
)
    requires
        0 <= row,
        0 <= start <= end,
        0 <= column,
        1 <= metrics.width,
        1 <= metrics.height,
        (column + 2) * metrics.width <= i32::MAX,
        area.x + (column + 2) * metrics.width <= i32::MAX,
        end * metrics.width <= i32::MAX,
        area.x + end * metrics.width <= i32::MAX,
        (row + 2) * metrics.height <= i32::MAX,
        area.y + (row + 2) * metrics.height <= i32::MAX,
        cell_area(area, metrics, row, column).covers(x, y),
    ensures
        cells_area(area, metrics, row, start, end).covers(x, y) <==> start <= column < end,
{
    law_cells_lie_side_by_side(area, metrics, row, column);
    let width = metrics.width as int;
    assert(0 <= start * width <= end * width) by (nonlinear_arith)
        requires
            0 <= start <= end,
            width >= 1,
    ;
    assert(column < start ==> column * width + width <= start * width) by (nonlinear_arith)
        requires
            width >= 1,
    ;
    assert(column >= start ==> column * width >= start * width) by (nonlinear_arith)
        requires
            width >= 1,
    ;
    assert(column < end ==> column * width + width <= end * width) by (nonlinear_arith)
        requires
            width >= 1,
    ;
    assert(column >= end ==> column * width >= end * width) by (nonlinear_arith)
        requires
            width >= 1,
    ;
}

/// A row may be painted in the pixels of the content that are on its own pixel
/// lines, and in all of them; there are none where the row begins below the
/// content.
pub proof fn law_row_clip_is_the_row(
    content: UiRect,
    metrics: CellMetrics,
    row: int,
    x: int,
    y: int,
)
    requires
        0 <= row,
        1 <= metrics.height,
        row * metrics.height + metrics.height <= i32::MAX,
        content.x + content.width <= i32::MAX,
        content.y + content.height <= i32::MAX,
    ensures
        (row_clip(content, metrics, row) matches Some(clip) && clip.covers(x, y)) <==> (
        content.covers(x, y) && content.y + row * metrics.height <= y < content.y + row
            * metrics.height + metrics.height),
        row_clip(content, metrics, row) is Some <==> content.width > 0 && content.height > row
            * metrics.height,
{
    let height = metrics.height as int;
    assert(row <= row * height && 0 <= row * height) by (nonlinear_arith)
        requires
            row >= 0,
            height >= 1,
    ;
}

/// Rows take up the pixels of the content that are on their pixel lines; the last
/// visible row takes the rest of the content with it.
pub proof fn law_row_range_area_holds_its_rows(
    content: UiRect,
    metrics: CellMetrics,
    rows: RowRange,
    visible_rows: usize,
    x: int,
    y: int,
)
    requires
        1 <= metrics.height,
        rows.start < rows.end <= visible_rows,
        rows.end * metrics.height <= i32::MAX,
        content.y + content.height <= i32::MAX,
    ensures
        (row_range_area(content, metrics, rows, visible_rows as int) matches Some(area)
            && area.covers(x, y)) <==> (content.covers(x, y) && content.y + rows.start
            * metrics.height <= y && (rows.end == visible_rows || y < content.y + rows.end
            * metrics.height)),
{
    let height = metrics.height as int;
    let start = rows.start as int;
    let end = rows.end as int;
    assert(start <= start * height && start * height < end * height && end <= end * height
        && 0 <= start * height) by (nonlinear_arith)
        requires
            0 <= start < end,
            height >= 1,
    ;
}

/// Half a number, taken twice, misses it by at most one, and towards 0.
pub proof fn law_half_is_rounded_towards_zero(value: int)
    ensures
        value >= 0 ==> 0 <= value - 2 * truncated_half(value) <= 1,
        value <= 0 ==> 0 <= 2 * truncated_half(value) - value <= 1,
{
}

/// A buffer for a painted area has the area's width and height; there is none for
/// an area without pixels.
pub proof fn law_buffer_has_the_size_of_its_area(rect: DeviceRect, x: int, y: int)
    requires
        rect.right - rect.left <= i32::MAX,
        rect.bottom - rect.top <= i32::MAX,
    ensures
        rect.covers(x, y) ==> buffer_size(rect) is Some,
        buffer_size(rect) matches Some(size) ==> {
            &&& rect.left + size.width == rect.right
            &&& rect.top + size.height == rect.bottom
            &&& rect.covers(rect.left as int, rect.top as int)
        },
{
}

/// Content without a pixel has no rows to be painted.
pub proof fn law_no_rows_without_content(
    content: UiRect,
    metrics: CellMetrics,
    row: int,
    rows: RowRange,
    visible_rows: int,
)
    requires
        content.width <= 0 || content.height <= 0,
    ensures
        row_clip(content, metrics, row) is None,
        row_range_area(content, metrics, rows, visible_rows) is None,
{
}

/// A buffer has as many pixels as its width times its height, and none where one of them is not
/// positive.
pub proof fn law_buffer_has_its_pixels(size: PaintBufferSize)
    ensures
        size.width > 0 && size.height > 0 ==> size.pixels() == size.width * size.height,
        size.width <= 0 || size.height <= 0 ==> size.pixels() == 0,
{
    assert(0 * num::max_int(size.height as int, 0) == 0);
    assert(num::max_int(size.width as int, 0) * 0 == 0);
}

/// A buffer has room for another size where it is at least as wide and as high.
pub proof fn law_buffer_spans_smaller_ones(size: PaintBufferSize, required: PaintBufferSize)
    ensures
        size.spans(required) <==> size.width >= required.width && size.height >= required.height,
        size.spans(size),
{
}

} // verus!
