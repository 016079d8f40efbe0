//! What a window shows: what the wheel moves, and what is painted again.

use vstd::prelude::*;

use alacritty_terminal::grid::Grid;
use alacritty_terminal::term::cell::Cell;

use crate::domain::geometry::{UiPoint, UiRect};
use crate::domain::layout::{TerminalTabView, WindowLayout};
use crate::domain::rows::{RowRange, TerminalChangedRows};
use crate::domain::terminal::{TerminalSelection, TerminalViewport};
use crate::emulator;
use crate::error::{AppError, AppResult};
use crate::renderer::geometry::{CellMetrics, DeviceRect};
use crate::renderer::paint::{self, ColumnRange, GdiRenderer, PaintPlan, PaintScene};
use crate::terminal::AlacrittyTerminalBuffer;
use crate::window::grid;

verus! {

pub const NO_VIEWPORT: &'static str = "terminal viewport cache is empty";

/// What the wheel moves.
#[derive(Clone, Copy, Debug, PartialEq, Eq, Structural)]
pub enum WheelTarget {
    CommandButtons,
    Terminal,
    Nothing,
}

/// What the wheel moves at a point; where the point is not known, the terminal.
pub fn wheel_target(layout: &WindowLayout, point: Option<UiPoint>) -> (target: WheelTarget)
    ensures
        target == (match point {
            Some(at) => if layout.command_button_viewport.covers(at.x as int, at.y as int) {
                WheelTarget::CommandButtons
            } else if layout.terminal.covers(at.x as int, at.y as int) {
                WheelTarget::Terminal
            } else {
                WheelTarget::Nothing
            },
            None => WheelTarget::Terminal,
        }),
{
    match point {
        Some(at) => if layout.command_button_viewport.contains(at) {
            WheelTarget::CommandButtons
        } else if layout.terminal.contains(at) {
            WheelTarget::Terminal
        } else {
            WheelTarget::Nothing
        },
        None => WheelTarget::Terminal,
    }
}

/// The areas of some ranges of rows, as far as they are visible.
pub open spec fn row_areas(
    content: UiRect,
    metrics: CellMetrics,
    ranges: Seq<RowRange>,
    visible_rows: int,
) -> Seq<UiRect>
    decreases ranges.len(),
{
    if ranges.len() == 0 {
        Seq::empty()
    } else {
        let before = row_areas(content, metrics, ranges.drop_last(), visible_rows);
        match grid::visible_rows_area(content, metrics, ranges.last(), visible_rows) {
            Some(area) => before.push(area),
            None => before,
        }
    }
}

/// Has some rows painted again: the areas to be painted. The rows are added to
/// those that wait to be painted, unless none of them is visible.
pub fn invalidate_terminal_content_rows(
    pending: &mut Option<TerminalChangedRows>,
    content: UiRect,
    metrics: CellMetrics,
    rows: TerminalChangedRows,
    visible_rows: usize,
) -> (areas: Vec<UiRect>)
    requires
        rows.wf(),
        *old(pending) is Some ==> (*old(pending))->0.wf(),
    ensures
        areas@ == row_areas(content, metrics, rows.ranges_view(), visible_rows as int),
        areas@.len() == 0 ==> *final(pending) == *old(pending),
        areas@.len() > 0 ==> {
            &&& *final(pending) is Some
            &&& (*final(pending))->0.wf()
            &&& (*final(pending))->0@ =~= (match *old(pending) {
                Some(waiting) => waiting@.union(rows@),
                None => rows@,
            })
        },
{
    let mut areas: Vec<UiRect> = Vec::new();
    let mut index: usize = 0;
    let ranges = rows.ranges();
    let ghost all = ranges@;
    assert(all.take(0) =~= Seq::<RowRange>::empty());
    while index < ranges.len()
        invariant
            all == ranges@,
            index <= all.len(),
            areas@ == row_areas(content, metrics, all.take(index as int), visible_rows as int),
        decreases all.len() - index,
    {
        assert(all.take(index + 1).drop_last() =~= all.take(index as int));
        match grid::visible_terminal_rows_rect(content, metrics, ranges[index], visible_rows) {
            Some(area) => areas.push(area),
            None => {},
        }
        index += 1;
    }
    assert(all.take(index as int) =~= all);
    if areas.len() == 0 {
        return areas;
    }
    match pending.take() {
        Some(mut waiting) => {
            waiting.merge(&rows);
            *pending = Some(waiting);
        },
        None => {
            *pending = Some(rows);
        },
    }
    areas
}

/// The first failure of two steps that were both taken.
pub fn first_failure(first: AppResult<()>, second: AppResult<()>) -> (result: AppResult<()>)
    ensures
        result == (if first is Err {
            first
        } else {
            second
        }),
{
    match first {
        Ok(()) => second,
        Err(error) => Err(error),
    }
}

/// How a window's shutdown went: the timer's failure comes first, then that of
/// saving the panel, then that of the session.
pub fn shutdown_result(
    timer_result: AppResult<()>,
    command_panel_result: AppResult<()>,
    session_result: AppResult<()>,
) -> (result: AppResult<()>)
    ensures
        result == (if timer_result is Err {
            timer_result
        } else if command_panel_result is Err {
            command_panel_result
        } else {
            session_result
        }),
{
    first_failure(timer_result, first_failure(command_panel_result, session_result))
}

/// What a window shows of its terminal.
pub struct TerminalView {
    pub terminal_viewport: Option<TerminalViewport>,
    pub terminal_selection: Option<TerminalSelection>,
    pub renderer: GdiRenderer,
}

impl TerminalView {
    pub open spec fn wf(&self) -> bool {
        self.terminal_viewport is Some ==> (self.terminal_viewport->0).wf()
    }

    /// Another viewport is shown: nothing is selected in it, and no row of it
    /// was painted yet.
    pub open spec fn shows_anew(self, before: Self, viewport: Option<TerminalViewport>) -> bool {
        &&& self.terminal_viewport == viewport
        &&& self.terminal_selection is None
        &&& self.renderer.line_cache@.len() == 0
        &&& self.renderer.metrics == before.renderer.metrics
        &&& self.renderer.metrics_initialized == before.renderer.metrics_initialized
        &&& self.renderer.font_family == before.renderer.font_family
        &&& self.renderer.font_size_points == before.renderer.font_size_points
        &&& self.renderer.font_dpi == before.renderer.font_dpi
    }

    pub fn new(renderer: GdiRenderer) -> (view: Self)
        ensures
            view.terminal_viewport is None,
            view.terminal_selection is None,
            view.renderer == renderer,
            view.wf(),
    {
        TerminalView { terminal_viewport: None, terminal_selection: None, renderer }
    }

    pub fn has_terminal_viewport(&self) -> (has: bool)
        ensures
            has == self.terminal_viewport is Some,
    {
        self.terminal_viewport.is_some()
    }

    /// Shows another viewport, or none; gives back the one from before.
    pub fn replace_terminal_viewport_state(&mut self, viewport: Option<TerminalViewport>) -> (previous:
        Option<TerminalViewport>)
        ensures
            previous == old(self).terminal_viewport,
            final(self).shows_anew(*old(self), viewport),
    {
        let mut previous = viewport;
        std::mem::swap(&mut self.terminal_viewport, &mut previous);
        self.terminal_selection = None;
        self.renderer.clear_terminal_line_cache();
        previous
    }

    pub fn set_terminal_viewport(&mut self, viewport: TerminalViewport)
        ensures
            final(self).shows_anew(*old(self), Some(viewport)),
    {
        let _ = self.replace_terminal_viewport_state(Some(viewport));
    }

    pub fn clear_terminal_viewport(&mut self)
        ensures
            final(self).shows_anew(*old(self), None),
    {
        let _ = self.replace_terminal_viewport_state(None);
    }

    /// Shows another viewport unless its scroll bar cannot follow: `synced` is
    /// how that went.
    pub fn replace_terminal_viewport_cache(
        &mut self,
        viewport: TerminalViewport,
        synced: AppResult<()>,
    ) -> (result: AppResult<()>)
        ensures
            result == synced,
            final(self).shows_anew(
                *old(self),
                if synced is Ok {
                    Some(viewport)
                } else {
                    old(self).terminal_viewport
                },
            ),
    {
        let previous = self.replace_terminal_viewport_state(Some(viewport));
        if synced.is_err() {
            let _ = self.replace_terminal_viewport_state(previous);
        }
        synced
    }

    /// Brings what is shown up to date with a terminal. Where nothing is shown
    /// yet, all of its display is.
    pub fn refresh_terminal_viewport(
        &mut self,
        buffer: &mut AlacrittyTerminalBuffer,
        grid: &Grid<Cell>,
    ) -> (result: AppResult<()>)
        requires
            old(self).wf(),
            old(buffer).wf(),
            emulator::grid_state(*grid).screen_lines == old(buffer).grid.screen_lines,
        ensures
            final(self).wf(),
            final(buffer).wf(),
            final(buffer).grid == emulator::grid_state(*grid),
            old(self).terminal_viewport is None ==> {
                &&& final(buffer).dirty_rows == emulator::left_by_snapshot(
                    *grid,
                    old(buffer).dirty_rows,
                    match result {
                        Ok(_) => None,
                        Err(error) => Some(error),
                    },
                )
                &&& result is Ok ==> {
                    &&& final(self).terminal_viewport is Some
                    &&& emulator::snapshot_outcome(
                        *grid,
                        Ok::<TerminalViewport, AppError>(final(self).terminal_viewport->0),
                    )
                    &&& final(self).shows_anew(*old(self), final(self).terminal_viewport)
                }
                &&& result is Err ==> {
                    &&& *final(self) == *old(self)
                    &&& emulator::snapshot_outcome(
                        *grid,
                        Err::<TerminalViewport, AppError>(result->Err_0),
                    )
                }
            },
            old(self).terminal_viewport is Some ==> {
                &&& final(self).terminal_viewport is Some
                &&& final(self).terminal_selection == old(self).terminal_selection
                &&& final(self).renderer == old(self).renderer
                &&& emulator::refreshed(
                    *grid,
                    old(buffer).dirty_rows,
                    old(self).terminal_viewport->0,
                    final(self).terminal_viewport->0,
                    final(buffer).dirty_rows,
                    result,
                )
            },
    {
        match self.terminal_viewport.take() {
            Some(mut viewport) => {
                let result = buffer.snapshot_into(&mut viewport, grid);
                self.terminal_viewport = Some(viewport);
                result
            },
            None => match buffer.snapshot(grid) {
                Ok(viewport) => {
                    self.set_terminal_viewport(viewport);
                    Ok(())
                },
                Err(error) => Err(error),
            },
        }
    }

    /// Plans a painting of what is shown, and of what else is in the window. Rows
    /// that wait to be painted are the only ones that are, and wait no more.
    pub fn paint(
        &mut self,
        pending: &mut Option<TerminalChangedRows>,
        window: &WindowLayout,
        tabs: &Vec<TerminalTabView>,
        content: UiRect,
        selected: &Vec<Option<ColumnRange>>,
        paint_rect: &DeviceRect,
    ) -> (painting: AppResult<PaintPlan>)
        requires
            old(self).wf(),
            *old(pending) is Some ==> (*old(pending))->0.wf(),
            old(self).terminal_viewport is Some ==> selected@.len() == (old(
                self,
            ).terminal_viewport->0).rows,
        ensures
            final(self).wf(),
            final(self).terminal_viewport == old(self).terminal_viewport,
            final(self).terminal_selection == old(self).terminal_selection,
            old(self).terminal_viewport is None ==> {
                &&& painting == Err::<PaintPlan, AppError>(AppError::InvalidState(NO_VIEWPORT))
                &&& *final(self) == *old(self)
                &&& *final(pending) == *old(pending)
            },
            old(self).terminal_viewport is Some ==> {
                &&& painting is Ok
                &&& *final(pending) is None
                &&& paint::scene_painted(
                    old(self).renderer,
                    final(self).renderer,
                    PaintScene {
                        viewport: &old(self).terminal_viewport->0,
                        window,
                        tabs,
                        content,
                        selected,
                    },
                    *paint_rect,
                    match *old(pending) {
                        Some(rows) => Some(rows.ranges_view()),
                        None => None,
                    },
                    painting->Ok_0,
                )
            },
    {
        match self.terminal_viewport.take() {
            None => Err(AppError::InvalidState(NO_VIEWPORT)),
            Some(viewport) => {
                let rows = pending.take();
                let scene = PaintScene { viewport: &viewport, window, tabs, content, selected };
                let painting = match &rows {
                    Some(changed) => self.renderer.paint(&scene, paint_rect, Some(changed.ranges())),
                    None => self.renderer.paint(&scene, paint_rect, None),
                };
                self.terminal_viewport = Some(viewport);
                Ok(painting)
            },
        }
    }

    /// Shows a terminal from scratch, whatever was shown before.
    pub fn refresh_active_tab_viewport_cache(
        &mut self,
        buffer: &mut AlacrittyTerminalBuffer,
        grid: &Grid<Cell>,
    ) -> (result: AppResult<()>)
        requires
            old(buffer).wf(),
            emulator::grid_state(*grid).screen_lines == old(buffer).grid.screen_lines,
        ensures
            final(self).wf(),
            final(self).shows_anew(*old(self), final(self).terminal_viewport),
            result is Ok == final(self).terminal_viewport is Some,
            result is Ok ==> emulator::snapshot_outcome(
                *grid,
                Ok::<TerminalViewport, AppError>(final(self).terminal_viewport->0),
            ),
            result is Err ==> emulator::snapshot_outcome(
                *grid,
                Err::<TerminalViewport, AppError>(result->Err_0),
            ),
            final(buffer).wf(),
            final(buffer).grid == emulator::grid_state(*grid),
            final(buffer).dirty_rows == emulator::left_by_snapshot(
                *grid,
                old(buffer).dirty_rows,
                match result {
                    Ok(_) => None,
                    Err(error) => Some(error),
                },
            ),
    {
        self.clear_terminal_viewport();
        self.refresh_terminal_viewport(buffer, grid)
    }
}

/// Whether one of some areas holds a pixel.
pub open spec fn some_area_covers(areas: Seq<UiRect>, x: int, y: int) -> bool {
    exists|i: int| 0 <= i < areas.len() && (#[trigger] areas[i]).covers(x, y)
}

/// Whether a pixel is in the area of one of some ranges of rows.
pub open spec fn some_range_covers(
    content: UiRect,
    metrics: CellMetrics,
    ranges: Seq<RowRange>,
    visible_rows: int,
    x: int,
    y: int,
) -> bool {
    exists|i: int|
        0 <= i < ranges.len() && (grid::visible_rows_area(
            content,
            metrics,
            #[trigger] ranges[i],
            visible_rows,
        ) matches Some(area) && area.covers(x, y))
}

/// The areas of some ranges of rows hold the pixels of every one of those ranges, and no others.
pub proof fn law_areas_hold_all_ranges(
    content: UiRect,
    metrics: CellMetrics,
    ranges: Seq<RowRange>,
    visible_rows: int,
    x: int,
    y: int,
)
    ensures
        some_area_covers(row_areas(content, metrics, ranges, visible_rows), x, y)
            <==> some_range_covers(content, metrics, ranges, visible_rows, x, y),
    decreases ranges.len(),
{
    if ranges.len() > 0 {
        let rest = ranges.drop_last();
        let areas = row_areas(content, metrics, ranges, visible_rows);
        let before = row_areas(content, metrics, rest, visible_rows);
        let last = grid::visible_rows_area(content, metrics, ranges.last(), visible_rows);
        let own = last is Some && last->0.covers(x, y);
        law_areas_hold_all_ranges(content, metrics, rest, visible_rows, x, y);
        if some_range_covers(content, metrics, rest, visible_rows, x, y) {
            let i = choose|i: int|
                0 <= i < rest.len() && (grid::visible_rows_area(
                    content,
                    metrics,
                    #[trigger] rest[i],
                    visible_rows,
                ) matches Some(area) && area.covers(x, y));
            assert(ranges[i] == rest[i]);
        }
        if own {
            assert(ranges[ranges.len() - 1] == ranges.last());
            assert(areas[areas.len() - 1].covers(x, y));
        }
        if some_area_covers(before, x, y) {
            let i = choose|i: int| 0 <= i < before.len() && (#[trigger] before[i]).covers(x, y);
            assert(areas[i] == before[i]);
        }
        if some_area_covers(areas, x, y) && !own {
            let i = choose|i: int| 0 <= i < areas.len() && (#[trigger] areas[i]).covers(x, y);
            assert(before[i] == areas[i]);
        }
        if some_range_covers(content, metrics, ranges, visible_rows, x, y) && !own {
            let i = choose|i: int|
                0 <= i < ranges.len() && (grid::visible_rows_area(
                    content,
                    metrics,
                    #[trigger] ranges[i],
                    visible_rows,
                ) matches Some(area) && area.covers(x, y));
            assert(rest[i] == ranges[i]);
        }
    }
}

/// Another viewport is shown without a selection, and every row of it is painted anew; the font
/// stays.
pub proof fn law_another_viewport_is_shown_anew(
    before: TerminalView,
    after: TerminalView,
    viewport: Option<TerminalViewport>,
)
    requires
        after.shows_anew(before, viewport),
    ensures
        after.terminal_viewport == viewport,
        after.terminal_selection is None,
        after.renderer.line_cache@.len() == 0,
        after.renderer.metrics == before.renderer.metrics,
        after.renderer.metrics_initialized == before.renderer.metrics_initialized,
        after.renderer.font_family == before.renderer.font_family,
        after.renderer.font_size_points == before.renderer.font_size_points,
        after.renderer.font_dpi == before.renderer.font_dpi,
{
}

} // verus!
