//! Which part of a terminal's drawing is out of date.

use vstd::prelude::*;

use crate::domain::geometry::UiRect;
use crate::domain::rows::{RowRange, TerminalChangedRows};
use crate::domain::terminal::{TerminalChangeBaseline, TerminalViewport};
use crate::num;
use crate::renderer::geometry::CellMetrics;

verus! {

/// What has to be drawn again.
#[derive(Debug, PartialEq, Eq)]
pub enum TerminalViewportInvalidation {
    Nothing,
    Rows(TerminalChangedRows),
    Full,
}

impl Default for TerminalViewportInvalidation {
    fn default() -> (invalidation: Self)
        ensures
            invalidation is Nothing,
    {
        TerminalViewportInvalidation::Nothing
    }
}

impl TerminalViewportInvalidation {
    pub open spec fn wf(&self) -> bool {
        self matches TerminalViewportInvalidation::Rows(rows) ==> rows.wf()
    }

    /// Whether a row has to be drawn again.
    pub open spec fn includes_row(&self, row: int) -> bool {
        match self {
            TerminalViewportInvalidation::Nothing => false,
            TerminalViewportInvalidation::Rows(rows) => rows@.contains(row),
            TerminalViewportInvalidation::Full => true,
        }
    }

    /// Adds what else has to be drawn again.
    pub fn merge(&mut self, invalidation: Self)
        requires
            old(self).wf(),
            invalidation.wf(),
        ensures
            final(self).wf(),
            *old(self) is Full || invalidation is Full <==> *final(self) is Full,
            *old(self) is Nothing && invalidation is Nothing <==> *final(self) is Nothing,
            forall|row: int| #[trigger]
                final(self).includes_row(row) <==> old(self).includes_row(row)
                    || invalidation.includes_row(row),
    {
        let mut held = TerminalViewportInvalidation::Nothing;
        std::mem::swap(self, &mut held);
        *self =
        match (held, invalidation) {
            (TerminalViewportInvalidation::Full, _) => TerminalViewportInvalidation::Full,
            (state, TerminalViewportInvalidation::Nothing) => state,
            (_, TerminalViewportInvalidation::Full) => TerminalViewportInvalidation::Full,
            (TerminalViewportInvalidation::Nothing, rows) => rows,
            (
                TerminalViewportInvalidation::Rows(mut existing),
                TerminalViewportInvalidation::Rows(rows),
            ) => {
                existing.merge(&rows);
                TerminalViewportInvalidation::Rows(existing)
            },
        };
    }
}

/// What has to be drawn again after a viewport was brought up to date;
/// `previous` is what it was before.
pub fn refresh_invalidation(
    previous: Option<&TerminalChangeBaseline>,
    current: Option<&TerminalViewport>,
) -> (invalidation: TerminalViewportInvalidation)
    requires
        current matches Some(viewport) ==> viewport.wf(),
    ensures
        invalidation.wf(),
        current is None ==> invalidation is Nothing,
        current is Some && previous is None ==> invalidation is Full,
        current matches Some(viewport) ==> (previous matches Some(baseline) ==> {
            &&& !(invalidation is Full)
            &&& invalidation is Nothing <==> forall|row: int| !viewport.row_changed(*baseline, row)
            &&& forall|row: int|
                invalidation.includes_row(row) <==> viewport.row_changed(*baseline, row)
        }),
{
    match (previous, current) {
        (Some(baseline), Some(viewport)) => {
            match viewport.changed_rows_since_baseline(baseline) {
                Some(rows) => {
                    proof {
                        assert forall|row: int| viewport.row_changed(*baseline, row) implies rows@.contains(
                            row,
                        ) by {}
                    }
                    TerminalViewportInvalidation::Rows(rows)
                },
                None => TerminalViewportInvalidation::Nothing,
            }
        },
        (None, Some(_)) => TerminalViewportInvalidation::Full,
        (_, None) => TerminalViewportInvalidation::Nothing,
    }
}

/// What has to be drawn again after terminal events: everything where a
/// selection went away.
pub fn drain_invalidation(
    selection_cleared: bool,
    refreshed: TerminalViewportInvalidation,
) -> (invalidation: TerminalViewportInvalidation)
    ensures
        invalidation == (if selection_cleared {
            TerminalViewportInvalidation::Full
        } else {
            refreshed
        }),
{
    if selection_cleared {
        TerminalViewportInvalidation::Full
    } else {
        refreshed
    }
}

/// The shape that a kept drawing of the terminal was made for.
#[derive(Clone, Copy, Debug, PartialEq, Eq, Structural)]
pub struct SurfaceShape {
    pub viewport_rows: usize,
    pub viewport_columns: usize,
    pub content_width: i32,
    pub content_height: i32,
    pub metrics: CellMetrics,
    /// How far below the top of a row its text stands, in whole pixels.
    pub baseline: i32,
}

/// The shape of a drawing of a viewport: a pixel each way at least.
pub open spec fn shape_of(
    viewport: TerminalViewport,
    content: UiRect,
    metrics: CellMetrics,
    baseline: i32,
) -> SurfaceShape {
    SurfaceShape {
        viewport_rows: viewport.rows,
        viewport_columns: viewport.columns,
        content_width: num::max_int(content.width as int, 1) as i32,
        content_height: num::max_int(content.height as int, 1) as i32,
        metrics,
        baseline,
    }
}

pub fn surface_shape(
    viewport: &TerminalViewport,
    content: UiRect,
    metrics: CellMetrics,
    baseline: i32,
) -> (shape: SurfaceShape)
    ensures
        shape == shape_of(*viewport, content, metrics, baseline),
{
    SurfaceShape {
        viewport_rows: viewport.rows,
        viewport_columns: viewport.columns,
        content_width: num::max_i32(content.width, 1),
        content_height: num::max_i32(content.height, 1),
        metrics,
        baseline,
    }
}

/// A drawing of the terminal that is kept; `S` is the drawing itself.
pub struct TerminalSurfaceCache<S> {
    pub surface: Option<S>,
    pub shape: Option<SurfaceShape>,
}

/// What is done with a kept drawing.
#[derive(Debug, PartialEq, Eq)]
pub enum SurfacePlan {
    /// There is no drawing and none could be made.
    Unavailable,
    /// Draw these ranges of rows into it, then show it.
    Redraw(Vec<RowRange>),
}

impl<S> TerminalSurfaceCache<S> {
    pub fn new() -> (cache: Self)
        ensures
            cache.surface is None,
            cache.shape is None,
    {
        TerminalSurfaceCache { surface: None, shape: None }
    }

    pub fn clear(&mut self)
        ensures
            final(self).surface is None,
            final(self).shape is None,
    {
        self.surface = None;
        self.shape = None;
    }

    /// Whether a drawing of such a shape has to be made; one of another shape
    /// is let go.
    pub fn needs_surface(&mut self, shape: SurfaceShape) -> (needed: bool)
        ensures
            needed == (old(self).shape != Some(shape) || old(self).surface is None),
            old(self).shape != Some(shape) ==> final(self).surface is None,
            old(self).shape == Some(shape) ==> final(self).surface == old(self).surface,
            final(self).shape == old(self).shape,
    {
        let same = match self.shape {
            Some(held) => held == shape,
            None => false,
        };
        if !same {
            self.surface = None;
        }
        self.surface.is_none()
    }

    /// What to draw: `made` is a new drawing, where one was needed and could
    /// be made. A drawing of a new shape is drawn completely, any other as far
    /// as it is out of date.
    pub fn plan(
        &mut self,
        shape: SurfaceShape,
        made: Option<S>,
        invalidation: &TerminalViewportInvalidation,
    ) -> (plan: SurfacePlan)
        requires
            invalidation.wf(),
        ensures
            ({
                let same = old(self).shape == Some(shape);
                let kept = same && old(self).surface is Some;
                if !kept && made is None {
                    &&& plan is Unavailable
                    &&& final(self).surface is None
                    &&& final(self).shape == old(self).shape
                } else {
                    &&& final(self).surface == (if kept {
                        old(self).surface
                    } else {
                        made
                    })
                    &&& final(self).shape == Some(shape)
                    &&& plan matches SurfacePlan::Redraw(ranges) && (if !same || invalidation is Full {
                        ranges@ == seq![RowRange { start: 0, end: shape.viewport_rows }]
                    } else {
                        forall|row: int|
                            crate::domain::rows::in_ranges(ranges@, row)
                                <==> invalidation.includes_row(row)
                    })
                }
            }),
    {
        let same = match self.shape {
            Some(held) => held == shape,
            None => false,
        };
        if self.needs_surface(shape) {
            match made {
                None => {
                    return SurfacePlan::Unavailable;
                },
                Some(surface) => {
                    self.surface = Some(surface);
                    self.shape = Some(shape);
                },
            }
        }
        let mut ranges: Vec<RowRange> = Vec::new();
        match invalidation {
            _ if !same => {
                ranges.push(RowRange { start: 0, end: shape.viewport_rows });
                assert(ranges@ =~= seq![RowRange { start: 0, end: shape.viewport_rows }]);
            },
            TerminalViewportInvalidation::Full => {
                ranges.push(RowRange { start: 0, end: shape.viewport_rows });
                assert(ranges@ =~= seq![RowRange { start: 0, end: shape.viewport_rows }]);
            },
            TerminalViewportInvalidation::Rows(rows) => {
                ranges.extend_from_slice(rows.ranges().as_slice());
                assert(ranges@ =~= rows.ranges_view());
            },
            TerminalViewportInvalidation::Nothing => {},
        }
        SurfacePlan::Redraw(ranges)
    }
}

/// A drawing is made as large as what it shows, and no smaller than a pixel each way; it is
/// another one where the rows, the columns, the font or the content are.
pub proof fn law_drawing_has_the_shape_of_what_it_shows(
    viewport: TerminalViewport,
    content: UiRect,
    metrics: CellMetrics,
    baseline: i32,
)
    ensures
        ({
            let shape = shape_of(viewport, content, metrics, baseline);
            &&& shape.viewport_rows == viewport.rows
            &&& shape.viewport_columns == viewport.columns
            &&& shape.metrics == metrics
            &&& shape.baseline == baseline
            &&& content.width >= 1 ==> shape.content_width == content.width
            &&& content.height >= 1 ==> shape.content_height == content.height
            &&& shape.content_width >= 1
            &&& shape.content_height >= 1
        }),
{
}

/// All rows have to be drawn again where all of a terminal has, none where nothing has, and some
/// rows where they have.
pub proof fn law_rows_that_are_drawn_again(invalidation: TerminalViewportInvalidation, row: int)
    ensures
        invalidation is Full ==> invalidation.includes_row(row),
        invalidation is Nothing ==> !invalidation.includes_row(row),
        invalidation matches TerminalViewportInvalidation::Rows(rows) ==> invalidation.includes_row(
            row,
        ) == rows@.contains(row),
{
}

} // verus!
