//! What a window that draws itself keeps of its terminal from one drawing to the
//! next.

use vstd::prelude::*;

use crate::domain::terminal::TerminalViewport;
use crate::error::{AppError, AppResult};
use crate::renderer::geometry::CellMetrics;
use crate::window::invalidation::{TerminalSurfaceCache, TerminalViewportInvalidation};
use crate::window::text_cache::TerminalLineTextCache;

verus! {

/// A terminal as it is drawn; `S` is the drawing that is kept.
pub struct DrawnTerminal<S> {
    pub viewport: Option<TerminalViewport>,
    pub metrics: CellMetrics,
    /// How far below the top of a row its text stands, in whole pixels.
    pub baseline: i32,
    pub line_texts: TerminalLineTextCache,
    pub surface: TerminalSurfaceCache<S>,
    /// What has to be drawn again.
    pub pending: TerminalViewportInvalidation,
}

impl<S> DrawnTerminal<S> {
    pub fn new() -> (terminal: Self)
        ensures
            terminal.viewport is None,
            terminal.metrics == (CellMetrics { width: 8, height: 16 }),
            terminal.baseline == 12,
            terminal.line_texts.wf(),
            terminal.surface.surface is None,
            terminal.surface.shape is None,
            terminal.pending is Nothing,
    {
        DrawnTerminal {
            viewport: None,
            metrics: CellMetrics::default(),
            baseline: 12,
            line_texts: TerminalLineTextCache::default(),
            surface: TerminalSurfaceCache::new(),
            pending: TerminalViewportInvalidation::Nothing,
        }
    }

    /// Takes what a font measures. Where it measures something else than before, no
    /// drawing is kept and all is drawn again. Reports whether it does.
    pub fn update_cell_metrics(&mut self, metrics: CellMetrics, baseline: i32) -> (changed: bool)
        ensures
            changed == !(old(self).metrics == metrics && old(self).baseline == baseline),
            !changed ==> *final(self) == *old(self),
            changed ==> {
                &&& final(self).metrics == metrics
                &&& final(self).baseline == baseline
                &&& final(self).surface.surface is None
                &&& final(self).surface.shape is None
                &&& final(self).pending is Full
                &&& final(self).viewport == old(self).viewport
                &&& final(self).line_texts == old(self).line_texts
            },
    {
        if self.metrics == metrics && self.baseline == baseline {
            return false;
        }
        self.metrics = metrics;
        self.baseline = baseline;
        self.surface.clear();
        self.pending = TerminalViewportInvalidation::Full;
        true
    }

    /// Shows another viewport, where it could be read: nothing that was kept for
    /// the one before counts, and all is drawn again.
    pub fn replace_terminal_viewport(&mut self, read: AppResult<TerminalViewport>) -> (result:
        AppResult<()>)
        ensures
            match read {
                Err(error) => result == Err::<(), AppError>(error) && *final(self)
                    == *old(self),
                Ok(viewport) => {
                    &&& result is Ok
                    &&& final(self).viewport == Some(viewport)
                    &&& final(self).line_texts.wf()
                    &&& final(self).line_texts.forgotten()
                    &&& final(self).line_texts.viewport_rows == 0
                    &&& final(self).line_texts.viewport_columns == 0
                    &&& final(self).line_texts.rows@.len() == old(self).line_texts.rows@.len()
                    &&& final(self).surface.surface is None
                    &&& final(self).surface.shape is None
                    &&& final(self).pending is Full
                    &&& final(self).metrics == old(self).metrics
                    &&& final(self).baseline == old(self).baseline
                },
            },
    {
        match read {
            Err(error) => Err(error),
            Ok(viewport) => {
                self.viewport = Some(viewport);
                self.line_texts.clear();
                self.surface.clear();
                self.pending = TerminalViewportInvalidation::Full;
                Ok(())
            },
        }
    }

    /// Takes what has to be drawn again. Without a viewport nothing is drawn, and it
    /// stays as it is.
    pub fn begin_drawing(&mut self) -> (invalidation: Option<TerminalViewportInvalidation>)
        ensures
            old(self).viewport is None ==> invalidation is None && *final(self) == *old(self),
            old(self).viewport is Some ==> {
                &&& invalidation == Some(old(self).pending)
                &&& *final(self) == (DrawnTerminal {
                    pending: TerminalViewportInvalidation::Nothing,
                    ..*old(self)
                })
            },
    {
        if self.viewport.is_none() {
            return None;
        }
        let mut invalidation = TerminalViewportInvalidation::Nothing;
        std::mem::swap(&mut self.pending, &mut invalidation);
        Some(invalidation)
    }

    /// The terminal was drawn: from the drawing that is kept, or, where that failed,
    /// without it. All of it is drawn anew then.
    pub fn end_drawing(&mut self, from_surface: bool)
        ensures
            from_surface ==> *final(self) == *old(self),
            !from_surface ==> *final(self) == (DrawnTerminal {
                pending: TerminalViewportInvalidation::Full,
                ..*old(self)
            }),
    {
        if !from_surface {
            self.pending = TerminalViewportInvalidation::Full;
        }
    }
}

} // verus!
