//! What the mouse does: pressing, dragging the splitter and selecting text.

use vstd::prelude::*;

use crate::domain::geometry::{UiPoint, UiRect};
use crate::domain::layout::{self, CommandButtonId, TerminalTabId, WindowLayout};
use crate::domain::terminal::{
    update_terminal_selection, TerminalGridPoint, TerminalSelection, TerminalSize,
};
use crate::error::{AppError, AppResult};
use crate::num;
use crate::window::grid;

verus! {

/// What is under the pointer.
#[derive(Clone, Copy, Debug, PartialEq, Eq, Structural)]
pub enum PointerTarget {
    Splitter,
    CloseTab(TerminalTabId),
    NewTab,
    Tab(TerminalTabId),
    CommandButton(CommandButtonId),
    Cell(TerminalGridPoint),
    Nothing,
}

/// The first of the parts of a window that holds a point: the splitter, a tab's
/// close button, the button for a new tab, a tab, a command button, a cell.
/// Command buttons count where the window draws them itself.
pub open spec fn target_at(
    layout: WindowLayout,
    point: UiPoint,
    draws_buttons: bool,
    cell: Option<TerminalGridPoint>,
) -> PointerTarget {
    let closed = layout::first_tab_at(layout.tabs@, point, true);
    let tab = layout::first_tab_at(layout.tabs@, point, false);
    let button = layout::first_button_at(layout.buttons@, point);
    if layout.splitter.covers(point.x as int, point.y as int) {
        PointerTarget::Splitter
    } else if closed is Some {
        PointerTarget::CloseTab(closed->0)
    } else if layout::holds_point(layout.new_tab_button, point) {
        PointerTarget::NewTab
    } else if tab is Some {
        PointerTarget::Tab(tab->0)
    } else if draws_buttons && button is Some {
        PointerTarget::CommandButton(button->0)
    } else if cell is Some {
        PointerTarget::Cell(cell->0)
    } else {
        PointerTarget::Nothing
    }
}

/// What is under the pointer; `cell` is the terminal's cell there.
pub fn pointer_target(
    layout: &WindowLayout,
    point: UiPoint,
    draws_buttons: bool,
    cell: Option<TerminalGridPoint>,
) -> (target: PointerTarget)
    ensures
        target == target_at(*layout, point, draws_buttons, cell),
{
    if layout.splitter_at(point) {
        return PointerTarget::Splitter;
    }
    match layout.tab_close_at(point) {
        Some(id) => return PointerTarget::CloseTab(id),
        None => {},
    }
    if layout.new_tab_at(point) {
        return PointerTarget::NewTab;
    }
    match layout.tab_at(point) {
        Some(id) => return PointerTarget::Tab(id),
        None => {},
    }
    if draws_buttons {
        match layout.command_button_at(point) {
            Some(id) => return PointerTarget::CommandButton(id),
            None => {},
        }
    }
    match cell {
        Some(anchor) => PointerTarget::Cell(anchor),
        None => PointerTarget::Nothing,
    }
}

/// Whether the terminal is looked at at once after a press: a tab was opened, closed
/// or chosen, and that went well.
pub fn wakes_drain_timer(target: PointerTarget, done: &AppResult<()>) -> (wakes: bool)
    ensures
        wakes == ((target is CloseTab || target is NewTab || target is Tab) && done is Ok),
{
    match target {
        PointerTarget::CloseTab(_) => done.is_ok(),
        PointerTarget::NewTab => done.is_ok(),
        PointerTarget::Tab(_) => done.is_ok(),
        _ => false,
    }
}

/// The splitter while it is dragged.
#[derive(Clone, Copy, Debug, PartialEq, Eq, Structural)]
pub struct SplitterDrag {
    /// How far right of the splitter's left edge it was taken.
    pub pointer_offset_x: i32,
    /// Where the splitter is to be moved to next.
    pub pending_splitter_x: Option<i32>,
    pub resize_scheduled: bool,
    /// The size that the terminal gets when the drag ends.
    pub deferred_terminal_size: Option<TerminalSize>,
}

/// What follows from a movement of the pointer.
#[derive(Clone, Copy, Debug, PartialEq, Eq, Structural)]
pub enum MotionOutcome {
    Nothing,
    /// The selection has changed and is to be drawn.
    Redraw,
    /// The splitter is to be moved when the window is idle.
    ScheduleResize,
}

/// What follows from a new width of the command panel.
#[derive(Clone, Copy, Debug, PartialEq, Eq, Structural)]
pub enum TerminalResize {
    /// The terminal gets its new size when the drag ends.
    Deferred,
    Now(TerminalSize),
}

/// What the mouse is doing.
#[derive(Clone, Copy, Debug, PartialEq, Eq, Structural)]
pub struct PointerState {
    pub splitter_drag: Option<SplitterDrag>,
    /// Where the selection that is being dragged was started.
    pub terminal_selection_drag: Option<TerminalGridPoint>,
    pub terminal_selection: Option<TerminalSelection>,
}

impl PointerState {
    pub fn new() -> (state: Self)
        ensures
            state == (PointerState {
                splitter_drag: None,
                terminal_selection_drag: None,
                terminal_selection: None,
            }),
    {
        PointerState {
            splitter_drag: None,
            terminal_selection_drag: None,
            terminal_selection: None,
        }
    }

    /// Drops the selection; reports whether there was one.
    pub fn clear_terminal_selection(&mut self) -> (cleared: bool)
        ensures
            *final(self) == (PointerState { terminal_selection: None, ..*old(self) }),
            cleared == old(self).terminal_selection is Some,
    {
        let cleared = self.terminal_selection.is_some();
        self.terminal_selection = None;
        cleared
    }

    /// The session was given another size; `resized` is how that went. What was selected
    /// is so no more once it has the size.
    pub fn session_resized(&mut self, resized: AppResult<()>) -> (result: AppResult<()>)
        ensures
            result == resized,
            resized is Ok ==> *final(self) == (PointerState {
                terminal_selection: None,
                ..*old(self)
            }),
            resized is Err ==> *final(self) == *old(self),
    {
        if resized.is_ok() {
            let _ = self.clear_terminal_selection();
        }
        resized
    }

    /// The display was asked to scroll. `moved` says whether it moved, and `shown` how
    /// showing it went then. What was selected is so no more once another part of the
    /// history is shown; nothing else drops it. Reports whether that is so.
    pub fn display_scrolled(&mut self, moved: AppResult<bool>, shown: AppResult<()>) -> (result:
        AppResult<bool>)
        ensures
            match (moved, shown) {
                (Err(error), _) => result == Err::<bool, AppError>(error),
                (Ok(false), _) => result == Ok::<bool, AppError>(false),
                (Ok(true), Err(error)) => result == Err::<bool, AppError>(error),
                (Ok(true), Ok(())) => result == Ok::<bool, AppError>(true),
            },
            result == Ok::<bool, AppError>(true) ==> *final(self) == (PointerState {
                terminal_selection: None,
                ..*old(self)
            }),
            result != Ok::<bool, AppError>(true) ==> *final(self) == *old(self),
    {
        match moved {
            Err(error) => Err(error),
            Ok(false) => Ok(false),
            Ok(true) => match shown {
                Err(error) => Err(error),
                Ok(()) => {
                    let _ = self.clear_terminal_selection();
                    Ok(true)
                },
            },
        }
    }

    /// A text is about to be pasted, if there is one: nothing is selected then. Reports
    /// whether something was.
    pub fn begin_paste(&mut self, text: &Option<String>) -> (cleared: bool)
        ensures
            text is Some ==> *final(self) == (PointerState {
                terminal_selection: None,
                ..*old(self)
            }),
            text is None ==> *final(self) == *old(self),
            cleared == (text is Some && old(self).terminal_selection is Some),
    {
        if text.is_none() {
            return false;
        }
        self.clear_terminal_selection()
    }

    /// Terminal events were taken: where the tab that is shown has changed, nothing is
    /// selected any more. Reports whether something was.
    pub fn events_drained(&mut self, active_tab_dirty: bool) -> (cleared: bool)
        ensures
            active_tab_dirty ==> *final(self) == (PointerState {
                terminal_selection: None,
                ..*old(self)
            }),
            !active_tab_dirty ==> *final(self) == *old(self),
            cleared == (active_tab_dirty && old(self).terminal_selection is Some),
    {
        active_tab_dirty && self.clear_terminal_selection()
    }

    pub fn start_splitter_drag(&mut self, point: UiPoint, splitter: UiRect)
        ensures
            final(self).splitter_drag == Some(taken_at(point, splitter)),
            *final(self) == (PointerState {
                splitter_drag: Some(
                    SplitterDrag {
                        pointer_offset_x: num::clamped(point.x - splitter.x) as i32,
                        pending_splitter_x: None,
                        resize_scheduled: false,
                        deferred_terminal_size: None,
                    },
                ),
                ..*old(self)
            }),
    {
        self.splitter_drag = Some(
            SplitterDrag {
                pointer_offset_x: num::saturating_sub(point.x, splitter.x),
                pending_splitter_x: None,
                resize_scheduled: false,
                deferred_terminal_size: None,
            },
        );
    }

    /// The left button goes down: the splitter or a selection may be taken.
    pub fn handle_left_button_down(
        &mut self,
        layout: &WindowLayout,
        point: UiPoint,
        draws_buttons: bool,
        cell: Option<TerminalGridPoint>,
    ) -> (target: PointerTarget)
        ensures
            target == target_at(*layout, point, draws_buttons, cell),
            *final(self) == (match target {
                PointerTarget::Splitter => PointerState {
                    splitter_drag: Some(
                        SplitterDrag {
                            pointer_offset_x: num::clamped(point.x - layout.splitter.x) as i32,
                            pending_splitter_x: None,
                            resize_scheduled: false,
                            deferred_terminal_size: None,
                        },
                    ),
                    ..*old(self)
                },
                PointerTarget::Cell(anchor) => PointerState {
                    terminal_selection_drag: Some(anchor),
                    terminal_selection: None,
                    ..*old(self)
                },
                _ => *old(self),
            }),
    {
        let target = pointer_target(layout, point, draws_buttons, cell);
        match target {
            PointerTarget::Splitter => self.start_splitter_drag(point, layout.splitter),
            PointerTarget::Cell(anchor) => {
                self.terminal_selection_drag = Some(anchor);
                let _ = self.clear_terminal_selection();
            },
            _ => {},
        }
        target
    }

    /// Where the splitter is dragged to.
    pub fn splitter_drag_x(&self, point: UiPoint) -> (x: Option<i32>)
        ensures
            x is Some == self.splitter_drag is Some,
            self.splitter_drag matches Some(drag) ==> x->0 == held_at(drag, point),
            x is Some ==> x->0 == num::clamped(
                point.x - (self.splitter_drag->0).pointer_offset_x,
            ),
    {
        match self.splitter_drag {
            Some(drag) => Some(num::saturating_sub(point.x, drag.pointer_offset_x)),
            None => None,
        }
    }

    /// The pointer moves; `focus` is the cell nearest to it.
    pub fn handle_mouse_motion(&mut self, point: UiPoint, focus: Option<TerminalGridPoint>) -> (outcome:
        MotionOutcome)
        ensures
            old(self).terminal_selection_drag is Some ==> {
                &&& focus is None ==> *final(self) == *old(self) && outcome is Nothing
                &&& focus is Some ==> {
                    &&& *final(self) == (PointerState {
                        terminal_selection: dragged(
                            old(self).terminal_selection_drag->0,
                            focus->0,
                        ),
                        ..*old(self)
                    })
                    &&& outcome == (if *final(self) == *old(self) {
                        MotionOutcome::Nothing
                    } else {
                        MotionOutcome::Redraw
                    })
                }
            },
            old(self).terminal_selection_drag is None && old(self).splitter_drag is None ==> {
                *final(self) == *old(self) && outcome is Nothing
            },
            old(self).terminal_selection_drag is None && old(self).splitter_drag is Some ==> {
                let drag = old(self).splitter_drag->0;
                let x = num::clamped(point.x - drag.pointer_offset_x) as i32;
                &&& *final(self) == (PointerState {
                    splitter_drag: Some(
                        SplitterDrag {
                            pending_splitter_x: Some(x),
                            resize_scheduled: drag.resize_scheduled || drag.pending_splitter_x
                                != Some(x),
                            ..drag
                        },
                    ),
                    ..*old(self)
                })
                &&& outcome == (if drag.pending_splitter_x != Some(x) && !drag.resize_scheduled {
                    MotionOutcome::ScheduleResize
                } else {
                    MotionOutcome::Nothing
                })
            },
    {
        match self.terminal_selection_drag {
            Some(anchor) => {
                return match focus {
                    Some(focus) => if update_terminal_selection(
                        &mut self.terminal_selection,
                        anchor,
                        focus,
                    ) {
                        MotionOutcome::Redraw
                    } else {
                        MotionOutcome::Nothing
                    },
                    None => MotionOutcome::Nothing,
                };
            },
            None => {},
        }
        let mut drag = match self.splitter_drag {
            Some(drag) => drag,
            None => return MotionOutcome::Nothing,
        };
        let x = num::saturating_sub(point.x, drag.pointer_offset_x);
        let same = match drag.pending_splitter_x {
            Some(pending) => pending == x,
            None => false,
        };
        if same {
            return MotionOutcome::Nothing;
        }
        let scheduled = drag.resize_scheduled;
        drag.pending_splitter_x = Some(x);
        drag.resize_scheduled = true;
        self.splitter_drag = Some(drag);
        if scheduled {
            MotionOutcome::Nothing
        } else {
            MotionOutcome::ScheduleResize
        }
    }

    /// Takes the position that the splitter is to be moved to, if there is one.
    pub fn process_pending_splitter_resize(&mut self) -> (splitter_x: Option<i32>)
        ensures
            old(self).splitter_drag is None ==> *final(self) == *old(self) && splitter_x is None,
            old(self).splitter_drag is Some ==> {
                &&& splitter_x == (old(self).splitter_drag->0).pending_splitter_x
                &&& *final(self) == (PointerState {
                    splitter_drag: Some(
                        SplitterDrag {
                            pending_splitter_x: None,
                            resize_scheduled: false,
                            ..old(self).splitter_drag->0
                        },
                    ),
                    ..*old(self)
                })
            },
    {
        match self.splitter_drag {
            Some(drag) => {
                self.splitter_drag = Some(
                    SplitterDrag {
                        pointer_offset_x: drag.pointer_offset_x,
                        pending_splitter_x: None,
                        resize_scheduled: false,
                        deferred_terminal_size: drag.deferred_terminal_size,
                    },
                );
                drag.pending_splitter_x
            },
            None => None,
        }
    }

    /// The command panel has another width. While the splitter is dragged a
    /// terminal that is shown and keeps its cells is resized at the end.
    pub fn panel_resized(&mut self, previous: TerminalSize, next: TerminalSize, has_viewport: bool) -> (resize:
        TerminalResize)
        ensures
            resize == (if resize_is_deferred(*old(self), previous, next, has_viewport) {
                TerminalResize::Deferred
            } else {
                TerminalResize::Now(next)
            }),
            deferred_size(*final(self)) == (if resize is Deferred {
                Some(next)
            } else {
                None
            }),
            *final(self) == (PointerState {
                splitter_drag: match old(self).splitter_drag {
                    Some(drag) => Some(
                        SplitterDrag {
                            deferred_terminal_size: if resize is Deferred {
                                Some(next)
                            } else {
                                None
                            },
                            ..drag
                        },
                    ),
                    None => None,
                },
                ..*old(self)
            }),
    {
        let mut drag = match self.splitter_drag {
            Some(drag) => drag,
            None => return TerminalResize::Now(next),
        };
        let deferred = has_viewport && !grid::terminal_grid_changed(previous, next);
        drag.deferred_terminal_size = if deferred {
            Some(next)
        } else {
            None
        };
        self.splitter_drag = Some(drag);
        if deferred {
            TerminalResize::Deferred
        } else {
            TerminalResize::Now(next)
        }
    }

    /// The drags end; the size that the terminal is to get then.
    pub fn handle_left_button_up(&mut self) -> (deferred: Option<TerminalSize>)
        ensures
            deferred == deferred_size(*old(self)),
            *final(self) == (PointerState {
                splitter_drag: None,
                terminal_selection_drag: None,
                ..*old(self)
            }),
    {
        self.terminal_selection_drag = None;
        self.cancel_splitter_drag()
    }

    /// Drops the splitter; the size that the terminal is to get then.
    pub fn cancel_splitter_drag(&mut self) -> (deferred: Option<TerminalSize>)
        ensures
            deferred == deferred_size(*old(self)),
            *final(self) == (PointerState { splitter_drag: None, ..*old(self) }),
    {
        let deferred = match self.splitter_drag {
            Some(drag) => drag.deferred_terminal_size,
            None => None,
        };
        self.splitter_drag = None;
        deferred
    }

    /// Ends the drag of the splitter, unless the pointer cannot be given back.
    pub fn finish_splitter_drag(&mut self, released: AppResult<()>) -> (deferred: AppResult<
        Option<TerminalSize>,
    >)
        ensures
            match (old(self).splitter_drag, released) {
                (None, _) => *final(self) == *old(self) && deferred is Ok && deferred->Ok_0 is None,
                (Some(drag), Ok(_)) => {
                    &&& *final(self) == (PointerState { splitter_drag: None, ..*old(self) })
                    &&& deferred is Ok && deferred->Ok_0 == drag.deferred_terminal_size
                },
                (Some(_), Err(error)) => {
                    &&& *final(self) == *old(self)
                    &&& deferred is Err && deferred->Err_0 == error
                },
            },
    {
        match self.splitter_drag {
            Some(_) => match released {
                Ok(()) => Ok(self.cancel_splitter_drag()),
                Err(error) => Err(error),
            },
            None => Ok(None),
        }
    }

    /// Ends the drag of a selection, unless the pointer cannot be given back.
    pub fn finish_terminal_selection_drag(&mut self, released: AppResult<()>) -> (finished: AppResult<
        (),
    >)
        ensures
            match (old(self).terminal_selection_drag, released) {
                (None, _) => *final(self) == *old(self) && finished is Ok,
                (Some(_), Ok(_)) => {
                    &&& *final(self) == (PointerState {
                        terminal_selection_drag: None,
                        ..*old(self)
                    })
                    &&& finished is Ok
                },
                (Some(_), Err(error)) => {
                    &&& *final(self) == *old(self)
                    &&& finished is Err && finished->Err_0 == error
                },
            },
    {
        match self.terminal_selection_drag {
            Some(_) => match released {
                Ok(()) => {
                    self.terminal_selection_drag = None;
                    Ok(())
                },
                Err(error) => Err(error),
            },
            None => Ok(()),
        }
    }
}

/// The selection that a drag makes.
pub open spec fn dragged(anchor: TerminalGridPoint, focus: TerminalGridPoint) -> Option<
    TerminalSelection,
> {
    if anchor == focus {
        None
    } else {
        Some(TerminalSelection { anchor, focus })
    }
}

/// Whether a terminal gets its new size at the end of the drag only.
pub open spec fn resize_is_deferred(
    state: PointerState,
    previous: TerminalSize,
    next: TerminalSize,
    has_viewport: bool,
) -> bool {
    &&& state.splitter_drag is Some
    &&& has_viewport
    &&& previous.rows == next.rows
    &&& previous.columns == next.columns
}

/// The size that waits for the end of the drag.
pub open spec fn deferred_size(state: PointerState) -> Option<TerminalSize> {
    match state.splitter_drag {
        Some(drag) => drag.deferred_terminal_size,
        None => None,
    }
}

/// A press reaches what is at the point, the foremost thing first: the splitter wherever
/// it is, then the close button of a tab, then the button for a new tab, then a tab,
/// then a command button where the window draws them, then a cell. Of two that overlap
/// the earlier one is reached. Nothing is reached where nothing is.
pub proof fn law_press_reaches_what_is_there(
    layout: WindowLayout,
    point: UiPoint,
    draws_buttons: bool,
    cell: Option<TerminalGridPoint>,
    i: int,
)
    ensures
        ({
            let target = target_at(layout, point, draws_buttons, cell);
            let x = point.x as int;
            let y = point.y as int;
            let tabs = layout.tabs@;
            let buttons = layout.buttons@;
            let on_splitter = layout.splitter.covers(x, y);
            let on_close = exists|j: int|
                0 <= j < tabs.len() && layout::closes_at(#[trigger] tabs[j], point);
            let on_new = layout.new_tab_button is Some && layout.new_tab_button->0.covers(x, y);
            let on_tab = exists|j: int|
                0 <= j < tabs.len() && (#[trigger] tabs[j]).bounds.covers(x, y);
            let on_button = draws_buttons && exists|j: int|
                0 <= j < buttons.len() && (#[trigger] buttons[j]).bounds.covers(x, y);
            &&& target is Splitter <==> on_splitter
            &&& target is CloseTab <==> !on_splitter && on_close
            &&& target is NewTab <==> !on_splitter && !on_close && on_new
            &&& target is Tab <==> !on_splitter && !on_close && !on_new && on_tab
            &&& target is CommandButton <==> !on_splitter && !on_close && !on_new && !on_tab
                && on_button
            &&& target is Cell <==> !on_splitter && !on_close && !on_new && !on_tab && !on_button
                && cell is Some
            &&& target is Cell ==> target->Cell_0 == cell->0
            &&& target is CloseTab && 0 <= i < tabs.len() && layout::closes_at(tabs[i], point)
                && (forall|j: int| 0 <= j < i ==> !layout::closes_at(#[trigger] tabs[j], point))
                ==> target->CloseTab_0 == tabs[i].id
            &&& target is Tab && 0 <= i < tabs.len() && tabs[i].bounds.covers(x, y) && (forall|
                j: int,
            |
                0 <= j < i ==> !(#[trigger] tabs[j]).bounds.covers(x, y)) ==> target->Tab_0
                == tabs[i].id
            &&& target is CommandButton && 0 <= i < buttons.len() && buttons[i].bounds.covers(x, y)
                && (forall|j: int| 0 <= j < i ==> !(#[trigger] buttons[j]).bounds.covers(x, y))
                ==> target->CommandButton_0 == buttons[i].id
        }),
{
    layout::law_first_tab_under_a_point(layout.tabs@, point);
    layout::law_first_close_button_under_a_point(layout.tabs@, point);
    layout::law_first_button_under_a_point(layout.buttons@, point);
}

/// A drag selects from where it began to where it is; it selects nothing where it is back
/// where it began.
pub proof fn law_drag_selects_from_its_start(anchor: TerminalGridPoint, focus: TerminalGridPoint)
    ensures
        dragged(anchor, focus) is Some <==> anchor.row != focus.row || anchor.column != focus.column,
        dragged(anchor, focus) matches Some(selection) ==> selection.anchor == anchor
            && selection.focus == focus,
{
}

/// How a splitter is held when it is taken at a point.
pub open spec fn taken_at(point: UiPoint, splitter: UiRect) -> SplitterDrag {
    SplitterDrag {
        pointer_offset_x: num::clamped(point.x - splitter.x) as i32,
        pending_splitter_x: None,
        resize_scheduled: false,
        deferred_terminal_size: None,
    }
}

/// Where a splitter is while the pointer is at a point.
pub open spec fn held_at(drag: SplitterDrag, point: UiPoint) -> int {
    num::clamped(point.x - drag.pointer_offset_x)
}

/// While it is dragged, the splitter moves as far as the pointer does, and stays where it
/// is while the pointer does.
pub proof fn law_splitter_follows_the_pointer(start: UiPoint, splitter: UiRect, point: UiPoint)
    requires
        splitter.x <= start.x,
        start.x - splitter.x <= i32::MAX,
        i32::MIN <= point.x - (start.x - splitter.x),
    ensures
        held_at(taken_at(start, splitter), point) - splitter.x == point.x - start.x,
        held_at(taken_at(start, splitter), start) == splitter.x,
{
}

/// A terminal keeps its size until the drag ends exactly where it is shown, the splitter
/// is dragged and as many rows and columns fit as before; the size that waits is the one
/// that it then gets.
pub proof fn law_only_pixels_wait_for_the_end_of_a_drag(
    state: PointerState,
    previous: TerminalSize,
    next: TerminalSize,
    has_viewport: bool,
)
    ensures
        resize_is_deferred(state, previous, next, has_viewport) ==> state.splitter_drag is Some
            && has_viewport && previous.rows == next.rows && previous.columns == next.columns,
        state.splitter_drag is Some && has_viewport && previous.rows == next.rows
            && previous.columns == next.columns ==> resize_is_deferred(
            state,
            previous,
            next,
            has_viewport,
        ),
        deferred_size(PointerState { splitter_drag: None, ..state }) is None,
        state.splitter_drag matches Some(drag) ==> deferred_size(state)
            == drag.deferred_terminal_size,
{
}

} // verus!
