//! What a window shows of its command panel.

use vstd::prelude::*;

use crate::domain::command_panel::CommandPanel;
use crate::domain::layout::WindowLayout;
use crate::domain::terminal::TerminalSize;
use crate::error::{AppError, AppResult, ErrorModel};
use crate::num;
use crate::renderer::geometry::DeviceRect;
use crate::window::failure::{self, ROLLBACK_CONTROLS};
use crate::window::grid;
use crate::window::pointer::{self, PointerState, SplitterDrag, TerminalResize};
use crate::window::widgets::{self, SplitterResizeWidgetSync};

verus! {

/// What is tried where the controls did not follow.
pub const ROLLBACK_CONTROLS_TASK: &'static str = "rollback command panel controls";

/// The panel, how far its buttons are scrolled, and where all is placed.
#[derive(Debug, PartialEq, Eq)]
pub struct CommandPanelViewState {
    pub command_panel: CommandPanel,
    pub command_button_scroll_position: usize,
    pub layout: WindowLayout,
}

/// How far the buttons of a layout are scrolled.
pub open spec fn scrolled_to(layout: WindowLayout) -> usize {
    match layout.command_button_scroll {
        Some(scroll) => scroll.position,
        None => 0,
    }
}

impl CommandPanelViewState {
    /// The panel in a layout that was made for it.
    pub fn new(command_panel: CommandPanel, layout: WindowLayout) -> (state: Self)
        ensures
            state.command_panel == command_panel,
            state.layout == layout,
            state.command_button_scroll_position == scrolled_to(layout),
    {
        let command_button_scroll_position = layout.command_button_scroll_position();
        CommandPanelViewState { command_panel, command_button_scroll_position, layout }
    }

    /// Takes another layout; the buttons are scrolled as far as it says.
    pub fn refresh_layout(&mut self, layout: WindowLayout)
        ensures
            *final(self) == (CommandPanelViewState {
                command_panel: old(self).command_panel,
                command_button_scroll_position: scrolled_to(layout),
                layout,
            }),
    {
        self.command_button_scroll_position = layout.command_button_scroll_position();
        self.layout = layout;
    }
}

/// What is to be done next so that the controls show another state.
#[derive(Clone, Copy, Debug, PartialEq, Eq, Structural)]
pub enum SyncStage {
    /// Have the controls show the next state.
    SyncNext,
    /// Have the controls show the state from before.
    SyncBack,
    Finished,
}

/// Controls on their way to another state.
#[derive(Debug)]
pub struct ControlsSync {
    next: Option<CommandPanelViewState>,
    stage: SyncStage,
    error: Option<AppError>,
}

impl ControlsSync {
    /// The state that the controls are to show.
    pub closed spec fn spec_next(&self) -> Option<CommandPanelViewState> {
        self.next
    }

    pub closed spec fn spec_stage(&self) -> SyncStage {
        self.stage
    }

    pub closed spec fn spec_error(&self) -> Option<ErrorModel> {
        match self.error {
            Some(error) => Some(error@),
            None => None,
        }
    }

    pub closed spec fn wf(&self) -> bool {
        &&& self.stage is SyncNext ==> self.next is Some && self.error is None
        &&& self.stage is SyncBack ==> self.error is Some
    }

    /// Begins to have the controls show a state.
    pub fn begin(next: CommandPanelViewState) -> (sync: Self)
        ensures
            sync.wf(),
            sync.spec_stage() is SyncNext,
            sync.spec_next() == Some(next),
    {
        ControlsSync { next: Some(next), stage: SyncStage::SyncNext, error: None }
    }

    pub fn stage(&self) -> (stage: SyncStage)
        ensures
            stage == self.spec_stage(),
    {
        self.stage
    }

    /// The state that the controls are to show, while they are on their way to
    /// it.
    pub fn next(&self) -> (next: Option<&CommandPanelViewState>)
        ensures
            next is Some == self.spec_next() is Some,
            next is Some ==> *next->0 == self.spec_next()->0,
    {
        match &self.next {
            Some(next) => Some(next),
            None => None,
        }
    }

    /// Takes note of how the controls followed. The view takes the next state
    /// once they did, and stays as it is where they did not.
    pub fn step(&mut self, view: &mut CommandPanelViewState, synced: AppResult<()>)
        requires
            old(self).wf(),
        ensures
            final(self).wf(),
            old(self).spec_stage() is SyncNext && synced is Ok ==> {
                &&& final(self).spec_stage() is Finished && final(self).spec_error() is None
                &&& *final(view) == old(self).spec_next()->0
            },
            old(self).spec_stage() is SyncNext && synced is Err ==> {
                &&& final(self).spec_stage() is SyncBack
                &&& final(self).spec_error() == Some((synced->Err_0)@)
                &&& *final(view) == *old(view)
            },
            old(self).spec_stage() is SyncBack ==> {
                &&& final(self).spec_stage() is Finished
                &&& *final(view) == *old(view)
                &&& final(self).spec_error() == Some(
                    match synced {
                        Ok(_) => old(self).spec_error()->0,
                        Err(second) => ErrorModel::Ui(
                            ROLLBACK_CONTROLS@,
                            failure::double_failure(
                                (old(self).spec_error()->0).text(),
                                ROLLBACK_CONTROLS_TASK@,
                                second@.text(),
                            ),
                        ),
                    },
                )
            },
            old(self).spec_stage() is Finished ==> final(self).spec_stage() is Finished
                && final(self).spec_error() == old(self).spec_error() && *final(view) == *old(view),
    {
        match self.stage {
            SyncStage::SyncNext => match synced {
                Ok(()) => {
                    match self.next.take() {
                        Some(next) => *view = next,
                        None => {},
                    }
                    self.stage = SyncStage::Finished;
                },
                Err(error) => {
                    self.next = None;
                    self.error = Some(error);
                    self.stage = SyncStage::SyncBack;
                },
            },
            SyncStage::SyncBack => {
                match self.error.take() {
                    Some(error) => {
                        self.error = Some(
                            failure::after_rollback(
                                error,
                                ROLLBACK_CONTROLS,
                                ROLLBACK_CONTROLS_TASK,
                                synced,
                            ),
                        );
                    },
                    None => {},
                }
                self.stage = SyncStage::Finished;
            },
            SyncStage::Finished => {},
        }
    }

    /// How it ended.
    pub fn finish(self) -> (result: AppResult<()>)
        requires
            self.spec_stage() is Finished,
        ensures
            result is Ok == self.spec_error() is None,
            result is Err ==> self.spec_error() == Some((result->Err_0)@),
    {
        match self.error {
            Some(error) => Err(error),
            None => Ok(()),
        }
    }
}

/// What a layout is made from again where a new width cannot be kept.
#[derive(Clone, Copy, Debug, PartialEq, Eq, Structural)]
pub struct CommandPanelResizeSnapshot {
    pub client_width: i32,
    pub client_height: i32,
    pub command_panel_width: i32,
    pub command_button_scroll_position: usize,
}

/// What is remembered of a view before its panel gets another width.
pub fn command_panel_resize_snapshot(view: &CommandPanelViewState, command_panel_width: i32) -> (snapshot:
    CommandPanelResizeSnapshot)
    ensures
        snapshot.client_width == num::max_int(view.layout.tab_bar.width as int, 1),
        snapshot.client_height == num::max_int(
            num::clamped(view.layout.tab_bar.height + view.layout.terminal.height),
            1,
        ),
        snapshot.command_panel_width == command_panel_width,
        snapshot.command_button_scroll_position == view.command_button_scroll_position,
{
    let (client_width, client_height) = grid::layout_client_size(&view.layout);
    CommandPanelResizeSnapshot {
        client_width,
        client_height,
        command_panel_width,
        command_button_scroll_position: view.command_button_scroll_position,
    }
}

/// Whether a width that the splitter asks for is another than the panel has:
/// the one that was asked for last, and the one that the layout gave it.
pub fn command_panel_width_changes(requested: i32, current: i32, layout: &WindowLayout) -> (changes:
    bool)
    ensures
        changes == !(requested == current && requested == layout.command_panel.width),
{
    !(requested == current && requested == layout.command_panel.width)
}

/// The width and height between some edges, at least 1.
pub fn extent_of(rect: &DeviceRect) -> (extent: (i32, i32))
    ensures
        extent.0 == num::max_int(num::clamped(rect.right - rect.left), 1),
        extent.1 == num::max_int(num::clamped(rect.bottom - rect.top), 1),
{
    (
        num::max_i32(num::saturating_sub(rect.right, rect.left), 1),
        num::max_i32(num::saturating_sub(rect.bottom, rect.top), 1),
    )
}

/// What a place of the splitter asks for: the panel's width, where all is placed
/// then, whether the layout could be kept for that, and what the terminal's size was
/// and is.
#[derive(Debug, PartialEq, Eq)]
pub struct SplitterResize {
    pub command_panel_width: i32,
    pub layout: WindowLayout,
    pub resized_in_place: bool,
    pub previous_terminal_size: TerminalSize,
    pub terminal_size: TerminalSize,
}

/// Gives the command panel another width while the splitter is moved. Says what the
/// widgets have to follow, and the size that the session gets now; a width that
/// stays the same changes nothing. What is selected stays so until it is known how
/// that went: see `PointerState::session_resized`.
pub fn resize_command_panel_from_splitter(
    view: &mut CommandPanelViewState,
    command_panel_width: &mut i32,
    pointer: &mut PointerState,
    resize: SplitterResize,
    has_viewport: bool,
) -> (followed: (SplitterResizeWidgetSync, Option<TerminalSize>))
    ensures
        resize.command_panel_width == *old(command_panel_width) ==> {
            &&& *final(view) == *old(view)
            &&& *final(command_panel_width) == *old(command_panel_width)
            &&& *final(pointer) == *old(pointer)
            &&& followed == (SplitterResizeWidgetSync::Unchanged, None::<TerminalSize>)
        },
        resize.command_panel_width != *old(command_panel_width) ==> {
            let deferred = pointer::resize_is_deferred(
                *old(pointer),
                resize.previous_terminal_size,
                resize.terminal_size,
                has_viewport,
            );
            let waiting = if deferred {
                Some(resize.terminal_size)
            } else {
                None
            };
            &&& *final(command_panel_width) == resize.command_panel_width
            &&& *final(view) == (CommandPanelViewState {
                command_panel: old(view).command_panel,
                command_button_scroll_position: scrolled_to(resize.layout),
                layout: resize.layout,
            })
            &&& *final(pointer) == (PointerState {
                splitter_drag: match old(pointer).splitter_drag {
                    Some(drag) => Some(
                        SplitterDrag { deferred_terminal_size: waiting, ..drag },
                    ),
                    None => None,
                },
                ..*old(pointer)
            })
            &&& followed.0 == (if resize.resized_in_place {
                SplitterResizeWidgetSync::GeometryOnly
            } else {
                SplitterResizeWidgetSync::RebuildCommandWidgets
            })
            &&& followed.1 == (if deferred {
                None
            } else {
                Some(resize.terminal_size)
            })
        },
{
    let sync = widgets::splitter_resize_sync(
        *command_panel_width,
        resize.command_panel_width,
        resize.resized_in_place,
    );
    if *command_panel_width == resize.command_panel_width {
        return (sync, None);
    }
    *command_panel_width = resize.command_panel_width;
    view.refresh_layout(resize.layout);
    let session = pointer.panel_resized(
        resize.previous_terminal_size,
        resize.terminal_size,
        has_viewport,
    );
    match session {
        TerminalResize::Now(size) => (sync, Some(size)),
        TerminalResize::Deferred => (sync, None),
    }
}

/// The buttons are scrolled as far as their scroll bar says, and not at all without one.
pub proof fn law_buttons_are_scrolled_as_the_bar_says(layout: WindowLayout)
    ensures
        layout.command_button_scroll is None ==> scrolled_to(layout) == 0,
        layout.command_button_scroll matches Some(scroll) ==> scrolled_to(layout)
            == scroll.position,
{
}

} // verus!
