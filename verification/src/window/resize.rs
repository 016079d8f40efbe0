//! Giving the terminal another size or font, and taking that back where a step
//! fails.

use vstd::prelude::*;

use crate::domain::terminal::TerminalSize;
use crate::error::{AppError, AppResult, ErrorModel};
use crate::window::failure::{
    self, ROLLBACK_FONT, ROLLBACK_FONT_TASK, ROLLBACK_LAYOUT_TASK, ROLLBACK_RESIZE,
    ROLLBACK_SESSION_TASK,
};
use crate::window::pointer::{PointerState, SplitterDrag};

verus! {

/// Another width of the command panel, or another size of the window.
#[derive(Clone, Copy, Debug, PartialEq, Eq, Structural)]
pub struct SizeChange {
    pub previous_terminal_size: TerminalSize,
    pub terminal_size: TerminalSize,
    pub terminal_grid_changed: bool,
}

/// What is to be done next.
#[derive(Clone, Copy, Debug, PartialEq, Eq, Structural)]
pub enum ResizeStage {
    /// Give the session its new size.
    ResizeSession,
    /// Show what the session shows now.
    RefreshViewport,
    /// Give the session its previous size.
    ResizeSessionBack,
    /// Lay the window out as it was.
    RollbackView,
    Finished,
}

/// A change of size in progress, as a value.
#[verifier::ext_equal]
pub struct ResizeModel {
    pub change: SizeChange,
    /// Whether the session, too, is taken back where its content cannot be
    /// shown.
    pub restores_session: bool,
    pub refreshes: bool,
    pub stage: ResizeStage,
    pub error: Option<ErrorModel>,
}

impl ResizeModel {
    pub open spec fn begun(change: SizeChange, restores_session: bool, has_viewport: bool) -> ResizeModel {
        ResizeModel {
            change,
            restores_session,
            refreshes: change.terminal_grid_changed || !has_viewport,
            stage: ResizeStage::ResizeSession,
            error: None,
        }
    }

    pub open spec fn at(self, stage: ResizeStage) -> ResizeModel {
        ResizeModel { stage, ..self }
    }

    pub open spec fn failed(self, stage: ResizeStage, error: ErrorModel) -> ResizeModel {
        ResizeModel { stage, error: Some(error), ..self }
    }

    /// The failure so far and one that came on the way back.
    pub open spec fn doubled(self, task: Seq<char>, error: ErrorModel) -> ErrorModel {
        ErrorModel::Ui(
            ROLLBACK_RESIZE@,
            failure::double_failure((self.error->0).text(), task, error.text()),
        )
    }

    /// The change after a step.
    pub open spec fn after(self, outcome: Result<(), ErrorModel>) -> ResizeModel {
        match self.stage {
            ResizeStage::ResizeSession => match outcome {
                Ok(_) => if self.refreshes {
                    self.at(ResizeStage::RefreshViewport)
                } else {
                    self.at(ResizeStage::Finished)
                },
                Err(error) => self.failed(ResizeStage::RollbackView, error),
            },
            ResizeStage::RefreshViewport => match outcome {
                Ok(_) => self.at(ResizeStage::Finished),
                Err(error) => if self.restores_session {
                    self.failed(ResizeStage::ResizeSessionBack, error)
                } else {
                    self.failed(ResizeStage::Finished, error)
                },
            },
            ResizeStage::ResizeSessionBack => match outcome {
                Ok(_) => self.at(ResizeStage::RollbackView),
                Err(error) => self.failed(
                    ResizeStage::RollbackView,
                    self.doubled(ROLLBACK_SESSION_TASK@, error),
                ),
            },
            ResizeStage::RollbackView => match outcome {
                Ok(_) => self.at(ResizeStage::Finished),
                Err(error) => self.failed(
                    ResizeStage::Finished,
                    self.doubled(ROLLBACK_LAYOUT_TASK@, error),
                ),
            },
            ResizeStage::Finished => self,
        }
    }

    pub open spec fn consistent(self) -> bool {
        &&& self.stage is ResizeSession || self.stage is RefreshViewport ==> self.error is None
        &&& self.stage is ResizeSessionBack || self.stage is RollbackView ==> self.error is Some
    }
}

/// A change of size in progress.
#[derive(Debug)]
pub struct ResizeRun {
    change: SizeChange,
    restores_session: bool,
    refreshes: bool,
    stage: ResizeStage,
    error: Option<AppError>,
}

impl View for ResizeRun {
    type V = ResizeModel;

    closed spec fn view(&self) -> ResizeModel {
        ResizeModel {
            change: self.change,
            restores_session: self.restores_session,
            refreshes: self.refreshes,
            stage: self.stage,
            error: match self.error {
                Some(error) => Some(error@),
                None => None,
            },
        }
    }
}

/// Which changes a window is drawn anew after.
#[derive(Clone, Copy, Debug, PartialEq, Eq, Structural)]
pub struct ClientResizeOutcome {
    pub terminal_grid_changed: bool,
    pub refreshed_terminal_viewport: bool,
}

impl ClientResizeOutcome {
    pub fn should_invalidate_client(self) -> (should: bool)
        ensures
            should == (self.terminal_grid_changed || self.refreshed_terminal_viewport),
    {
        self.terminal_grid_changed || self.refreshed_terminal_viewport
    }
}

impl ResizeRun {
    /// Begins to apply another size of the window.
    pub fn for_client(change: SizeChange, has_viewport: bool) -> (run: Self)
        ensures
            run@ == ResizeModel::begun(change, false, has_viewport),
            run@.consistent(),
    {
        ResizeRun {
            change,
            restores_session: false,
            refreshes: change.terminal_grid_changed || !has_viewport,
            stage: ResizeStage::ResizeSession,
            error: None,
        }
    }

    /// Begins to apply another width of the command panel. While the splitter
    /// is dragged, a terminal that is shown and keeps its cells gets its size
    /// at the end of the drag: then nothing is to be done now.
    pub fn for_command_panel(pointer: &mut PointerState, change: SizeChange, has_viewport: bool) -> (run:
        Option<Self>)
        ensures
            run is None == {
                &&& old(pointer).splitter_drag is Some
                &&& !change.terminal_grid_changed
                &&& has_viewport
            },
            run is None ==> *final(pointer) == (PointerState {
                splitter_drag: Some(
                    SplitterDrag {
                        deferred_terminal_size: Some(change.terminal_size),
                        ..old(pointer).splitter_drag->0
                    },
                ),
                ..*old(pointer)
            }),
            run is Some ==> {
                &&& *final(pointer) == *old(pointer)
                &&& (run->0)@ == ResizeModel::begun(change, true, has_viewport)
                &&& (run->0)@.consistent()
            },
    {
        match pointer.splitter_drag {
            Some(drag) => {
                if !change.terminal_grid_changed && has_viewport {
                    let mut deferring = drag;
                    deferring.deferred_terminal_size = Some(change.terminal_size);
                    pointer.splitter_drag = Some(deferring);
                    return None;
                }
            },
            None => {},
        }
        Some(
            ResizeRun {
                change,
                restores_session: true,
                refreshes: change.terminal_grid_changed || !has_viewport,
                stage: ResizeStage::ResizeSession,
                error: None,
            },
        )
    }

    pub fn stage(&self) -> (stage: ResizeStage)
        ensures
            stage == self@.stage,
    {
        self.stage
    }

    /// The size that the session gets next.
    pub fn session_size(&self) -> (size: TerminalSize)
        ensures
            size == (if self@.stage is ResizeSessionBack {
                self@.change.previous_terminal_size
            } else {
                self@.change.terminal_size
            }),
    {
        match self.stage {
            ResizeStage::ResizeSessionBack => self.change.previous_terminal_size,
            _ => self.change.terminal_size,
        }
    }

    /// Takes note of how the current step went.
    pub fn step(&mut self, outcome: AppResult<()>)
        requires
            old(self)@.consistent(),
        ensures
            final(self)@ == old(self)@.after(failure::outcome_model(outcome)),
            final(self)@.consistent(),
    {
        match self.stage {
            ResizeStage::ResizeSession => match outcome {
                Ok(()) => {
                    self.stage = if self.refreshes {
                        ResizeStage::RefreshViewport
                    } else {
                        ResizeStage::Finished
                    };
                },
                Err(error) => {
                    self.error = Some(error);
                    self.stage = ResizeStage::RollbackView;
                },
            },
            ResizeStage::RefreshViewport => match outcome {
                Ok(()) => {
                    self.stage = ResizeStage::Finished;
                },
                Err(error) => {
                    self.error = Some(error);
                    self.stage = if self.restores_session {
                        ResizeStage::ResizeSessionBack
                    } else {
                        ResizeStage::Finished
                    };
                },
            },
            ResizeStage::ResizeSessionBack => {
                self.double(ROLLBACK_SESSION_TASK, outcome);
                self.stage = ResizeStage::RollbackView;
            },
            ResizeStage::RollbackView => {
                self.double(ROLLBACK_LAYOUT_TASK, outcome);
                self.stage = ResizeStage::Finished;
            },
            ResizeStage::Finished => {},
        }
    }

    fn double(&mut self, task: &str, outcome: AppResult<()>)
        requires
            old(self)@.error is Some,
        ensures
            final(self)@ == (ResizeModel {
                error: match outcome {
                    Ok(_) => old(self)@.error,
                    Err(second) => Some(old(self)@.doubled(task@, second@)),
                },
                ..old(self)@
            }),
    {
        match self.error.take() {
            Some(error) => {
                self.error = Some(failure::after_rollback(error, ROLLBACK_RESIZE, task, outcome));
            },
            None => {},
        }
    }

    /// How a finished change ended. Once the command panel has its width, no
    /// size waits for the end of the drag. What was selected in other cells, or in
    /// another viewport, is so no more.
    pub fn finish(self, pointer: &mut PointerState) -> (result: AppResult<ClientResizeOutcome>)
        requires
            self@.stage is Finished,
        ensures
            match self@.error {
                Some(error) => {
                    &&& result is Err && (result->Err_0)@ == error
                    &&& *final(pointer) == *old(pointer)
                },
                None => {
                    &&& result is Ok
                    &&& (result->Ok_0).terminal_grid_changed == self@.change.terminal_grid_changed
                    &&& (result->Ok_0).refreshed_terminal_viewport == self@.refreshes
                    &&& *final(pointer) == (PointerState {
                        splitter_drag: match old(pointer).splitter_drag {
                            Some(drag) if self@.restores_session => Some(
                                SplitterDrag { deferred_terminal_size: None, ..drag },
                            ),
                            other => other,
                        },
                        terminal_selection: if self@.change.terminal_grid_changed
                            || self@.refreshes {
                            None
                        } else {
                            old(pointer).terminal_selection
                        },
                        ..*old(pointer)
                    })
                },
            },
    {
        match self.error {
            Some(error) => return Err(error),
            None => {},
        }
        if self.restores_session {
            match pointer.splitter_drag {
                Some(drag) => {
                    let mut cleared = drag;
                    cleared.deferred_terminal_size = None;
                    pointer.splitter_drag = Some(cleared);
                },
                None => {},
            }
        }
        if self.change.terminal_grid_changed || self.refreshes {
            let _ = pointer.clear_terminal_selection();
        }
        Ok(
            ClientResizeOutcome {
                terminal_grid_changed: self.change.terminal_grid_changed,
                refreshed_terminal_viewport: self.refreshes,
            },
        )
    }
}

/// A panel whose new width could not be applied is laid out as it was: a failure
/// is reported only after the view was rolled back.
pub proof fn law_failed_resize_rolls_the_view_back(run: ResizeModel, outcome: Result<(), ErrorModel>)
    requires
        run.consistent(),
        run.restores_session,
        !(run.stage is Finished),
        run.after(outcome).stage is Finished,
        run.after(outcome).error is Some,
    ensures
        run.stage is RollbackView,
{
}

/// What is to be done next to change the font.
#[derive(Clone, Copy, Debug, PartialEq, Eq, Structural)]
pub enum FontStage {
    /// Use the new font in the window.
    ApplyFont,
    /// Give the terminal the size that it has in the new font.
    ResizeTerminal,
    SaveFont,
    /// Use the previous font in the window.
    RestoreFont,
    /// Give the terminal the size that it has in the previous font.
    RestoreSize,
    Finished,
}

/// A change of the font in progress, as a value.
#[verifier::ext_equal]
pub struct FontChangeModel {
    pub stage: FontStage,
    pub error: Option<ErrorModel>,
}

impl FontChangeModel {
    pub open spec fn begun(same_font: bool) -> FontChangeModel {
        FontChangeModel {
            stage: if same_font {
                FontStage::Finished
            } else {
                FontStage::ApplyFont
            },
            error: None,
        }
    }

    pub open spec fn to(self, stage: FontStage) -> FontChangeModel {
        FontChangeModel { stage, ..self }
    }

    pub open spec fn consistent(self) -> bool {
        &&& self.stage is RestoreFont || self.stage is RestoreSize ==> self.error is Some
        &&& self.stage is ApplyFont || self.stage is ResizeTerminal || self.stage is SaveFont
            ==> self.error is None
    }

    pub open spec fn after(self, outcome: Result<(), ErrorModel>) -> FontChangeModel {
        match (self.stage, outcome) {
            (FontStage::ApplyFont, Ok(_)) => self.to(FontStage::ResizeTerminal),
            (FontStage::ApplyFont, Err(error)) => FontChangeModel {
                stage: FontStage::Finished,
                error: Some(error),
            },
            (FontStage::ResizeTerminal, Ok(_)) => self.to(FontStage::SaveFont),
            (FontStage::SaveFont, Ok(_)) => self.to(FontStage::Finished),
            (FontStage::ResizeTerminal, Err(error)) => FontChangeModel {
                stage: FontStage::RestoreFont,
                error: Some(error),
            },
            (FontStage::SaveFont, Err(error)) => FontChangeModel {
                stage: FontStage::RestoreFont,
                error: Some(error),
            },
            (FontStage::RestoreFont, Ok(_)) => self.to(FontStage::RestoreSize),
            (FontStage::RestoreFont, Err(error)) => FontChangeModel {
                stage: FontStage::Finished,
                error: Some(error),
            },
            (FontStage::RestoreSize, Ok(_)) => self.to(FontStage::Finished),
            (FontStage::RestoreSize, Err(error)) => FontChangeModel {
                stage: FontStage::Finished,
                error: Some(
                    ErrorModel::Ui(
                        ROLLBACK_FONT@,
                        failure::double_failure(
                            (self.error->0).text(),
                            ROLLBACK_FONT_TASK@,
                            error.text(),
                        ),
                    ),
                ),
            },
            (FontStage::Finished, _) => self,
        }
    }
}

/// A change of the font in progress.
#[derive(Debug)]
pub struct FontChange {
    stage: FontStage,
    error: Option<AppError>,
}

impl View for FontChange {
    type V = FontChangeModel;

    closed spec fn view(&self) -> FontChangeModel {
        FontChangeModel {
            stage: self.stage,
            error: match self.error {
                Some(error) => Some(error@),
                None => None,
            },
        }
    }
}

impl FontChange {
    /// Begins to change the font; nothing is to be done where it stays the same.
    pub fn new(same_font: bool) -> (change: Self)
        ensures
            change@ == FontChangeModel::begun(same_font),
            change@.consistent(),
    {
        FontChange {
            stage: if same_font {
                FontStage::Finished
            } else {
                FontStage::ApplyFont
            },
            error: None,
        }
    }

    pub fn stage(&self) -> (stage: FontStage)
        ensures
            stage == self@.stage,
    {
        self.stage
    }

    /// Takes note of how the current step went.
    pub fn step(&mut self, outcome: AppResult<()>)
        requires
            old(self)@.consistent(),
        ensures
            final(self)@ == old(self)@.after(failure::outcome_model(outcome)),
            final(self)@.consistent(),
    {
        match self.stage {
            FontStage::ApplyFont => match outcome {
                Ok(()) => {
                    self.stage = FontStage::ResizeTerminal;
                },
                Err(error) => self.fail(FontStage::Finished, error),
            },
            FontStage::ResizeTerminal => match outcome {
                Ok(()) => {
                    self.stage = FontStage::SaveFont;
                },
                Err(error) => self.fail(FontStage::RestoreFont, error),
            },
            FontStage::SaveFont => match outcome {
                Ok(()) => {
                    self.stage = FontStage::Finished;
                },
                Err(error) => self.fail(FontStage::RestoreFont, error),
            },
            FontStage::RestoreFont => match outcome {
                Ok(()) => {
                    self.stage = FontStage::RestoreSize;
                },
                Err(error) => self.fail(FontStage::Finished, error),
            },
            FontStage::RestoreSize => {
                match self.error.take() {
                    Some(error) => {
                        self.error = Some(
                            failure::after_rollback(
                                error,
                                ROLLBACK_FONT,
                                ROLLBACK_FONT_TASK,
                                outcome,
                            ),
                        );
                    },
                    None => {},
                }
                self.stage = FontStage::Finished;
            },
            FontStage::Finished => {},
        }
    }

    fn fail(&mut self, stage: FontStage, error: AppError)
        ensures
            final(self)@ == (FontChangeModel { stage, error: Some(error@) }),
    {
        self.stage = stage;
        self.error = Some(error);
    }

    /// How a finished change ended.
    pub fn finish(self) -> (result: AppResult<()>)
        requires
            self@.stage is Finished,
        ensures
            result is Ok == self@.error is None,
            result is Err ==> self@.error == Some((result->Err_0)@),
    {
        match self.error {
            Some(error) => Err(error),
            None => Ok(()),
        }
    }
}

/// A font that the terminal could not be resized for, or that could not be
/// saved, is not kept: the previous one comes back first.
pub proof fn law_font_that_fails_is_not_kept(change: FontChangeModel, outcome: Result<(), ErrorModel>)
    requires
        change.consistent(),
        change.stage is ResizeTerminal || change.stage is SaveFont,
        outcome is Err,
    ensures
        change.after(outcome).stage is RestoreFont,
{
}

/// A change of size whose steps all succeed ends without an error, after what is shown was
/// brought up to date where there are other cells or nothing was shown.
pub proof fn law_resize_that_succeeds_ends(
    change: SizeChange,
    restores_session: bool,
    has_viewport: bool,
)
    ensures
        ({
            let begun = ResizeModel::begun(change, restores_session, has_viewport);
            let resized = begun.after(Ok(()));
            let shown = resized.after(Ok(()));
            &&& begun.stage is ResizeSession
            &&& begun.change == change
            &&& change.terminal_grid_changed || !has_viewport ==> resized.stage is RefreshViewport
                && shown.stage is Finished && shown.error is None
            &&& !change.terminal_grid_changed && has_viewport ==> resized.stage is Finished
                && resized.error is None
        }),
{
}

/// Where a step of a change of size fails, the steps before it are taken back, in reverse: a
/// session that was not resized leaves the view to be laid out as it was; where the session's
/// content cannot be shown, a command panel has the session resized back and then the view laid
/// out as it was, while a window goes on with what it has. The first error is the one that is
/// reported, and a change that has ended stays as it is.
pub proof fn law_failed_resize_is_taken_back(
    run: ResizeModel,
    error: ErrorModel,
    outcome: Result<(), ErrorModel>,
)
    requires
        run.consistent(),
    ensures
        run.stage is ResizeSession ==> run.after(Err(error)).stage is RollbackView && run.after(
            Err(error),
        ).error == Some(error),
        run.stage is RefreshViewport && run.restores_session ==> run.after(
            Err(error),
        ).stage is ResizeSessionBack && run.after(Err(error)).error == Some(error),
        run.stage is RefreshViewport && !run.restores_session ==> run.after(
            Err(error),
        ).stage is Finished && run.after(Err(error)).error == Some(error),
        run.stage is ResizeSessionBack ==> run.after(outcome).stage is RollbackView && run.after(
            outcome,
        ).error is Some && run.after(Ok(())).error == run.error,
        run.stage is RollbackView ==> run.after(outcome).stage is Finished && run.after(
            outcome,
        ).error is Some && run.after(Ok(())).error == run.error,
        run.stage is Finished ==> run.after(outcome) == run,
        run.after(outcome).change == run.change,
{
}

/// A font whose steps all succeed is used, then the terminal gets its size in it, then it is
/// saved, and all is well; the font that is in use already needs no step.
pub proof fn law_font_change_takes_its_steps_in_order()
    ensures
        ({
            let begun = FontChangeModel::begun(false);
            let used = begun.after(Ok(()));
            let resized = used.after(Ok(()));
            let saved = resized.after(Ok(()));
            &&& begun.stage is ApplyFont
            &&& used.stage is ResizeTerminal
            &&& resized.stage is SaveFont
            &&& saved.stage is Finished
            &&& saved.error is None
            &&& FontChangeModel::begun(true).stage is Finished
            &&& FontChangeModel::begun(true).error is None
        }),
{
}

/// A font that could not be used at all leaves nothing to take back. Otherwise the previous font
/// is used again and the terminal gets its size in it, and the error that began this is
/// reported, if both succeed. A change that has ended stays as it is.
pub proof fn law_failed_font_change_is_taken_back(
    change: FontChangeModel,
    error: ErrorModel,
    outcome: Result<(), ErrorModel>,
)
    requires
        change.consistent(),
    ensures
        change.stage is ApplyFont ==> change.after(Err(error)).stage is Finished && change.after(
            Err(error),
        ).error == Some(error),
        change.stage is ResizeTerminal || change.stage is SaveFont ==> {
            let restoring = change.after(Err(error));
            let resizing = restoring.after(Ok(()));
            let ended = resizing.after(Ok(()));
            &&& restoring.stage is RestoreFont
            &&& resizing.stage is RestoreSize
            &&& ended.stage is Finished
            &&& ended.error == Some(error)
        },
        change.stage is RestoreFont || change.stage is RestoreSize ==> change.after(
            outcome,
        ).error is Some,
        change.stage is Finished ==> change.after(outcome) == change,
{
}

} // verus!
