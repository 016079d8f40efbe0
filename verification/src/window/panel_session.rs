//! The command panel of a window: changing it, and saving it later.

use vstd::prelude::*;

use crate::config::file::{AppSettings, SettingsModel};
use crate::domain::command_button::{
    self, CommandButton, CommandButtonDefinition, CATEGORY_MESSAGE,
};
use crate::domain::command_panel::{
    self, CommandPanel, PanelModel, AT_THE_EDGE, LAST_CATEGORY, NO_CATEGORY, TOO_MANY_BUTTONS,
    UNKNOWN_BUTTON, UNKNOWN_CATEGORY,
};
use crate::domain::font::{FontModel, TerminalFont};
use crate::domain::layout::CommandButtonId;
use crate::error::{AppError, AppResult, ErrorModel};
use crate::window::failure::{self, REFRESH_CONTROLS_TASK, ROLLBACK_CONTROLS};

verus! {

/// How long a change waits before it is saved, in milliseconds.
pub const COMMAND_PANEL_SAVE_DELAY_MS: u64 = 300;

/// A change to the panel.
#[derive(Debug, PartialEq, Eq)]
pub enum PanelChange {
    AddCategory(String),
    RenameSelectedCategory(String),
    DeleteSelectedCategory,
    MoveSelectedCategoryUp,
    MoveSelectedCategoryDown,
    AddButton(CommandButtonDefinition),
    UpdateButton(CommandButtonId, CommandButtonDefinition),
    DeleteButton(CommandButtonId),
    MoveButtonUp(CommandButtonId),
    MoveButtonDown(CommandButtonId),
}

/// Whether a change can be made to a panel.
pub open spec fn applicable(panel: PanelModel, change: PanelChange) -> bool {
    match change {
        PanelChange::AddCategory(name) => command_button::names(name@),
        PanelChange::RenameSelectedCategory(name) => command_button::names(name@)
            && panel.selected is Some,
        PanelChange::DeleteSelectedCategory => panel.categories.len() > 1,
        PanelChange::MoveSelectedCategoryUp => panel.can_move_category_up(),
        PanelChange::MoveSelectedCategoryDown => panel.can_move_category_down(),
        PanelChange::AddButton(_) => panel.selected is Some && panel.next_id < u64::MAX,
        PanelChange::UpdateButton(id, _) => panel.knows(id),
        PanelChange::DeleteButton(id) => panel.knows(id),
        PanelChange::MoveButtonUp(id) => panel.can_move_button_up(id),
        PanelChange::MoveButtonDown(id) => panel.can_move_button_down(id),
    }
}

/// What is wrong with a change that cannot be made to a panel.
pub open spec fn change_problem(panel: PanelModel, change: PanelChange) -> ErrorModel {
    match change {
        PanelChange::AddCategory(_) => ErrorModel::InvalidInput(CATEGORY_MESSAGE@),
        PanelChange::RenameSelectedCategory(name) => if command_button::names(name@) {
            ErrorModel::InvalidState(NO_CATEGORY@)
        } else {
            ErrorModel::InvalidInput(CATEGORY_MESSAGE@)
        },
        PanelChange::DeleteSelectedCategory => ErrorModel::InvalidState(LAST_CATEGORY@),
        PanelChange::MoveSelectedCategoryUp => ErrorModel::InvalidState(AT_THE_EDGE@),
        PanelChange::MoveSelectedCategoryDown => ErrorModel::InvalidState(AT_THE_EDGE@),
        PanelChange::AddButton(_) => if panel.selected is None {
            ErrorModel::InvalidState(NO_CATEGORY@)
        } else {
            ErrorModel::InvalidInput(TOO_MANY_BUTTONS@)
        },
        PanelChange::UpdateButton(_, _) => ErrorModel::InvalidInput(UNKNOWN_BUTTON@),
        PanelChange::DeleteButton(_) => ErrorModel::InvalidInput(UNKNOWN_BUTTON@),
        PanelChange::MoveButtonUp(id) => command_panel::move_error(panel, id),
        PanelChange::MoveButtonDown(id) => command_panel::move_error(panel, id),
    }
}

/// A panel after a change that can be made to it.
pub open spec fn changed_panel(panel: PanelModel, change: PanelChange) -> PanelModel {
    match change {
        PanelChange::AddCategory(name) => PanelModel {
            categories: panel.categories.push(
                command_button::CategoryModel { name: name@, buttons: Seq::empty() },
            ),
            selected: Some(panel.categories.len() as int),
            ..panel
        },
        PanelChange::RenameSelectedCategory(name) => PanelModel {
            categories: panel.categories.update(
                panel.selected->0,
                command_button::CategoryModel {
                    name: name@,
                    buttons: panel.categories[panel.selected->0].buttons,
                },
            ),
            ..panel
        },
        PanelChange::DeleteSelectedCategory => PanelModel {
            categories: panel.categories.remove(panel.selected->0),
            selected: Some(
                if panel.selected->0 + 1 == panel.categories.len() {
                    panel.selected->0 - 1
                } else {
                    panel.selected->0
                },
            ),
            ..panel
        },
        PanelChange::MoveSelectedCategoryUp => panel.swap_categories(
            panel.selected->0 - 1,
            panel.selected->0 - 1,
        ),
        PanelChange::MoveSelectedCategoryDown => panel.swap_categories(
            panel.selected->0,
            panel.selected->0 + 1,
        ),
        PanelChange::AddButton(definition) => panel.add_button(definition@),
        PanelChange::UpdateButton(id, definition) => panel.update_button(id, definition@),
        PanelChange::DeleteButton(id) => panel.delete_button(id),
        PanelChange::MoveButtonUp(id) => panel.swap_buttons(id, panel.place(id).1 - 1),
        PanelChange::MoveButtonDown(id) => panel.swap_buttons(id, panel.place(id).1),
    }
}

/// Makes a change; a panel that it cannot be made to stays as it is.
pub fn apply_change(panel: &mut CommandPanel, change: PanelChange) -> (result: AppResult<()>)
    requires
        old(panel)@.valid(),
    ensures
        final(panel)@.valid(),
        result is Ok == applicable(old(panel)@, change),
        result is Err ==> (result->Err_0)@ == change_problem(old(panel)@, change),
        final(panel)@ == (if applicable(old(panel)@, change) {
            changed_panel(old(panel)@, change)
        } else {
            old(panel)@
        }),
{
    match change {
        PanelChange::AddCategory(name) => panel.add_category_named(name),
        PanelChange::RenameSelectedCategory(name) => panel.rename_selected_category(name),
        PanelChange::DeleteSelectedCategory => panel.delete_selected_category(),
        PanelChange::MoveSelectedCategoryUp => panel.move_selected_category_up(),
        PanelChange::MoveSelectedCategoryDown => panel.move_selected_category_down(),
        PanelChange::AddButton(definition) => panel.add_button_to_selected_category(definition),
        PanelChange::UpdateButton(id, definition) => panel.update_button(id, definition),
        PanelChange::DeleteButton(id) => panel.delete_button(id),
        PanelChange::MoveButtonUp(id) => panel.move_button_up(id),
        PanelChange::MoveButtonDown(id) => panel.move_button_down(id),
    }
}

/// The button that has an id.
pub fn command_button(panel: &CommandPanel, id: CommandButtonId) -> (button: AppResult<CommandButton>)
    requires
        panel@.valid(),
    ensures
        button is Ok == panel@.knows(id),
        button is Ok ==> (button->Ok_0)@ == panel@.siblings(id)[panel@.place(id).1],
        button is Err ==> (button->Err_0)@ == ErrorModel::InvalidInput(UNKNOWN_BUTTON@),
{
    match panel.button_by_id(id) {
        Some(button) => Ok(button.copy()),
        None => Err(AppError::InvalidInput(UNKNOWN_BUTTON)),
    }
}

/// The name of the selected category.
pub fn selected_command_category_name(panel: &CommandPanel) -> (name: AppResult<String>)
    requires
        panel@.valid(),
    ensures
        name is Ok == panel@.selected is Some,
        name is Ok ==> (name->Ok_0)@ == panel@.categories[panel@.selected->0].name,
        name is Err ==> (name->Err_0)@ == ErrorModel::InvalidState(NO_CATEGORY@),
{
    match panel.selected_category() {
        Some(category) => Ok(category.name.clone()),
        None => Err(AppError::InvalidState(NO_CATEGORY)),
    }
}

/// A panel and whether its selection waits to be saved, to come back to.
#[derive(Debug)]
pub struct CommandPanelSessionSnapshot {
    pub current: CommandPanel,
    pub selection_save_pending: bool,
}

/// A change that waits to be saved, and what to come back to where that fails.
#[derive(Debug)]
pub struct PendingCommandPanelSave {
    pub rollback_current: CommandPanel,
    pub rollback_selection_save_pending: bool,
    pub due_at_ms: u64,
}

/// A panel whose changes are saved some time after they were made.
#[derive(Debug)]
pub struct CommandPanelSessionState {
    current: CommandPanel,
    terminal_font: TerminalFont,
    has_store: bool,
    selection_save_pending: bool,
    command_panel_save_pending: Option<PendingCommandPanelSave>,
}

/// A change that waits, as a value.
pub struct PendingModel {
    pub rollback: PanelModel,
    pub rollback_selection_pending: bool,
    pub due: int,
}

/// The session as a value.
#[verifier::ext_equal]
pub struct SessionModel {
    pub panel: PanelModel,
    pub font: FontModel,
    pub has_store: bool,
    pub selection_pending: bool,
    pub pending: Option<PendingModel>,
}

pub open spec fn pending_model(pending: Option<PendingCommandPanelSave>) -> Option<PendingModel> {
    match pending {
        Some(pending) => Some(
            PendingModel {
                rollback: pending.rollback_current@,
                rollback_selection_pending: pending.rollback_selection_save_pending,
                due: pending.due_at_ms as int,
            },
        ),
        None => None,
    }
}

impl View for CommandPanelSessionState {
    type V = SessionModel;

    closed spec fn view(&self) -> SessionModel {
        SessionModel {
            panel: self.current@,
            font: self.terminal_font@,
            has_store: self.has_store,
            selection_pending: self.selection_save_pending,
            pending: pending_model(self.command_panel_save_pending),
        }
    }
}

impl SessionModel {
    pub open spec fn valid(self) -> bool {
        &&& self.panel.valid()
        &&& self.pending is Some ==> (self.pending->0).rollback.valid()
    }

    /// Nothing waits to be saved.
    pub open spec fn saved(self) -> SessionModel {
        SessionModel { selection_pending: false, pending: None, ..self }
    }

    /// Saving succeeded, or there is nowhere to save to.
    pub open spec fn save_succeeds(self, saved: AppResult<()>) -> bool {
        !self.has_store || saved is Ok
    }

    /// The session as it was before the changes that wait to be saved.
    pub open spec fn rolled_back(self) -> SessionModel {
        SessionModel {
            panel: (self.pending->0).rollback,
            selection_pending: (self.pending->0).rollback_selection_pending,
            pending: None,
            ..self
        }
    }

    /// The session after the change that waits was saved, or could not be.
    pub open spec fn flushed(self, saved: AppResult<()>) -> SessionModel {
        if self.pending is None {
            self
        } else if self.save_succeeds(saved) {
            self.saved()
        } else {
            self.rolled_back()
        }
    }
}

impl CommandPanelSessionState {
    pub fn new(current: CommandPanel, terminal_font: TerminalFont, has_store: bool) -> (session: Self)
        ensures
            session@ == (SessionModel {
                panel: current@,
                font: terminal_font@,
                has_store,
                selection_pending: false,
                pending: None,
            }),
    {
        CommandPanelSessionState {
            current,
            terminal_font,
            has_store,
            selection_save_pending: false,
            command_panel_save_pending: None,
        }
    }

    pub fn current(&self) -> (panel: &CommandPanel)
        ensures
            panel@ == self@.panel,
    {
        &self.current
    }

    pub fn terminal_font(&self) -> (font: &TerminalFont)
        ensures
            font@ == self@.font,
    {
        &self.terminal_font
    }

    /// A panel of its own for the window to show.
    pub fn current_handle(&self) -> (panel: CommandPanel)
        ensures
            panel@ == self@.panel,
    {
        self.current.copy()
    }

    /// What is to be saved, where there is a place to save to.
    pub fn settings_to_save(&self) -> (settings: Option<AppSettings>)
        ensures
            settings is Some == self@.has_store,
            settings is Some ==> (settings->0)@ == (SettingsModel {
                panel: self@.panel,
                font: self@.font,
            }),
    {
        if self.has_store {
            Some(
                AppSettings {
                    command_panel: self.current.copy(),
                    terminal_font: self.terminal_font.copy(),
                },
            )
        } else {
            None
        }
    }

    /// Takes note of how saving went.
    pub fn save(&mut self, saved: AppResult<()>) -> (result: AppResult<()>)
        ensures
            old(self)@.save_succeeds(saved) ==> result is Ok && final(self)@ == old(self)@.saved(),
            !old(self)@.save_succeeds(saved) ==> result == saved && final(self)@ == old(self)@,
    {
        if self.has_store {
            match saved {
                Ok(()) => {},
                Err(error) => return Err(error),
            }
        }
        self.selection_save_pending = false;
        self.command_panel_save_pending = None;
        Ok(())
    }

    /// Uses another font; it is kept only if it could be saved, as `saved` says.
    pub fn set_terminal_font(&mut self, terminal_font: TerminalFont, saved: AppResult<()>) -> (result:
        AppResult<()>)
        ensures
            old(self)@.save_succeeds(saved) ==> result is Ok && final(self)@ == (SessionModel {
                font: terminal_font@,
                ..old(self)@.saved()
            }),
            !old(self)@.save_succeeds(saved) ==> result == saved && final(self)@ == old(self)@,
    {
        let mut previous = terminal_font;
        std::mem::swap(&mut self.terminal_font, &mut previous);
        match self.save(saved) {
            Ok(()) => Ok(()),
            Err(error) => {
                self.terminal_font = previous;
                Err(error)
            },
        }
    }

    pub fn snapshot(&self) -> (snapshot: CommandPanelSessionSnapshot)
        ensures
            snapshot.current@ == self@.panel,
            snapshot.selection_save_pending == self@.selection_pending,
    {
        CommandPanelSessionSnapshot {
            current: self.current.copy(),
            selection_save_pending: self.selection_save_pending,
        }
    }

    pub fn restore(&mut self, snapshot: CommandPanelSessionSnapshot)
        ensures
            final(self)@ == (SessionModel {
                panel: snapshot.current@,
                selection_pending: snapshot.selection_save_pending,
                ..old(self)@
            }),
    {
        self.current = snapshot.current;
        self.selection_save_pending = snapshot.selection_save_pending;
    }

    pub fn defer_selection_save(&mut self)
        ensures
            final(self)@ == (SessionModel { selection_pending: true, ..old(self)@ }),
    {
        self.selection_save_pending = true;
    }

    /// Selects a category; another one than before waits to be saved.
    pub fn select_command_category_by_index(&mut self, index: usize) -> (result: AppResult<()>)
        requires
            old(self)@.valid(),
        ensures
            final(self)@.valid(),
            result is Ok == (index < old(self)@.panel.categories.len()),
            result is Ok ==> final(self)@ == (SessionModel {
                panel: PanelModel { selected: Some(index as int), ..old(self)@.panel },
                selection_pending: old(self)@.selection_pending || old(self)@.panel.selected
                    != Some(index as int),
                ..old(self)@
            }),
            result is Err ==> final(self)@ == old(self)@ && (result->Err_0)@
                == ErrorModel::InvalidInput(UNKNOWN_CATEGORY@),
    {
        let previous = self.current.selected_category_index();
        match self.current.select_category_by_index(index) {
            Ok(()) => {},
            Err(error) => return Err(error),
        }
        let same = match previous {
            Some(previous) => previous == index,
            None => false,
        };
        if !same {
            self.defer_selection_save();
        }
        Ok(())
    }

    /// Makes a change to the panel.
    pub fn change(&mut self, change: PanelChange) -> (result: AppResult<()>)
        requires
            old(self)@.valid(),
        ensures
            final(self)@.valid(),
            result is Ok == applicable(old(self)@.panel, change),
            result is Err ==> (result->Err_0)@ == change_problem(old(self)@.panel, change),
            final(self)@ == (SessionModel {
                panel: if applicable(old(self)@.panel, change) {
                    changed_panel(old(self)@.panel, change)
                } else {
                    old(self)@.panel
                },
                ..old(self)@
            }),
    {
        apply_change(&mut self.current, change)
    }

    /// Has a change wait to be saved. Where one waits already, it waits longer,
    /// and what to come back to stays.
    pub fn defer_command_panel_save(&mut self, rollback: CommandPanelSessionSnapshot, now_ms: u64)
        requires
            now_ms + COMMAND_PANEL_SAVE_DELAY_MS <= u64::MAX,
        ensures
            final(self)@ == (if !old(self)@.has_store {
                old(self)@.saved()
            } else {
                SessionModel {
                    pending: Some(
                        PendingModel {
                            rollback: match old(self)@.pending {
                                Some(pending) => pending.rollback,
                                None => rollback.current@,
                            },
                            rollback_selection_pending: match old(self)@.pending {
                                Some(pending) => pending.rollback_selection_pending,
                                None => rollback.selection_save_pending,
                            },
                            due: now_ms + COMMAND_PANEL_SAVE_DELAY_MS,
                        },
                    ),
                    ..old(self)@
                }
            }),
    {
        if !self.has_store {
            self.selection_save_pending = false;
            self.command_panel_save_pending = None;
            return;
        }
        let due_at_ms = now_ms + COMMAND_PANEL_SAVE_DELAY_MS;
        match self.command_panel_save_pending.take() {
            Some(pending) => {
                self.command_panel_save_pending = Some(
                    PendingCommandPanelSave {
                        rollback_current: pending.rollback_current,
                        rollback_selection_save_pending: pending.rollback_selection_save_pending,
                        due_at_ms,
                    },
                );
            },
            None => {
                self.command_panel_save_pending = Some(
                    PendingCommandPanelSave {
                        rollback_current: rollback.current,
                        rollback_selection_save_pending: rollback.selection_save_pending,
                        due_at_ms,
                    },
                );
            },
        }
    }

    /// Whether a change has waited long enough.
    pub fn save_is_due(&self, now_ms: u64) -> (due: bool)
        ensures
            due == (self@.pending is Some && now_ms >= (self@.pending->0).due),
    {
        match &self.command_panel_save_pending {
            Some(pending) => now_ms >= pending.due_at_ms,
            None => false,
        }
    }

    pub fn has_pending_change(&self) -> (pending: bool)
        ensures
            pending == self@.pending is Some,
    {
        self.command_panel_save_pending.is_some()
    }

    /// Takes note of how saving the change that waits went. Where it failed,
    /// the panel is as it was before.
    pub fn save_pending_command_panel_change(&mut self, saved: AppResult<()>) -> (result: AppResult<
        (),
    >)
        ensures
            final(self)@ == old(self)@.flushed(saved),
            old(self)@.pending is None || old(self)@.save_succeeds(saved) ==> result is Ok,
            old(self)@.pending is Some && !old(self)@.save_succeeds(saved) ==> result == saved,
            old(self)@.valid() ==> final(self)@.valid(),
    {
        match self.command_panel_save_pending.take() {
            Some(pending) => match self.save(saved) {
                Ok(()) => Ok(()),
                Err(error) => {
                    self.current = pending.rollback_current;
                    self.selection_save_pending = pending.rollback_selection_save_pending;
                    self.command_panel_save_pending = None;
                    Err(error)
                },
            },
            None => Ok(()),
        }
    }

    /// The same, but only for a change that has waited long enough.
    pub fn save_due_command_panel_change(&mut self, now_ms: u64, saved: AppResult<()>) -> (result:
        AppResult<()>)
        ensures
            ({
                let due = old(self)@.pending is Some && now_ms >= (old(self)@.pending->0).due;
                &&& final(self)@ == (if due {
                    old(self)@.flushed(saved)
                } else {
                    old(self)@
                })
                &&& !due || old(self)@.save_succeeds(saved) ==> result is Ok
                &&& due && !old(self)@.save_succeeds(saved) ==> result == saved
            }),
    {
        if self.save_is_due(now_ms) {
            self.save_pending_command_panel_change(saved)
        } else {
            Ok(())
        }
    }

    /// Takes note of how saving the selection went, and with it any change that
    /// waits.
    pub fn save_pending_selection(&mut self, saved: AppResult<()>) -> (result: AppResult<()>)
        ensures
            old(self)@.pending is Some ==> {
                &&& final(self)@ == old(self)@.flushed(saved)
                &&& result is Ok == old(self)@.save_succeeds(saved)
            },
            old(self)@.pending is None && !old(self)@.selection_pending ==> {
                &&& final(self)@ == old(self)@
                &&& result is Ok
            },
            old(self)@.pending is None && old(self)@.selection_pending ==> {
                &&& final(self)@ == (if old(self)@.save_succeeds(saved) {
                    old(self)@.saved()
                } else {
                    old(self)@
                })
                &&& result is Ok == old(self)@.save_succeeds(saved)
            },
            result is Err ==> result == saved,
    {
        if self.command_panel_save_pending.is_some() {
            return self.save_pending_command_panel_change(saved);
        }
        if !self.selection_save_pending {
            return Ok(());
        }
        self.save(saved)
    }
}

/// What is to be done next after the panel was changed.
#[derive(Clone, Copy, Debug, PartialEq, Eq, Structural)]
pub enum ControlsStage {
    /// Show the panel as it is now.
    Refresh,
    /// Show the panel as it was before.
    RefreshBack,
    Finished,
}

/// A change to the panel that the window's controls are to follow.
#[derive(Debug)]
pub struct PanelChangeRun {
    previous: Option<CommandPanelSessionSnapshot>,
    defers_save: bool,
    stage: ControlsStage,
    error: Option<AppError>,
}

impl PanelChangeRun {
    pub closed spec fn spec_stage(&self) -> ControlsStage {
        self.stage
    }

    pub closed spec fn spec_error(&self) -> Option<ErrorModel> {
        match self.error {
            Some(error) => Some(error@),
            None => None,
        }
    }

    /// The panel, and whether its selection waits, before the change.
    pub closed spec fn before(&self) -> Option<(PanelModel, bool)> {
        match self.previous {
            Some(snapshot) => Some((snapshot.current@, snapshot.selection_save_pending)),
            None => None,
        }
    }

    /// Whether the change is saved later.
    pub closed spec fn defers(&self) -> bool {
        self.defers_save
    }

    pub closed spec fn wf(&self) -> bool {
        &&& self.stage is Refresh ==> self.error is None && self.previous is Some
            && (self.previous->0).current@.valid()
        &&& self.stage is RefreshBack ==> self.error is Some
    }

    fn begin(
        session: &mut CommandPanelSessionState,
        previous: CommandPanelSessionSnapshot,
        changed: AppResult<()>,
        defers_save: bool,
    ) -> (run: Self)
        requires
            previous.current@.valid(),
        ensures
            run.wf(),
            run.defers() == defers_save,
            changed is Ok ==> {
                &&& final(session)@ == old(session)@
                &&& run.spec_stage() is Refresh
                &&& run.before() == Some((previous.current@, previous.selection_save_pending))
            },
            changed is Err ==> {
                &&& final(session)@ == (SessionModel {
                    panel: previous.current@,
                    selection_pending: previous.selection_save_pending,
                    ..old(session)@
                })
                &&& run.spec_stage() is RefreshBack
                &&& run.spec_error() == Some((changed->Err_0)@)
            },
    {
        match changed {
            Ok(()) => PanelChangeRun {
                previous: Some(previous),
                defers_save,
                stage: ControlsStage::Refresh,
                error: None,
            },
            Err(error) => {
                session.restore(previous);
                PanelChangeRun {
                    previous: None,
                    defers_save,
                    stage: ControlsStage::RefreshBack,
                    error: Some(error),
                }
            },
        }
    }

    /// Makes a change that the controls are to follow, and that is saved later.
    pub fn save_command_panel_change(session: &mut CommandPanelSessionState, change: PanelChange) -> (run:
        Self)
        requires
            old(session)@.valid(),
        ensures
            final(session)@.valid(),
            run.wf(),
            run.defers(),
            final(session)@.panel == (if applicable(old(session)@.panel, change) {
                changed_panel(old(session)@.panel, change)
            } else {
                old(session)@.panel
            }),
            final(session)@ == (SessionModel { panel: final(session)@.panel, ..old(session)@ }),
            applicable(old(session)@.panel, change) ==> run.spec_stage() is Refresh && run.before()
                == Some((old(session)@.panel, old(session)@.selection_pending)),
            !applicable(old(session)@.panel, change) ==> run.spec_stage() is RefreshBack
                && run.spec_error() == Some(change_problem(old(session)@.panel, change)),
    {
        let previous = session.snapshot();
        let changed = session.change(change);
        Self::begin(session, previous, changed, true)
    }

    /// Selects a category, which the controls are to follow.
    pub fn apply_category_selection_changed(session: &mut CommandPanelSessionState, index: usize) -> (run:
        Self)
        requires
            old(session)@.valid(),
        ensures
            final(session)@.valid(),
            run.wf(),
            !run.defers(),
            index < old(session)@.panel.categories.len() ==> {
                &&& run.spec_stage() is Refresh
                &&& run.before() == Some((old(session)@.panel, old(session)@.selection_pending))
                &&& final(session)@ == (SessionModel {
                    panel: PanelModel { selected: Some(index as int), ..old(session)@.panel },
                    selection_pending: old(session)@.selection_pending
                        || old(session)@.panel.selected != Some(index as int),
                    ..old(session)@
                })
            },
            index >= old(session)@.panel.categories.len() ==> {
                &&& run.spec_stage() is RefreshBack
                &&& run.spec_error() == Some(ErrorModel::InvalidInput(UNKNOWN_CATEGORY@))
                &&& final(session)@ == old(session)@
            },
    {
        let previous = session.snapshot();
        let selected = session.select_command_category_by_index(index);
        Self::begin(session, previous, selected, false)
    }

    pub fn stage(&self) -> (stage: ControlsStage)
        ensures
            stage == self.spec_stage(),
    {
        self.stage
    }

    /// Where the buttons are scrolled to when the controls follow: a category
    /// that was selected is shown from its first button, all else stays where
    /// it is.
    pub fn button_scroll_position(&self, current: usize) -> (position: usize)
        ensures
            position == (if self.spec_stage() is Refresh && !self.defers() {
                0
            } else {
                current
            }),
    {
        match self.stage {
            ControlsStage::Refresh => if self.defers_save {
                current
            } else {
                0
            },
            _ => current,
        }
    }

    /// Takes note of how the controls followed. Where they did not, the panel is
    /// as it was before; where they did, a change waits to be saved.
    pub fn step(
        &mut self,
        session: &mut CommandPanelSessionState,
        refreshed: AppResult<()>,
        now_ms: u64,
    )
        requires
            old(self).wf(),
            old(session)@.valid(),
            now_ms + COMMAND_PANEL_SAVE_DELAY_MS <= u64::MAX,
        ensures
            final(self).wf(),
            final(session)@.valid(),
            final(self).defers() == old(self).defers(),
            old(self).spec_stage() is Refresh && refreshed is Ok ==> {
                &&& final(self).spec_stage() is Finished && final(self).spec_error() is None
                &&& final(session)@ == (if !old(self).defers() {
                    old(session)@
                } else if !old(session)@.has_store {
                    old(session)@.saved()
                } else {
                    SessionModel {
                        pending: Some(
                            PendingModel {
                                rollback: match old(session)@.pending {
                                    Some(pending) => pending.rollback,
                                    None => (old(self).before()->0).0,
                                },
                                rollback_selection_pending: match old(session)@.pending {
                                    Some(pending) => pending.rollback_selection_pending,
                                    None => (old(self).before()->0).1,
                                },
                                due: now_ms + COMMAND_PANEL_SAVE_DELAY_MS,
                            },
                        ),
                        ..old(session)@
                    }
                })
            },
            old(self).spec_stage() is Refresh && refreshed is Err ==> {
                &&& final(self).spec_stage() is RefreshBack
                &&& final(self).spec_error() == Some((refreshed->Err_0)@)
                &&& final(session)@ == (SessionModel {
                    panel: (old(self).before()->0).0,
                    selection_pending: (old(self).before()->0).1,
                    ..old(session)@
                })
            },
            old(self).spec_stage() is RefreshBack ==> {
                &&& final(session)@ == old(session)@
                &&& final(self).spec_stage() is Finished
                &&& final(self).spec_error() == Some(
                    match refreshed {
                        Ok(_) => old(self).spec_error()->0,
                        Err(second) => ErrorModel::Ui(
                            ROLLBACK_CONTROLS@,
                            failure::double_failure(
                                (old(self).spec_error()->0).text(),
                                REFRESH_CONTROLS_TASK@,
                                second@.text(),
                            ),
                        ),
                    },
                )
            },
            old(self).spec_stage() is Finished ==> final(session)@ == old(session)@
                && final(self).spec_stage() is Finished && final(self).spec_error()
                == old(self).spec_error(),
    {
        match self.stage {
            ControlsStage::Refresh => match self.previous.take() {
                Some(previous) => match refreshed {
                    Ok(()) => {
                        if self.defers_save {
                            session.defer_command_panel_save(previous, now_ms);
                        }
                        self.stage = ControlsStage::Finished;
                    },
                    Err(error) => {
                        session.restore(previous);
                        self.error = Some(error);
                        self.stage = ControlsStage::RefreshBack;
                    },
                },
                None => {},
            },
            ControlsStage::RefreshBack => {
                match self.error.take() {
                    Some(error) => {
                        self.error = Some(
                            failure::after_rollback(
                                error,
                                ROLLBACK_CONTROLS,
                                REFRESH_CONTROLS_TASK,
                                refreshed,
                            ),
                        );
                    },
                    None => {},
                }
                self.stage = ControlsStage::Finished;
            },
            ControlsStage::Finished => {},
        }
    }

    /// How a finished change ended.
    pub fn finish(self) -> (result: AppResult<()>)
        requires
            self.spec_stage() is Finished,
        ensures
            result is Ok == self.spec_error() is None,
            result is Err ==> self.spec_error() == Some((result->Err_0)@),
    {
        match self.error {
            Some(error) => Err(error),
            None => Ok(()),
        }
    }
}

/// Changes that are made while one waits are taken back together with it: a
/// save that fails brings back the panel from before the first of them.
pub proof fn law_failed_save_takes_all_waiting_changes_back(
    session: SessionModel,
    later: PanelModel,
    saved: AppResult<()>,
)
    requires
        session.pending is Some,
        session.has_store,
        saved is Err,
    ensures
        (SessionModel { panel: later, ..session }).flushed(saved) == session.flushed(saved),
        session.flushed(saved).panel == (session.pending->0).rollback,
        session.flushed(saved).pending is None,
{
}

/// Once a save succeeded nothing waits, and the panel is the one that was saved.
pub proof fn law_successful_save_leaves_nothing_waiting(session: SessionModel, saved: AppResult<()>)
    requires
        session.pending is Some,
        session.save_succeeds(saved),
    ensures
        session.flushed(saved).pending is None,
        !session.flushed(saved).selection_pending,
        session.flushed(saved).panel == session.panel,
{
}

/// A panel that is saved by a worker of its own, some time after it was changed.
#[derive(Debug)]
pub struct GtkSessionCoordinator {
    pub command_panel: CommandPanel,
    pub terminal_font: TerminalFont,
    pub command_panel_dirty: bool,
}

impl GtkSessionCoordinator {
    pub fn new(command_panel: CommandPanel, terminal_font: TerminalFont) -> (session: Self)
        ensures
            session.command_panel@ == command_panel@,
            session.terminal_font@ == terminal_font@,
            !session.command_panel_dirty,
    {
        GtkSessionCoordinator { command_panel, terminal_font, command_panel_dirty: false }
    }

    /// What is to be saved.
    pub fn settings(&self) -> (settings: AppSettings)
        ensures
            settings@ == (SettingsModel {
                panel: self.command_panel@,
                font: self.terminal_font@,
            }),
    {
        AppSettings {
            command_panel: self.command_panel.copy(),
            terminal_font: self.terminal_font.copy(),
        }
    }

    pub fn mark_command_panel_saved(&mut self)
        ensures
            final(self).command_panel@ == old(self).command_panel@,
            final(self).terminal_font@ == old(self).terminal_font@,
            !final(self).command_panel_dirty,
    {
        self.command_panel_dirty = false;
    }

    /// Takes note of how saving went.
    pub fn save_command_panel(&mut self, saved: AppResult<()>) -> (result: AppResult<()>)
        ensures
            result == saved,
            final(self).command_panel@ == old(self).command_panel@,
            final(self).terminal_font@ == old(self).terminal_font@,
            final(self).command_panel_dirty == (old(self).command_panel_dirty && saved is Err),
    {
        if saved.is_ok() {
            self.mark_command_panel_saved();
        }
        saved
    }

    /// Uses another font; it is kept only if it could be saved, as `saved` says.
    pub fn set_terminal_font(&mut self, terminal_font: TerminalFont, saved: AppResult<()>) -> (result:
        AppResult<()>)
        ensures
            result == saved,
            final(self).command_panel@ == old(self).command_panel@,
            final(self).command_panel_dirty == old(self).command_panel_dirty,
            final(self).terminal_font@ == (if saved is Ok {
                terminal_font@
            } else {
                old(self).terminal_font@
            }),
    {
        if saved.is_ok() {
            self.terminal_font = terminal_font;
        }
        saved
    }

    /// Selects a category; another one than before is to be saved.
    pub fn select_command_category_by_index(&mut self, index: usize) -> (result: AppResult<()>)
        requires
            old(self).command_panel@.valid(),
        ensures
            final(self).command_panel@.valid(),
            final(self).terminal_font@ == old(self).terminal_font@,
            result is Ok == (index < old(self).command_panel@.categories.len()),
            result is Ok ==> {
                &&& final(self).command_panel@ == (PanelModel {
                    selected: Some(index as int),
                    ..old(self).command_panel@
                })
                &&& final(self).command_panel_dirty == (old(self).command_panel_dirty
                    || old(self).command_panel@.selected != Some(index as int))
            },
            result is Err ==> final(self).command_panel@ == old(self).command_panel@
                && final(self).command_panel_dirty == old(self).command_panel_dirty
                && (result->Err_0)@ == ErrorModel::InvalidInput(UNKNOWN_CATEGORY@),
    {
        let previous = self.command_panel.selected_category_index();
        match self.command_panel.select_category_by_index(index) {
            Ok(()) => {},
            Err(error) => return Err(error),
        }
        let same = match previous {
            Some(previous) => previous == index,
            None => false,
        };
        if !same {
            self.command_panel_dirty = true;
        }
        Ok(())
    }

    /// Makes a change, which is to be saved; one that fails leaves the panel as
    /// it was.
    pub fn save_command_panel_change(&mut self, change: PanelChange) -> (result: AppResult<()>)
        requires
            old(self).command_panel@.valid(),
        ensures
            final(self).command_panel@.valid(),
            final(self).terminal_font@ == old(self).terminal_font@,
            result is Ok == applicable(old(self).command_panel@, change),
            result is Err ==> (result->Err_0)@ == change_problem(old(self).command_panel@, change),
            final(self).command_panel@ == (if result is Ok {
                changed_panel(old(self).command_panel@, change)
            } else {
                old(self).command_panel@
            }),
            final(self).command_panel_dirty == (old(self).command_panel_dirty || result is Ok),
    {
        let result = apply_change(&mut self.command_panel, change);
        if result.is_ok() {
            self.command_panel_dirty = true;
        }
        result
    }

    /// Whether the panel is to be saved before the window closes.
    pub fn must_save_before_shutdown(&self) -> (must: bool)
        ensures
            must == self.command_panel_dirty,
    {
        self.command_panel_dirty
    }
}

/// Moving the selected category takes the category along, buttons and all, and keeps it
/// selected; the one that it passes takes its place.
pub proof fn law_moved_category_stays_selected(panel: PanelModel)
    requires
        panel.valid(),
    ensures
        applicable(panel, PanelChange::MoveSelectedCategoryUp) ==> {
            let next = changed_panel(panel, PanelChange::MoveSelectedCategoryUp);
            let at = panel.selected->0;
            &&& at > 0
            &&& next.selected == Some(at - 1)
            &&& next.categories[at - 1] == panel.categories[at]
            &&& next.categories[at] == panel.categories[at - 1]
        },
        applicable(panel, PanelChange::MoveSelectedCategoryDown) ==> {
            let next = changed_panel(panel, PanelChange::MoveSelectedCategoryDown);
            let at = panel.selected->0;
            &&& at + 1 < panel.categories.len()
            &&& next.selected == Some(at + 1)
            &&& next.categories[at + 1] == panel.categories[at]
            &&& next.categories[at] == panel.categories[at + 1]
        },
{
}

/// Moving a button up puts it one place further to the front, moving it down one place
/// further to the back, and its neighbour where it was.
pub proof fn law_moved_button_passes_its_neighbour(
    panel: PanelModel,
    id: CommandButtonId,
    category: int,
    at: int,
)
    requires
        panel.valid(),
        panel.has_at(id, category, at),
    ensures
        applicable(panel, PanelChange::MoveButtonUp(id)) <==> at > 0,
        applicable(panel, PanelChange::MoveButtonDown(id)) <==> at + 1
            < panel.categories[category].buttons.len(),
        at > 0 ==> {
            let next = changed_panel(panel, PanelChange::MoveButtonUp(id));
            &&& next.has_at(id, category, at - 1)
            &&& next.categories[category].buttons[at] == panel.categories[category].buttons[at - 1]
        },
        at + 1 < panel.categories[category].buttons.len() ==> {
            let next = changed_panel(panel, PanelChange::MoveButtonDown(id));
            &&& next.has_at(id, category, at + 1)
            &&& next.categories[category].buttons[at] == panel.categories[category].buttons[at + 1]
        },
{
    command_panel::lemma_place(panel, id, category, at);
}

/// A new category is the last one, without buttons and selected; the others stay as they are.
/// Another name changes nothing but the name of the selected category.
pub proof fn law_categories_are_added_and_renamed(panel: PanelModel, name: String, at: int)
    requires
        panel.valid(),
        command_button::names(name@),
    ensures
        ({
            let added = changed_panel(panel, PanelChange::AddCategory(name));
            &&& applicable(panel, PanelChange::AddCategory(name))
            &&& added.categories.len() == panel.categories.len() + 1
            &&& added.selected == Some(added.categories.len() - 1)
            &&& added.categories.last().name == name@
            &&& added.categories.last().buttons.len() == 0
            &&& 0 <= at < panel.categories.len() ==> added.categories[at] == panel.categories[at]
            &&& added.next_id == panel.next_id
        }),
        panel.categories.len() > 0 ==> {
            let renamed = changed_panel(panel, PanelChange::RenameSelectedCategory(name));
            let chosen = panel.selected->0;
            &&& applicable(panel, PanelChange::RenameSelectedCategory(name))
            &&& renamed.selected == panel.selected
            &&& renamed.next_id == panel.next_id
            &&& renamed.categories.len() == panel.categories.len()
            &&& renamed.categories[chosen].name == name@
            &&& renamed.categories[chosen].buttons == panel.categories[chosen].buttons
            &&& 0 <= at < panel.categories.len() && at != chosen ==> renamed.categories[at]
                == panel.categories[at]
        },
{
}

/// Deleting the selected category leaves all others as they are and in order. The category
/// that is selected then is the one that was behind it, or, where it was the last one, the
/// one that was before it. The only category cannot be deleted.
pub proof fn law_deleted_category_is_gone(panel: PanelModel, at: int)
    requires
        panel.valid(),
    ensures
        applicable(panel, PanelChange::DeleteSelectedCategory) <==> panel.categories.len() >= 2,
        panel.categories.len() >= 2 ==> {
            let next = changed_panel(panel, PanelChange::DeleteSelectedCategory);
            let gone = panel.selected->0;
            let chosen = next.categories[next.selected->0];
            &&& next.categories.len() == panel.categories.len() - 1
            &&& 0 <= at < gone ==> next.categories[at] == panel.categories[at]
            &&& gone <= at < next.categories.len() ==> next.categories[at]
                == panel.categories[at + 1]
            &&& 0 <= next.selected->0 < next.categories.len()
            &&& gone + 1 < panel.categories.len() ==> chosen == panel.categories[gone + 1]
            &&& gone + 1 == panel.categories.len() ==> chosen == panel.categories[gone - 1]
        },
{
}

/// Every change that can be made says so, and every change that cannot names what is wrong: an
/// empty name, no category, a button that is not there, the last category, or an end.
pub proof fn law_impossible_changes_say_why(
    panel: PanelModel,
    id: CommandButtonId,
    name: String,
    definition: CommandButtonDefinition,
)
    requires
        panel.valid(),
    ensures
        applicable(panel, PanelChange::AddCategory(name)) <==> command_button::names(name@),
        applicable(panel, PanelChange::UpdateButton(id, definition)) <==> panel.knows(id),
        applicable(panel, PanelChange::DeleteButton(id)) <==> panel.knows(id),
        applicable(panel, PanelChange::AddButton(definition)) <==> panel.categories.len() > 0
            && panel.next_id < u64::MAX,
        !panel.knows(id) ==> change_problem(panel, PanelChange::DeleteButton(id))
            == ErrorModel::InvalidInput(UNKNOWN_BUTTON@) && change_problem(
            panel,
            PanelChange::MoveButtonUp(id),
        ) == ErrorModel::InvalidInput(UNKNOWN_BUTTON@) && change_problem(
            panel,
            PanelChange::MoveButtonDown(id),
        ) == ErrorModel::InvalidInput(UNKNOWN_BUTTON@) && change_problem(
            panel,
            PanelChange::UpdateButton(id, definition),
        ) == ErrorModel::InvalidInput(UNKNOWN_BUTTON@),
        panel.knows(id) ==> change_problem(panel, PanelChange::MoveButtonUp(id))
            == ErrorModel::InvalidState(AT_THE_EDGE@) && change_problem(
            panel,
            PanelChange::MoveButtonDown(id),
        ) == ErrorModel::InvalidState(AT_THE_EDGE@),
{
}

/// A save that is not needed leaves the session as it is; one that fails brings back the panel
/// and whether its selection waited, and touches nothing else. The font is never touched.
pub proof fn law_flushing_touches_what_waits(session: SessionModel, saved: AppResult<()>)
    ensures
        session.flushed(saved).font == session.font,
        session.flushed(saved).has_store == session.has_store,
        session.flushed(saved).pending is None,
        session.pending is None ==> session.flushed(saved) == session,
        session.pending is Some && session.has_store && saved is Err ==> session.flushed(
            saved,
        ).selection_pending == (session.pending->0).rollback_selection_pending,
        session.pending is Some && (saved is Ok || !session.has_store) ==> session.flushed(
            saved,
        ).panel == session.panel && !session.flushed(saved).selection_pending,
{
}

/// A category needs a name, and one that is renamed has to be selected; the last category cannot
/// be deleted, and one at an end cannot be moved beyond it.
pub proof fn law_impossible_category_changes_say_why(panel: PanelModel, name: String)
    requires
        panel.valid(),
    ensures
        !command_button::names(name@) ==> change_problem(panel, PanelChange::AddCategory(name))
            == ErrorModel::InvalidInput(CATEGORY_MESSAGE@) && change_problem(
            panel,
            PanelChange::RenameSelectedCategory(name),
        ) == ErrorModel::InvalidInput(CATEGORY_MESSAGE@),
        command_button::names(name@) ==> change_problem(
            panel,
            PanelChange::RenameSelectedCategory(name),
        ) == ErrorModel::InvalidState(NO_CATEGORY@),
        applicable(panel, PanelChange::RenameSelectedCategory(name)) <==> command_button::names(
            name@,
        ) && panel.categories.len() > 0,
        applicable(panel, PanelChange::DeleteSelectedCategory) <==> panel.categories.len() > 1,
        change_problem(panel, PanelChange::DeleteSelectedCategory) == ErrorModel::InvalidState(
            LAST_CATEGORY@,
        ),
        change_problem(panel, PanelChange::MoveSelectedCategoryUp) == ErrorModel::InvalidState(
            AT_THE_EDGE@,
        ),
        change_problem(panel, PanelChange::MoveSelectedCategoryDown) == ErrorModel::InvalidState(
            AT_THE_EDGE@,
        ),
{
}

} // verus!
