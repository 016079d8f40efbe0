//! The command panel of a window: changes, their saving and taking them back.

use j3term::config::file::{AppSettings, ConfigFile};
use j3term::config::store::{ConfigStore, SettingsRead};
use j3term::domain::command_button::{
    CommandArguments, CommandButtonDefinition, CommandCategoryDefinition,
};
use j3term::domain::command_panel::CommandPanel;
use j3term::domain::font::TerminalFont;
use j3term::domain::geometry::UiRect;
use j3term::domain::layout::{ButtonPlacement, CommandButtonId, WindowLayout};
use j3term::domain::startup::StartupInvocation;
use j3term::error::{AppError, AppResult};
use j3term::renderer::geometry::DeviceRect;
use j3term::window::arguments::{ArgumentCollection, ArgumentInputs, ArgumentPrompt};
use j3term::window::menus::{button_menu_state, category_menu_state};
use j3term::window::panel_session::{
    apply_change, command_button, selected_command_category_name, CommandPanelSessionState,
    ControlsStage, GtkSessionCoordinator, PanelChange, PanelChangeRun, COMMAND_PANEL_SAVE_DELAY_MS,
};
use j3term::window::panel_view::{
    command_panel_resize_snapshot, command_panel_width_changes, extent_of, CommandPanelViewState,
    ControlsSync, SyncStage,
};

fn font() -> TerminalFont {
    TerminalFont::new("Mono".to_string(), 12).unwrap()
}

fn button(label: &str, executable: &str, arguments: &str) -> AppResult<CommandButtonDefinition> {
    CommandButtonDefinition::new(
        label.to_string(),
        executable.to_string(),
        CommandArguments::new(arguments.to_string())?,
    )
}

fn category(
    name: &str,
    buttons: Vec<CommandButtonDefinition>,
) -> AppResult<CommandCategoryDefinition> {
    CommandCategoryDefinition::new(name.to_string(), buttons)
}

fn single_category_command_panel() -> AppResult<CommandPanel> {
    CommandPanel::from_definitions(vec![category("Default", Vec::new())?], 0)
}

fn two_category_command_panel() -> AppResult<CommandPanel> {
    CommandPanel::from_definitions(
        vec![category("Default", Vec::new())?, category("Tools", Vec::new())?],
        0,
    )
}

fn selected_ids(panel: &CommandPanel) -> Vec<CommandButtonId> {
    match panel.selected_category() {
        Some(category) => category.buttons.iter().map(|button| button.id).collect(),
        None => Vec::new(),
    }
}

/// A settings file in memory, beside the session that it belongs to.
struct Window {
    session: CommandPanelSessionState,
    shown: CommandPanel,
    scroll_position: usize,
    file: Option<ConfigFile>,
    refuses: bool,
    now_ms: u64,
}

impl Window {
    fn new(panel: CommandPanel, has_store: bool) -> Self {
        Window {
            shown: panel.copy(),
            scroll_position: 3,
            session: CommandPanelSessionState::new(panel, font(), has_store),
            file: None,
            refuses: false,
            now_ms: 1000,
        }
    }

    /// Runs a change; `refreshes` says how the controls follow, one by one.
    fn run(&mut self, mut run: PanelChangeRun, refreshes: Vec<AppResult<()>>) -> AppResult<()> {
        let mut refreshes = refreshes.into_iter();
        while run.stage() != ControlsStage::Finished {
            let refreshed = refreshes.next().expect("one refresh too many");
            if refreshed.is_ok() {
                self.shown = self.session.current_handle();
                self.scroll_position = run.button_scroll_position(self.scroll_position);
            }
            run.step(&mut self.session, refreshed, self.now_ms);
        }
        assert!(refreshes.next().is_none());
        run.finish()
    }

    fn change(&mut self, change: PanelChange) -> AppResult<()> {
        let run = PanelChangeRun::save_command_panel_change(&mut self.session, change);
        self.run(run, vec![Ok(())])
    }

    fn written(&mut self) -> AppResult<()> {
        if self.refuses {
            return Err(AppError::io("replace settings file", "is a directory".to_string()));
        }
        if let Some(settings) = self.session.settings_to_save() {
            self.file = Some(ConfigFile::from_app_settings(&settings));
        }
        Ok(())
    }

    fn save_pending(&mut self) -> AppResult<()> {
        let saved = if self.session.has_pending_change() { self.written() } else { Ok(()) };
        self.session.save_pending_command_panel_change(saved)
    }

    fn save_due(&mut self, now_ms: u64) -> AppResult<()> {
        let saved = if self.session.save_is_due(now_ms) { self.written() } else { Ok(()) };
        self.session.save_due_command_panel_change(now_ms, saved)
    }

    fn loaded(&self) -> AppResult<CommandPanel> {
        let store = ConfigStore::at_path("settings.toml".to_string(), None);
        let read = match &self.file {
            Some(file) => SettingsRead::Parsed(file.clone()),
            None => SettingsRead::NotFound,
        };
        let defaults = AppSettings {
            command_panel: single_category_command_panel()?,
            terminal_font: font(),
        };
        store.load_or_default(Ok(self.file.is_some()), Ok(false), read, defaults)
    }
}

fn failure(operation: &'static str) -> AppResult<()> {
    Err(AppError::ui_message(operation, "refused".to_string()))
}

#[test]
fn command_panel_handle_does_not_share_session_owner() -> AppResult<()> {
    let mut window = Window::new(two_category_command_panel()?, false);
    let handle = window.session.current_handle();
    let handle_category_count = handle.categories().len();

    window.session.change(PanelChange::AddCategory("New".to_string()))?;

    assert_eq!(handle.categories().len(), handle_category_count);
    assert_ne!(window.session.current().categories().len(), handle_category_count);
    Ok(())
}

#[test]
fn command_panel_save_failure_rolls_back_session_state() -> AppResult<()> {
    let initial_panel = single_category_command_panel()?;
    let mut window = Window::new(initial_panel.copy(), true);
    window.refuses = true;

    window.change(PanelChange::AddCategory("New".to_string()))?;

    let result = window.save_pending();
    assert!(result.is_err());
    let panel = window.session.current();
    assert_eq!(panel.categories().len(), initial_panel.categories().len());
    assert_eq!(
        panel.categories()[0].name.as_str(),
        initial_panel.categories()[0].name.as_str()
    );
    assert_eq!(panel.selected_category_index(), initial_panel.selected_category_index());
    Ok(())
}

#[test]
fn command_panel_change_defers_settings_file_write_until_due() -> AppResult<()> {
    let mut window = Window::new(single_category_command_panel()?, true);
    let now = window.now_ms;

    window.change(PanelChange::AddCategory("New".to_string()))?;

    assert!(window.file.is_none());

    window.save_due(now + COMMAND_PANEL_SAVE_DELAY_MS - 1)?;

    assert!(window.file.is_none());

    window.save_due(now + COMMAND_PANEL_SAVE_DELAY_MS)?;
    let loaded_panel = window.loaded()?;

    assert_eq!(loaded_panel.categories().len(), 2);
    Ok(())
}

#[test]
fn category_selection_change_defers_settings_file_write_until_flush() -> AppResult<()> {
    let mut window = Window::new(two_category_command_panel()?, true);

    window.session.select_command_category_by_index(1)?;

    assert!(window.file.is_none());

    let saved = window.written();
    window.session.save_pending_selection(saved)?;
    let loaded_panel = window.loaded()?;

    assert_eq!(loaded_panel.selected_category_index(), Some(1));
    Ok(())
}

#[test]
fn structural_save_persists_deferred_category_selection() -> AppResult<()> {
    let mut window = Window::new(two_category_command_panel()?, true);
    let definition = button("echo selected", "echo", "saved")?;

    window.session.select_command_category_by_index(1)?;
    window.change(PanelChange::AddButton(definition))?;
    assert!(window.file.is_none());

    window.save_pending()?;
    let loaded_panel = window.loaded()?;

    assert_eq!(loaded_panel.selected_category_index(), Some(1));
    assert_eq!(loaded_panel.categories()[1].buttons[0].label.as_str(), "echo selected");
    Ok(())
}

#[test]
fn menu_backed_category_actions_update_panel_and_persist() -> AppResult<()> {
    let mut window = Window::new(two_category_command_panel()?, true);

    let initial_state = category_menu_state(window.session.current());
    assert!(initial_state.can_delete);
    assert!(!initial_state.can_move_up);
    assert!(initial_state.can_move_down);

    window.change(PanelChange::AddCategory("Build".to_string()))?;
    assert_eq!(selected_command_category_name(window.session.current())?, "Build");
    assert!(window.file.is_none());

    window.change(PanelChange::RenameSelectedCategory("Build Tools".to_string()))?;
    assert_eq!(selected_command_category_name(window.session.current())?, "Build Tools");

    window.change(PanelChange::MoveSelectedCategoryUp)?;
    assert_eq!(window.session.current().selected_category_index(), Some(1));

    window.change(PanelChange::MoveSelectedCategoryDown)?;
    assert_eq!(window.session.current().selected_category_index(), Some(2));

    window.change(PanelChange::AddButton(button("echo build", "echo", "build")?))?;
    assert_eq!(selected_ids(window.session.current()).len(), 1);

    window.change(PanelChange::DeleteSelectedCategory)?;
    assert_eq!(window.session.current().categories().len(), 2);

    window.save_pending()?;
    let loaded_panel = window.loaded()?;
    let category_names = loaded_panel
        .categories()
        .iter()
        .map(|category| category.name.as_str())
        .collect::<Vec<_>>();
    assert_eq!(category_names, vec!["Default", "Tools"]);
    Ok(())
}

#[test]
fn menu_backed_button_actions_prepare_update_move_delete_and_persist() -> AppResult<()> {
    let panel = CommandPanel::from_definitions(
        vec![category(
            "Default",
            vec![button("echo one", "echo", "one")?, button("echo two", "echo", "two")?],
        )?],
        0,
    )?;
    let mut window = Window::new(panel, true);
    let ids = selected_ids(window.session.current());
    let (first_id, second_id) = (ids[0], ids[1]);

    let first_menu_state = button_menu_state(window.session.current(), first_id);
    assert!(!first_menu_state.can_move_up);
    assert!(first_menu_state.can_move_down);

    let prepared = command_button(window.session.current(), first_id)?;
    assert_eq!(prepared.executable_path, "echo");
    assert_eq!(prepared.arguments.value(), "one");
    let collection = ArgumentCollection::new(ArgumentInputs {
        select_file: false,
        select_dir: false,
        input_text: false,
    });
    assert_eq!(collection.prompt(), ArgumentPrompt::Complete);
    assert!(collection.collect_values().is_some());

    window.change(PanelChange::UpdateButton(second_id, button("echo edited", "echo", "edited")?))?;
    assert_eq!(
        command_button(window.session.current(), second_id)?.definition().label,
        "echo edited"
    );

    window.change(PanelChange::MoveButtonUp(second_id))?;
    assert_eq!(selected_ids(window.session.current())[0], second_id);

    window.change(PanelChange::MoveButtonDown(second_id))?;
    assert_eq!(selected_ids(window.session.current())[1], second_id);

    window.change(PanelChange::DeleteButton(second_id))?;
    assert_eq!(selected_ids(window.session.current()).len(), 1);

    window.save_pending()?;
    let loaded_panel = window.loaded()?;
    assert_eq!(loaded_panel.categories()[0].buttons.len(), 1);
    assert_eq!(loaded_panel.categories()[0].buttons[0].label.as_str(), "echo one");
    Ok(())
}

#[test]
fn category_selection_change_resets_button_scroll_with_single_refresh() -> AppResult<()> {
    let mut window = Window::new(two_category_command_panel()?, false);

    let run = PanelChangeRun::apply_category_selection_changed(&mut window.session, 1);
    window.run(run, vec![Ok(())])?;

    assert_eq!(window.session.current().selected_category_index(), Some(1));
    assert_eq!(window.shown.selected_category_index(), Some(1));
    assert_eq!(window.scroll_position, 0);
    Ok(())
}

#[test]
fn category_selection_change_sync_failure_rolls_back_selection_and_scroll() -> AppResult<()> {
    let initial_panel = two_category_command_panel()?;
    let mut window = Window::new(initial_panel.copy(), false);

    let run = PanelChangeRun::apply_category_selection_changed(&mut window.session, 1);
    let result = window.run(run, vec![failure("CreateWindowExW command button"), Ok(())]);

    assert!(result.is_err());
    assert_eq!(window.session.current(), &initial_panel);
    assert_eq!(window.shown, initial_panel);
    assert_eq!(window.scroll_position, 3);
    Ok(())
}

#[test]
fn save_command_panel_change_sync_failure_rolls_back_before_save() -> AppResult<()> {
    let initial_panel = single_category_command_panel()?;
    let mut window = Window::new(initial_panel.copy(), true);

    let run = PanelChangeRun::save_command_panel_change(
        &mut window.session,
        PanelChange::AddCategory("New".to_string()),
    );
    let result = window.run(run, vec![failure("CreateWindowExW command button"), Ok(())]);

    assert!(result.is_err());
    assert_eq!(window.session.current(), &initial_panel);
    assert_eq!(window.shown, initial_panel);
    assert!(!window.session.has_pending_change());
    assert!(window.file.is_none());
    Ok(())
}

#[test]
fn pending_command_panel_save_failure_rolls_back_view_state() -> AppResult<()> {
    let initial_panel = single_category_command_panel()?;
    let mut window = Window::new(initial_panel.copy(), true);
    window.refuses = true;

    window.change(PanelChange::AddCategory("New".to_string()))?;

    let result = window.save_pending();
    window.shown = window.session.current_handle();
    assert!(result.is_err());
    assert_eq!(window.session.current(), &initial_panel);
    assert_eq!(window.shown, initial_panel);
    Ok(())
}

#[test]
fn failed_save_takes_all_waiting_changes_back() -> AppResult<()> {
    let initial_panel = single_category_command_panel()?;
    let mut window = Window::new(initial_panel.copy(), true);
    window.refuses = true;

    window.change(PanelChange::AddCategory("One".to_string()))?;
    window.now_ms += 100;
    window.change(PanelChange::AddCategory("Two".to_string()))?;
    assert!(!window.session.save_is_due(1000 + COMMAND_PANEL_SAVE_DELAY_MS));
    assert!(window.session.save_is_due(1100 + COMMAND_PANEL_SAVE_DELAY_MS));

    assert!(window.save_pending().is_err());
    assert_eq!(window.session.current(), &initial_panel);
    assert!(!window.session.has_pending_change());
    Ok(())
}

#[test]
fn failed_way_back_is_reported_with_the_failure() -> AppResult<()> {
    let mut window = Window::new(two_category_command_panel()?, true);

    let run = PanelChangeRun::apply_category_selection_changed(&mut window.session, 1);
    let result = window.run(run, vec![failure("first"), failure("second")]);

    let error = result.unwrap_err();
    assert_eq!(error.operation(), Some("rollback command panel controls"));
    assert!(error.message().contains("; additionally failed to refresh command panel controls"));
    Ok(())
}

#[test]
fn changes_that_cannot_be_made_say_why() -> AppResult<()> {
    let mut panel = single_category_command_panel()?;
    let unknown = CommandButtonId { value: 99 };

    for (change, problem) in [
        (
            PanelChange::AddCategory("two\nlines".to_string()),
            AppError::InvalidInput("command category name must be a single line"),
        ),
        (
            PanelChange::RenameSelectedCategory(String::new()),
            AppError::InvalidInput("command category name must be a single line"),
        ),
        (
            PanelChange::DeleteSelectedCategory,
            AppError::InvalidState("the last command category cannot be deleted"),
        ),
        (
            PanelChange::MoveSelectedCategoryUp,
            AppError::InvalidState("the item cannot be moved further"),
        ),
        (
            PanelChange::MoveSelectedCategoryDown,
            AppError::InvalidState("the item cannot be moved further"),
        ),
        (
            PanelChange::UpdateButton(unknown, button("a", "b", "")?),
            AppError::InvalidInput("unknown command button"),
        ),
        (PanelChange::DeleteButton(unknown), AppError::InvalidInput("unknown command button")),
        (PanelChange::MoveButtonUp(unknown), AppError::InvalidInput("unknown command button")),
        (PanelChange::MoveButtonDown(unknown), AppError::InvalidInput("unknown command button")),
    ] {
        assert_eq!(apply_change(&mut panel, change), Err(problem));
        assert_eq!(panel, single_category_command_panel()?);
    }
    let mut empty = CommandPanel::from_definitions(Vec::new(), 0)?;
    assert_eq!(
        apply_change(&mut empty, PanelChange::AddButton(button("a", "b", "")?)),
        Err(AppError::InvalidState("selected command category is missing"))
    );
    Ok(())
}

#[test]
fn category_selection_change_does_not_write_settings_file_until_explicit_save() -> AppResult<()> {
    let mut session = GtkSessionCoordinator::new(two_category_command_panel()?, font());

    session.select_command_category_by_index(1)?;

    assert!(session.must_save_before_shutdown());
    let file = ConfigFile::from_app_settings(&session.settings());
    session.save_command_panel(Ok(()))?;
    let loaded_panel = file.into_command_panel()?;

    assert_eq!(loaded_panel.selected_category_index(), Some(1));
    assert!(!session.must_save_before_shutdown());
    Ok(())
}

#[test]
fn shutdown_skips_command_panel_save_when_clean() -> AppResult<()> {
    let session = GtkSessionCoordinator::new(two_category_command_panel()?, font());

    assert!(!session.must_save_before_shutdown());
    Ok(())
}

#[test]
fn shutdown_saves_dirty_command_panel() -> AppResult<()> {
    let mut session = GtkSessionCoordinator::new(two_category_command_panel()?, font());

    session.select_command_category_by_index(1)?;
    assert!(session.must_save_before_shutdown());
    let loaded_panel = ConfigFile::from_app_settings(&session.settings()).into_command_panel()?;

    assert_eq!(loaded_panel.selected_category_index(), Some(1));
    Ok(())
}

#[test]
fn failed_explicit_save_leaves_the_panel_dirty() -> AppResult<()> {
    let mut session = GtkSessionCoordinator::new(two_category_command_panel()?, font());
    session.save_command_panel_change(PanelChange::DeleteSelectedCategory)?;

    assert!(session.save_command_panel(failure("replace settings file")).is_err());
    assert!(session.must_save_before_shutdown());
    Ok(())
}

#[test]
fn arguments_are_asked_for_in_turn() {
    let mut collection = ArgumentCollection::new(ArgumentInputs {
        select_file: true,
        select_dir: false,
        input_text: true,
    });
    assert_eq!(collection.prompt(), ArgumentPrompt::SelectFile);
    collection.answer(Some("/etc/hosts".to_string()));
    assert_eq!(collection.prompt(), ArgumentPrompt::InputText);
    collection.answer(Some("text".to_string()));
    assert_eq!(collection.prompt(), ArgumentPrompt::Complete);
    let values = collection.collect_values().unwrap();
    assert_eq!(values.selected_file.as_deref(), Some("/etc/hosts"));
    assert_eq!(values.selected_dir, None);
    assert_eq!(values.input_text.as_deref(), Some("text"));

    let mut collection = ArgumentCollection::new(ArgumentInputs {
        select_file: false,
        select_dir: true,
        input_text: true,
    });
    collection.answer(None);
    assert_eq!(collection.prompt(), ArgumentPrompt::Cancelled);
    assert!(collection.collect_values().is_none());
}

fn layout_of(panel: &CommandPanel) -> WindowLayout {
    let none = UiRect { x: 0, y: 0, width: 0, height: 0 };
    WindowLayout {
        tab_bar: UiRect { x: 0, y: 0, width: 300, height: 20 },
        tabs: Vec::new(),
        new_tab_button: None,
        terminal: UiRect { x: 0, y: 20, width: 200, height: 180 },
        splitter: none,
        command_panel: UiRect { x: 204, y: 20, width: 96, height: 180 },
        command_category_selector: None,
        command_button_viewport: none,
        command_button_scroll: None,
        buttons: selected_ids(panel)
            .into_iter()
            .map(|id| ButtonPlacement { id, bounds: none, label: String::new() })
            .collect(),
    }
}

fn view_of(panel: &CommandPanel) -> CommandPanelViewState {
    CommandPanelViewState::new(panel.copy(), layout_of(panel))
}

/// Has controls, which hold the ids of their buttons, follow another state;
/// `outcomes` says how each attempt ends.
fn sync(
    view: &mut CommandPanelViewState,
    controls: &mut Vec<CommandButtonId>,
    next: CommandPanelViewState,
    outcomes: Vec<AppResult<()>>,
) -> AppResult<()> {
    let mut outcomes = outcomes.into_iter();
    let mut run = ControlsSync::begin(next);
    while run.stage() != SyncStage::Finished {
        *controls = match run.next() {
            Some(next) => selected_ids(&next.command_panel),
            None => selected_ids(&view.command_panel),
        };
        run.step(view, outcomes.next().expect("one attempt too many"));
    }
    assert!(outcomes.next().is_none());
    run.finish()
}

#[test]
fn refresh_command_panel_controls_failure_keeps_view_panel() -> AppResult<()> {
    let initial_panel = single_category_command_panel()?;
    let mut session = CommandPanelSessionState::new(initial_panel.copy(), font(), false);
    let mut view = view_of(&initial_panel);
    let mut controls: Vec<CommandButtonId> = Vec::new();
    session.change(PanelChange::AddCategory("New".to_string()))?;

    let result = sync(
        &mut view,
        &mut controls,
        view_of(session.current()),
        vec![failure("CreateWindowExW command button"), Ok(())],
    );

    assert!(result.is_err());
    assert_eq!(view.command_panel, initial_panel);
    assert_ne!(session.current().categories().len(), initial_panel.categories().len());
    Ok(())
}

#[test]
fn partial_command_panel_control_sync_failure_rolls_back_view_and_buttons() -> AppResult<()> {
    let initial_panel = CommandPanel::from_definitions(
        vec![category("Default", vec![button("initial", "echo", "initial")?])?],
        0,
    )?;
    let mut view = view_of(&initial_panel);
    let mut controls = selected_ids(&initial_panel);
    let initial_button_ids = controls.clone();
    let next_panel = single_category_command_panel()?;

    let result = sync(
        &mut view,
        &mut controls,
        view_of(&next_panel),
        vec![failure("MoveWindow command button"), Ok(())],
    );

    assert!(result.is_err());
    assert_eq!(view.command_panel, initial_panel);
    assert_eq!(controls, initial_button_ids);
    Ok(())
}

#[test]
fn view_takes_what_its_controls_show() -> AppResult<()> {
    let mut view = view_of(&single_category_command_panel()?);
    let mut controls: Vec<CommandButtonId> = Vec::new();
    let next_panel = two_category_command_panel()?;

    sync(&mut view, &mut controls, view_of(&next_panel), vec![Ok(())])?;
    assert_eq!(view.command_panel, next_panel);

    let next = view_of(&single_category_command_panel()?);
    let outcomes = vec![failure("first"), failure("second")];
    let error = sync(&mut view, &mut controls, next, outcomes).unwrap_err();
    assert_eq!(error.operation(), Some("rollback command panel controls"));
    assert!(error.message().contains("additionally failed to rollback command panel controls"));
    Ok(())
}

#[test]
fn widths_and_extents_are_kept_for_the_way_back() -> AppResult<()> {
    let view = view_of(&single_category_command_panel()?);

    let snapshot = command_panel_resize_snapshot(&view, 96);
    assert_eq!((snapshot.client_width, snapshot.client_height), (300, 200));
    assert!(!command_panel_width_changes(96, 96, &view.layout));
    assert!(command_panel_width_changes(100, 96, &view.layout));
    assert!(command_panel_width_changes(100, 100, &view.layout));
    assert_eq!(extent_of(&DeviceRect { left: 2, top: 3, right: 12, bottom: 3 }), (10, 1));
    Ok(())
}

#[test]
fn startup_command_is_preserved_when_initial_write_fails() {
    let mut startup = StartupInvocation::new(Some("echo hello".to_string()));

    let result = startup.run_startup_command(failure("write to pty stdin"));

    assert!(result.is_err());
    assert!(startup.command().is_some());

    let retry_result = startup.run_startup_command(failure("write to pty stdin"));

    assert!(retry_result.is_err());
    assert!(startup.command().is_some());

    assert!(startup.run_startup_command(Ok(())).is_ok());
    assert!(startup.command().is_none());
}
