//! Windows that are laid out again.

use j3term::domain::command_button::{
    CommandArguments, CommandButtonDefinition, CommandCategoryDefinition,
};
use j3term::domain::command_panel::CommandPanel;
use j3term::domain::geometry::{UiPoint, UiRect};
use j3term::domain::layout::{
    ButtonPlacement, ButtonScroll, TabPlacement, TerminalTabId, TerminalTabView, WindowLayout,
};
use j3term::error::AppResult;
use j3term::window::panel_view::CommandPanelViewState;
use j3term::window::relayout::{
    layout_from_client_size, refresh_layout_for_client, relayout_command_panel, set_tab_views,
    LayoutRequest,
};

const COMMAND_PANEL_WIDTH: i32 = 240;
const TAB_BAR_HEIGHT: i32 = 28;
const TAB_WIDTH: i32 = 120;
const BUTTON_HEIGHT: i32 = 40;

fn rect(x: i32, y: i32, width: i32, height: i32) -> UiRect {
    UiRect { x, y, width, height }
}

/// Tabs at the top, the terminal on the left, buttons on the right.
fn lay_out(request: LayoutRequest<'_>) -> WindowLayout {
    let terminal_width = request.width - request.command_panel_width;
    let body_height = request.height - TAB_BAR_HEIGHT;
    let panel = rect(terminal_width, TAB_BAR_HEIGHT, request.command_panel_width, body_height);
    let page_len = (body_height / BUTTON_HEIGHT).max(1) as usize;
    let total_len = request.buttons.len();
    let max_position = total_len.saturating_sub(page_len);
    let position = request.command_button_scroll_position.min(max_position);
    WindowLayout {
        tab_bar: rect(0, 0, request.width, TAB_BAR_HEIGHT),
        tabs: request
            .tabs
            .iter()
            .enumerate()
            .map(|(index, tab)| TabPlacement {
                id: tab.id,
                bounds: rect(index as i32 * TAB_WIDTH, 0, TAB_WIDTH, TAB_BAR_HEIGHT),
                close_bounds: None,
                active: tab.active,
            })
            .collect(),
        new_tab_button: None,
        terminal: rect(0, TAB_BAR_HEIGHT, terminal_width, body_height),
        splitter: rect(terminal_width, TAB_BAR_HEIGHT, 4, body_height),
        command_panel: panel,
        command_category_selector: None,
        command_button_viewport: panel,
        command_button_scroll: (max_position > 0).then_some(ButtonScroll {
            bounds: panel,
            position,
            max_position,
            page_len,
            total_len,
        }),
        buttons: request
            .buttons
            .iter()
            .skip(position)
            .take(page_len)
            .enumerate()
            .map(|(index, button)| ButtonPlacement {
                id: button.id,
                bounds: rect(panel.x, panel.y + index as i32 * BUTTON_HEIGHT, panel.width, 32),
                label: button.label.clone(),
            })
            .collect(),
    }
}

fn button(label: &str, argument: &str) -> AppResult<CommandButtonDefinition> {
    CommandButtonDefinition::new(
        label.to_string(),
        "echo".to_string(),
        CommandArguments::new(argument.to_string())?,
    )
}

fn button_definitions(prefix: &str, count: usize) -> AppResult<Vec<CommandButtonDefinition>> {
    (0..count).map(|index| button(&format!("{prefix}{index}"), prefix)).collect()
}

fn tab(value: u64, active: bool) -> TerminalTabView {
    TerminalTabView { id: TerminalTabId { value }, title: format!("Tab {value}"), active }
}

fn two_category_panel() -> AppResult<CommandPanel> {
    CommandPanel::from_definitions(
        vec![
            CommandCategoryDefinition::new(
                "Default".to_string(),
                button_definitions("default", 8)?,
            )?,
            CommandCategoryDefinition::new(
                "Tools".to_string(),
                vec![button("deploy", "deploy")?],
            )?,
        ],
        0,
    )
}

#[test]
fn command_panel_relayout_uses_selected_category_and_resets_scroll() -> AppResult<()> {
    let panel = two_category_panel()?;
    let tabs = vec![tab(1, true)];
    let layout = layout_from_client_size(900, 200, COMMAND_PANEL_WIDTH, &panel, &tabs, 3, &lay_out);
    let mut view = CommandPanelViewState::new(panel, layout);
    assert_eq!(view.command_button_scroll_position, 3);

    view.command_panel.select_category_by_index(1)?;
    relayout_command_panel(&mut view, COMMAND_PANEL_WIDTH, &tabs, 0, &lay_out);

    assert_eq!(view.command_button_scroll_position, 0);
    assert_eq!(view.layout.buttons.len(), 1);
    assert_eq!(view.layout.buttons[0].label, "deploy");
    Ok(())
}

#[test]
fn tab_view_update_refreshes_cached_layout_tab_placements() -> AppResult<()> {
    let panel = two_category_panel()?;
    let mut tabs = vec![tab(1, true)];
    let layout = layout_from_client_size(900, 600, COMMAND_PANEL_WIDTH, &panel, &tabs, 0, &lay_out);
    let mut view = CommandPanelViewState::new(panel, layout);

    set_tab_views(
        &mut view,
        &mut tabs,
        vec![tab(1, false), tab(2, true)],
        COMMAND_PANEL_WIDTH,
        &lay_out,
    );

    let active_tabs = view
        .layout
        .tabs
        .iter()
        .filter(|placement| placement.active)
        .map(|placement| placement.id)
        .collect::<Vec<_>>();
    assert_eq!(tabs.len(), 2);
    assert_eq!(view.layout.tabs.len(), 2);
    assert_eq!(active_tabs, vec![TerminalTabId { value: 2 }]);
    assert_eq!(
        view.layout.tab_at(UiPoint {
            x: view.layout.tabs[1].bounds.x,
            y: view.layout.tabs[1].bounds.y,
        }),
        Some(TerminalTabId { value: 2 })
    );
    Ok(())
}

#[test]
fn smaller_window_keeps_its_buttons_scrolled() -> AppResult<()> {
    let panel = two_category_panel()?;
    let tabs = vec![tab(1, true)];
    let layout = layout_from_client_size(900, 200, COMMAND_PANEL_WIDTH, &panel, &tabs, 3, &lay_out);
    let mut view = CommandPanelViewState::new(panel, layout);

    refresh_layout_for_client(&mut view, 800, 188, COMMAND_PANEL_WIDTH, &tabs, &lay_out);
    assert_eq!(view.layout.tab_bar.width, 800);
    assert_eq!(view.command_button_scroll_position, 3);

    refresh_layout_for_client(&mut view, 0, -5, COMMAND_PANEL_WIDTH, &tabs, &lay_out);
    assert_eq!(view.layout.tab_bar.width, 1);
    Ok(())
}
