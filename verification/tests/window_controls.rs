//! The controls around the terminal: widgets, scroll bars, drags, saving.

use j3term::domain::command_panel::CommandPanel;
use j3term::domain::geometry::{UiPoint, UiRect};
use j3term::domain::layout::{
    ButtonPlacement, ButtonScroll, CommandButtonId, TerminalTabId, WindowLayout,
};
use j3term::domain::rows::{RowRange, TerminalChangedRows};
use j3term::domain::terminal::{TerminalGridPoint, TerminalSize};
use j3term::error::{AppError, AppResult};
use j3term::renderer::encoding::{
    encode_label, holds_excess_capacity, label_units, missing_capacity, reservation_result,
};
use j3term::renderer::geometry::{measured_metrics, CellMetrics};
use j3term::renderer::paint::{GdiRenderer, BACKGROUND};
use j3term::window::drawing::{draw_terminal_background, redraw_row_ranges, DrawOp};
use j3term::window::invalidation::{
    drain_invalidation, SurfaceShape, TerminalViewportInvalidation,
};
use j3term::window::panel_view::{
    resize_command_panel_from_splitter, CommandPanelViewState, SplitterResize,
};
use j3term::window::pointer::{wakes_drain_timer, PointerState, PointerTarget, TerminalResize};
use j3term::window::save::CommandPanelSaveState;
use j3term::window::scroll::{
    command_scrollbar_values, scroll_command_buttons_by_lines, ButtonScrollStep, ScrollBarValues,
};
use j3term::window::widgets::{
    splitter_resize_sync, widget_bounds, widgets_reusable, CommandButtonWidget,
    SplitterResizeWidgetSync,
};

fn rect(x: i32, y: i32, width: i32, height: i32) -> UiRect {
    UiRect { x, y, width, height }
}

fn button_scroll(position: usize) -> ButtonScroll {
    ButtonScroll {
        bounds: rect(290, 40, 10, 160),
        position,
        max_position: 5,
        page_len: 3,
        total_len: 8,
    }
}

fn layout(scroll: Option<ButtonScroll>) -> WindowLayout {
    WindowLayout {
        tab_bar: rect(0, 0, 300, 20),
        tabs: Vec::new(),
        new_tab_button: None,
        terminal: rect(0, 20, 200, 180),
        splitter: rect(200, 20, 4, 180),
        command_panel: rect(204, 20, 96, 180),
        command_category_selector: None,
        command_button_viewport: rect(204, 40, 96, 160),
        command_button_scroll: scroll,
        buttons: Vec::new(),
    }
}

fn size(columns: u16) -> TerminalSize {
    TerminalSize { rows: 24, columns, pixel_width: 640, pixel_height: 384 }
}

#[test]
fn cells_are_at_least_one_pixel_wide_and_high() {
    assert_eq!(measured_metrics(0, -3), CellMetrics { width: 1, height: 1 });
    let metrics = measured_metrics(8, 16);
    assert_eq!(metrics, CellMetrics { width: 8, height: 16 });

    let mut renderer = GdiRenderer::new("Consolas".to_string(), 12);
    renderer.refresh_metrics(metrics);
    assert_eq!(renderer.cell_metrics(), metrics);
}

#[test]
fn empty_areas_are_not_painted_again() {
    assert!(GdiRenderer::invalidate_rect(rect(5, 5, 0, 10)).is_none());
    let area = GdiRenderer::invalidate_rect(rect(5, 6, 7, 8)).unwrap();
    assert_eq!((area.left, area.top, area.right, area.bottom), (5, 6, 12, 14));

    let mut ops = Vec::new();
    draw_terminal_background(&mut ops, rect(0, 20, 200, 180));
    assert!(matches!(
        ops.as_slice(),
        [DrawOp::Fill { rect: UiRect { x: 0, y: 20, width: 200, height: 180 }, color: BACKGROUND }]
    ));
}

#[test]
fn cleared_selection_draws_everything_again() {
    let rows = || TerminalViewportInvalidation::Rows(TerminalChangedRows::from_range(1, 2));
    assert!(matches!(drain_invalidation(true, rows()), TerminalViewportInvalidation::Full));
    assert!(matches!(drain_invalidation(false, rows()), TerminalViewportInvalidation::Rows(_)));
}

#[test]
fn kept_surface_draws_changed_rows_again() {
    let shape = SurfaceShape {
        viewport_rows: 3,
        viewport_columns: 10,
        content_width: 80,
        content_height: 50,
        metrics: CellMetrics { width: 8, height: 16 },
        baseline: 12,
    };
    let mut ops = Vec::new();
    redraw_row_ranges(
        &mut ops,
        shape,
        &vec![
            RowRange { start: 0, end: 1 },
            RowRange { start: 2, end: 9 },
            RowRange { start: 5, end: 6 },
        ],
    );
    assert_eq!(
        ops,
        vec![
            DrawOp::Fill { rect: rect(0, 0, 80, 16), color: BACKGROUND },
            DrawOp::Row { row: 0, x: 0, y: 12, clip: None },
            DrawOp::Fill { rect: rect(0, 32, 80, 18), color: BACKGROUND },
            DrawOp::Row { row: 2, x: 0, y: 44, clip: None },
        ]
    );
}

#[test]
fn buffers_keep_four_times_what_is_required() {
    assert!(!holds_excess_capacity(40, 10));
    assert!(holds_excess_capacity(41, 10));
    assert!(holds_excess_capacity(1, 0));
    assert!(!holds_excess_capacity(usize::MAX, usize::MAX));

    assert_eq!(missing_capacity(10, 10), None);
    assert_eq!(missing_capacity(3, 10), Some(7));
    assert_eq!(reservation_result(true, "no memory"), Ok(()));
    assert_eq!(
        reservation_result(false, "no memory"),
        Err(AppError::InvalidInput("no memory"))
    );
}

#[test]
fn labels_are_counted_in_units() {
    let mut units = vec![9];
    assert_eq!(encode_label(&mut units, ""), Ok(None));
    assert_eq!(units, vec![9]);
    assert_eq!(encode_label(&mut units, "a\u{1F600}"), Ok(Some(3)));
    assert_eq!(units, vec![0x61, 0xD83D, 0xDE00]);

    let too_long = || AppError::InvalidInput("text is too long to render");
    assert_eq!(label_units(Ok(()), 5), Ok(Some(5)));
    assert_eq!(label_units(Ok(()), i32::MAX as usize), Ok(Some(i32::MAX)));
    assert_eq!(label_units(Ok(()), i32::MAX as usize + 1), Err(too_long()));
    assert_eq!(
        label_units(Err(AppError::InvalidInput("no memory")), 5),
        Err(AppError::InvalidInput("no memory"))
    );
}

#[test]
fn another_layout_says_how_far_the_buttons_are_scrolled() -> AppResult<()> {
    let panel = CommandPanel::from_definitions(Vec::new(), 0)?;
    let mut view = CommandPanelViewState::new(panel, layout(Some(button_scroll(2))));
    assert_eq!(view.command_button_scroll_position, 2);
    view.refresh_layout(layout(Some(button_scroll(4))));
    assert_eq!(view.command_button_scroll_position, 4);
    view.refresh_layout(layout(None));
    assert_eq!(view.command_button_scroll_position, 0);
    Ok(())
}

#[test]
fn splitter_keeps_its_distance_to_the_pointer() {
    let mut pointer = PointerState::new();
    assert_eq!(pointer.splitter_drag_x(UiPoint { x: 150, y: 0 }), None);
    assert_eq!(pointer.panel_resized(size(80), size(80), true), TerminalResize::Now(size(80)));

    pointer.start_splitter_drag(UiPoint { x: 203, y: 30 }, rect(200, 20, 4, 180));
    assert_eq!(pointer.splitter_drag_x(UiPoint { x: 150, y: 0 }), Some(147));
    assert_eq!(pointer.panel_resized(size(80), size(80), true), TerminalResize::Deferred);
    assert_eq!(pointer.panel_resized(size(80), size(81), true), TerminalResize::Now(size(81)));
    assert_eq!(pointer.handle_left_button_up(), None);
}

#[test]
fn moved_splitter_gives_the_panel_another_width() -> AppResult<()> {
    let panel = CommandPanel::from_definitions(Vec::new(), 0)?;
    let mut view = CommandPanelViewState::new(panel, layout(Some(button_scroll(2))));
    let mut width = 96;
    let mut pointer = PointerState::new();
    let resize = |width: i32, columns: u16, resized_in_place: bool| SplitterResize {
        command_panel_width: width,
        layout: layout(Some(button_scroll(1))),
        resized_in_place,
        previous_terminal_size: size(80),
        terminal_size: size(columns),
    };

    let same = resize(96, 79, true);
    assert_eq!(
        resize_command_panel_from_splitter(&mut view, &mut width, &mut pointer, same, true),
        (SplitterResizeWidgetSync::Unchanged, None)
    );
    assert_eq!(view.command_button_scroll_position, 2);

    let wider = resize(100, 79, true);
    assert_eq!(
        resize_command_panel_from_splitter(&mut view, &mut width, &mut pointer, wider, true),
        (SplitterResizeWidgetSync::GeometryOnly, Some(size(79)))
    );
    assert_eq!((width, view.command_button_scroll_position), (100, 1));

    pointer.start_splitter_drag(UiPoint { x: 201, y: 30 }, rect(200, 20, 4, 180));
    let dragged = resize(101, 80, false);
    assert_eq!(
        resize_command_panel_from_splitter(&mut view, &mut width, &mut pointer, dragged, true),
        (SplitterResizeWidgetSync::RebuildCommandWidgets, None)
    );
    assert_eq!(pointer.handle_left_button_up(), Some(size(80)));
    Ok(())
}

#[test]
fn tab_that_was_chosen_is_looked_at_at_once() {
    let tab = PointerTarget::Tab(TerminalTabId { value: 3 });
    assert!(wakes_drain_timer(tab, &Ok(())));
    assert!(wakes_drain_timer(PointerTarget::NewTab, &Ok(())));
    assert!(!wakes_drain_timer(tab, &Err(AppError::InvalidState("tab is gone"))));
    assert!(!wakes_drain_timer(PointerTarget::Splitter, &Ok(())));
}

#[test]
fn selection_drag_goes_on_while_the_pointer_is_held() {
    let mut pointer = PointerState::new();
    pointer.terminal_selection_drag = Some(TerminalGridPoint::new(1, 2));
    let held = AppError::InvalidState("pointer is held");
    assert_eq!(pointer.finish_terminal_selection_drag(Err(held)).is_err(), true);
    assert!(pointer.terminal_selection_drag.is_some());
    assert_eq!(pointer.finish_terminal_selection_drag(Ok(())), Ok(()));
    assert!(pointer.terminal_selection_drag.is_none());
}

#[test]
fn save_that_could_not_start_is_forgotten() {
    let mut save: CommandPanelSaveState<u8> = CommandPanelSaveState::new();
    let generation = save.schedule_next();
    assert!(save.mark_save_started(generation, 9));
    save.clear_save_in_progress(generation + 1);
    assert!(save.save_in_progress());
    save.clear_save_in_progress(generation);
    assert!(!save.save_in_progress());
}

#[test]
fn changes_that_came_during_a_save_are_saved_next() {
    let mut save: CommandPanelSaveState<u8> = CommandPanelSaveState::new();
    assert_eq!(save.after_save(Ok(())), (true, false, None));
    let failed = || AppError::InvalidState("disk is full");
    assert_eq!(save.after_save(Err(failed())), (false, false, Some(failed())));
    save.schedule_next();
    assert_eq!(save.after_save(Ok(())), (false, true, None));
}

#[test]
fn buttons_scroll_by_lines_within_their_range() {
    assert_eq!(scroll_command_buttons_by_lines(None, 3), ButtonScrollStep::Reset);
    assert_eq!(
        scroll_command_buttons_by_lines(Some(button_scroll(2)), 9),
        ButtonScrollStep::MoveTo(5)
    );
    assert_eq!(
        scroll_command_buttons_by_lines(Some(button_scroll(2)), -1),
        ButtonScrollStep::MoveTo(1)
    );
    assert_eq!(
        scroll_command_buttons_by_lines(Some(button_scroll(0)), -1),
        ButtonScrollStep::Unchanged
    );
    let values = command_scrollbar_values(button_scroll(2));
    assert_eq!(values, ScrollBarValues { upper: 8, page: 3, value: 2 });
}

#[test]
fn widgets_follow_their_buttons() {
    let widget = |value: u64| CommandButtonWidget {
        id: CommandButtonId { value },
        label: "list".to_string(),
    };
    let button = |value: u64| ButtonPlacement {
        id: CommandButtonId { value },
        bounds: rect(0, 0, 1, 1),
        label: "list".to_string(),
    };
    assert!(widgets_reusable(&vec![widget(1), widget(2)], &vec![button(1), button(2)]));
    assert!(!widgets_reusable(&vec![widget(1), widget(2)], &vec![button(2), button(1)]));
    assert!(!widgets_reusable(&vec![widget(1)], &vec![button(1), button(2)]));

    assert_eq!(widget_bounds(rect(-4, 7, 0, 12)), rect(0, 7, 1, 12));
    assert_eq!(splitter_resize_sync(96, 96, true), SplitterResizeWidgetSync::Unchanged);
    assert_eq!(splitter_resize_sync(96, 97, true), SplitterResizeWidgetSync::GeometryOnly);
    assert_eq!(
        splitter_resize_sync(96, 97, false),
        SplitterResizeWidgetSync::RebuildCommandWidgets
    );
}
