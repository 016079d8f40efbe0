//! Windows: timers, geometry, pointers, resizing, shutting down.

use std::sync::mpsc;

use j3term::domain::geometry::{UiPoint, UiRect};
use j3term::domain::layout::{
    ButtonPlacement, ButtonScroll, CommandButtonId, TabPlacement, TerminalTabId, TerminalTabView,
    WindowLayout,
};
use j3term::domain::rows::{RowRange, TerminalChangedRows};
use j3term::domain::terminal::{
    CursorPosition, TerminalCell, TerminalGridPoint, TerminalScroll, TerminalScrollState,
    TerminalSelection, TerminalSize, TerminalViewport,
};
use j3term::error::{AppError, AppResult};
use j3term::pty::cleanup::ChannelPoll;
use j3term::renderer::geometry::CellMetrics;
use j3term::renderer::paint::{ColumnRange, GdiRenderer, CHROME_BACKGROUND};
use j3term::window::drawing::{
    draw_scene, draw_splitter, draw_tab_bar, draw_terminal, DrawOp, ShownTerminal,
};
use j3term::window::failure::{
    cleanup_result, collect_detached_cleanup_errors_after_gtk_exit, creation_result,
    finish_shutdown_result, record_error, take_shutdown_error_result, WindowErrorState,
};
use j3term::window::grid::{
    terminal_grid_changed, terminal_grid_point_at, terminal_rows_rect, terminal_size_from_area,
    to_u16_saturating, visible_terminal_rows_rect,
};
use j3term::window::invalidation::{
    refresh_invalidation, surface_shape, SurfacePlan, SurfaceShape, TerminalSurfaceCache,
    TerminalViewportInvalidation,
};
use j3term::window::keys::{
    clipboard_shortcut, clipboard_text, handle_key_pressed, KeyAction, PressedKey, ShortcutAction, TerminalKey,
    TerminalKeyModifiers, KEY_C, KEY_V,
};
use j3term::window::menus::{
    argument_tokens, button_menu_items, category_menu_items, edit_button_step,
    font_family_name_suggests_monospace, font_size_points_from_pango_size, insert_token,
    is_terminal_font_family_candidate, menu_label, new_button_definition, prompt_step,
    terminal_font_from_pango_description, validate_text_input, ButtonMenuState,
    CategoryMenuState, DialogStep, MenuCommand, MenuItem, TextInputValidation,
};
use j3term::window::pointer::{MotionOutcome, PointerState, PointerTarget, SplitterDrag};
use j3term::window::resize::{
    ClientResizeOutcome, FontChange, FontStage, ResizeRun, ResizeStage, SizeChange,
};
use j3term::window::save::{
    close_requested, CommandPanelSavePoll, CommandPanelSaveShutdownWait, CommandPanelSaveState,
    CommandPanelSaveTask, CommandPanelShutdownSave, ResultWait,
};
use j3term::window::scroll::{
    command_button_scroll_lines_from_direction, command_button_scroll_lines_from_wheel_delta,
    scroll_command_buttons, scrolled_position_by_lines, terminal_scroll_lines_from_direction,
    terminal_scroll_lines_from_wheel_delta, terminal_scroll_request, terminal_scrollbar_values,
    ButtonScrollStep, CommandButtonScrollRequest, TerminalScrollBarRequest, WheelDirection,
};
use j3term::window::surface::DrawnTerminal;
use j3term::window::text_cache::{write_line_text, TerminalLineTextCache};
use j3term::window::timers::{
    PtyDrainTimerState, TerminalTimerDrain, PTY_ACTIVE_TIMER_MS, PTY_IDLE_TIMER_MS,
};
use j3term::window::view::{
    invalidate_terminal_content_rows, shutdown_result, wheel_target, TerminalView, WheelTarget,
};
use j3term::window::widgets::{sync_command_widgets, CommandButtonWidget, WidgetSlot};

fn terminal_viewport_from_rows(rows: &[&str]) -> AppResult<TerminalViewport> {
    let columns = rows.iter().map(|row| row.chars().count()).max().unwrap_or(0);
    let mut cells = Vec::new();
    for row in rows {
        let mut characters = row.chars().collect::<Vec<_>>();
        characters.resize(columns, ' ');
        cells.extend(characters.into_iter().map(TerminalCell::new));
    }
    TerminalViewport::with_scroll(
        rows.len(),
        columns,
        cells,
        CursorPosition::new(0, 0),
        TerminalScrollState::new(0, 0, rows.len(), rows.len()),
    )
}

fn idle_drain() -> TerminalTimerDrain {
    TerminalTimerDrain {
        had_events: false,
        needs_active_poll: false,
        active_tab_dirty: false,
        failure_cause: None,
    }
}

fn with_pixels(rows: u16, columns: u16, pixel_width: u16, pixel_height: u16) -> TerminalSize {
    TerminalSize { rows, columns, pixel_width, pixel_height }
}

#[test]
fn gtk_scroll_deltas_match_windows_scroll_direction() {
    assert_eq!(command_button_scroll_lines_from_direction(WheelDirection::Down), 3);
    assert_eq!(command_button_scroll_lines_from_direction(WheelDirection::Up), -3);
    assert_eq!(terminal_scroll_lines_from_direction(WheelDirection::Down), -3);
    assert_eq!(terminal_scroll_lines_from_direction(WheelDirection::Up), 3);
    assert_eq!(scrolled_position_by_lines(4, 10, -3), 1);
    assert_eq!(scrolled_position_by_lines(9, 10, 3), 10);
}

#[test]
fn pty_drain_timer_backs_off_after_idle_drains_and_resets_on_activity() {
    let mut timer = PtyDrainTimerState::default();
    let idle = idle_drain();

    assert_eq!(timer.interval_after_drain(Some(&idle)), PTY_ACTIVE_TIMER_MS);
    assert_eq!(timer.interval_after_drain(Some(&idle)), PTY_ACTIVE_TIMER_MS);
    assert_eq!(timer.interval_after_drain(Some(&idle)), PTY_IDLE_TIMER_MS);

    timer.record_activity();
    assert_eq!(timer.interval_after_drain(Some(&idle)), PTY_ACTIVE_TIMER_MS);

    let busy = TerminalTimerDrain { had_events: true, ..idle_drain() };
    assert_eq!(timer.interval_after_drain(Some(&busy)), PTY_ACTIVE_TIMER_MS);

    let cleanup_pending = TerminalTimerDrain { needs_active_poll: true, ..idle_drain() };
    assert_eq!(timer.interval_after_drain(Some(&cleanup_pending)), PTY_ACTIVE_TIMER_MS);
}

#[test]
fn pty_drain_timer_generation_invalidates_previous_timeout() {
    let mut timer = PtyDrainTimerState::default();

    let first = timer.schedule_next();
    assert!(timer.is_current(first));

    let second = timer.schedule_next();
    assert!(!timer.is_current(first));
    assert!(timer.is_current(second));
}

#[test]
fn command_panel_save_generation_invalidates_previous_timeout() {
    let mut save: CommandPanelSaveState<u8> = CommandPanelSaveState::new();

    let first = save.schedule_next();
    assert!(save.is_current(first));

    let second = save.schedule_next();
    assert!(!save.is_current(first));
    assert!(save.is_current(second));

    save.mark_saved(first);
    assert!(save.is_current(second));

    save.mark_saved(second);
    assert!(!save.is_current(second));
}

#[test]
fn command_panel_save_shutdown_wait_retains_delayed_task() -> AppResult<()> {
    let (sender, receiver) = mpsc::channel::<AppResult<()>>();
    let task = CommandPanelSaveTask { generation: 1, receiver };

    let waited = match task.receiver.try_recv() {
        Ok(result) => ResultWait::Value(result),
        Err(mpsc::TryRecvError::Empty) => ResultWait::TimedOut,
        Err(mpsc::TryRecvError::Disconnected) => ResultWait::Disconnected,
    };
    let wait = task.wait_before_shutdown(waited)?;

    let CommandPanelSaveShutdownWait::Delayed(task) = wait else {
        panic!("expected delayed command panel save task");
    };

    let mut save = CommandPanelSaveState::new();
    save.restore_save_in_progress(task);
    assert!(save.save_in_progress());
    assert!(sender.send(Ok(())).is_ok());
    Ok(())
}

#[test]
fn save_in_progress_is_polled_until_it_ends() {
    let mut save: CommandPanelSaveState<u8> = CommandPanelSaveState::new();
    let generation = save.schedule_next();
    assert!(save.flush_due(generation));
    assert!(save.mark_save_started(generation, 9));
    assert!(!save.mark_save_started(generation, 9));

    assert!(matches!(
        save.poll_save_result(generation, ChannelPoll::Empty),
        CommandPanelSavePoll::Pending
    ));
    assert!(matches!(
        save.poll_save_result(generation, ChannelPoll::Value(Ok(()))),
        CommandPanelSavePoll::Finished(Ok(()))
    ));
    assert!(!save.save_in_progress());
}

#[test]
fn shutdown_waits_for_a_save_that_ends_in_time() -> AppResult<()> {
    let mut save: CommandPanelSaveState<u8> = CommandPanelSaveState::new();
    let generation = save.schedule_next();
    assert!(save.mark_save_started(generation, 9));
    let task = save.take_save_in_progress().unwrap();

    let wait = task.wait_before_shutdown(ResultWait::Value(Ok(())))?;
    let (outcome, _) = save.finish_before_shutdown(wait)?;

    assert_eq!(outcome, CommandPanelShutdownSave::Complete);
    Ok(())
}

#[test]
fn gtk_exit_cleanup_reports_timeout_without_waiting_for_finish() {
    let timeout_error = AppError::pty_message(
        "join detached pty cleanup tasks",
        "timed out waiting for detached cleanup".to_string(),
    );
    let cleanup_error = AppError::pty_message(
        "cleanup detached pty resources",
        "cleanup failed after shutdown".to_string(),
    );

    let (errors, timeouts) =
        collect_detached_cleanup_errors_after_gtk_exit(vec![timeout_error, cleanup_error]);

    assert_eq!(timeouts.len(), 1);
    assert_eq!(errors.len(), 1);
    assert_eq!(errors[0].operation(), Some("cleanup detached pty resources"));
}

#[test]
fn write_line_text_reuses_buffer_and_trims_trailing_whitespace() {
    let mut buffer = String::with_capacity(16);
    let capacity = buffer.capacity();
    let cells = [
        TerminalCell::new('a'),
        TerminalCell::new(' '),
        TerminalCell::new('한'),
        TerminalCell::new('\t'),
        TerminalCell::new(' '),
    ];

    assert!(write_line_text(&mut buffer, &cells));
    assert_eq!(buffer, "a 한");
    assert_eq!(buffer.capacity(), capacity);

    let blank_cells = [TerminalCell::new(' '), TerminalCell::new('\t')];
    assert!(!write_line_text(&mut buffer, &blank_cells));
    assert_eq!(buffer, "");
    assert_eq!(buffer.capacity(), capacity);
}

#[test]
fn terminal_line_text_cache_uses_row_versions_for_invalidations() -> AppResult<()> {
    let mut viewport = terminal_viewport_from_rows(&["old "])?;
    let mut cache = TerminalLineTextCache::default();

    assert_eq!(cache.line_text(&viewport, 0), Some("old"));
    viewport.cells[0] = TerminalCell::new('n');
    viewport.cells[1] = TerminalCell::new('e');
    viewport.cells[2] = TerminalCell::new('w');
    assert_eq!(cache.line_text(&viewport, 0), Some("old"));

    viewport.set_changed_rows(Some(RowRange { start: 0, end: 1 }));
    assert_eq!(cache.line_text(&viewport, 0), Some("new"));
    Ok(())
}

#[test]
fn terminal_line_text_cache_clear_invalidates_same_shape_viewport() -> AppResult<()> {
    let first = terminal_viewport_from_rows(&["one "])?;
    let second = terminal_viewport_from_rows(&["two "])?;
    let mut cache = TerminalLineTextCache::default();

    assert_eq!(cache.line_text(&first, 0), Some("one"));
    assert_eq!(cache.line_text(&second, 0), Some("one"));

    cache.clear();
    assert_eq!(cache.line_text(&second, 0), Some("two"));
    Ok(())
}

#[test]
fn gtk_terminal_rows_rect_returns_dirty_row_band() {
    let content_area = UiRect { x: 10, y: 20, width: 200, height: 80 };
    let metrics = CellMetrics { width: 8, height: 16 };

    let Some(rect) = terminal_rows_rect(content_area, metrics, RowRange { start: 1, end: 3 })
    else {
        panic!("expected dirty row rectangle");
    };

    assert_eq!(rect, UiRect { x: 10, y: 36, width: 200, height: 32 });
}

#[test]
fn terminal_rows_rect_clips_to_content_height() {
    let content_area = UiRect { x: 0, y: 0, width: 160, height: 40 };
    let metrics = CellMetrics { width: 8, height: 16 };

    let Some(rect) = terminal_rows_rect(content_area, metrics, RowRange { start: 1, end: 4 })
    else {
        panic!("expected clipped dirty row rectangle");
    };

    assert_eq!(rect, UiRect { x: 0, y: 16, width: 160, height: 24 });
}

#[test]
fn win32_terminal_rows_rect_returns_dirty_row_band() {
    let content_area = UiRect { x: 12, y: 24, width: 320, height: 96 };
    let metrics = CellMetrics { width: 8, height: 16 };

    let Some(rect) =
        visible_terminal_rows_rect(content_area, metrics, RowRange { start: 1, end: 3 }, 6)
    else {
        panic!("dirty row band should produce a rect");
    };

    assert_eq!(rect.x, 12);
    assert_eq!(rect.y, 40);
    assert_eq!(rect.width, 320);
    assert_eq!(rect.height, 32);
}

#[test]
fn terminal_rows_rect_clips_to_terminal_content_height() {
    let content_area = UiRect { x: 12, y: 24, width: 320, height: 40 };
    let metrics = CellMetrics { width: 8, height: 16 };

    let Some(rect) =
        visible_terminal_rows_rect(content_area, metrics, RowRange { start: 1, end: 4 }, 4)
    else {
        panic!("clipped dirty row band should produce a rect");
    };

    assert_eq!(rect.x, 12);
    assert_eq!(rect.y, 40);
    assert_eq!(rect.width, 320);
    assert_eq!(rect.height, 24);
}

#[test]
fn terminal_rows_rect_extends_last_visible_row_to_content_bottom() {
    let content_area = UiRect { x: 12, y: 24, width: 320, height: 38 };
    let metrics = CellMetrics { width: 8, height: 16 };

    let Some(rect) =
        visible_terminal_rows_rect(content_area, metrics, RowRange { start: 1, end: 2 }, 2)
    else {
        panic!("last dirty row should include trailing content");
    };

    assert_eq!(rect.x, 12);
    assert_eq!(rect.y, 40);
    assert_eq!(rect.width, 320);
    assert_eq!(rect.height, 22);
}

fn changed_row_ranges(rows: &TerminalChangedRows) -> Vec<(usize, usize)> {
    rows.ranges().iter().map(|rows| (rows.start, rows.end)).collect()
}

#[test]
fn terminal_viewport_invalidation_merges_dirty_rows() -> AppResult<()> {
    let mut first = terminal_viewport_from_rows(&["one", "two", "three"])?;
    let baseline = first.change_baseline();
    first.set_changed_rows(Some(RowRange { start: 0, end: 1 }));
    let mut invalidation = TerminalViewportInvalidation::Rows(
        first
            .changed_rows_since_baseline(&baseline)
            .ok_or(AppError::InvalidInput("expected changed rows"))?,
    );

    let mut second = terminal_viewport_from_rows(&["one", "two", "three"])?;
    let baseline = second.change_baseline();
    second.set_changed_rows(Some(RowRange { start: 2, end: 3 }));
    let rows = second
        .changed_rows_since_baseline(&baseline)
        .ok_or(AppError::InvalidInput("expected changed rows"))?;

    invalidation.merge(TerminalViewportInvalidation::Rows(rows));

    let TerminalViewportInvalidation::Rows(rows) = invalidation else {
        return Err(AppError::InvalidInput("expected row invalidation"));
    };
    assert_eq!(changed_row_ranges(&rows), vec![(0, 1), (2, 3)]);
    Ok(())
}

#[test]
fn category_name_validation_matches_command_panel_rules() {
    assert!(validate_text_input("Build", TextInputValidation::CategoryName).is_ok());
    assert!(validate_text_input("", TextInputValidation::CategoryName).is_err());
    assert!(validate_text_input("bad\nname", TextInputValidation::CategoryName).is_err());
    assert!(validate_text_input("bad\nname", TextInputValidation::Anything).is_ok());
}

#[test]
fn font_family_name_suggests_monospace_for_cjk_mono_family() {
    assert!(font_family_name_suggests_monospace("Noto Sans Mono CJK KR"));
    assert!(font_family_name_suggests_monospace("Noto Mono"));
    assert!(font_family_name_suggests_monospace("DejaVu Sans Mono"));
    assert!(!font_family_name_suggests_monospace("Noto Sans CJK KR"));
    assert!(!font_family_name_suggests_monospace("Noto Serif CJK KR"));
    assert!(!font_family_name_suggests_monospace("Monaco"));
}

#[test]
fn shutdown_result_returns_detached_cleanup_failure() -> AppResult<()> {
    let result = finish_shutdown_result(
        Ok(()),
        Ok(()),
        Ok(()),
        vec![AppError::pty_message(
            "cleanup detached pty resources",
            "child terminate failed".to_string(),
        )],
    );

    let error = result.err().ok_or(AppError::InvalidState("shutdown result should fail"))?;

    assert_eq!(error.operation(), Some("cleanup detached pty resources"));
    assert!(error.message().contains("child terminate failed"));
    Ok(())
}

#[test]
fn shutdown_result_returns_window_shutdown_failure() -> AppResult<()> {
    let result = finish_shutdown_result(
        Ok(()),
        Ok(()),
        Err(AppError::ui_message(
            "shutdown window",
            "save selected command category failed".to_string(),
        )),
        Vec::new(),
    );

    let error = result.err().ok_or(AppError::InvalidState("shutdown result should fail"))?;

    assert_eq!(error.operation(), Some("shutdown window"));
    assert!(error.message().contains("save selected command category failed"));
    Ok(())
}

#[test]
fn shutdown_result_orders_existing_errors_before_cleanup_failure() -> AppResult<()> {
    let result = finish_shutdown_result(
        Err(AppError::ui_message("message loop", "loop failed".to_string())),
        Err(AppError::ui_message("destroy window", "destroy failed".to_string())),
        Err(AppError::ui_message("shutdown window", "selection save failed".to_string())),
        vec![AppError::pty_message(
            "cleanup detached pty resources",
            "child terminate failed".to_string(),
        )],
    );

    let error = result.err().ok_or(AppError::InvalidState("shutdown result should fail"))?;
    let message = error.message();
    let Some(loop_index) = message.find("loop failed") else {
        return Err(AppError::InvalidState("missing loop failure"));
    };
    let Some(destroy_index) = message.find("destroy failed") else {
        return Err(AppError::InvalidState("missing destroy failure"));
    };
    let Some(shutdown_index) = message.find("selection save failed") else {
        return Err(AppError::InvalidState("missing shutdown failure"));
    };
    let Some(cleanup_index) = message.find("child terminate failed") else {
        return Err(AppError::InvalidState("missing cleanup failure"));
    };

    assert!(loop_index < destroy_index);
    assert!(destroy_index < shutdown_index);
    assert!(shutdown_index < cleanup_index);
    Ok(())
}

#[test]
fn recorded_window_shutdown_error_reaches_shutdown_result() -> AppResult<()> {
    let recorded = AppError::ui_message(
        "save command panel selection",
        "settings write failed".to_string(),
    );
    let shutdown_result = take_shutdown_error_result(Some(recorded.message()));
    let result = finish_shutdown_result(Ok(()), Ok(()), shutdown_result, Vec::new());

    let error = result.err().ok_or(AppError::InvalidState("shutdown result should fail"))?;
    let message = error.message();

    assert_eq!(error.operation(), Some("shutdown window"));
    assert!(message.contains("settings write failed"));
    Ok(())
}

#[test]
fn paint_error_recording_does_not_mutate_terminal_viewport() -> AppResult<()> {
    let mut view = TerminalView::new(GdiRenderer::new("Mono".to_string(), 12));
    view.set_terminal_viewport(terminal_viewport_from_rows(&["ab", "cd"])?);
    let before = terminal_viewport_from_rows(&["ab", "cd"])?;
    let mut last_error = WindowErrorState::new();

    last_error.record_paint_error(&AppError::InvalidState("paint failed"));

    let after = view.terminal_viewport.unwrap();
    assert_eq!((after.rows, after.columns), (before.rows, before.columns));
    assert_eq!(after.cells, before.cells);
    assert_eq!(after.cursor, before.cursor);
    assert_eq!(after.scroll, before.scroll);
    assert_eq!(after.row_versions, before.row_versions);
    assert_eq!(last_error.as_deref(), Some("invalid state: paint failed"));
    assert_eq!(last_error.take().as_deref(), Some("invalid state: paint failed"));
    assert_eq!(last_error.take(), None);
    Ok(())
}

#[test]
fn error_is_recorded_with_what_else_failed() {
    let error = AppError::InvalidState("one");
    assert_eq!(record_error(&error, Ok(()), Ok(())), "invalid state: one");
    assert_eq!(
        record_error(&error, Err(AppError::InvalidState("two")), Ok(())),
        "invalid state: one; additionally failed to display user-facing error: invalid state: two"
    );
    assert_eq!(
        record_error(&error, Ok(()), Err(AppError::InvalidState("two"))),
        "invalid state: one; additionally failed to refresh terminal viewport: invalid state: two"
    );
}

#[test]
fn recorded_message_tells_why_a_window_was_not_made() {
    let platform = || Err(AppError::io("CreateWindowExW", "denied".to_string()));
    assert_eq!(creation_result(Ok(()), None), Ok(()));
    assert_eq!(creation_result(platform(), None), platform());
    assert_eq!(
        creation_result(platform(), Some("no icons".to_string())),
        Err(AppError::ui_message("create main window", "no icons".to_string()))
    );
    assert_eq!(
        creation_result(Ok(()), Some("no icons".to_string())),
        Err(AppError::ui_message("initialize main window", "no icons".to_string()))
    );
}

#[test]
fn window_is_drawn_from_its_background_to_the_terminal() -> AppResult<()> {
    let layout = layout();
    let tabs: Vec<TerminalTabView> = Vec::new();
    let viewport = terminal_viewport_from_rows(&["ab", "cd"])?;
    let selected: Vec<Option<ColumnRange>> = vec![None, None];
    let content = UiRect { x: 1, y: 2, width: 16, height: 0 };
    let mut ops: Vec<DrawOp> = Vec::new();
    let shown = ShownTerminal {
        viewport: &viewport,
        content,
        metrics: CellMetrics { width: 8, height: 16 },
        baseline: 12,
        selected: &selected,
        from_surface: true,
    };
    draw_scene(&mut ops, 640, 480, &layout, &tabs, Some(shown));

    assert_eq!(
        ops[0],
        DrawOp::Fill {
            rect: UiRect { x: 0, y: 0, width: 640, height: 480 },
            color: CHROME_BACKGROUND
        }
    );
    let splitter = ops
        .iter()
        .position(|op| matches!(op, DrawOp::Fill { rect, .. } if *rect == layout.splitter))
        .unwrap();
    let terminal = ops
        .iter()
        .position(|op| matches!(op, DrawOp::Fill { rect, .. } if *rect == layout.terminal))
        .unwrap();
    assert!(splitter < terminal);
    assert_eq!(
        ops[terminal + 1],
        DrawOp::Surface { rect: UiRect { x: 1, y: 2, width: 16, height: 1 } }
    );
    assert!(matches!(ops.last(), Some(DrawOp::Outline { .. })));

    let mut ops: Vec<DrawOp> = Vec::new();
    draw_scene(&mut ops, 640, 480, &layout, &tabs, None);
    assert!(
        matches!(ops.last(), Some(DrawOp::Fill { rect, .. }) if *rect == layout.terminal)
    );
    Ok(())
}

#[test]
fn kept_drawing_goes_when_the_font_or_the_viewport_does() -> AppResult<()> {
    let mut terminal: DrawnTerminal<u8> = DrawnTerminal::new();
    let metrics = CellMetrics { width: 8, height: 16 };
    assert!(!terminal.update_cell_metrics(metrics, 12));
    assert_eq!(terminal.begin_drawing(), None);

    let failure = Err(AppError::InvalidState("no display"));
    assert!(terminal.replace_terminal_viewport(failure).is_err());
    assert_eq!(terminal.pending, TerminalViewportInvalidation::Nothing);
    terminal.replace_terminal_viewport(terminal_viewport_from_rows(&["ab"]))?;
    assert_eq!(terminal.begin_drawing(), Some(TerminalViewportInvalidation::Full));
    assert_eq!(terminal.begin_drawing(), Some(TerminalViewportInvalidation::Nothing));
    terminal.end_drawing(true);
    assert_eq!(terminal.pending, TerminalViewportInvalidation::Nothing);
    terminal.end_drawing(false);
    assert_eq!(terminal.begin_drawing(), Some(TerminalViewportInvalidation::Full));

    terminal.surface.surface = Some(1);
    assert!(terminal.update_cell_metrics(metrics, 13));
    assert_eq!(terminal.surface.surface, None);
    assert_eq!(terminal.pending, TerminalViewportInvalidation::Full);
    assert!(!terminal.update_cell_metrics(metrics, 13));
    Ok(())
}

#[test]
fn cleanup_after_exit_is_reported_together() {
    assert_eq!(cleanup_result(&Vec::new()), Ok(()));
    let errors = vec![AppError::InvalidState("one"), AppError::InvalidState("two")];
    let error = cleanup_result(&errors).unwrap_err();
    assert!(error.message().contains("invalid state: one; invalid state: two"));
    assert_eq!(finish_shutdown_result(Ok(()), Ok(()), Ok(()), Vec::new()), Ok(()));
    assert_eq!(
        shutdown_result(
            Ok(()),
            Err(AppError::InvalidState("panel")),
            Err(AppError::InvalidState("session"))
        ),
        Err(AppError::InvalidState("panel"))
    );
}

fn change(previous: TerminalSize, next: TerminalSize) -> SizeChange {
    SizeChange {
        previous_terminal_size: previous,
        terminal_size: next,
        terminal_grid_changed: terminal_grid_changed(previous, next),
    }
}

/// Performs a resize; `failing` is the stage that fails.
fn run_resize(
    mut run: ResizeRun,
    failing: &[ResizeStage],
    pointer: &mut PointerState,
) -> (AppResult<ClientResizeOutcome>, Vec<(ResizeStage, TerminalSize)>) {
    let mut steps: Vec<(ResizeStage, TerminalSize)> = Vec::new();
    while run.stage() != ResizeStage::Finished {
        steps.push((run.stage(), run.session_size()));
        if failing.contains(&run.stage()) {
            run.step(Err(AppError::ui_message("ResizePseudoConsole", "refused".to_string())));
        } else {
            run.step(Ok(()));
        }
    }
    (run.finish(pointer), steps)
}

#[test]
fn splitter_resize_failure_rolls_back_view_state() {
    let (old, new) = (with_pixels(24, 80, 640, 384), with_pixels(24, 76, 608, 384));
    let mut pointer = PointerState::new();
    let run = ResizeRun::for_command_panel(&mut pointer, change(old, new), true).unwrap();

    let (result, steps) = run_resize(run, &[ResizeStage::ResizeSession], &mut pointer);

    assert!(result.is_err());
    assert_eq!(
        steps,
        vec![(ResizeStage::ResizeSession, new), (ResizeStage::RollbackView, new)]
    );
}

#[test]
fn splitter_viewport_refresh_failure_rolls_back_view_state() {
    let (old, new) = (with_pixels(24, 80, 640, 384), with_pixels(24, 76, 608, 384));
    let mut pointer = PointerState::new();
    let run = ResizeRun::for_command_panel(&mut pointer, change(old, new), true).unwrap();

    let (result, steps) = run_resize(run, &[ResizeStage::RefreshViewport], &mut pointer);

    assert!(result.is_err());
    assert_eq!(
        steps,
        vec![
            (ResizeStage::ResizeSession, new),
            (ResizeStage::RefreshViewport, new),
            (ResizeStage::ResizeSessionBack, old),
            (ResizeStage::RollbackView, new),
        ]
    );
}

#[test]
fn window_resize_failure_rolls_back_view_state() {
    let (old, new) = (with_pixels(24, 80, 640, 384), with_pixels(30, 90, 720, 480));
    let mut pointer = PointerState::new();

    let (result, steps) = run_resize(
        ResizeRun::for_client(change(old, new), true),
        &[ResizeStage::ResizeSession],
        &mut pointer,
    );

    assert!(result.is_err());
    assert_eq!(
        steps,
        vec![(ResizeStage::ResizeSession, new), (ResizeStage::RollbackView, new)]
    );
}

#[test]
fn window_resize_same_grid_skips_viewport_refresh_and_full_invalidation() -> AppResult<()> {
    let current_size = with_pixels(24, 80, 640, 384);
    let resized = with_pixels(24, 80, 648, 384);
    assert!(!terminal_grid_changed(current_size, resized));
    let mut pointer = PointerState::new();

    let (outcome, steps) = run_resize(
        ResizeRun::for_client(change(current_size, resized), true),
        &[ResizeStage::RefreshViewport],
        &mut pointer,
    );
    let outcome = outcome?;

    assert_eq!(steps, vec![(ResizeStage::ResizeSession, resized)]);
    assert_eq!(
        outcome,
        ClientResizeOutcome {
            terminal_grid_changed: false,
            refreshed_terminal_viewport: false,
        }
    );
    assert!(!outcome.should_invalidate_client());
    Ok(())
}

#[test]
fn splitter_drag_defers_same_grid_terminal_resize_until_drag_end() -> AppResult<()> {
    let current_size = with_pixels(24, 80, 640, 384);
    let deferred_size = with_pixels(24, 80, 648, 384);
    assert!(!terminal_grid_changed(current_size, deferred_size));
    let mut pointer = PointerState::new();
    pointer.splitter_drag = Some(SplitterDrag {
        pointer_offset_x: 0,
        pending_splitter_x: None,
        resize_scheduled: false,
        deferred_terminal_size: None,
    });

    let run =
        ResizeRun::for_command_panel(&mut pointer, change(current_size, deferred_size), true);

    assert!(run.is_none());
    assert_eq!(
        pointer.splitter_drag.as_ref().and_then(|drag| drag.deferred_terminal_size.as_ref()),
        Some(&deferred_size)
    );

    let resize = pointer.finish_splitter_drag(Ok(()))?;

    assert!(pointer.splitter_drag.is_none());
    assert_eq!(resize, Some(deferred_size));
    Ok(())
}

#[test]
fn failed_way_back_of_a_resize_is_reported_too() {
    let (old, new) = (with_pixels(24, 80, 640, 384), with_pixels(24, 76, 608, 384));
    let mut pointer = PointerState::new();
    let run = ResizeRun::for_command_panel(&mut pointer, change(old, new), true).unwrap();

    let (result, _) = run_resize(
        run,
        &[ResizeStage::RefreshViewport, ResizeStage::ResizeSessionBack],
        &mut pointer,
    );

    let error = result.unwrap_err();
    assert_eq!(error.operation(), Some("rollback command panel resize"));
    assert!(error.message().contains("additionally failed to rollback terminal session size"));
}

#[test]
fn font_that_cannot_be_saved_is_taken_back() {
    let mut change = FontChange::new(false);
    let mut stages: Vec<FontStage> = Vec::new();
    while change.stage() != FontStage::Finished {
        stages.push(change.stage());
        if change.stage() == FontStage::SaveFont {
            change.step(Err(AppError::InvalidState("disk full")));
        } else {
            change.step(Ok(()));
        }
    }

    assert_eq!(
        stages,
        vec![
            FontStage::ApplyFont,
            FontStage::ResizeTerminal,
            FontStage::SaveFont,
            FontStage::RestoreFont,
            FontStage::RestoreSize,
        ]
    );
    assert_eq!(change.finish(), Err(AppError::InvalidState("disk full")));
    let same = FontChange::new(true);
    assert_eq!(same.stage(), FontStage::Finished);
}

fn layout() -> WindowLayout {
    let rect = |x: i32, y: i32, width: i32, height: i32| UiRect { x, y, width, height };
    WindowLayout {
        tab_bar: rect(0, 0, 300, 20),
        tabs: vec![TabPlacement {
            id: TerminalTabId { value: 7 },
            bounds: rect(0, 0, 100, 20),
            close_bounds: Some(rect(80, 0, 20, 20)),
            active: true,
        }],
        new_tab_button: Some(rect(100, 0, 20, 20)),
        terminal: rect(0, 20, 200, 180),
        splitter: rect(200, 20, 4, 180),
        command_panel: rect(204, 20, 96, 180),
        command_category_selector: None,
        command_button_viewport: rect(204, 40, 96, 160),
        command_button_scroll: Some(ButtonScroll {
            bounds: rect(290, 40, 10, 160),
            position: 2,
            max_position: 5,
            page_len: 3,
            total_len: 8,
        }),
        buttons: vec![ButtonPlacement {
            id: CommandButtonId { value: 4 },
            bounds: rect(204, 40, 80, 20),
            label: "list".to_string(),
        }],
    }
}

fn at(x: i32, y: i32) -> UiPoint {
    UiPoint { x, y }
}

#[test]
fn pointer_finds_what_is_under_it() {
    let layout = layout();
    let mut pointer = PointerState::new();
    let cell = TerminalGridPoint::new(1, 2);

    assert_eq!(
        pointer.handle_left_button_down(&layout, at(85, 5), true, None),
        PointerTarget::CloseTab(TerminalTabId { value: 7 })
    );
    assert_eq!(
        pointer.handle_left_button_down(&layout, at(10, 5), true, None),
        PointerTarget::Tab(TerminalTabId { value: 7 })
    );
    assert_eq!(
        pointer.handle_left_button_down(&layout, at(110, 5), true, None),
        PointerTarget::NewTab
    );
    assert_eq!(
        pointer.handle_left_button_down(&layout, at(210, 45), true, None),
        PointerTarget::CommandButton(CommandButtonId { value: 4 })
    );
    assert_eq!(
        pointer.handle_left_button_down(&layout, at(10, 50), true, Some(cell)),
        PointerTarget::Cell(cell)
    );
    assert_eq!(pointer.terminal_selection_drag, Some(cell));
    assert_eq!(
        pointer.handle_mouse_motion(at(30, 50), Some(TerminalGridPoint::new(1, 4))),
        MotionOutcome::Redraw
    );
    assert_eq!(
        pointer.terminal_selection,
        Some(TerminalSelection::new(cell, TerminalGridPoint::new(1, 4)))
    );
    assert!(pointer.clear_terminal_selection());
    assert!(!pointer.clear_terminal_selection());
}

#[test]
fn splitter_follows_the_pointer() {
    let layout = layout();
    let mut pointer = PointerState::new();

    assert_eq!(
        pointer.handle_left_button_down(&layout, at(201, 50), true, None),
        PointerTarget::Splitter
    );
    assert_eq!(pointer.handle_mouse_motion(at(151, 50), None), MotionOutcome::ScheduleResize);
    assert_eq!(pointer.handle_mouse_motion(at(141, 50), None), MotionOutcome::Nothing);
    assert_eq!(pointer.process_pending_splitter_resize(), Some(140));
    assert_eq!(pointer.handle_left_button_up(), None);
    assert!(pointer.splitter_drag.is_none());
}

#[test]
fn wheel_scrolls_what_is_under_it() {
    let layout = layout();

    assert_eq!(wheel_target(&layout, Some(at(210, 100))), WheelTarget::CommandButtons);
    assert_eq!(wheel_target(&layout, Some(at(10, 100))), WheelTarget::Terminal);
    assert_eq!(wheel_target(&layout, Some(at(10, 5))), WheelTarget::Nothing);
    assert_eq!(command_button_scroll_lines_from_wheel_delta(120), -3);
    assert_eq!(terminal_scroll_lines_from_wheel_delta(120), 3);
    assert_eq!(terminal_scroll_lines_from_wheel_delta(-240), -6);
    let scroll = layout.command_button_scroll;
    assert_eq!(
        scroll_command_buttons(scroll, CommandButtonScrollRequest::PageDown),
        ButtonScrollStep::MoveTo(5)
    );
    assert_eq!(
        scroll_command_buttons(scroll, CommandButtonScrollRequest::Absolute(2)),
        ButtonScrollStep::Unchanged
    );
    assert_eq!(
        scroll_command_buttons(None, CommandButtonScrollRequest::Top),
        ButtonScrollStep::Reset
    );
}

#[test]
fn scroll_bar_mirrors_the_display() {
    let scroll = TerminalScrollState::new(2, 10, 5, 15);

    assert_eq!(terminal_scrollbar_values(scroll).value, 8);
    assert_eq!(
        terminal_scroll_request(scroll, TerminalScrollBarRequest::Absolute(8)),
        TerminalScroll::Absolute(2)
    );
}

#[test]
fn point_lies_in_its_cell() {
    let content = UiRect { x: 8, y: 20, width: 100, height: 70 };
    let metrics = CellMetrics { width: 8, height: 16 };

    assert_eq!(
        terminal_grid_point_at(content, metrics, 4, 12, at(25, 40), false),
        Some(TerminalGridPoint::new(1, 2))
    );
    assert_eq!(terminal_grid_point_at(content, metrics, 4, 12, at(0, 0), false), None);
    assert_eq!(
        terminal_grid_point_at(content, metrics, 4, 12, at(500, 500), true),
        Some(TerminalGridPoint::new(3, 11))
    );
    assert_eq!(
        terminal_size_from_area(content, metrics, 2, 20),
        with_pixels(4, 20, 100, 70)
    );
    assert_eq!(to_u16_saturating(-1), 0);
    assert_eq!(to_u16_saturating(70000), u16::MAX);
}

#[test]
fn shortcuts_copy_and_paste_and_all_else_is_typed() {
    let control = TerminalKeyModifiers::new(false, false, true);
    let plain = TerminalKeyModifiers::new(false, false, false);

    assert_eq!(
        handle_key_pressed(PressedKey::Character('c'), control, true),
        KeyAction::CopySelection
    );
    assert_eq!(
        handle_key_pressed(PressedKey::Character('c'), control, false),
        KeyAction::Character('c', control)
    );
    assert_eq!(
        handle_key_pressed(PressedKey::Character('v'), control, false),
        KeyAction::PasteClipboard
    );
    assert_eq!(
        handle_key_pressed(PressedKey::KeypadEnter, plain, false),
        KeyAction::Key(TerminalKey::Enter, plain)
    );
    assert_eq!(handle_key_pressed(PressedKey::Other, plain, false), KeyAction::Ignore);
    assert_eq!(
        clipboard_shortcut(KEY_C, control, true),
        ShortcutAction::CopySelection { suppressed: 3 }
    );
    assert_eq!(
        clipboard_shortcut(KEY_V, control, false),
        ShortcutAction::PasteClipboard { suppressed: 0x16 }
    );
    assert_eq!(clipboard_shortcut(KEY_C, control, false), ShortcutAction::NotHandled);
}

#[test]
fn menus_offer_what_can_be_done() {
    let items = category_menu_items(CategoryMenuState {
        can_delete: false,
        can_move_up: true,
        can_move_down: false,
    });
    assert_eq!(items[0], MenuItem::Entry { command: MenuCommand::NewCategory, enabled: true });
    assert_eq!(items[2], MenuItem::Entry { command: MenuCommand::DeleteCategory, enabled: false });
    assert_eq!(items[4], MenuItem::Entry { command: MenuCommand::MoveCategoryUp, enabled: true });
    let items = button_menu_items(ButtonMenuState { can_move_up: false, can_move_down: true });
    assert_eq!(items[0], MenuItem::Entry { command: MenuCommand::RunCommand, enabled: true });
    assert_eq!(items[5], MenuItem::Entry { command: MenuCommand::MoveButtonUp, enabled: false });
    assert!(!menu_label(MenuCommand::About).is_empty());
}

#[test]
fn dialogs_ask_again_for_what_is_not_acceptable() {
    assert!(matches!(
        prompt_step(false, "x".to_string(), TextInputValidation::Anything),
        DialogStep::Cancelled
    ));
    assert!(matches!(
        prompt_step(true, String::new(), TextInputValidation::CategoryName),
        DialogStep::AskAgain(_)
    ));
    match prompt_step(true, "Build".to_string(), TextInputValidation::CategoryName) {
        DialogStep::Accepted(name) => assert_eq!(name, "Build"),
        other => panic!("{:?}", other),
    }
    match edit_button_step(true, "list".to_string(), "ls".to_string(), "-l".to_string()) {
        DialogStep::Accepted(definition) => assert_eq!(definition.executable_path, "ls"),
        other => panic!("{:?}", other),
    }
    assert!(matches!(
        edit_button_step(true, "list".to_string(), String::new(), "-l".to_string()),
        DialogStep::AskAgain(_)
    ));
    assert_eq!(insert_token("-l", "{path}"), "-l {path}");
    assert_eq!(insert_token("-l ", "{path}"), "-l {path}");
    assert_eq!(insert_token("", "{path}"), "{path}");
    assert_eq!(argument_tokens().len(), 5);
    assert_eq!(new_button_definition().unwrap().arguments.value(), "{inputtext}");
}

#[test]
fn font_sizes_are_rounded_to_points() {
    assert_eq!(font_size_points_from_pango_size(12 * 1024 + 100), Ok(12));
    assert_eq!(font_size_points_from_pango_size(12 * 1024 + 600), Ok(13));
    assert_eq!(
        font_size_points_from_pango_size(3 * 1024),
        Err(AppError::InvalidInput("font size must be between 6 and 72 points"))
    );
    assert_eq!(
        font_size_points_from_pango_size(-5000),
        Err(AppError::InvalidInput("font size is outside supported range"))
    );
}

#[test]
fn widgets_are_reused_for_their_buttons() {
    let widget = |id: u64, label: &str| CommandButtonWidget {
        id: CommandButtonId { value: id },
        label: label.to_string(),
    };
    let placement = |id: u64, label: &str| ButtonPlacement {
        id: CommandButtonId { value: id },
        bounds: UiRect { x: 0, y: 0, width: 1, height: 1 },
        label: label.to_string(),
    };

    let plan = sync_command_widgets(
        &vec![widget(1, "a"), widget(2, "b"), widget(3, "c")],
        &vec![placement(3, "c"), placement(4, "d"), placement(1, "new")],
    );

    assert_eq!(
        plan.slots,
        vec![
            WidgetSlot::Reuse { index: 2, relabel: false },
            WidgetSlot::Create,
            WidgetSlot::Reuse { index: 0, relabel: true },
        ]
    );
    assert_eq!(plan.removed, vec![1]);
}

#[test]
fn changed_rows_become_areas() {
    let mut pending: Option<TerminalChangedRows> = None;
    let content = UiRect { x: 0, y: 0, width: 80, height: 64 };

    let areas = invalidate_terminal_content_rows(
        &mut pending,
        content,
        CellMetrics { width: 8, height: 16 },
        TerminalChangedRows::from_range(1, 2),
        4,
    );

    assert_eq!(areas, vec![UiRect { x: 0, y: 16, width: 80, height: 16 }]);
    assert_eq!(changed_row_ranges(&pending.unwrap()), vec![(1, 2)]);
}

#[test]
fn surface_of_another_shape_is_drawn_anew() -> AppResult<()> {
    let viewport = terminal_viewport_from_rows(&["a", "b"])?;
    let baseline = viewport.change_baseline();
    let shape = SurfaceShape {
        viewport_rows: 2,
        viewport_columns: 1,
        content_width: 8,
        content_height: 32,
        metrics: CellMetrics { width: 8, height: 16 },
        baseline: 12,
    };
    let content = UiRect { x: 3, y: 4, width: 8, height: 32 };
    assert_eq!(surface_shape(&viewport, content, shape.metrics, 12), shape);
    let flat = UiRect { x: 3, y: 4, width: 0, height: -5 };
    let smallest = surface_shape(&viewport, flat, shape.metrics, 12);
    assert_eq!((smallest.content_width, smallest.content_height), (1, 1));
    let mut cache: TerminalSurfaceCache<u8> = TerminalSurfaceCache::new();

    assert!(cache.needs_surface(shape));
    let all = vec![RowRange { start: 0, end: 2 }];
    assert_eq!(
        cache.plan(shape, Some(1), &TerminalViewportInvalidation::Nothing),
        SurfacePlan::Redraw(all)
    );
    assert!(!cache.needs_surface(shape));
    let unchanged = refresh_invalidation(Some(&baseline), Some(&viewport));
    assert_eq!(unchanged, TerminalViewportInvalidation::Nothing);
    assert_eq!(cache.plan(shape, None, &unchanged), SurfacePlan::Redraw(Vec::new()));
    let lowered = SurfaceShape { baseline: 13, ..shape };
    assert!(cache.needs_surface(lowered));
    assert_eq!(
        cache.plan(lowered, Some(2), &unchanged),
        SurfacePlan::Redraw(vec![RowRange { start: 0, end: 2 }])
    );
    assert_eq!(cache.surface, Some(2));
    cache.clear();
    assert!(cache.needs_surface(shape));
    Ok(())
}

#[test]
fn drawing_fills_before_it_writes() -> AppResult<()> {
    let layout = layout();
    let tabs = vec![TerminalTabView {
        id: TerminalTabId { value: 7 },
        title: "shell".to_string(),
        active: true,
    }];
    let mut ops: Vec<DrawOp> = Vec::new();
    draw_tab_bar(&mut ops, &layout, &tabs);
    assert!(matches!(&ops[0], DrawOp::Fill { .. }));
    assert!(ops.iter().any(|op| matches!(op, DrawOp::Text { text, .. } if text == "shell")));

    let mut ops: Vec<DrawOp> = Vec::new();
    draw_splitter(&mut ops, layout.splitter);
    assert!(!ops.is_empty());

    let viewport = terminal_viewport_from_rows(&["ab", "cd"])?;
    let selected: Vec<Option<ColumnRange>> = vec![None, Some(ColumnRange { start: 0, end: 1 })];
    let mut ops: Vec<DrawOp> = Vec::new();
    draw_terminal(
        &mut ops,
        UiRect { x: 0, y: 0, width: 16, height: 32 },
        CellMetrics { width: 8, height: 16 },
        12,
        &viewport,
        &selected,
        false,
    );
    let rows: Vec<usize> = ops
        .iter()
        .filter_map(|op| match op {
            DrawOp::Row { row, .. } => Some(*row),
            _ => None,
        })
        .collect();
    assert_eq!(rows, vec![0, 1]);
    assert!(matches!(ops.last(), Some(DrawOp::Outline { .. })));
    Ok(())
}

#[test]
fn chosen_font_needs_a_family_and_an_offered_size() {
    let font = terminal_font_from_pango_description(Some("Mono".to_string()), 12 * 1024).unwrap();
    assert_eq!(font.family(), "Mono");
    assert_eq!(font.size_points(), 12);
    assert_eq!(
        terminal_font_from_pango_description(None, 12 * 1024).unwrap_err(),
        AppError::InvalidInput("selected font family is unavailable")
    );
    assert_eq!(
        terminal_font_from_pango_description(Some(String::new()), 12 * 1024).unwrap_err(),
        AppError::InvalidInput("font family must not be empty")
    );
    assert!(is_terminal_font_family_candidate(true, "Any"));
    assert!(!is_terminal_font_family_candidate(false, "Any"));
}

#[test]
fn window_stays_open_until_its_settings_are_saved() {
    assert_eq!(close_requested(Ok(CommandPanelShutdownSave::Complete)), Ok(()));
    assert_eq!(
        close_requested(Ok(CommandPanelShutdownSave::Delayed)),
        Err(AppError::InvalidState(
            "command panel settings save is still running; try closing again"
        ))
    );
    assert_eq!(
        close_requested(Err(AppError::InvalidState("disk full"))),
        Err(AppError::InvalidState("disk full"))
    );
}

#[test]
fn empty_clipboard_pastes_nothing() {
    assert_eq!(clipboard_text(Ok(Some("text".to_string()))), Ok(Some("text".to_string())));
    assert_eq!(clipboard_text(Ok(Some(String::new()))), Ok(None));
    assert_eq!(clipboard_text(Ok(None)), Ok(None));
    assert_eq!(
        clipboard_text(Err("gone".to_string())),
        Err(AppError::ui_message("read GTK clipboard", "gone".to_string()))
    );
}

#[test]
fn line_text_cache_forgets_all_rows_with_the_shape_of_the_viewport() -> AppResult<()> {
    let first = terminal_viewport_from_rows(&["one ", "two "])?;
    let second = terminal_viewport_from_rows(&["six ", "ten ", "end "])?;
    let mut cache = TerminalLineTextCache::default();

    assert_eq!(cache.line_text(&first, 0), Some("one"));
    assert_eq!(cache.line_text(&first, 1), Some("two"));
    assert_eq!(cache.line_text(&second, 2), Some("end"));
    assert_eq!(cache.line_text(&second, 0), Some("six"));
    assert_eq!(cache.line_text(&second, 1), Some("ten"));
    assert_eq!(cache.line_text(&second, 3), None);
    Ok(())
}

fn selecting() -> PointerState {
    let point = |row: usize, column: usize| TerminalGridPoint { row, column };
    PointerState {
        terminal_selection: Some(TerminalSelection { anchor: point(0, 1), focus: point(1, 2) }),
        ..PointerState::new()
    }
}

#[test]
fn selection_goes_with_the_cells_that_it_is_in() {
    let old = with_pixels(24, 80, 640, 384);
    let (same_grid, new) = (with_pixels(24, 80, 648, 384), with_pixels(24, 76, 608, 384));

    let mut pointer = selecting();
    let run = ResizeRun::for_client(change(old, new), true);
    assert!(run_resize(run, &[], &mut pointer).0.is_ok());
    assert_eq!(pointer, PointerState::new());

    let mut pointer = selecting();
    let run = ResizeRun::for_command_panel(&mut pointer, change(old, new), true).unwrap();
    assert!(run_resize(run, &[], &mut pointer).0.is_ok());
    assert_eq!(pointer, PointerState::new());

    let mut pointer = selecting();
    let run = ResizeRun::for_client(change(old, same_grid), true);
    assert!(run_resize(run, &[], &mut pointer).0.is_ok());
    assert_eq!(pointer, selecting());

    let mut pointer = selecting();
    let run = ResizeRun::for_client(change(old, new), true);
    assert!(run_resize(run, &[ResizeStage::ResizeSession], &mut pointer).0.is_err());
    assert_eq!(pointer, selecting());
}

#[test]
fn selection_goes_when_the_session_is_resized() {
    let mut pointer = selecting();
    let failure = || Err(AppError::InvalidState("no session"));
    assert_eq!(pointer.session_resized(failure()), failure());
    assert_eq!(pointer, selecting());
    assert_eq!(pointer.session_resized(Ok(())), Ok(()));
    assert_eq!(pointer, PointerState::new());
}

#[test]
fn selection_goes_when_the_display_has_moved() {
    let error = || AppError::InvalidState("no display");
    let mut pointer = selecting();
    assert_eq!(pointer.display_scrolled(Err(error()), Ok(())), Err(error()));
    assert_eq!(pointer.display_scrolled(Ok(false), Ok(())), Ok(false));
    assert_eq!(pointer.display_scrolled(Ok(true), Err(error())), Err(error()));
    assert_eq!(pointer, selecting());
    assert_eq!(pointer.display_scrolled(Ok(true), Ok(())), Ok(true));
    assert_eq!(pointer, PointerState::new());
}

#[test]
fn selection_goes_before_a_paste_and_with_new_output() {
    let mut pointer = selecting();
    assert!(!pointer.begin_paste(&None));
    assert!(!pointer.events_drained(false));
    assert_eq!(pointer, selecting());
    assert!(pointer.begin_paste(&Some("ls".to_string())));
    assert!(!pointer.begin_paste(&Some("ls".to_string())));
    assert_eq!(pointer, PointerState::new());

    let mut pointer = selecting();
    assert!(pointer.events_drained(true));
    assert!(!pointer.events_drained(true));
    assert_eq!(pointer, PointerState::new());
}
