//! The terminal buffer over the emulator's grid.

use std::cell::RefCell;
use std::rc::Rc;

use alacritty_terminal::event::{Event, EventListener};
use alacritty_terminal::grid::Dimensions;
use alacritty_terminal::term::cell::Flags;
use alacritty_terminal::term::{Config, Term};
use alacritty_terminal::vte::ansi::{self, Handler, Processor};

use j3term::domain::rows::TerminalChangedRows;
use j3term::domain::terminal::{
    CursorPosition, TerminalScroll, TerminalScrollState, TerminalSize, TerminalViewport,
};
use j3term::emulator::{read_grid, scroll_fits};
use j3term::error::{AppError, AppResult};
use j3term::renderer::paint::GdiRenderer;
use j3term::terminal::{
    action_effect, input_screen_cell_len, scroll_delta, terminal_cell, ActionEffect,
    AlacrittyTerminalBuffer, DirtyRows, GridState, InputPoint, OutputEffects,
    TerminalAction, BLANKING_FLAGS,
};
use j3term::window::view::TerminalView;

struct Shape {
    rows: usize,
    columns: usize,
}

impl Dimensions for Shape {
    fn total_lines(&self) -> usize {
        self.rows
    }

    fn screen_lines(&self) -> usize {
        self.rows
    }

    fn columns(&self) -> usize {
        self.columns
    }
}

#[derive(Clone, Default)]
struct Sink {
    writes: Rc<RefCell<Vec<Vec<u8>>>>,
}

impl EventListener for Sink {
    fn send_event(&self, event: Event) {
        if let Event::PtyWrite(text) = event {
            self.writes.borrow_mut().push(text.into_bytes());
        }
    }
}

/// Hands what the parser asks for to the emulator and takes note of it.
struct OutputTrackingHandler<'a> {
    term: &'a mut Term<Sink>,
    effects: &'a mut OutputEffects,
}

impl OutputTrackingHandler<'_> {
    fn input_point(&self) -> InputPoint {
        let cursor = &self.term.grid().cursor;
        InputPoint {
            line: cursor.point.line.0,
            column: cursor.point.column.0,
            needs_wrap: cursor.input_needs_wrap,
        }
    }
}

impl Handler for OutputTrackingHandler<'_> {
    fn set_title(&mut self, title: Option<String>) {
        self.effects.note_action(TerminalAction::SetTitle);
        self.term.set_title(title);
    }

    fn set_cursor_style(&mut self, style: Option<ansi::CursorStyle>) {
        self.effects.note_action(TerminalAction::SetCursorStyle);
        self.term.set_cursor_style(style);
    }

    fn set_cursor_shape(&mut self, shape: ansi::CursorShape) {
        self.effects.note_action(TerminalAction::SetCursorShape);
        self.term.set_cursor_shape(shape);
    }

    fn input(&mut self, character: char) {
        let before = self.input_point();
        self.term.input(character);
        let after = self.input_point();
        let cells = input_screen_cell_len(before, after, self.term.columns());
        self.effects.note_input(cells);
    }

    fn goto(&mut self, line: i32, column: usize) {
        self.effects.note_action(TerminalAction::Goto);
        self.term.goto(line, column);
    }

    fn goto_line(&mut self, line: i32) {
        self.effects.note_action(TerminalAction::GotoLine);
        self.term.goto_line(line);
    }

    fn goto_col(&mut self, column: usize) {
        self.effects.note_action(TerminalAction::GotoCol);
        self.term.goto_col(column);
    }

    fn insert_blank(&mut self, count: usize) {
        self.effects.note_action(TerminalAction::InsertBlank);
        self.term.insert_blank(count);
    }

    fn move_up(&mut self, rows: usize) {
        self.effects.note_action(TerminalAction::MoveUp);
        self.term.move_up(rows);
    }

    fn move_down(&mut self, rows: usize) {
        self.effects.note_action(TerminalAction::MoveDown);
        self.term.move_down(rows);
    }

    fn identify_terminal(&mut self, intermediate: Option<char>) {
        self.effects.note_action(TerminalAction::IdentifyTerminal);
        self.term.identify_terminal(intermediate);
    }

    fn device_status(&mut self, status: usize) {
        self.effects.note_action(TerminalAction::DeviceStatus);
        self.term.device_status(status);
    }

    fn move_forward(&mut self, columns: usize) {
        self.effects.note_action(TerminalAction::MoveForward);
        self.term.move_forward(columns);
    }

    fn move_backward(&mut self, columns: usize) {
        self.effects.note_action(TerminalAction::MoveBackward);
        self.term.move_backward(columns);
    }

    fn move_down_and_cr(&mut self, rows: usize) {
        self.effects.note_action(TerminalAction::MoveDownAndCr);
        self.term.move_down_and_cr(rows);
    }

    fn move_up_and_cr(&mut self, rows: usize) {
        self.effects.note_action(TerminalAction::MoveUpAndCr);
        self.term.move_up_and_cr(rows);
    }

    fn put_tab(&mut self, count: u16) {
        self.effects.note_action(TerminalAction::PutTab);
        self.term.put_tab(count);
    }

    fn backspace(&mut self) {
        self.effects.note_action(TerminalAction::Backspace);
        self.term.backspace();
    }

    fn carriage_return(&mut self) {
        self.effects.note_action(TerminalAction::CarriageReturn);
        self.term.carriage_return();
    }

    fn linefeed(&mut self) {
        self.effects.note_action(TerminalAction::Linefeed);
        self.term.linefeed();
    }

    fn bell(&mut self) {
        self.effects.note_action(TerminalAction::Bell);
        self.term.bell();
    }

    fn substitute(&mut self) {
        self.effects.note_action(TerminalAction::Substitute);
        self.term.substitute();
    }

    fn newline(&mut self) {
        self.effects.note_action(TerminalAction::Newline);
        self.term.newline();
    }

    fn set_horizontal_tabstop(&mut self) {
        self.effects.note_action(TerminalAction::SetHorizontalTabstop);
        self.term.set_horizontal_tabstop();
    }

    fn scroll_up(&mut self, rows: usize) {
        self.effects.note_action(TerminalAction::ScrollUp);
        self.term.scroll_up(rows);
    }

    fn scroll_down(&mut self, rows: usize) {
        self.effects.note_action(TerminalAction::ScrollDown);
        self.term.scroll_down(rows);
    }

    fn insert_blank_lines(&mut self, count: usize) {
        self.effects.note_action(TerminalAction::InsertBlankLines);
        self.term.insert_blank_lines(count);
    }

    fn delete_lines(&mut self, count: usize) {
        self.effects.note_action(TerminalAction::DeleteLines);
        self.term.delete_lines(count);
    }

    fn erase_chars(&mut self, count: usize) {
        self.effects.note_action(TerminalAction::EraseChars);
        self.term.erase_chars(count);
    }

    fn delete_chars(&mut self, count: usize) {
        self.effects.note_action(TerminalAction::DeleteChars);
        self.term.delete_chars(count);
    }

    fn move_backward_tabs(&mut self, count: u16) {
        self.effects.note_action(TerminalAction::MoveBackwardTabs);
        self.term.move_backward_tabs(count);
    }

    fn move_forward_tabs(&mut self, count: u16) {
        self.effects.note_action(TerminalAction::MoveForwardTabs);
        self.term.move_forward_tabs(count);
    }

    fn save_cursor_position(&mut self) {
        self.effects.note_action(TerminalAction::SaveCursorPosition);
        self.term.save_cursor_position();
    }

    fn restore_cursor_position(&mut self) {
        self.effects.note_action(TerminalAction::RestoreCursorPosition);
        self.term.restore_cursor_position();
    }

    fn clear_line(&mut self, mode: ansi::LineClearMode) {
        self.effects.note_action(TerminalAction::ClearLine);
        self.term.clear_line(mode);
    }

    fn clear_screen(&mut self, mode: ansi::ClearMode) {
        self.effects.note_action(TerminalAction::ClearScreen);
        self.term.clear_screen(mode);
    }

    fn clear_tabs(&mut self, mode: ansi::TabulationClearMode) {
        self.effects.note_action(TerminalAction::ClearTabs);
        self.term.clear_tabs(mode);
    }

    fn set_tabs(&mut self, interval: u16) {
        self.effects.note_action(TerminalAction::SetTabs);
        self.term.set_tabs(interval);
    }

    fn reset_state(&mut self) {
        self.effects.note_action(TerminalAction::ResetState);
        self.term.reset_state();
    }

    fn reverse_index(&mut self) {
        self.effects.note_action(TerminalAction::ReverseIndex);
        self.term.reverse_index();
    }

    fn terminal_attribute(&mut self, attr: ansi::Attr) {
        self.effects.note_action(TerminalAction::TerminalAttribute);
        self.term.terminal_attribute(attr);
    }

    fn set_mode(&mut self, mode: ansi::Mode) {
        self.effects.note_action(TerminalAction::SetMode);
        self.term.set_mode(mode);
    }

    fn unset_mode(&mut self, mode: ansi::Mode) {
        self.effects.note_action(TerminalAction::UnsetMode);
        self.term.unset_mode(mode);
    }

    fn report_mode(&mut self, mode: ansi::Mode) {
        self.effects.note_action(TerminalAction::ReportMode);
        self.term.report_mode(mode);
    }

    fn set_private_mode(&mut self, mode: ansi::PrivateMode) {
        self.effects.note_action(TerminalAction::SetPrivateMode);
        self.term.set_private_mode(mode);
    }

    fn unset_private_mode(&mut self, mode: ansi::PrivateMode) {
        self.effects.note_action(TerminalAction::UnsetPrivateMode);
        self.term.unset_private_mode(mode);
    }

    fn report_private_mode(&mut self, mode: ansi::PrivateMode) {
        self.effects.note_action(TerminalAction::ReportPrivateMode);
        self.term.report_private_mode(mode);
    }

    fn set_scrolling_region(&mut self, top: usize, bottom: Option<usize>) {
        self.effects.note_action(TerminalAction::SetScrollingRegion);
        self.term.set_scrolling_region(top, bottom);
    }

    fn set_keypad_application_mode(&mut self) {
        self.effects.note_action(TerminalAction::SetKeypadApplicationMode);
        self.term.set_keypad_application_mode();
    }

    fn unset_keypad_application_mode(&mut self) {
        self.effects.note_action(TerminalAction::UnsetKeypadApplicationMode);
        self.term.unset_keypad_application_mode();
    }

    fn set_active_charset(&mut self, index: ansi::CharsetIndex) {
        self.effects.note_action(TerminalAction::SetActiveCharset);
        self.term.set_active_charset(index);
    }

    fn configure_charset(&mut self, index: ansi::CharsetIndex, charset: ansi::StandardCharset) {
        self.effects.note_action(TerminalAction::ConfigureCharset);
        self.term.configure_charset(index, charset);
    }

    fn set_color(&mut self, index: usize, color: ansi::Rgb) {
        self.effects.note_action(TerminalAction::SetColor);
        self.term.set_color(index, color);
    }

    fn dynamic_color_sequence(&mut self, prefix: String, index: usize, terminator: &str) {
        self.effects.note_action(TerminalAction::DynamicColorSequence);
        self.term.dynamic_color_sequence(prefix, index, terminator);
    }

    fn reset_color(&mut self, index: usize) {
        self.effects.note_action(TerminalAction::ResetColor);
        self.term.reset_color(index);
    }

    fn clipboard_store(&mut self, clipboard: u8, base64: &[u8]) {
        self.effects.note_action(TerminalAction::ClipboardStore);
        self.term.clipboard_store(clipboard, base64);
    }

    fn clipboard_load(&mut self, clipboard: u8, terminator: &str) {
        self.effects.note_action(TerminalAction::ClipboardLoad);
        self.term.clipboard_load(clipboard, terminator);
    }

    fn decaln(&mut self) {
        self.effects.note_action(TerminalAction::Decaln);
        self.term.decaln();
    }

    fn push_title(&mut self) {
        self.effects.note_action(TerminalAction::PushTitle);
        self.term.push_title();
    }

    fn pop_title(&mut self) {
        self.effects.note_action(TerminalAction::PopTitle);
        self.term.pop_title();
    }

    fn text_area_size_pixels(&mut self) {
        self.effects.note_action(TerminalAction::TextAreaSizePixels);
        self.term.text_area_size_pixels();
    }

    fn text_area_size_chars(&mut self) {
        self.effects.note_action(TerminalAction::TextAreaSizeChars);
        self.term.text_area_size_chars();
    }

    fn set_hyperlink(&mut self, hyperlink: Option<ansi::Hyperlink>) {
        self.effects.note_action(TerminalAction::SetHyperlink);
        self.term.set_hyperlink(hyperlink);
    }

    fn set_mouse_cursor_icon(&mut self, icon: ansi::cursor_icon::CursorIcon) {
        self.effects.note_action(TerminalAction::SetMouseCursorIcon);
        self.term.set_mouse_cursor_icon(icon);
    }

    fn report_keyboard_mode(&mut self) {
        self.effects.note_action(TerminalAction::ReportKeyboardMode);
        self.term.report_keyboard_mode();
    }

    fn push_keyboard_mode(&mut self, mode: ansi::KeyboardModes) {
        self.effects.note_action(TerminalAction::PushKeyboardMode);
        self.term.push_keyboard_mode(mode);
    }

    fn pop_keyboard_modes(&mut self, to_pop: u16) {
        self.effects.note_action(TerminalAction::PopKeyboardModes);
        self.term.pop_keyboard_modes(to_pop);
    }

    fn set_keyboard_mode(
        &mut self,
        mode: ansi::KeyboardModes,
        behavior: ansi::KeyboardModesApplyBehavior,
    ) {
        self.effects.note_action(TerminalAction::SetKeyboardMode);
        self.term.set_keyboard_mode(mode, behavior);
    }

    fn set_modify_other_keys(&mut self, mode: ansi::ModifyOtherKeys) {
        self.effects.note_action(TerminalAction::SetModifyOtherKeys);
        self.term.set_modify_other_keys(mode);
    }

    fn report_modify_other_keys(&mut self) {
        self.effects.note_action(TerminalAction::ReportModifyOtherKeys);
        self.term.report_modify_other_keys();
    }

    fn set_scp(&mut self, char_path: ansi::ScpCharPath, update_mode: ansi::ScpUpdateMode) {
        self.effects.note_action(TerminalAction::SetScp);
        self.term.set_scp(char_path, update_mode);
    }
}

/// An emulator with its parser and its buffer.
struct Terminal {
    term: Term<Sink>,
    parser: Processor,
    sink: Sink,
    buffer: AlacrittyTerminalBuffer,
}

impl Terminal {
    fn new(size: TerminalSize) -> Self {
        let sink = Sink::default();
        let shape = Shape { rows: size.rows as usize, columns: size.columns as usize };
        Terminal {
            term: Term::new(Config::default(), &shape, sink.clone()),
            parser: Processor::new(),
            sink,
            buffer: AlacrittyTerminalBuffer::new(size),
        }
    }

    fn ingest_output(&mut self, bytes: &[u8]) -> AppResult<()> {
        let (before, mut effects) = self.buffer.begin_output(self.term.grid(), bytes.len())?;
        let mut handler = OutputTrackingHandler { term: &mut self.term, effects: &mut effects };
        self.parser.advance(&mut handler, bytes);
        self.buffer.ingest_output(effects, before, self.term.grid())
    }

    fn resize(&mut self, size: TerminalSize) {
        if self.buffer.resize_needed(size) {
            self.term.resize(Shape { rows: size.rows as usize, columns: size.columns as usize });
            self.buffer.resized(read_grid(self.term.grid()));
        }
    }

    fn scroll_display(&mut self, scroll: TerminalScroll) -> bool {
        self.buffer.scroll_display(self.term.grid_mut(), scroll).unwrap()
    }

    fn snapshot(&mut self) -> AppResult<TerminalViewport> {
        self.buffer.snapshot(self.term.grid())
    }

    fn snapshot_into(&mut self, viewport: &mut TerminalViewport) -> AppResult<()> {
        self.buffer.snapshot_into(viewport, self.term.grid())
    }

    fn take_pending_pty_writes(&mut self) -> Vec<Vec<u8>> {
        std::mem::take(&mut *self.sink.writes.borrow_mut())
    }
}

fn with_pixels(rows: u16, columns: u16, pixel_width: u16, pixel_height: u16) -> TerminalSize {
    TerminalSize { rows, columns, pixel_width, pixel_height }
}

fn size(rows: u16, columns: u16) -> TerminalSize {
    with_pixels(rows, columns, 0, 0)
}

/// What a viewport shows, without the versions of its rows.
fn shown(viewport: &TerminalViewport) -> (usize, usize, String, CursorPosition, TerminalScrollState) {
    let text = viewport.cells.iter().map(|cell| cell.character).collect();
    (viewport.rows, viewport.columns, text, viewport.cursor, viewport.scroll)
}

fn buffer_after(input: &[u8]) -> AppResult<TerminalViewport> {
    let mut terminal = Terminal::new(size(4, 16));
    terminal.ingest_output(input)?;
    terminal.snapshot()
}

fn line_text(viewport: &TerminalViewport, row: usize) -> Option<String> {
    let mut line = String::with_capacity(viewport.columns);
    for cell in viewport.line_cells(row)? {
        line.push(cell.character);
    }
    Some(line)
}

fn changed_row_ranges(rows: Option<TerminalChangedRows>) -> Option<Vec<(usize, usize)>> {
    rows.map(|rows| rows.ranges().iter().map(|rows| (rows.start, rows.end)).collect())
}

#[test]
fn ingests_text_and_newlines_into_grid() -> AppResult<()> {
    let buffer = buffer_after(b"hello\r\nworld")?;

    assert_eq!(line_text(&buffer, 0).as_deref(), Some("hello           "));
    assert_eq!(line_text(&buffer, 1).as_deref(), Some("world           "));
    assert_eq!(buffer.cursor, CursorPosition::new(1, 5));
    Ok(())
}

#[test]
fn applies_ansi_clear_and_cursor_home() -> AppResult<()> {
    let buffer = buffer_after(b"hello\x1b[2J\x1b[Hworld")?;

    assert_eq!(line_text(&buffer, 0).as_deref(), Some("world           "));
    assert_eq!(line_text(&buffer, 1).as_deref(), Some("                "));
    assert_eq!(buffer.cursor, CursorPosition::new(0, 5));
    Ok(())
}

#[test]
fn tracks_cursor_position_escape_sequence() -> AppResult<()> {
    let buffer = buffer_after(b"\x1b[3;4H")?;

    assert_eq!(buffer.cursor, CursorPosition::new(2, 3));
    Ok(())
}

#[test]
fn resize_updates_snapshot_dimensions_and_bounds_cursor() -> AppResult<()> {
    let initial_size = size(2, 8);
    let mut terminal = Terminal::new(initial_size);
    terminal.ingest_output(b"hello")?;

    terminal.resize(with_pixels(3, 12, 96, 48));

    let viewport = terminal.snapshot()?;
    assert_eq!(viewport.rows, 3);
    assert_eq!(viewport.columns, 12);
    assert!(viewport.cursor.row < viewport.rows);
    assert!(viewport.cursor.column < viewport.columns);
    Ok(())
}

#[test]
fn resize_same_grid_keeps_dirty_rows_unchanged() -> AppResult<()> {
    let initial_size = with_pixels(4, 16, 128, 64);
    let mut terminal = Terminal::new(initial_size);
    terminal.ingest_output(b"hello")?;
    terminal.snapshot()?;

    terminal.resize(with_pixels(4, 16, 160, 64));

    assert_eq!(terminal.buffer.dirty_rows, None);
    let viewport = terminal.snapshot()?;
    assert_eq!(viewport.rows, 4);
    assert_eq!(viewport.columns, 16);
    Ok(())
}

#[test]
fn snapshot_does_not_change_grid_or_cursor() -> AppResult<()> {
    let size = size(4, 16);
    let mut terminal = Terminal::new(size);
    terminal.ingest_output(b"hello\r\nworld")?;

    let first = terminal.snapshot()?;
    let second = terminal.snapshot()?;

    assert_eq!(shown(&second), shown(&first));
    Ok(())
}

#[test]
fn scroll_display_reads_from_scrollback_history() -> AppResult<()> {
    let size = size(3, 16);
    let mut terminal = Terminal::new(size);
    terminal.ingest_output(b"line1\r\nline2\r\nline3\r\nline4\r\nline5")?;
    let bottom = terminal.snapshot()?;

    assert!(terminal.scroll_display(TerminalScroll::Lines(2)));
    let scrolled = terminal.snapshot()?;

    assert_ne!(shown(&scrolled), shown(&bottom));
    assert!(scrolled.cursor.row >= scrolled.rows);
    assert!(terminal.scroll_display(TerminalScroll::Lines(-100)));
    assert_eq!(shown(&terminal.snapshot()?), shown(&bottom));
    Ok(())
}

#[test]
fn snapshot_into_reuses_viewport_cells_for_plain_output() -> AppResult<()> {
    let size = size(4, 16);
    let mut terminal = Terminal::new(size);
    terminal.ingest_output(b"hello\r\nworld")?;
    let mut viewport = terminal.snapshot()?;
    let cells_ptr = viewport.cells.as_ptr();
    let cells_capacity = viewport.cells.capacity();

    terminal.ingest_output(b"!")?;
    terminal.snapshot_into(&mut viewport)?;

    assert_eq!(viewport.cells.as_ptr(), cells_ptr);
    assert_eq!(viewport.cells.capacity(), cells_capacity);
    assert_eq!(line_text(&viewport, 1).as_deref(), Some("world!          "));
    Ok(())
}

#[test]
fn snapshot_into_records_changed_rows_for_plain_output() -> AppResult<()> {
    let size = size(4, 16);
    let mut terminal = Terminal::new(size);
    terminal.ingest_output(b"hello\r\nworld")?;
    let mut viewport = terminal.snapshot()?;
    let baseline = viewport.change_baseline();

    terminal.ingest_output(b"!")?;
    terminal.snapshot_into(&mut viewport)?;

    assert_eq!(
        changed_row_ranges(viewport.changed_rows_since_baseline(&baseline)),
        Some(vec![(1, 2)])
    );
    Ok(())
}

#[test]
fn snapshot_into_records_changed_rows_for_sgr_output() -> AppResult<()> {
    let size = size(4, 16);
    let mut terminal = Terminal::new(size);
    terminal.ingest_output(b"hello\r\nworld")?;
    let mut viewport = terminal.snapshot()?;
    let baseline = viewport.change_baseline();

    terminal.ingest_output(b"\x1b[31m!\x1b[0m")?;
    terminal.snapshot_into(&mut viewport)?;

    assert_eq!(line_text(&viewport, 1).as_deref(), Some("world!          "));
    assert_eq!(
        changed_row_ranges(viewport.changed_rows_since_baseline(&baseline)),
        Some(vec![(1, 2)])
    );
    Ok(())
}

#[test]
fn snapshot_into_ignores_pure_sgr_output_for_dirty_rows() -> AppResult<()> {
    let size = size(4, 16);
    let mut terminal = Terminal::new(size);
    terminal.ingest_output(b"hello\r\nworld")?;
    let mut viewport = terminal.snapshot()?;
    let baseline = viewport.change_baseline();
    let row_versions = [
        viewport.row_version(0),
        viewport.row_version(1),
        viewport.row_version(2),
        viewport.row_version(3),
    ];

    terminal.ingest_output(b"\x1b[31m\x1b[1m\x1b[0m")?;
    assert_eq!(terminal.buffer.dirty_rows, None);
    terminal.snapshot_into(&mut viewport)?;

    assert_eq!(line_text(&viewport, 0).as_deref(), Some("hello           "));
    assert_eq!(line_text(&viewport, 1).as_deref(), Some("world           "));
    assert_eq!(viewport.changed_rows_since_baseline(&baseline), None);
    assert_eq!(
        [
            viewport.row_version(0),
            viewport.row_version(1),
            viewport.row_version(2),
            viewport.row_version(3),
        ],
        row_versions
    );
    Ok(())
}

#[test]
fn snapshot_into_ignores_renderer_metadata_output_for_dirty_rows() -> AppResult<()> {
    let size = size(4, 16);
    let mut terminal = Terminal::new(size);
    terminal.ingest_output(b"hello\r\nworld")?;
    let mut viewport = terminal.snapshot()?;
    let baseline = viewport.change_baseline();
    let row_versions = [
        viewport.row_version(0),
        viewport.row_version(1),
        viewport.row_version(2),
        viewport.row_version(3),
    ];

    terminal.ingest_output(b"\x1b]2;title\x07\x1b[5 q\x1b]4;1;rgb:ff/00/00\x07")?;
    assert_eq!(terminal.buffer.dirty_rows, None);
    terminal.snapshot_into(&mut viewport)?;

    assert_eq!(line_text(&viewport, 0).as_deref(), Some("hello           "));
    assert_eq!(line_text(&viewport, 1).as_deref(), Some("world           "));
    assert_eq!(viewport.changed_rows_since_baseline(&baseline), None);
    assert_eq!(
        [
            viewport.row_version(0),
            viewport.row_version(1),
            viewport.row_version(2),
            viewport.row_version(3),
        ],
        row_versions
    );
    Ok(())
}

#[test]
fn snapshot_into_ignores_pure_sgr_output_while_scrolled_back() -> AppResult<()> {
    let size = size(3, 16);
    let mut terminal = Terminal::new(size);
    terminal.ingest_output(b"line1\r\nline2\r\nline3\r\nline4\r\nline5")?;
    terminal.snapshot()?;
    assert!(terminal.scroll_display(TerminalScroll::Lines(2)));
    let mut viewport = terminal.snapshot()?;
    let baseline = viewport.change_baseline();
    let row_versions = [
        viewport.row_version(0),
        viewport.row_version(1),
        viewport.row_version(2),
    ];

    terminal.ingest_output(b"\x1b[31m\x1b[0m")?;
    assert_eq!(terminal.buffer.dirty_rows, None);
    terminal.snapshot_into(&mut viewport)?;

    assert_eq!(line_text(&viewport, 0).as_deref(), Some("line1           "));
    assert_eq!(line_text(&viewport, 1).as_deref(), Some("line2           "));
    assert_eq!(viewport.changed_rows_since_baseline(&baseline), None);
    assert_eq!(
        [
            viewport.row_version(0),
            viewport.row_version(1),
            viewport.row_version(2),
        ],
        row_versions
    );
    Ok(())
}

#[test]
fn output_cell_len_requires_full_refresh_at_visible_bottom_boundary() {
    let before = CursorPosition::new(1, 5);

    assert!(!AlacrittyTerminalBuffer::output_cell_len_requires_full_refresh(42, before, 4, 16));
    assert!(AlacrittyTerminalBuffer::output_cell_len_requires_full_refresh(43, before, 4, 16));
}

#[test]
fn output_requires_full_refresh_accepts_plain_printable_fast_path() {
    let before = CursorPosition::new(1, 5);
    let after = CursorPosition::new(1, 10);

    assert!(!AlacrittyTerminalBuffer::output_requires_full_refresh(
        OutputEffects::local(b"hello".len()),
        before,
        after,
        4,
        16
    ));
    assert!(AlacrittyTerminalBuffer::output_requires_full_refresh(
        OutputEffects::local(1),
        CursorPosition::new(3, 15),
        CursorPosition::new(3, 15),
        4,
        16
    ));
}

#[test]
fn output_requires_full_refresh_keeps_large_plain_output_local() {
    let before = CursorPosition::new(0, 0);
    let after = CursorPosition::new(32, 1);
    let output = vec![b'x'; (16 * 1024) + 1];

    assert!(
        !AlacrittyTerminalBuffer::output_cell_len_requires_full_refresh(
            output.len(),
            before,
            512,
            512
        )
    );
    assert!(!AlacrittyTerminalBuffer::output_requires_full_refresh(
        OutputEffects::local(output.len()),
        before,
        after,
        512,
        512
    ));
}

#[test]
fn snapshot_into_records_changed_rows_for_large_plain_output_without_full_refresh()
-> AppResult<()> {
    let size = size(40, 512);
    let mut terminal = Terminal::new(size);
    let mut viewport = terminal.snapshot()?;
    let baseline = viewport.change_baseline();
    let output = vec![b'x'; (16 * 1024) + 1];

    terminal.ingest_output(&output)?;
    terminal.snapshot_into(&mut viewport)?;

    assert_eq!(
        changed_row_ranges(viewport.changed_rows_since_baseline(&baseline)),
        Some(vec![(0, 33)])
    );
    Ok(())
}

#[test]
fn snapshot_into_records_changed_rows_for_large_multibyte_output_without_full_refresh()
-> AppResult<()> {
    let size = size(24, 80);
    let mut terminal = Terminal::new(size);
    let mut viewport = terminal.snapshot()?;
    let baseline = viewport.change_baseline();
    let output = "\u{d55c}".repeat(640);

    terminal.ingest_output(output.as_bytes())?;
    assert_eq!(terminal.buffer.dirty_rows, Some(DirtyRows { start: 0, end: 16 }));
    terminal.snapshot_into(&mut viewport)?;

    assert_eq!(
        changed_row_ranges(viewport.changed_rows_since_baseline(&baseline)),
        Some(vec![(0, 16)])
    );
    Ok(())
}

#[test]
fn snapshot_into_records_changed_rows_for_large_plain_output() -> AppResult<()> {
    let size = size(4, 512);
    let mut terminal = Terminal::new(size);
    let mut viewport = terminal.snapshot()?;
    let baseline = viewport.change_baseline();
    let output = vec![b'x'; 1100];

    terminal.ingest_output(&output)?;
    terminal.snapshot_into(&mut viewport)?;

    assert_eq!(
        changed_row_ranges(viewport.changed_rows_since_baseline(&baseline)),
        Some(vec![(0, 3)])
    );
    Ok(())
}

#[test]
fn output_requires_full_refresh_keeps_non_sgr_escape_conservative() {
    let before = CursorPosition::new(0, 0);
    let after = CursorPosition::new(0, 8);

    assert!(AlacrittyTerminalBuffer::output_requires_full_refresh(
        OutputEffects::non_local(b"\x1b[2J\x1b[8C".len()),
        before,
        after,
        4,
        16
    ));
}

#[test]
fn output_requires_full_refresh_skips_cursor_only_escape() {
    let before = CursorPosition::new(0, 5);
    let after = CursorPosition::new(0, 13);

    assert!(!AlacrittyTerminalBuffer::output_requires_full_refresh(
        OutputEffects::cursor_only(b"\x1b[8C".len()),
        before,
        after,
        4,
        16
    ));
}

#[test]
fn snapshot_into_skips_row_copy_for_cursor_only_escape() -> AppResult<()> {
    let size = size(4, 16);
    let mut terminal = Terminal::new(size);
    terminal.ingest_output(b"hello")?;
    let mut viewport = terminal.snapshot()?;
    let baseline = viewport.change_baseline();
    let row_versions: Vec<_> = (0..viewport.rows)
        .map(|row| viewport.row_version(row))
        .collect();

    terminal.ingest_output(b"\x1b[8C")?;
    terminal.snapshot_into(&mut viewport)?;

    assert_eq!(viewport.cursor, CursorPosition::new(0, 13));
    assert_eq!(
        changed_row_ranges(viewport.changed_rows_since_baseline(&baseline)),
        Some(vec![(0, 1)])
    );
    assert_eq!(
        (0..viewport.rows)
            .map(|row| viewport.row_version(row))
            .collect::<Vec<_>>(),
        row_versions
    );
    Ok(())
}

#[test]
fn snapshot_into_copies_visible_scrollback_rows() -> AppResult<()> {
    let size = size(3, 16);
    let mut terminal = Terminal::new(size);
    terminal.ingest_output(b"line1\r\nline2\r\nline3\r\nline4\r\nline5")?;
    let mut viewport = terminal.snapshot()?;
    let bottom = viewport.clone();

    assert!(terminal.scroll_display(TerminalScroll::Lines(2)));
    terminal.snapshot_into(&mut viewport)?;
    let expected = terminal.snapshot()?;

    assert_ne!(shown(&viewport), shown(&bottom));
    assert_eq!(shown(&viewport), shown(&expected));
    Ok(())
}

#[test]
fn snapshot_into_records_no_changed_rows_without_output() -> AppResult<()> {
    let size = size(4, 16);
    let mut terminal = Terminal::new(size);
    terminal.ingest_output(b"hello\r\nworld")?;
    let mut viewport = terminal.snapshot()?;
    let baseline = viewport.change_baseline();

    terminal.snapshot_into(&mut viewport)?;

    assert_eq!(viewport.changed_rows_since_baseline(&baseline), None);
    Ok(())
}

#[test]
fn snapshot_into_refreshes_full_viewport_for_escape_output() -> AppResult<()> {
    let size = size(4, 16);
    let mut terminal = Terminal::new(size);
    terminal.ingest_output(b"hello\r\nworld")?;
    let mut viewport = terminal.snapshot()?;
    let baseline = viewport.change_baseline();

    terminal.ingest_output(b"\x1b[2J\x1b[Hdone")?;
    terminal.snapshot_into(&mut viewport)?;

    assert_eq!(line_text(&viewport, 0).as_deref(), Some("done            "));
    assert_eq!(line_text(&viewport, 1).as_deref(), Some("                "));
    assert_eq!(viewport.cursor, CursorPosition::new(0, 4));
    assert_eq!(
        changed_row_ranges(viewport.changed_rows_since_baseline(&baseline)),
        Some(vec![(0, 4)])
    );
    Ok(())
}

#[test]
fn emits_terminal_response_for_cursor_position_request() -> AppResult<()> {
    let size = size(4, 16);
    let mut terminal = Terminal::new(size);

    terminal.ingest_output(b"\x1b[6n")?;

    assert_eq!(
        terminal.take_pending_pty_writes(),
        vec![b"\x1b[1;1R".to_vec()]
    );
    Ok(())
}

#[test]
fn viewport_of_another_shape_is_read_anew() -> AppResult<()> {
    let mut terminal = Terminal::new(size(2, 8));
    terminal.ingest_output(b"hello")?;
    let mut viewport = terminal.snapshot()?;

    terminal.resize(size(3, 12));
    terminal.snapshot_into(&mut viewport)?;

    assert_eq!((viewport.rows, viewport.columns), (3, 12));
    assert_eq!(line_text(&viewport, 0).as_deref(), Some("hello       "));
    assert_eq!(terminal.buffer.dirty_rows, None);
    Ok(())
}

#[test]
fn refreshed_viewport_shows_what_a_new_one_shows() -> AppResult<()> {
    let mut terminal = Terminal::new(size(4, 16));
    let mut viewport = terminal.snapshot()?;
    for output in ["one", "\r\ntwo\tx", "\x1b[31mred\x1b[0m", "\r\n\r\n\r\nlong\r\n", "\x08\x08y"] {
        terminal.ingest_output(output.as_bytes())?;
        terminal.snapshot_into(&mut viewport)?;
        assert_eq!(shown(&viewport), shown(&terminal.snapshot()?));
    }
    Ok(())
}

#[test]
fn wide_characters_have_blank_spacers() -> AppResult<()> {
    let viewport = buffer_after("\u{d55c}x".as_bytes())?;

    assert_eq!(line_text(&viewport, 0).as_deref(), Some("\u{d55c} x             "));
    assert_eq!(terminal_cell('a', 0).character, 'a');
    assert_eq!(terminal_cell('a', 0x0040).character, ' ');
    assert_eq!(terminal_cell('a', 0x0400).character, ' ');
    assert_eq!(terminal_cell('a', 0x0100).character, ' ');
    Ok(())
}

#[test]
fn actions_are_sorted_by_what_they_change() {
    assert_eq!(action_effect(TerminalAction::Linefeed), ActionEffect::Local);
    assert_eq!(action_effect(TerminalAction::Goto), ActionEffect::CursorOnly);
    assert_eq!(action_effect(TerminalAction::SetTitle), ActionEffect::RenderIgnored);
    assert_eq!(action_effect(TerminalAction::ClearScreen), ActionEffect::NonLocal);
}

#[test]
fn output_without_an_action_refreshes_everything() {
    let effects = OutputEffects::new(3).finish();
    assert!(effects.requires_full_refresh);
    assert_eq!(OutputEffects::new(0).finish(), OutputEffects::new(0));
}

#[test]
fn scroll_deltas_saturate() {
    assert_eq!(scroll_delta(3, 10), 7);
    assert_eq!(scroll_delta(10, 3), -7);
    assert_eq!(scroll_delta(0, usize::MAX), i32::MAX);
    assert_eq!(scroll_delta(usize::MAX, 0), i32::MIN);
}

#[test]
fn absolute_scroll_goes_to_its_position() -> AppResult<()> {
    let mut terminal = Terminal::new(size(3, 16));
    terminal.ingest_output(b"line1\r\nline2\r\nline3\r\nline4\r\nline5")?;

    assert!(terminal.scroll_display(TerminalScroll::Absolute(1)));
    assert_eq!(terminal.buffer.grid.display_offset, 1);
    assert!(!terminal.scroll_display(TerminalScroll::Absolute(1)));
    assert!(terminal.scroll_display(TerminalScroll::Top));
    assert_eq!(terminal.buffer.scroll_state(), TerminalScrollState::new(0, 2, 3, 5));
    Ok(())
}

#[test]
fn scrolling_stays_between_the_ends_of_the_history() -> AppResult<()> {
    let mut terminal = Terminal::new(size(3, 16));
    terminal.ingest_output(b"1\r\n2\r\n3\r\n4\r\n5\r\n6\r\n7\r\n8")?;
    assert_eq!(terminal.buffer.grid.history_size, 5);

    assert!(terminal.scroll_display(TerminalScroll::PageUp));
    assert_eq!(terminal.buffer.grid.display_offset, 3);
    assert!(terminal.scroll_display(TerminalScroll::PageUp));
    assert_eq!(terminal.buffer.grid.display_offset, 5);
    assert!(!terminal.scroll_display(TerminalScroll::PageUp));
    assert!(terminal.scroll_display(TerminalScroll::PageDown));
    assert_eq!(terminal.buffer.grid.display_offset, 2);
    assert!(terminal.scroll_display(TerminalScroll::Lines(2)));
    assert!(terminal.scroll_display(TerminalScroll::Lines(-2)));
    assert_eq!(terminal.buffer.grid.display_offset, 2);
    assert!(terminal.scroll_display(TerminalScroll::Bottom));
    assert_eq!(read_grid(terminal.term.grid()).display_offset, 0);
    Ok(())
}

#[test]
fn rows_outside_the_grid_are_refused() {
    let grid = GridState {
        screen_lines: 3,
        columns: 4,
        history_size: 2,
        display_offset: 0,
        cursor_line: -1,
        cursor_column: 0,
    };
    let buffer = AlacrittyTerminalBuffer { grid, dirty_rows: None };

    assert_eq!(AlacrittyTerminalBuffer::display_line(1, 3), Ok(-2));
    assert_eq!(AlacrittyTerminalBuffer::validate_display_line(-2, &grid), Ok(()));
    assert_eq!(
        AlacrittyTerminalBuffer::validate_display_line(-3, &grid),
        Err(AppError::InvalidState("terminal display row is outside grid"))
    );
    assert_eq!(
        AlacrittyTerminalBuffer::validate_display_line(3, &grid),
        Err(AppError::InvalidState("terminal display row is outside grid"))
    );
    assert_eq!(
        AlacrittyTerminalBuffer::display_line(1 << 40, 0),
        Err(AppError::InvalidInput("terminal row index is too large"))
    );
    assert_eq!(
        AlacrittyTerminalBuffer::display_line(0, 1 << 40),
        Err(AppError::InvalidInput("terminal display offset is too large"))
    );
    assert_eq!(
        AlacrittyTerminalBuffer::cell_count(usize::MAX, 2),
        Err(AppError::InvalidInput("terminal buffer dimensions are too large"))
    );
    assert_eq!(
        buffer.cursor_position(),
        Err(AppError::InvalidState("terminal cursor row is negative"))
    );
}

#[test]
fn dirty_rows_are_merged_and_kept_on_the_screen() {
    assert_eq!(DirtyRows::all(0), None);
    assert_eq!(DirtyRows::from_inclusive(4, 2, 9), Some(DirtyRows { start: 2, end: 4 }));
    assert_eq!(
        DirtyRows { start: 0, end: 1 }.merge(DirtyRows { start: 2, end: 3 }),
        DirtyRows { start: 0, end: 3 }
    );
}

#[test]
fn refreshing_active_tab_viewport_cache_discards_stale_cached_cells() -> AppResult<()> {
    let mut terminal = Terminal::new(size(4, 16));
    let mut view = TerminalView::new(GdiRenderer::new("Mono".to_string(), 12));
    view.set_terminal_viewport(buffer_after(b"stale")?);

    view.refresh_active_tab_viewport_cache(&mut terminal.buffer, terminal.term.grid())?;

    let viewport = view
        .terminal_viewport
        .as_ref()
        .ok_or(AppError::InvalidState("terminal viewport cache should be present"))?;
    let line = line_text(viewport, 0)
        .ok_or(AppError::InvalidState("terminal viewport row is missing"))?;
    assert_eq!(line.trim_end(), "");
    Ok(())
}

#[test]
fn view_follows_its_terminal() -> AppResult<()> {
    let mut terminal = Terminal::new(size(4, 16));
    let mut view = TerminalView::new(GdiRenderer::new("Mono".to_string(), 12));

    terminal.ingest_output(b"one")?;
    view.refresh_terminal_viewport(&mut terminal.buffer, terminal.term.grid())?;
    terminal.ingest_output(b"\r\ntwo")?;
    view.refresh_terminal_viewport(&mut terminal.buffer, terminal.term.grid())?;

    assert_eq!(
        shown(view.terminal_viewport.as_ref().unwrap()),
        shown(&terminal.snapshot()?)
    );
    Ok(())
}

#[test]
fn blanking_flags_are_those_of_spacers_and_hidden_text() {
    let flags = Flags::WIDE_CHAR_SPACER | Flags::LEADING_WIDE_CHAR_SPACER | Flags::HIDDEN;
    assert_eq!(BLANKING_FLAGS, flags.bits());
    assert!(flags.bits() <= 0x7fff);
}

#[test]
fn position_beyond_the_history_is_its_oldest_line_where_it_can_be_asked_for() -> AppResult<()> {
    let mut terminal = Terminal::new(size(3, 16));
    terminal.ingest_output(b"1\r\n2\r\n3\r\n4\r\n5")?;

    let farthest = TerminalScroll::Absolute(usize::MAX);
    assert!(scroll_fits(terminal.term.grid(), farthest));
    assert!(terminal.scroll_display(farthest));
    assert_eq!(terminal.buffer.grid.display_offset, 2);

    assert!(!scroll_fits(terminal.term.grid(), farthest));
    assert!(!scroll_fits(terminal.term.grid(), TerminalScroll::Lines(i32::MAX)));
    assert!(scroll_fits(terminal.term.grid(), TerminalScroll::Absolute(i32::MAX as usize)));
    assert!(scroll_fits(terminal.term.grid(), TerminalScroll::PageUp));
    assert!(scroll_fits(terminal.term.grid(), TerminalScroll::Bottom));
    Ok(())
}
