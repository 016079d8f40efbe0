//! Encoding, geometry and painting of terminal rows.

use j3term::domain::geometry::UiRect;
use j3term::domain::layout::{TerminalTabView, WindowLayout};
use j3term::domain::rows::{RowRange, TerminalChangedRows};
use j3term::domain::terminal::{
    CursorPosition, TerminalCell, TerminalScrollState, TerminalViewport,
};
use j3term::error::{AppError, AppResult};
use j3term::renderer::brushes::SolidBrushCache;
use j3term::renderer::encoding::{
    approximate_text_width, encode_str_utf16, line_units, terminal_cells_fingerprint,
    truncate_for_width, wide_null, EncodedLine,
};
use j3term::renderer::geometry::{
    device_dpi, intersect_rects, paint_buffer_outdated, paint_buffer_size,
    point_size_to_logical_height, rect_from_ui, rects_intersect, selection_rect,
    terminal_paint_row_range, terminal_row_clip_rect, terminal_row_range_rect, CellMetrics,
    DeviceRect, PaintBufferCompatibility, PaintBufferSize,
};
use j3term::renderer::paint::{
    paint_scene, rgb, ColumnRange, GdiRenderer, PaintOp, PaintScene,
};
use j3term::window::view::TerminalView;

fn terminal_cells(text: &str) -> Vec<TerminalCell> {
    text.chars().map(TerminalCell::new).collect()
}

#[test]
fn terminal_paint_row_range_limits_rows_to_paint_rect() {
    let terminal_content = UiRect {
        x: 8,
        y: 20,
        width: 320,
        height: 80,
    };
    let paint_rect = DeviceRect {
        left: 0,
        top: 36,
        right: 360,
        bottom: 52,
    };

    assert_eq!(
        terminal_paint_row_range(&paint_rect, terminal_content, 5, 16),
        RowRange { start: 1, end: 2 }
    );
}

#[test]
fn terminal_paint_row_range_includes_partially_painted_rows() {
    let terminal_content = UiRect {
        x: 8,
        y: 20,
        width: 320,
        height: 80,
    };
    let paint_rect = DeviceRect {
        left: 0,
        top: 35,
        right: 360,
        bottom: 53,
    };

    assert_eq!(
        terminal_paint_row_range(&paint_rect, terminal_content, 5, 16),
        RowRange { start: 0, end: 3 }
    );
}

#[test]
fn terminal_paint_row_range_is_empty_outside_terminal_content() {
    let terminal_content = UiRect {
        x: 8,
        y: 20,
        width: 320,
        height: 80,
    };
    let paint_rect = DeviceRect {
        left: 0,
        top: 0,
        right: 360,
        bottom: 20,
    };

    assert_eq!(
        terminal_paint_row_range(&paint_rect, terminal_content, 5, 16),
        RowRange { start: 0, end: 0 }
    );
}

#[test]
fn intersect_rects_returns_overlapping_band() {
    let left = DeviceRect {
        left: 8,
        top: 20,
        right: 108,
        bottom: 68,
    };
    let right = DeviceRect {
        left: 0,
        top: 36,
        right: 360,
        bottom: 52,
    };

    let Some(rect) = intersect_rects(&left, &right) else {
        panic!("overlapping rects should produce an intersection");
    };

    assert_eq!(rect.left, 8);
    assert_eq!(rect.top, 36);
    assert_eq!(rect.right, 108);
    assert_eq!(rect.bottom, 52);
}

#[test]
fn intersect_rects_rejects_non_overlapping_edges() {
    let left = DeviceRect {
        left: 8,
        top: 20,
        right: 108,
        bottom: 36,
    };
    let right = DeviceRect {
        left: 0,
        top: 36,
        right: 360,
        bottom: 52,
    };

    assert!(intersect_rects(&left, &right).is_none());
    assert!(!rects_intersect(&left, &right));
}

#[test]
fn terminal_row_range_rect_extends_last_row_to_content_bottom() {
    let content_area = UiRect {
        x: 8,
        y: 20,
        width: 320,
        height: 38,
    };
    let metrics = CellMetrics {
        width: 8,
        height: 16,
    };

    let Some(rect) = terminal_row_range_rect(content_area, metrics, RowRange { start: 1, end: 2 }, 2) else {
        panic!("last row should include trailing terminal content");
    };

    assert_eq!(
        rect,
        UiRect {
            x: 8,
            y: 36,
            width: 320,
            height: 22,
        }
    );
}

#[test]
fn terminal_row_clip_rect_stays_inside_content_area() {
    let content_area = UiRect {
        x: 8,
        y: 20,
        width: 320,
        height: 38,
    };
    let metrics = CellMetrics {
        width: 8,
        height: 16,
    };

    let Some(rect) = terminal_row_clip_rect(content_area, metrics, 2) else {
        panic!("partial last row should produce a clip rect");
    };

    assert_eq!(rect.left, 8);
    assert_eq!(rect.top, 52);
    assert_eq!(rect.right, 328);
    assert_eq!(rect.bottom, 58);
}

#[test]
fn paint_buffer_size_rejects_empty_rects() {
    let rect = DeviceRect {
        left: 10,
        top: 10,
        right: 10,
        bottom: 24,
    };

    assert_eq!(paint_buffer_size(&rect), None);
}

#[test]
fn paint_buffer_size_uses_rect_extent() {
    let rect = DeviceRect {
        left: 8,
        top: 20,
        right: 108,
        bottom: 68,
    };

    assert_eq!(
        paint_buffer_size(&rect),
        Some(PaintBufferSize {
            width: 100,
            height: 48,
        })
    );
}

#[test]
fn paint_buffer_size_covers_smaller_required_extent() {
    let cached = PaintBufferSize {
        width: 320,
        height: 200,
    };

    assert!(cached.covers(PaintBufferSize {
        width: 240,
        height: 120,
    }));
    assert!(!cached.covers(PaintBufferSize {
        width: 480,
        height: 120,
    }));
}

#[test]
fn paint_buffer_size_reuses_cached_extent_within_area_budget() {
    let cached = PaintBufferSize {
        width: 400,
        height: 200,
    };

    assert!(cached.reusable_for(PaintBufferSize {
        width: 200,
        height: 100,
    }));
}

#[test]
fn paint_buffer_size_rejects_cached_extent_above_area_budget() {
    let cached = PaintBufferSize {
        width: 1600,
        height: 900,
    };

    assert!(!cached.reusable_for(PaintBufferSize {
        width: 400,
        height: 225,
    }));
}

#[test]
fn paint_buffer_size_reuse_requires_covering_required_extent() {
    let cached = PaintBufferSize {
        width: 320,
        height: 200,
    };

    assert!(!cached.reusable_for(PaintBufferSize {
        width: 480,
        height: 120,
    }));
}

#[test]
fn encoded_line_refresh_trims_trailing_whitespace() -> AppResult<()> {
    let cells = terminal_cells("ab  ");
    let mut line = EncodedLine::default();

    line.refresh_utf16(&cells, Some(1), 8)?;
    let wide = line.utf16().to_vec();
    let fingerprint = terminal_cells_fingerprint(&cells);

    assert_eq!(wide, vec![b'a' as u16, b'b' as u16]);
    assert_eq!(line.utf16(), wide.as_slice());
    assert_eq!(line.advances(), &[8, 8]);
    assert!(line.is_valid_for(cells.len(), Some(1), 8, fingerprint));
    assert!(!line.is_valid_for(cells.len(), Some(2), 8, fingerprint));
    assert!(!line.is_valid_for(cells.len(), Some(1), 9, fingerprint));
    Ok(())
}

#[test]
fn encoded_line_rejects_same_version_with_changed_cells() -> AppResult<()> {
    let cells = terminal_cells("stale");
    let changed = terminal_cells("     ");
    let mut line = EncodedLine::default();

    line.refresh_utf16(&cells, Some(1), 8)?;

    assert!(!line.is_valid_for(
        changed.len(),
        Some(1),
        8,
        terminal_cells_fingerprint(&changed)
    ));
    Ok(())
}

#[test]
fn encoded_line_refresh_reserves_only_visible_prefix() -> AppResult<()> {
    let mut cells = terminal_cells("ab");
    cells.extend((0..512).map(|_| TerminalCell::new(' ')));
    let mut line = EncodedLine::default();

    line.refresh_utf16(&cells, Some(1), 8)?;
    let wide = line.utf16().to_vec();

    assert_eq!(wide, vec![b'a' as u16, b'b' as u16]);
    assert!(line.wide.capacity() < cells.len());
    Ok(())
}

#[test]
fn encoded_line_refresh_preserves_non_bmp_character() -> AppResult<()> {
    let cells = vec![
        TerminalCell::new('a'),
        TerminalCell::new('\u{1F642}'),
        TerminalCell::new(' '),
        TerminalCell::new(' '),
    ];
    let mut line = EncodedLine::default();

    line.refresh_utf16(&cells, Some(1), 8)?;
    let wide = line.utf16().to_vec();
    let expected = "a\u{1F642}".encode_utf16().collect::<Vec<_>>();

    assert_eq!(wide, expected);
    assert_eq!(line.utf16(), expected.as_slice());
    assert_eq!(line.advances(), &[8, 8, 0]);
    Ok(())
}

#[test]
fn encoded_line_refresh_uses_cell_advances_for_wide_character_spacers() -> AppResult<()> {
    let cells = vec![
        TerminalCell::new('오'),
        TerminalCell::new(' '),
        TerminalCell::new('후'),
        TerminalCell::new(' '),
        TerminalCell::new('P'),
    ];
    let mut line = EncodedLine::default();

    line.refresh_utf16(&cells, Some(1), 9)?;

    assert_eq!(line.utf16(), "오 후 P".encode_utf16().collect::<Vec<_>>());
    assert_eq!(line.advances(), &[9, 9, 9, 9, 9]);
    Ok(())
}

#[test]
fn encoded_line_refresh_releases_oversized_blank_row_cache() -> AppResult<()> {
    let cells = terminal_cells("    ");
    let mut line = EncodedLine::default();
    line.wide
        .try_reserve(4096)
        .map_err(|_| AppError::InvalidInput("test allocation failed"))?;

    assert!(line.wide.capacity() > 0);
    line.refresh_utf16(&cells, Some(7), 8)?;

    assert!(line.utf16().is_empty());
    assert_eq!(line.wide.capacity(), 0);
    assert_eq!(line.advances.capacity(), 0);
    Ok(())
}

#[test]
fn encoded_line_refresh_caches_blank_rows_as_valid() -> AppResult<()> {
    let cells = terminal_cells("    ");
    let mut line = EncodedLine::default();

    line.refresh_utf16(&cells, Some(7), 8)?;

    assert!(line.utf16().is_empty());
    assert!(line.advances().is_empty());
    let fingerprint = terminal_cells_fingerprint(&cells);
    assert!(line.is_valid_for(cells.len(), Some(7), 8, fingerprint));
    assert!(!line.is_valid_for(cells.len().saturating_add(1), Some(7), 8, fingerprint));
    assert!(!line.is_valid_for(cells.len(), None, 8, fingerprint));
    Ok(())
}

#[test]
fn colours_are_packed_red_lowest() {
    assert_eq!(rgb(1, 2, 3), 0x030201);
}

#[test]
fn rectangles_become_edges() {
    let edges = rect_from_ui(UiRect { x: 1, y: 2, width: 3, height: 4 });

    assert_eq!(edges, DeviceRect { left: 1, top: 2, right: 4, bottom: 6 });
}

#[test]
fn selection_covers_its_columns() -> AppResult<()> {
    let area = UiRect { x: 10, y: 20, width: 100, height: 100 };
    let metrics = CellMetrics { width: 8, height: 16 };

    assert_eq!(
        selection_rect(area, metrics, 2, 1, 4)?,
        DeviceRect { left: 18, top: 52, right: 42, bottom: 68 }
    );
    assert_eq!(
        selection_rect(area, metrics, 1 << 40, 0, 1),
        Err(AppError::InvalidInput("row index is too large"))
    );
    assert_eq!(
        selection_rect(area, metrics, 0, 0, 1 << 40),
        Err(AppError::InvalidInput("column index is too large"))
    );
    Ok(())
}

#[test]
fn font_height_follows_the_device() {
    assert_eq!(point_size_to_logical_height(12, 96), -16);
    assert_eq!(point_size_to_logical_height(18, 144), -36);
    assert_eq!(device_dpi(0), 96);
    assert_eq!(device_dpi(120), 120);
}

#[test]
fn text_is_cut_to_the_room_that_it_has() {
    assert_eq!(truncate_for_width("abcdef", 48, 8), "abcdef");
    assert!(approximate_text_width(&truncate_for_width("abcdef", 40, 8), 8) <= 40);
    assert_eq!(approximate_text_width("abc", 8), 24);
}

#[test]
fn wide_text_ends_with_a_zero() {
    assert_eq!(wide_null("ab"), vec![97, 98, 0]);
    let mut buffer: Vec<u16> = vec![1, 2, 3];
    encode_str_utf16(&mut buffer, "c\u{1F642}", "too long").unwrap();
    assert_eq!(buffer, "c\u{1F642}".encode_utf16().collect::<Vec<_>>());
}

fn viewport(lines: &[&str]) -> TerminalViewport {
    let columns = lines[0].chars().count();
    let cells = lines.iter().flat_map(|line| terminal_cells(line)).collect();
    TerminalViewport::with_scroll(
        lines.len(),
        columns,
        cells,
        CursorPosition::new(0, 0),
        TerminalScrollState::new(0, 0, lines.len(), lines.len()),
    )
    .unwrap()
}

fn window(content: UiRect) -> WindowLayout {
    let none = UiRect { x: 0, y: 0, width: 0, height: 0 };
    WindowLayout {
        tab_bar: none,
        tabs: Vec::new(),
        new_tab_button: None,
        terminal: content,
        splitter: none,
        command_panel: none,
        command_category_selector: None,
        command_button_viewport: none,
        command_button_scroll: None,
        buttons: Vec::new(),
    }
}

#[test]
fn painting_writes_each_row_once_and_the_cursor_last() -> AppResult<()> {
    let viewport = viewport(&["ab", "cd"]);
    let content = UiRect { x: 0, y: 0, width: 16, height: 32 };
    let window = window(content);
    let tabs: Vec<TerminalTabView> = Vec::new();
    let selected: Vec<Option<ColumnRange>> = vec![None, None];
    let scene = PaintScene {
        viewport: &viewport,
        window: &window,
        tabs: &tabs,
        content,
        selected: &selected,
    };
    let mut cache: Vec<EncodedLine> = Vec::new();
    let whole = DeviceRect { left: 0, top: 0, right: 16, bottom: 32 };

    let ops = paint_scene(&scene, &mut cache, &whole, CellMetrics { width: 8, height: 16 })?;

    let rows: Vec<usize> = ops
        .iter()
        .filter_map(|op| match op {
            PaintOp::Row { row, .. } => Some(*row),
            _ => None,
        })
        .collect();
    assert_eq!(rows, vec![0, 1]);
    assert!(matches!(ops.last(), Some(PaintOp::CursorText { character: 'a', .. })));
    assert_eq!(cache.len(), 2);
    assert_eq!(cache[1].utf16(), &[b'c' as u16, b'd' as u16]);
    Ok(())
}

#[test]
fn painting_of_a_band_leaves_other_rows() -> AppResult<()> {
    let viewport = viewport(&["ab", "cd"]);
    let content = UiRect { x: 0, y: 0, width: 16, height: 32 };
    let window = window(content);
    let tabs: Vec<TerminalTabView> = Vec::new();
    let selected: Vec<Option<ColumnRange>> = vec![None, None];
    let scene = PaintScene {
        viewport: &viewport,
        window: &window,
        tabs: &tabs,
        content,
        selected: &selected,
    };
    let mut renderer = GdiRenderer::new("Mono".to_string(), 12);
    renderer.ensure_metrics(CellMetrics { width: 8, height: 16 });
    let whole = DeviceRect { left: 0, top: 0, right: 16, bottom: 32 };

    let painting = renderer.paint(&scene, &whole, Some(&vec![RowRange { start: 1, end: 2 }]));

    assert!(painting.error.is_none());
    let paintings = painting.areas;
    assert_eq!(paintings.len(), 1);
    assert_eq!(paintings[0].0, DeviceRect { left: 0, top: 16, right: 16, bottom: 32 });
    assert!(!paintings[0].1.iter().any(|op| matches!(op, PaintOp::Row { row: 0, .. })));
    assert!(paintings[0].1.iter().any(|op| matches!(op, PaintOp::Row { row: 1, .. })));
    Ok(())
}

#[test]
fn new_font_is_measured_again() {
    let mut renderer = GdiRenderer::new("Mono".to_string(), 12);
    let measured = CellMetrics { width: 7, height: 15 };
    assert_eq!(renderer.ensure_metrics(measured), measured);
    assert_eq!(renderer.ensure_metrics(CellMetrics { width: 9, height: 19 }), measured);

    assert!(!renderer.set_font("Mono".to_string(), 12));
    assert!(renderer.set_font("Mono".to_string(), 14));
    let larger = CellMetrics { width: 9, height: 19 };
    assert_eq!(renderer.ensure_metrics(larger), larger);
    assert_eq!(renderer.select_font(96, Ok(())), Ok(true));
    assert_eq!(renderer.select_font(96, Ok(())), Ok(false));
    assert_eq!(renderer.select_font(120, Ok(())), Ok(true));
}

#[test]
fn font_that_cannot_be_made_is_made_at_the_next_attempt() -> AppResult<()> {
    let mut renderer = GdiRenderer::new("Mono".to_string(), 12);
    renderer.select_font(96, Ok(()))?;
    let measured = CellMetrics { width: 7, height: 15 };
    renderer.ensure_metrics(measured);
    renderer.line_cache.push(EncodedLine::default());

    let failure = AppError::InvalidState("no font");
    assert!(renderer.font_outdated(120));
    assert_eq!(
        renderer.select_font(120, Err(AppError::InvalidState("no font"))),
        Err(failure)
    );
    assert!(renderer.font_outdated(120));
    assert!(!renderer.font_outdated(96));
    assert!(renderer.metrics_initialized);
    assert_eq!(renderer.line_cache.len(), 1);

    assert_eq!(renderer.select_font(120, Ok(())), Ok(true));
    assert!(!renderer.font_outdated(120));
    assert!(!renderer.metrics_initialized);
    assert_eq!(renderer.line_cache.len(), 0);
    Ok(())
}

#[test]
fn nothing_is_painted_of_an_empty_area() {
    let viewport = viewport(&["ab", "cd"]);
    let content = UiRect { x: 0, y: 0, width: 16, height: 32 };
    let window = window(content);
    let tabs: Vec<TerminalTabView> = Vec::new();
    let selected: Vec<Option<ColumnRange>> =
        vec![Some(ColumnRange { start: usize::MAX, end: usize::MAX }), None];
    let scene = PaintScene {
        viewport: &viewport,
        window: &window,
        tabs: &tabs,
        content,
        selected: &selected,
    };
    let mut renderer = GdiRenderer::new("Mono".to_string(), 12);
    for empty in [
        DeviceRect { left: 0, top: 0, right: 0, bottom: 32 },
        DeviceRect { left: 0, top: 32, right: 16, bottom: 0 },
    ] {
        let painting = renderer.paint(&scene, &empty, None);
        assert!(painting.areas.is_empty());
        assert!(painting.error.is_none());
        assert_eq!(renderer.line_cache.len(), 0);
    }
}

#[test]
fn areas_before_one_that_cannot_be_painted_are_shown() {
    let viewport = viewport(&["ab", "cd", "ef"]);
    let content = UiRect { x: 0, y: 0, width: 16, height: 48 };
    let window = window(content);
    let tabs: Vec<TerminalTabView> = Vec::new();
    let selected: Vec<Option<ColumnRange>> =
        vec![None, None, Some(ColumnRange { start: 0, end: usize::MAX })];
    let scene = PaintScene {
        viewport: &viewport,
        window: &window,
        tabs: &tabs,
        content,
        selected: &selected,
    };
    let mut renderer = GdiRenderer::new("Mono".to_string(), 12);
    let whole = DeviceRect { left: 0, top: 0, right: 16, bottom: 48 };
    let rows = vec![RowRange { start: 0, end: 1 }, RowRange { start: 2, end: 3 }];

    let painting = renderer.paint(&scene, &whole, Some(&rows));

    assert_eq!(painting.error, Some(AppError::InvalidInput("column index is too large")));
    assert_eq!(painting.areas.len(), 1);
    assert_eq!(
        painting.areas[0].0,
        DeviceRect { left: 0, top: 0, right: 16, bottom: 16 }
    );
    assert!(painting.areas[0].1.iter().any(|op| matches!(op, PaintOp::Row { row: 0, .. })));
}

#[test]
fn view_without_a_viewport_cannot_be_painted() {
    let content = UiRect { x: 0, y: 0, width: 16, height: 32 };
    let window = window(content);
    let tabs: Vec<TerminalTabView> = Vec::new();
    let selected: Vec<Option<ColumnRange>> = vec![None, None];
    let whole = DeviceRect { left: 0, top: 0, right: 16, bottom: 32 };
    let mut view = TerminalView::new(GdiRenderer::new("Mono".to_string(), 12));
    let mut pending = Some(TerminalChangedRows::from_range(1, 2));

    let refused = view.paint(&mut pending, &window, &tabs, content, &selected, &whole);
    assert_eq!(
        refused.err(),
        Some(AppError::InvalidState("terminal viewport cache is empty"))
    );
    assert!(pending.is_some());

    view.set_terminal_viewport(viewport(&["ab", "cd"]));
    let painting = view
        .paint(&mut pending, &window, &tabs, content, &selected, &whole)
        .unwrap();
    assert!(pending.is_none());
    assert_eq!(painting.areas.len(), 1);
    assert_eq!(painting.areas[0].0.top, 16);
    let painting = view
        .paint(&mut pending, &window, &tabs, content, &selected, &whole)
        .unwrap();
    assert_eq!(painting.areas[0].0, whole);
}

#[test]
fn brushes_are_kept_by_their_colour() {
    let mut brushes: SolidBrushCache<u8> = SolidBrushCache::new();
    assert_eq!(brushes.find(7), None);
    assert_eq!(
        brushes.keep_in_room(7, false, Ok(1)),
        Err(AppError::InvalidInput("too many brushes to cache"))
    );
    assert_eq!(brushes.find(7), None);
    assert_eq!(brushes.keep(7, Ok(1)), Ok(0));
    assert_eq!(
        brushes.keep(8, Err(AppError::InvalidState("no brush"))),
        Err(AppError::InvalidState("no brush"))
    );
    assert_eq!(brushes.find(8), None);
    assert_eq!(brushes.keep(8, Ok(2)), Ok(1));
    assert_eq!(brushes.find(7), Some(0));
    assert_eq!(brushes.find(8), Some(1));
    assert_eq!(brushes.brushes[1].brush, 2);
}

#[test]
fn row_needs_two_units_for_each_visible_cell() {
    assert_eq!(line_units(0), Ok(0));
    assert_eq!(line_units(3), Ok(6));
    assert_eq!(
        line_units(usize::MAX),
        Err(AppError::InvalidInput("line is too long to render"))
    );
}

#[test]
fn buffer_of_another_device_is_outdated() {
    let size = PaintBufferSize { width: 100, height: 50 };
    let screen = PaintBufferCompatibility { technology: 1, bits_pixel: 32, planes: 1 };
    let other = PaintBufferCompatibility { technology: 1, bits_pixel: 16, planes: 1 };

    assert!(paint_buffer_outdated(None, size, screen));
    assert!(!paint_buffer_outdated(Some((size, screen)), size, screen));
    assert!(paint_buffer_outdated(Some((size, other)), size, screen));
}

#[test]
fn terminal_viewport_replacement_clears_renderer_line_cache() -> AppResult<()> {
    let mut view = TerminalView::new(GdiRenderer::new("Mono".to_string(), 12));
    let cached = |view: &mut TerminalView| -> AppResult<()> {
        let mut line = EncodedLine::default();
        line.refresh_utf16(&terminal_cells("    "), Some(1), 8)?;
        view.renderer.line_cache.push(line);
        Ok(())
    };

    cached(&mut view)?;
    view.set_terminal_viewport(viewport(&["echo"]));
    assert_eq!(view.renderer.line_cache.len(), 0);

    cached(&mut view)?;
    let previous = view.replace_terminal_viewport_state(Some(viewport(&["next"])));
    assert_eq!(view.renderer.line_cache.len(), 0);

    cached(&mut view)?;
    view.replace_terminal_viewport_state(previous);
    assert_eq!(view.renderer.line_cache.len(), 0);

    cached(&mut view)?;
    view.clear_terminal_viewport();
    assert_eq!(view.renderer.line_cache.len(), 0);
    assert!(!view.has_terminal_viewport());
    Ok(())
}

#[test]
fn viewport_whose_scroll_bar_cannot_follow_is_not_shown() {
    let mut view = TerminalView::new(GdiRenderer::new("Mono".to_string(), 12));
    view.set_terminal_viewport(viewport(&["old"]));

    let result = view.replace_terminal_viewport_cache(
        viewport(&["new"]),
        Err(AppError::InvalidState("no scroll bar")),
    );

    assert_eq!(result, Err(AppError::InvalidState("no scroll bar")));
    assert_eq!(view.terminal_viewport.unwrap().cells[0], TerminalCell::new('o'));
}

#[test]
fn trailing_whitespace_of_every_kind_is_cut() -> AppResult<()> {
    for blank in ['\t', '\u{a0}', '\u{1680}', '\u{2003}', '\u{2028}', '\u{3000}'] {
        let cells = vec![TerminalCell::new('a'), TerminalCell::new(blank)];
        let mut line = EncodedLine::default();
        line.refresh_utf16(&cells, Some(1), 8)?;
        assert_eq!(line.utf16(), &[b'a' as u16]);
    }
    let cells = vec![TerminalCell::new('a'), TerminalCell::new('\u{200b}')];
    let mut line = EncodedLine::default();
    line.refresh_utf16(&cells, Some(1), 8)?;
    assert_eq!(line.utf16(), &[b'a' as u16, 0x200b]);
    Ok(())
}

#[test]
fn painting_of_a_band_leaves_the_cached_lines_of_other_rows() -> AppResult<()> {
    let content = UiRect { x: 0, y: 0, width: 16, height: 32 };
    let window = window(content);
    let tabs: Vec<TerminalTabView> = Vec::new();
    let selected: Vec<Option<ColumnRange>> = vec![None, None];
    let whole = DeviceRect { left: 0, top: 0, right: 16, bottom: 32 };
    let mut renderer = GdiRenderer::new("Mono".to_string(), 12);
    renderer.ensure_metrics(CellMetrics { width: 8, height: 16 });
    let first = viewport(&["ab", "cd"]);
    let second = viewport(&["xy", "zw"]);

    for (viewport, rows) in [(&first, None), (&second, Some(vec![RowRange { start: 1, end: 2 }]))] {
        let scene = PaintScene { viewport, window: &window, tabs: &tabs, content, selected: &selected };
        assert!(renderer.paint(&scene, &whole, rows.as_ref()).error.is_none());
    }

    assert_eq!(renderer.line_cache.len(), 2);
    assert_eq!(renderer.line_cache[0].utf16(), &[b'a' as u16, b'b' as u16]);
    assert_eq!(renderer.line_cache[1].utf16(), &[b'z' as u16, b'w' as u16]);
    assert_eq!(renderer.font_family, "Mono");
    assert_eq!(renderer.font_size_points, 12);
    Ok(())
}
