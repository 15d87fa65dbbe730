use frostty::color::{AnsiColor, ColorPalette, NamedColor, Rgba, Theme};
use frostty::commands::{dispatch, BackendCommand};
use frostty::content::{Cell, CellFlags, CursorShape, HyperlinkRange, RenderableContent, SelectionRange};
use frostty::geometry::{cell_center, grid_to_pixel, in_rect, selection_point, GridPoint, TermSize};
use frostty::input::TerminalViewState;
use frostty::modes::TermMode;
use frostty::renderer::{mouse_interaction, render_frame, DrawOp, Interaction};
use frostty::style::{pane_bell_background, pane_border_color, pane_style, PaneStyle};
use frostty::subscription::{session_action, BackendEvent, StreamStep, Subscription};
use frostty::actions::Action;
use frostty::widget_theme::{terminal_palette, TerminalTheme};

fn cell(c: char) -> Cell {
    Cell {
        c,
        fg: AnsiColor::Named(NamedColor::Foreground),
        bg: AnsiColor::Named(NamedColor::Background),
        flags: CellFlags::empty(),
    }
}

fn small_content(cells: Vec<Vec<Cell>>) -> RenderableContent {
    let num_lines = cells.len() as u32;
    let num_cols = cells[0].len() as u32;
    RenderableContent {
        rows: cells,
        cursor_point: GridPoint { line: 0, column: 1 },
        cursor_fg: AnsiColor::Named(NamedColor::Foreground),
        cursor_shape: CursorShape::Block,
        display_offset: 0,
        selectable_range: None,
        hovered_hyperlink: None,
        terminal_mode: TermMode::empty(),
        terminal_size: TermSize { cell_width: 10, cell_height: 20, num_cols, num_lines },
    }
}

fn theme() -> Theme {
    Theme::new(&ColorPalette::default()).unwrap()
}

const FG: Rgba = Rgba { r: 0xd8, g: 0xd8, b: 0xd8, a: 255 };
const BG: Rgba = Rgba { r: 0x18, g: 0x18, b: 0x18, a: 255 };

#[test]
fn frame_paints_background_cursor_and_glyphs() {
    let content = small_content(vec![vec![cell('a'), cell(' ')]]);
    let mouse = GridPoint { line: 0, column: 0 };
    let ops = render_frame(&content, &theme(), mouse, 0, 0, 14);
    assert_eq!(
        ops,
        vec![
            DrawOp::Rect { x: 0, y: 0, width: 10, height: 20, color: BG },
            DrawOp::Glyph { x: 5, y: 10, ch: 'a', size: 14, color: FG },
            DrawOp::Rect { x: 10, y: 0, width: 10, height: 20, color: BG },
            DrawOp::Rect { x: 10, y: 0, width: 10, height: 20, color: FG },
        ]
    );
}

#[test]
fn tab_cells_skip_glyphs_like_spaces() {
    let content = small_content(vec![vec![cell('\t')]]);
    let mut content = content;
    content.cursor_shape = CursorShape::Hidden;
    let ops = render_frame(&content, &theme(), GridPoint { line: 3, column: 3 }, 0, 0, 14);
    assert_eq!(ops, vec![DrawOp::Rect { x: 0, y: 0, width: 10, height: 20, color: BG }]);
}

#[test]
fn dim_cells_scale_foreground_alpha() {
    let mut c = cell('x');
    c.flags.dim = true;
    let mut content = small_content(vec![vec![c]]);
    content.cursor_shape = CursorShape::Hidden;
    let ops = render_frame(&content, &theme(), GridPoint { line: 3, column: 3 }, 0, 0, 14);
    let dimmed = Rgba { a: 178, ..FG };
    assert_eq!(ops[1], DrawOp::Glyph { x: 5, y: 10, ch: 'x', size: 14, color: dimmed });
}

#[test]
fn inverse_and_selected_cells_swap_colors() {
    let mut c = cell('x');
    c.flags.inverse = true;
    let mut content = small_content(vec![vec![c]]);
    content.cursor_shape = CursorShape::Hidden;
    let ops = render_frame(&content, &theme(), GridPoint { line: 3, column: 3 }, 0, 0, 14);
    assert_eq!(ops[0], DrawOp::Rect { x: 0, y: 0, width: 10, height: 20, color: FG });
    assert_eq!(ops[1], DrawOp::Glyph { x: 5, y: 10, ch: 'x', size: 14, color: BG });

    let mut content = small_content(vec![vec![cell('x')]]);
    content.cursor_shape = CursorShape::Hidden;
    content.selectable_range = Some(SelectionRange {
        start: GridPoint { line: 0, column: 0 },
        end: GridPoint { line: 0, column: 0 },
    });
    let ops = render_frame(&content, &theme(), GridPoint { line: 3, column: 3 }, 0, 0, 14);
    assert_eq!(ops[0], DrawOp::Rect { x: 0, y: 0, width: 10, height: 20, color: FG });
}

#[test]
fn hovered_hyperlink_underlines_when_mouse_inside() {
    let mut content = small_content(vec![vec![cell('l'), cell('k')]]);
    content.cursor_shape = CursorShape::Hidden;
    content.hovered_hyperlink = Some(HyperlinkRange {
        start: GridPoint { line: 0, column: 0 },
        end: GridPoint { line: 0, column: 1 },
    });
    let inside = GridPoint { line: 0, column: 1 };
    let ops = render_frame(&content, &theme(), inside, 0, 0, 14);
    assert_eq!(
        ops[1],
        DrawOp::Line { x1: 0, y1: 20, x2: 10, y2: 20, width: 2, color: FG }
    );
    // with the mouse outside the range, no underline is drawn
    let outside = GridPoint { line: 3, column: 3 };
    let ops = render_frame(&content, &theme(), outside, 0, 0, 14);
    assert!(ops.iter().all(|op| !matches!(op, DrawOp::Line { .. })));
}

#[test]
fn cursor_shapes_draw_their_primitives() {
    let mouse = GridPoint { line: 3, column: 3 };
    let mut content = small_content(vec![vec![cell(' '), cell(' ')]]);
    content.cursor_shape = CursorShape::Beam;
    let ops = render_frame(&content, &theme(), mouse, 0, 0, 14);
    assert_eq!(ops[2], DrawOp::Rect { x: 10, y: 0, width: 1, height: 20, color: FG });
    content.cursor_shape = CursorShape::Underline;
    let ops = render_frame(&content, &theme(), mouse, 0, 0, 14);
    assert_eq!(ops[2], DrawOp::Rect { x: 10, y: 19, width: 10, height: 1, color: FG });
    content.cursor_shape = CursorShape::HollowBlock;
    let ops = render_frame(&content, &theme(), mouse, 0, 0, 14);
    assert_eq!(ops[2], DrawOp::Outline { x: 10, y: 0, width: 10, height: 20, color: FG });
    content.cursor_shape = CursorShape::Hidden;
    let ops = render_frame(&content, &theme(), mouse, 0, 0, 14);
    assert_eq!(ops.len(), 2);
}

#[test]
fn app_cursor_block_swaps_glyph_color() {
    let mut content = small_content(vec![vec![cell(' '), cell('x')]]);
    content.terminal_mode.app_cursor = true;
    let ops = render_frame(&content, &theme(), GridPoint { line: 3, column: 3 }, 0, 0, 14);
    // over the solid block cursor the glyph takes the background color
    assert_eq!(ops[3], DrawOp::Glyph { x: 15, y: 10, ch: 'x', size: 14, color: BG });
}

#[test]
fn layout_origin_offsets_every_primitive() {
    let mut content = small_content(vec![vec![cell(' ')]]);
    content.cursor_shape = CursorShape::Hidden;
    let ops = render_frame(&content, &theme(), GridPoint { line: 3, column: 3 }, 100, 200, 14);
    assert_eq!(ops, vec![DrawOp::Rect { x: 100, y: 200, width: 10, height: 20, color: BG }]);
}

#[test]
fn grid_pixel_round_trip_at_cell_center() {
    let size = TermSize { cell_width: 10, cell_height: 20, num_cols: 10, num_lines: 5 };
    let point = GridPoint { line: -1, column: 3 };
    let (px, py) = grid_to_pixel(point, &size, 2);
    assert_eq!((px, py), (30, 20));
    let (cx, cy) = cell_center(px, py, &size);
    assert_eq!((cx, cy), (35, 30));
    assert_eq!(selection_point(cx, cy, &size, 2), point);
}

#[test]
fn selection_point_clamps_to_grid() {
    let size = TermSize { cell_width: 10, cell_height: 20, num_cols: 10, num_lines: 5 };
    let p = selection_point(999, 999, &size, 0);
    assert_eq!(p, GridPoint { line: 4, column: 9 });
    let p = selection_point(0, 0, &size, 3);
    assert_eq!(p, GridPoint { line: -3, column: 0 });
}

#[test]
fn rect_containment_is_half_open() {
    assert!(in_rect(10, 10, 10, 10, 5, 5));
    assert!(in_rect(14, 14, 10, 10, 5, 5));
    assert!(!in_rect(15, 14, 10, 10, 5, 5));
    assert!(!in_rect(9, 10, 10, 10, 5, 5));
}

#[test]
fn dispatcher_tags_commands_in_order() {
    let out = dispatch(
        7,
        vec![BackendCommand::Write(vec![1, 2]), BackendCommand::Scroll(3)],
    );
    assert_eq!(out.len(), 2);
    assert_eq!(out[0].term_id, 7);
    assert_eq!(out[0].command, BackendCommand::Write(vec![1, 2]));
    assert_eq!(out[1].term_id, 7);
    assert_eq!(out[1].command, BackendCommand::Scroll(3));
}

#[test]
fn event_feed_forwards_and_tracks_shutdown() {
    let sub = Subscription::new(3);
    assert_eq!(sub.term_id, 3);
    let (shutdown, step) = sub.event_step(Some(BackendEvent::Bell), false);
    assert!(!shutdown);
    assert_eq!(step, StreamStep::Forward(BackendEvent::Bell));
    let (shutdown, step) = sub.event_step(Some(BackendEvent::Exit), false);
    assert!(shutdown);
    assert_eq!(step, StreamStep::Forward(BackendEvent::Exit));
}

#[test]
fn closed_feed_ends_the_session() {
    let sub = Subscription::new(3);
    // after a clean exit
    assert_eq!(sub.event_step(None, true), (true, StreamStep::SessionDead));
    // unexpected closure: an implicit shutdown, fatal for this session only
    assert_eq!(sub.event_step(None, false), (true, StreamStep::SessionDead));
}

#[test]
fn backend_events_map_to_session_actions() {
    assert_eq!(session_action(BackendEvent::Exit), Action::Shutdown);
    assert_eq!(session_action(BackendEvent::Bell), Action::Bell);
    assert_eq!(
        session_action(BackendEvent::TitleChanged(String::from("vim"))),
        Action::ChangeTitle(String::from("vim"))
    );
    assert_eq!(session_action(BackendEvent::ContentChanged), Action::Redraw);
}

#[test]
fn pointer_shape_over_grid_and_links() {
    let content = small_content(vec![vec![cell(' ')]]);
    let mouse = GridPoint { line: 0, column: 0 };
    assert_eq!(mouse_interaction(Some(&content), mouse, true), Interaction::Text);
    assert_eq!(mouse_interaction(Some(&content), mouse, false), Interaction::Idle);
    let mut sgr = small_content(vec![vec![cell(' ')]]);
    sgr.terminal_mode.sgr_mouse = true;
    assert_eq!(mouse_interaction(Some(&sgr), mouse, true), Interaction::Idle);
    let mut linked = small_content(vec![vec![cell(' ')]]);
    linked.hovered_hyperlink = Some(HyperlinkRange {
        start: GridPoint { line: 0, column: 0 },
        end: GridPoint { line: 0, column: 0 },
    });
    assert_eq!(mouse_interaction(Some(&linked), mouse, true), Interaction::Pointer);
    assert_eq!(mouse_interaction(None, mouse, false), Interaction::Idle);
}

#[test]
fn pane_styles_follow_focus_and_bell() {
    assert_eq!(pane_style(false, false), PaneStyle::Unfocused);
    assert_eq!(pane_style(false, true), PaneStyle::Unfocused);
    assert_eq!(pane_style(true, false), PaneStyle::Focused);
    assert_eq!(pane_style(true, true), PaneStyle::Bell);
    let palette = frostty::color::app_palette(None).unwrap();
    assert_eq!(pane_border_color(PaneStyle::Unfocused, &palette), palette.text);
    assert_eq!(pane_border_color(PaneStyle::Focused, &palette), palette.primary);
}

#[test]
fn bell_background_parses_configured_color() {
    assert_eq!(pane_bell_background(None), Ok(None));
    assert_eq!(
        pane_bell_background(Some(String::from("#ff0000"))),
        Ok(Some(Rgba { r: 255, g: 0, b: 0, a: 255 }))
    );
    assert!(pane_bell_background(Some(String::from("red"))).is_err());
}

#[test]
fn widget_theme_palettes_resolve() {
    let palette = terminal_palette(TerminalTheme::Dracula);
    assert_eq!(palette.cursor, Rgba { r: 248, g: 248, b: 242, a: 255 });
    assert_eq!(palette.foreground.red, Rgba { r: 230, g: 71, b: 71, a: 255 });
    assert_eq!(palette.background.white, Rgba { r: 249, g: 249, b: 251, a: 255 });
    // every named theme currently resolves to the same palette
    assert_eq!(terminal_palette(TerminalTheme::Nord), palette);
}

#[test]
fn view_state_focus_gate() {
    let mut state = TerminalViewState::new();
    assert!(state.is_focused());
    state.unfocus();
    assert!(!state.is_focused());
    state.focus();
    assert!(state.is_focused());
}
