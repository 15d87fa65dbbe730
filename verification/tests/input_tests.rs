use frostty::bindings::{BindingsLayout, Modifiers};
use frostty::bindings::KeyCode;
use frostty::commands::{BackendCommand, LinkAction, MouseButton, SelectionType};
use frostty::content::{Cell, CellFlags, CursorShape, RenderableContent};
use frostty::color::{AnsiColor, NamedColor};
use frostty::geometry::{GridPoint, TermSize};
use frostty::input::{
    classify_click, handle_button_released, handle_cursor_moved, handle_keyboard_event,
    handle_left_button_pressed, handle_wheel_scrolled, on_event, utf8_encode, ClickKind,
    ClipboardOp, InputEvent, Key, KeyboardEvent, KeyboardOutcome, LayoutRect, MouseEvent,
    ScrollDelta, TerminalViewState,
};
use frostty::modes::TermMode;

fn blank_cell() -> Cell {
    Cell {
        c: ' ',
        fg: AnsiColor::Named(NamedColor::Foreground),
        bg: AnsiColor::Named(NamedColor::Background),
        flags: CellFlags::empty(),
    }
}

fn make_content() -> RenderableContent {
    let size = TermSize { cell_width: 10, cell_height: 20, num_cols: 10, num_lines: 5 };
    let mut rows = Vec::new();
    for _ in 0..5 {
        let mut row = Vec::new();
        for _ in 0..10 {
            row.push(blank_cell());
        }
        rows.push(row);
    }
    RenderableContent {
        rows,
        cursor_point: GridPoint { line: 0, column: 0 },
        cursor_fg: AnsiColor::Named(NamedColor::Foreground),
        cursor_shape: CursorShape::Block,
        display_offset: 0,
        selectable_range: None,
        hovered_hyperlink: None,
        terminal_mode: TermMode::empty(),
        terminal_size: size,
    }
}

#[test]
fn click_classification_single_double_triple() {
    // Two presses at the same position within the threshold classify as
    // double, a third as triple; past the threshold it restarts at single.
    let mut state = TerminalViewState::new();
    let mode = TermMode::empty();
    let cmds = handle_left_button_pressed(&mut state, &mode, 35, 50, 0, 0, 1000);
    assert_eq!(cmds, vec![BackendCommand::SelectStart(SelectionType::Simple, 35, 50)]);
    let cmds = handle_left_button_pressed(&mut state, &mode, 35, 50, 0, 0, 1100);
    assert_eq!(cmds, vec![BackendCommand::SelectStart(SelectionType::Semantic, 35, 50)]);
    let cmds = handle_left_button_pressed(&mut state, &mode, 35, 50, 0, 0, 1200);
    assert_eq!(cmds, vec![BackendCommand::SelectStart(SelectionType::Lines, 35, 50)]);
    // exactly the threshold apart: no longer consecutive
    let cmds = handle_left_button_pressed(&mut state, &mode, 35, 50, 0, 0, 1500);
    assert_eq!(cmds, vec![BackendCommand::SelectStart(SelectionType::Simple, 35, 50)]);
}

#[test]
fn click_classification_resets_on_moved_position() {
    let mut state = TerminalViewState::new();
    let mode = TermMode::empty();
    handle_left_button_pressed(&mut state, &mode, 35, 50, 0, 0, 1000);
    let cmds = handle_left_button_pressed(&mut state, &mode, 36, 50, 0, 0, 1050);
    assert_eq!(cmds, vec![BackendCommand::SelectStart(SelectionType::Simple, 36, 50)]);
}

#[test]
fn classify_click_cycles_triple_back_to_double() {
    let kind = classify_click(None, 5, 5, 0);
    assert_eq!(kind, ClickKind::Single);
    let mut state = TerminalViewState::new();
    let mode = TermMode::empty();
    for _ in 0..3 {
        handle_left_button_pressed(&mut state, &mode, 5, 5, 0, 0, 100);
    }
    let cmds = handle_left_button_pressed(&mut state, &mode, 5, 5, 0, 0, 150);
    assert_eq!(cmds, vec![BackendCommand::SelectStart(SelectionType::Semantic, 5, 5)]);
}

#[test]
fn scroll_accumulator_no_drift_across_fragments() {
    // Deltas totalling exactly two cell heights emit exactly two lines,
    // however the total is fragmented, and leave no remainder.
    let mut state = TerminalViewState::new();
    let mut emitted = 0i64;
    for y in [-7i64, -13, -20] {
        let cmds = handle_wheel_scrolled(&mut state, ScrollDelta::Pixels { y }, 20);
        for cmd in &cmds {
            match cmd {
                BackendCommand::Scroll(n) => emitted += *n as i64,
                other => panic!("unexpected command {:?}", other),
            }
        }
    }
    assert_eq!(emitted, 2);
    assert_eq!(state.scroll_pixels, 0);
}

#[test]
fn scroll_pixels_keep_remainder() {
    let mut state = TerminalViewState::new();
    let cmds = handle_wheel_scrolled(&mut state, ScrollDelta::Pixels { y: 25 }, 20);
    assert_eq!(cmds, vec![BackendCommand::Scroll(-1)]);
    assert_eq!(state.scroll_pixels, -5);
    let cmds = handle_wheel_scrolled(&mut state, ScrollDelta::Pixels { y: -3 }, 20);
    assert!(cmds.is_empty());
    assert_eq!(state.scroll_pixels, -2);
}

#[test]
fn scroll_lines_round_away_from_zero() {
    let mut state = TerminalViewState::new();
    let cmds = handle_wheel_scrolled(&mut state, ScrollDelta::Lines { milli_lines: 1500 }, 20);
    assert_eq!(cmds, vec![BackendCommand::Scroll(2)]);
    let cmds = handle_wheel_scrolled(&mut state, ScrollDelta::Lines { milli_lines: -1500 }, 20);
    assert_eq!(cmds, vec![BackendCommand::Scroll(-2)]);
    let cmds = handle_wheel_scrolled(&mut state, ScrollDelta::Lines { milli_lines: 1400 }, 20);
    assert_eq!(cmds, vec![BackendCommand::Scroll(1)]);
    assert_eq!(state.scroll_pixels, 0);
}

#[test]
fn selection_drag_sequence_over_cells() {
    // With mouse reporting off, press-drag-release over cells (2,3) to
    // (2,7): a selection start, updates tracking the drag, and no further
    // selection command on release.
    let mut state = TerminalViewState::new();
    let content = make_content();
    let bindings = BindingsLayout::new();
    let mode = content.terminal_mode;
    let cmds = handle_left_button_pressed(&mut state, &mode, 35, 50, 0, 0, 1000);
    assert_eq!(cmds, vec![BackendCommand::SelectStart(SelectionType::Simple, 35, 50)]);
    assert!(state.is_dragged);
    for col in 4..=7u32 {
        let x = col * 10 + 5;
        let cmds = handle_cursor_moved(&mut state, &content, x, 50, 0, 0);
        assert_eq!(cmds, vec![BackendCommand::SelectUpdate(x, 50)]);
    }
    assert_eq!(state.mouse_position_on_grid, GridPoint { line: 2, column: 7 });
    let cmds = handle_button_released(&mut state, &mode, &bindings);
    assert!(cmds.is_empty());
    assert!(!state.is_dragged);
}

#[test]
fn mouse_reporting_mode_reports_press_and_release() {
    let mut state = TerminalViewState::new();
    let mut mode = TermMode::empty();
    mode.mouse_report_click = true;
    let bindings = BindingsLayout::new();
    let cmds = handle_left_button_pressed(&mut state, &mode, 35, 50, 0, 0, 1000);
    assert_eq!(
        cmds,
        vec![BackendCommand::MouseReport(
            MouseButton::LeftButton,
            Modifiers::empty(),
            GridPoint { line: 0, column: 0 },
            true
        )]
    );
    let cmds = handle_button_released(&mut state, &mode, &bindings);
    assert_eq!(
        cmds,
        vec![BackendCommand::MouseReport(
            MouseButton::LeftButton,
            Modifiers::empty(),
            GridPoint { line: 0, column: 0 },
            false
        )]
    );
}

#[test]
fn drag_motion_reports_when_motion_mode_active() {
    let mut state = TerminalViewState::new();
    let mut content = make_content();
    content.terminal_mode.mouse_motion = true;
    state.is_dragged = true;
    let cmds = handle_cursor_moved(&mut state, &content, 15, 25, 0, 0);
    assert_eq!(
        cmds,
        vec![BackendCommand::MouseReport(
            MouseButton::LeftMove,
            Modifiers::empty(),
            GridPoint { line: 1, column: 1 },
            true
        )]
    );
}

#[test]
fn hyperlink_modifier_hovers_on_move() {
    let mut state = TerminalViewState::new();
    state.keyboard_modifiers = Modifiers::command();
    let content = make_content();
    let cmds = handle_cursor_moved(&mut state, &content, 15, 25, 0, 0);
    assert_eq!(
        cmds,
        vec![BackendCommand::ProcessLink(LinkAction::Hover, GridPoint { line: 1, column: 1 })]
    );
}

#[test]
fn utf8_encoding_by_width() {
    assert_eq!(utf8_encode(0x41), vec![0x41]);
    assert_eq!(utf8_encode(0xE9), vec![0xC3, 0xA9]);
    assert_eq!(utf8_encode(0x20AC), vec![0xE2, 0x82, 0xAC]);
    assert_eq!(utf8_encode(0x1F600), vec![0xF0, 0x9F, 0x98, 0x80]);
}

#[test]
fn utf8_invalid_code_point_becomes_replacement() {
    assert_eq!(utf8_encode(0xD800), vec![0xEF, 0xBF, 0xBD]);
    assert_eq!(utf8_encode(0x110000), vec![0xEF, 0xBF, 0xBD]);
}

#[test]
fn unbound_character_forwards_raw_bytes() {
    let mut state = TerminalViewState::new();
    let bindings = BindingsLayout::new();
    let mode = TermMode::empty();
    let outcome = handle_keyboard_event(
        &mut state,
        &mode,
        &bindings,
        KeyboardEvent::KeyPressed {
            key: Key::Character { ch: 0x61, bytes: vec![0x61] },
            modifiers: Modifiers::empty(),
        },
    );
    assert_eq!(outcome, KeyboardOutcome::Command(BackendCommand::Write(vec![0x61])));
}

#[test]
fn unbound_character_with_alt_is_ignored() {
    let mut state = TerminalViewState::new();
    let bindings = BindingsLayout::new();
    let mode = TermMode::empty();
    let outcome = handle_keyboard_event(
        &mut state,
        &mode,
        &bindings,
        KeyboardEvent::KeyPressed {
            key: Key::Character { ch: 0x61, bytes: vec![0x61] },
            modifiers: Modifiers { shift: false, control: false, alt: true, logo: false },
        },
    );
    assert_eq!(outcome, KeyboardOutcome::Ignored);
}

#[test]
fn copy_and_paste_bindings_request_clipboard() {
    let mut state = TerminalViewState::new();
    let bindings = BindingsLayout::new();
    let mode = TermMode::empty();
    let ctrl_shift = Modifiers { shift: true, control: true, alt: false, logo: false };
    let outcome = handle_keyboard_event(
        &mut state,
        &mode,
        &bindings,
        KeyboardEvent::KeyPressed {
            key: Key::Character { ch: 0x63, bytes: vec![0x63] },
            modifiers: ctrl_shift,
        },
    );
    assert_eq!(outcome, KeyboardOutcome::Clipboard(ClipboardOp::Copy));
    let outcome = handle_keyboard_event(
        &mut state,
        &mode,
        &bindings,
        KeyboardEvent::KeyPressed {
            key: Key::Character { ch: 0x76, bytes: vec![0x76] },
            modifiers: ctrl_shift,
        },
    );
    assert_eq!(outcome, KeyboardOutcome::Clipboard(ClipboardOp::Paste));
}

#[test]
fn uppercase_character_lowers_before_lookup() {
    let mut state = TerminalViewState::new();
    let bindings = BindingsLayout::new();
    let mode = TermMode::empty();
    let ctrl_shift = Modifiers { shift: true, control: true, alt: false, logo: false };
    let outcome = handle_keyboard_event(
        &mut state,
        &mode,
        &bindings,
        KeyboardEvent::KeyPressed {
            key: Key::Character { ch: 0x43, bytes: vec![0x43] },
            modifiers: ctrl_shift,
        },
    );
    assert_eq!(outcome, KeyboardOutcome::Clipboard(ClipboardOp::Copy));
}

#[test]
fn named_key_resolves_escape_sequence() {
    let mut state = TerminalViewState::new();
    let bindings = BindingsLayout::new();
    let mode = TermMode::empty();
    let outcome = handle_keyboard_event(
        &mut state,
        &mode,
        &bindings,
        KeyboardEvent::KeyPressed {
            key: Key::Named(KeyCode::ArrowUp),
            modifiers: Modifiers::empty(),
        },
    );
    assert_eq!(
        outcome,
        KeyboardOutcome::Command(BackendCommand::Write(vec![0x1b, 0x5b, 0x41]))
    );
}

#[test]
fn modifier_change_stores_and_refreshes_link_state() {
    let mut state = TerminalViewState::new();
    let bindings = BindingsLayout::new();
    let mode = TermMode::empty();
    let outcome = handle_keyboard_event(
        &mut state,
        &mode,
        &bindings,
        KeyboardEvent::ModifiersChanged(Modifiers::command()),
    );
    assert_eq!(state.keyboard_modifiers, Modifiers::command());
    assert_eq!(
        outcome,
        KeyboardOutcome::Command(BackendCommand::ProcessLink(
            LinkAction::Hover,
            GridPoint { line: 0, column: 0 }
        ))
    );
    let outcome = handle_keyboard_event(
        &mut state,
        &mode,
        &bindings,
        KeyboardEvent::ModifiersChanged(Modifiers::empty()),
    );
    assert_eq!(
        outcome,
        KeyboardOutcome::Command(BackendCommand::ProcessLink(
            LinkAction::Clear,
            GridPoint { line: 0, column: 0 }
        ))
    );
}

#[test]
fn on_event_emits_resize_before_anything_else() {
    let mut state = TerminalViewState::new();
    let content = make_content();
    let bindings = BindingsLayout::new();
    let layout = LayoutRect { x: 0, y: 0, width: 100, height: 50 };
    let out = on_event(
        &mut state,
        Some(&content),
        &bindings,
        layout,
        Some((15, 25)),
        1000,
        InputEvent::Mouse(MouseEvent::CursorMoved),
    );
    assert_eq!(out.commands[0], BackendCommand::Resize { width: 100, height: 50 });
    assert_eq!(state.size_width, 100);
    assert_eq!(state.size_height, 50);
    // the same layout again produces no further resize
    let out = on_event(
        &mut state,
        Some(&content),
        &bindings,
        layout,
        Some((15, 25)),
        1000,
        InputEvent::Other,
    );
    assert!(out.commands.is_empty());
}

#[test]
fn on_event_unfocused_drops_keyboard_and_clears_modifiers() {
    let mut state = TerminalViewState::new();
    state.is_focused = false;
    state.keyboard_modifiers = Modifiers::command();
    state.size_width = 100;
    state.size_height = 50;
    let content = make_content();
    let bindings = BindingsLayout::new();
    let layout = LayoutRect { x: 0, y: 0, width: 100, height: 50 };
    let out = on_event(
        &mut state,
        Some(&content),
        &bindings,
        layout,
        None,
        1000,
        InputEvent::Keyboard(KeyboardEvent::KeyPressed {
            key: Key::Character { ch: 0x61, bytes: vec![0x61] },
            modifiers: Modifiers::empty(),
        }),
    );
    assert!(out.commands.is_empty());
    assert!(out.clipboard.is_none());
    assert_eq!(state.keyboard_modifiers, Modifiers::empty());
}

#[test]
fn on_event_ignores_mouse_outside_layout() {
    let mut state = TerminalViewState::new();
    state.size_width = 100;
    state.size_height = 50;
    let content = make_content();
    let bindings = BindingsLayout::new();
    let layout = LayoutRect { x: 10, y: 10, width: 100, height: 50 };
    let out = on_event(
        &mut state,
        Some(&content),
        &bindings,
        layout,
        Some((5, 5)),
        1000,
        InputEvent::Mouse(MouseEvent::LeftPressed),
    );
    assert!(out.commands.is_empty());
    assert!(!state.is_dragged);
}

#[test]
fn on_event_press_inside_layout_starts_selection() {
    let mut state = TerminalViewState::new();
    state.size_width = 100;
    state.size_height = 50;
    let content = make_content();
    let bindings = BindingsLayout::new();
    let layout = LayoutRect { x: 10, y: 10, width: 100, height: 50 };
    let out = on_event(
        &mut state,
        Some(&content),
        &bindings,
        layout,
        Some((45, 55)),
        1000,
        InputEvent::Mouse(MouseEvent::LeftPressed),
    );
    // the selection offset is relative to the pane's layout origin
    assert_eq!(
        out.commands,
        vec![BackendCommand::SelectStart(SelectionType::Simple, 35, 45)]
    );
    assert!(state.is_dragged);
}

#[test]
fn on_event_without_backend_only_tracks_focus_gate() {
    let mut state = TerminalViewState::new();
    let bindings = BindingsLayout::new();
    let layout = LayoutRect { x: 0, y: 0, width: 100, height: 50 };
    let out = on_event(
        &mut state,
        None,
        &bindings,
        layout,
        Some((15, 25)),
        1000,
        InputEvent::Mouse(MouseEvent::LeftPressed),
    );
    assert!(out.commands.is_empty());
    assert_eq!(state.size_width, 0);
}
