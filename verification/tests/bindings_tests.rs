use frostty::bindings::{
    BindingAction, BindingsLayout, InputKind, KeyCode, Modifiers, MouseButton,
};
use frostty::modes::TermMode;

#[test]
fn arrow_key_resolves_csi_sequence_by_default() {
    let bindings = BindingsLayout::new();
    let action = bindings.get_action(
        InputKind::KeyCode(KeyCode::ArrowUp),
        Modifiers::empty(),
        &TermMode::empty(),
    );
    assert_eq!(action, BindingAction::Esc(vec![0x1b, 0x5b, 0x41]));
}

#[test]
fn mode_gated_binding_takes_precedence() {
    // With application-cursor mode set, the gated SS3 entry wins over the
    // mode-independent CSI entry.
    let bindings = BindingsLayout::new();
    let mut mode = TermMode::empty();
    mode.app_cursor = true;
    let action = bindings.get_action(
        InputKind::KeyCode(KeyCode::ArrowUp),
        Modifiers::empty(),
        &mode,
    );
    assert_eq!(action, BindingAction::Esc(vec![0x1b, 0x4f, 0x41]));
}

#[test]
fn unrelated_mode_flags_leave_plain_bindings_active() {
    let bindings = BindingsLayout::new();
    let mut mode = TermMode::empty();
    mode.bracketed_paste = true;
    mode.alt_screen = true;
    let action = bindings.get_action(
        InputKind::KeyCode(KeyCode::ArrowLeft),
        Modifiers::empty(),
        &mode,
    );
    assert_eq!(action, BindingAction::Esc(vec![0x1b, 0x5b, 0x44]));
}

#[test]
fn exact_modifier_set_is_required() {
    let bindings = BindingsLayout::new();
    let ctrl_shift_alt = Modifiers { shift: true, control: true, alt: true, logo: false };
    let action = bindings.get_action(InputKind::Char(0x63), ctrl_shift_alt, &TermMode::empty());
    assert_eq!(action, BindingAction::Ignore);
    let ctrl_shift = Modifiers { shift: true, control: true, alt: false, logo: false };
    let action = bindings.get_action(InputKind::Char(0x63), ctrl_shift, &TermMode::empty());
    assert_eq!(action, BindingAction::Copy);
}

#[test]
fn command_click_opens_links() {
    let bindings = BindingsLayout::new();
    let action = bindings.get_action(
        InputKind::Mouse(MouseButton::Left),
        Modifiers::command(),
        &TermMode::empty(),
    );
    assert_eq!(action, BindingAction::LinkOpen);
    let action = bindings.get_action(
        InputKind::Mouse(MouseButton::Left),
        Modifiers::empty(),
        &TermMode::empty(),
    );
    assert_eq!(action, BindingAction::Ignore);
}

#[test]
fn unmatched_input_resolves_to_ignore() {
    let bindings = BindingsLayout::new();
    let action = bindings.get_action(
        InputKind::Char(0x7A),
        Modifiers::empty(),
        &TermMode::empty(),
    );
    assert_eq!(action, BindingAction::Ignore);
    let action = bindings.get_action(
        InputKind::Mouse(MouseButton::Middle),
        Modifiers::empty(),
        &TermMode::empty(),
    );
    assert_eq!(action, BindingAction::Ignore);
}

#[test]
fn named_editing_keys_resolve() {
    let bindings = BindingsLayout::new();
    let cases: Vec<(KeyCode, Vec<u8>)> = vec![
        (KeyCode::Enter, vec![0x0d]),
        (KeyCode::Escape, vec![0x1b]),
        (KeyCode::Backspace, vec![0x7f]),
        (KeyCode::Tab, vec![0x09]),
        (KeyCode::PageUp, vec![0x1b, 0x5b, 0x35, 0x7e]),
        (KeyCode::PageDown, vec![0x1b, 0x5b, 0x36, 0x7e]),
        (KeyCode::Insert, vec![0x1b, 0x5b, 0x32, 0x7e]),
        (KeyCode::Delete, vec![0x1b, 0x5b, 0x33, 0x7e]),
    ];
    for (code, seq) in cases {
        let action = bindings.get_action(
            InputKind::KeyCode(code),
            Modifiers::empty(),
            &TermMode::empty(),
        );
        assert_eq!(action, BindingAction::Esc(seq));
    }
}
