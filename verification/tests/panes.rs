use frostty::actions::Action;
use frostty::input::Key;
use frostty::multiplexer::{
    find_pane, handle_hotkey, pane_regions, tree_resize, tree_split, Axis, Direction, DragEvent,
    DropTarget, Effect, Msg, Multiplexer, Pane, PaneNode, Region, Side,
};

fn region(width: u32, height: u32) -> Region {
    Region { x: 0, y: 0, width, height }
}

fn leaf_ids(m: &Multiplexer) -> Vec<u64> {
    pane_regions(&m.root, region(1000, 1000)).iter().map(|(id, _)| *id).collect()
}

fn two_pane() -> Multiplexer {
    let mut m = Multiplexer::new(None);
    m.update(Msg::SplitFocused);
    m
}

#[test]
fn new_multiplexer_has_one_focused_pane() {
    let m = Multiplexer::new(None);
    assert_eq!(leaf_ids(&m), vec![0]);
    assert_eq!(m.focus, Some(0));
    let pane = find_pane(&m.root, 0).unwrap();
    assert!(!pane.is_pinned);
    assert!(!pane.bell);
}

#[test]
fn split_creates_session_and_moves_focus() {
    let mut m = Multiplexer::new(None);
    let effects = m.update(Msg::SplitFocused);
    assert_eq!(effects, vec![Effect::CreateSession(1), Effect::FocusWidget(1)]);
    assert_eq!(m.focus, Some(1));
    assert_eq!(leaf_ids(&m), vec![0, 1]);
}

#[test]
fn splitting_twice_gives_three_leaves() {
    let mut m = Multiplexer::new(None);
    m.update(Msg::SplitFocused);
    m.update(Msg::SplitFocused);
    assert_eq!(leaf_ids(&m).len(), 3);
    assert_eq!(m.focus, Some(2));
}

#[test]
fn vertical_splits_and_resize_give_exact_regions() {
    // Split the root pane vertically twice, then resize the inner split to
    // three tenths: its regions reflect a 30/70 division exactly.
    let root = PaneNode::Leaf(Pane::new(0));
    let (root, found) = tree_split(root, 0, Axis::Vertical, Pane::new(1), 0);
    assert!(found);
    let (root, found) = tree_split(root, 1, Axis::Vertical, Pane::new(2), 1);
    assert!(found);
    let regions = pane_regions(&root, region(1000, 600));
    assert_eq!(regions.len(), 3);
    let root = tree_resize(root, 1, 300);
    let regions = pane_regions(&root, region(1000, 600));
    assert_eq!(regions[0], (0, Region { x: 0, y: 0, width: 500, height: 600 }));
    assert_eq!(regions[1], (1, Region { x: 500, y: 0, width: 150, height: 600 }));
    assert_eq!(regions[2], (2, Region { x: 650, y: 0, width: 350, height: 600 }));
}

#[test]
fn split_axis_keeps_panes_roughly_square() {
    // The first split of a wide root pane is vertical (side by side); the
    // following split of the now-taller half is horizontal (stacked).
    let mut m = Multiplexer::new(None);
    m.update(Msg::SplitFocused);
    let regions = pane_regions(&m.root, region(800, 600));
    assert_eq!(regions[0].1, Region { x: 0, y: 0, width: 400, height: 600 });
    assert_eq!(regions[1].1, Region { x: 400, y: 0, width: 400, height: 600 });
    m.update(Msg::SplitFocused);
    let regions = pane_regions(&m.root, region(800, 600));
    assert_eq!(regions[1].1, Region { x: 400, y: 0, width: 400, height: 300 });
    assert_eq!(regions[2].1, Region { x: 400, y: 300, width: 400, height: 300 });
}

#[test]
fn resize_message_clamps_ratio() {
    let mut m = two_pane();
    let effects = m.update(Msg::Resized { split: 0, ratio: 5000 });
    assert!(effects.is_empty());
    let regions = pane_regions(&m.root, region(1000, 1000));
    // clamped to 999 thousandths
    assert_eq!(regions[0].1.width, 999);
}

#[test]
fn closing_non_last_pane_promotes_sibling() {
    let mut m = two_pane();
    let effects = m.update(Msg::Close(1));
    assert_eq!(effects, vec![Effect::DestroySession(1), Effect::FocusWidget(0)]);
    assert_eq!(leaf_ids(&m), vec![0]);
    assert_eq!(m.focus, Some(0));
}

#[test]
fn closing_last_pane_forwards_window_close() {
    let mut m = Multiplexer::new(None);
    let effects = m.update(Msg::Close(0));
    assert_eq!(effects, vec![Effect::CloseWindow]);
    // the tree is untouched
    assert_eq!(leaf_ids(&m), vec![0]);
    assert_eq!(m.focus, Some(0));
}

#[test]
fn closing_unknown_pane_is_a_no_op() {
    let mut m = two_pane();
    let effects = m.update(Msg::Close(7));
    assert!(effects.is_empty());
    assert_eq!(leaf_ids(&m), vec![0, 1]);
}

#[test]
fn close_focused_closes_unpinned_pane() {
    let mut m = two_pane();
    let effects = m.update(Msg::CloseFocused);
    assert_eq!(effects, vec![Effect::DestroySession(1), Effect::FocusWidget(0)]);
    assert_eq!(leaf_ids(&m), vec![0]);
}

#[test]
fn close_focused_on_pinned_pane_changes_nothing() {
    let pinned = Pane { id: 0, is_pinned: true, bell: false };
    let mut m = Multiplexer {
        root: PaneNode::Split {
            axis: Axis::Vertical,
            ratio: 500,
            split_id: 0,
            first: Box::new(PaneNode::Leaf(pinned)),
            second: Box::new(PaneNode::Leaf(Pane::new(1))),
        },
        focus: Some(0),
        panes_created: 2,
        splits_created: 1,
        bell: None,
        bell_len: None,
    };
    let effects = m.update(Msg::CloseFocused);
    assert!(effects.is_empty());
    assert_eq!(m.focus, Some(0));
    assert_eq!(leaf_ids(&m), vec![0, 1]);
    assert!(find_pane(&m.root, 0).unwrap().is_pinned);
}

#[test]
fn bell_sets_flag_and_runs_notifier_once() {
    // A bell signal with a configured 500 ms duration marks the pane at
    // once; repeated signals while active do not re-invoke the notifier;
    // the timeout clears the flag.
    let mut m = Multiplexer::new(Some(500));
    let effects = m.update(Msg::BellOn(0));
    assert_eq!(effects, vec![Effect::RunNotifier]);
    assert!(find_pane(&m.root, 0).unwrap().bell);
    assert_eq!(m.bell, Some(0));
    let effects = m.update(Msg::BellOn(0));
    assert!(effects.is_empty());
    let effects = m.update(Msg::BellTimeout);
    assert!(effects.is_empty());
    assert!(!find_pane(&m.root, 0).unwrap().bell);
    assert_eq!(m.bell, None);
}

#[test]
fn bell_disabled_without_duration() {
    let mut m = Multiplexer::new(None);
    assert!(m.update(Msg::BellOn(0)).is_empty());
    assert!(!find_pane(&m.root, 0).unwrap().bell);
    let mut m = Multiplexer::new(Some(0));
    assert!(m.update(Msg::BellOn(0)).is_empty());
    assert!(!find_pane(&m.root, 0).unwrap().bell);
}

#[test]
fn clicking_a_pane_focuses_it() {
    let mut m = two_pane();
    let effects = m.update(Msg::Clicked(0));
    assert_eq!(effects, vec![Effect::FocusWidget(0)]);
    assert_eq!(m.focus, Some(0));
    let effects = m.update(Msg::Clicked(9));
    assert!(effects.is_empty());
    assert_eq!(m.focus, Some(0));
}

#[test]
fn focus_moves_to_geometric_neighbour() {
    let mut m = two_pane();
    // pane 0 sits left of pane 1 after a vertical split
    m.update(Msg::Clicked(0));
    let effects = m.update(Msg::FocusAdjacent(Direction::Right));
    assert_eq!(effects, vec![Effect::FocusWidget(1)]);
    assert_eq!(m.focus, Some(1));
    let effects = m.update(Msg::FocusAdjacent(Direction::Right));
    assert!(effects.is_empty());
    assert_eq!(m.focus, Some(1));
    let effects = m.update(Msg::FocusAdjacent(Direction::Left));
    assert_eq!(effects, vec![Effect::FocusWidget(0)]);
}

#[test]
fn drop_on_center_swaps_panes() {
    let mut m = two_pane();
    let effects = m.update(Msg::Dragged(DragEvent::Dropped {
        pane: 0,
        target: DropTarget::Center(1),
    }));
    assert!(effects.is_empty());
    assert_eq!(leaf_ids(&m), vec![1, 0]);
}

#[test]
fn drop_on_edge_moves_pane_beside_target() {
    let mut m = Multiplexer::new(None);
    m.update(Msg::SplitFocused);
    m.update(Msg::SplitFocused);
    assert_eq!(leaf_ids(&m).len(), 3);
    // move pane 0 to the right edge of pane 2: it ends up right after it
    let effects = m.update(Msg::Dragged(DragEvent::Dropped {
        pane: 0,
        target: DropTarget::Edge(2, Side::Right),
    }));
    assert!(effects.is_empty());
    let ids = leaf_ids(&m);
    assert_eq!(ids.len(), 3);
    let pos0 = ids.iter().position(|&id| id == 0).unwrap();
    let pos2 = ids.iter().position(|&id| id == 2).unwrap();
    assert_eq!(pos0, pos2 + 1);
}

#[test]
fn drop_on_left_edge_moves_pane_before_target() {
    let mut m = two_pane();
    let effects = m.update(Msg::Dragged(DragEvent::Dropped {
        pane: 1,
        target: DropTarget::Edge(0, Side::Left),
    }));
    assert!(effects.is_empty());
    assert_eq!(leaf_ids(&m), vec![1, 0]);
}

#[test]
fn drag_without_valid_target_is_a_no_op() {
    let mut m = two_pane();
    assert!(m.update(Msg::Dragged(DragEvent::Canceled)).is_empty());
    assert_eq!(leaf_ids(&m), vec![0, 1]);
    let effects = m.update(Msg::Dragged(DragEvent::Dropped {
        pane: 0,
        target: DropTarget::Center(0),
    }));
    assert!(effects.is_empty());
    assert_eq!(leaf_ids(&m), vec![0, 1]);
    let effects = m.update(Msg::Dragged(DragEvent::Dropped {
        pane: 0,
        target: DropTarget::Center(9),
    }));
    assert!(effects.is_empty());
    assert_eq!(leaf_ids(&m), vec![0, 1]);
}

#[test]
fn session_shutdown_closes_owning_pane() {
    let mut m = two_pane();
    // focus pane 1, but shut down session 0: the owning pane closes
    let effects = m.update(Msg::SessionEvent(0, Action::Shutdown));
    assert_eq!(effects, vec![Effect::DestroySession(0), Effect::FocusWidget(1)]);
    assert_eq!(leaf_ids(&m), vec![1]);
}

#[test]
fn session_bell_rings_owning_pane() {
    let mut m = Multiplexer::new(Some(500));
    m.update(Msg::SplitFocused);
    let effects = m.update(Msg::SessionEvent(0, Action::Bell));
    assert_eq!(effects, vec![Effect::RunNotifier]);
    assert!(find_pane(&m.root, 0).unwrap().bell);
    assert!(!find_pane(&m.root, 1).unwrap().bell);
}

#[test]
fn session_redraw_and_title_change_are_quiet() {
    let mut m = two_pane();
    assert!(m.update(Msg::SessionEvent(0, Action::Redraw)).is_empty());
    assert!(m
        .update(Msg::SessionEvent(0, Action::ChangeTitle(String::from("sh"))))
        .is_empty());
    assert!(m.update(Msg::SessionEvent(0, Action::Ignore)).is_empty());
    assert_eq!(leaf_ids(&m), vec![0, 1]);
}

#[test]
fn closing_bell_pane_forgets_pending_bell() {
    let mut m = Multiplexer::new(Some(500));
    m.update(Msg::SplitFocused);
    m.update(Msg::BellOn(1));
    assert_eq!(m.bell, Some(1));
    m.update(Msg::Close(1));
    assert_eq!(m.bell, None);
}

#[test]
fn hotkeys_map_to_pane_messages() {
    assert_eq!(
        handle_hotkey(&Key::Character { ch: 0x71, bytes: vec![0x71] }),
        Some(Msg::CloseFocused)
    );
    assert_eq!(
        handle_hotkey(&Key::Character { ch: 0x6E, bytes: vec![0x6E] }),
        Some(Msg::SplitFocused)
    );
    assert_eq!(
        handle_hotkey(&Key::Named(frostty::bindings::KeyCode::ArrowUp)),
        Some(Msg::FocusAdjacent(Direction::Up))
    );
    assert_eq!(
        handle_hotkey(&Key::Named(frostty::bindings::KeyCode::ArrowDown)),
        Some(Msg::FocusAdjacent(Direction::Down))
    );
    assert_eq!(handle_hotkey(&Key::Character { ch: 0x61, bytes: vec![0x61] }), None);
    assert_eq!(handle_hotkey(&Key::Named(frostty::bindings::KeyCode::Enter)), None);
}
