//! Per-pane input state machine: owns the non-idempotent interaction state
//! (drag, click counting, fractional scroll accumulation, modifiers, last
//! layout size, last mouse grid position) and turns raw GUI events into
//! backend commands.

use vstd::prelude::*;
use crate::bindings::{
    ActionView,
    Binding,
    BindingAction,
    BindingsLayout,
    InputKind,
    KeyCode,
    Modifiers,
    spec_get_action,
};
use crate::commands::{
    BackendCommand,
    CommandView,
    LinkAction,
    MouseButton,
    SelectionType,
    command_views,
};
use crate::content::RenderableContent;
use crate::geometry::{GridPoint, selection_point, spec_selection_point, spec_in_rect, in_rect};
use crate::modes::TermMode;

verus! {

/// Two presses further apart than this many milliseconds do not count as a
/// multi-click.
pub const CLICK_INTERVAL_MS: u64 = 300;

/// Scroll accumulator magnitudes and cell heights stay below this bound,
/// which keeps the accumulator arithmetic far from overflow.
pub const MAX_CELL_HEIGHT: u32 = 10000;

/// Largest pixel wheel delta accepted in one event.
pub const MAX_SCROLL_DELTA: i64 = 1000000000;

/// Click multiplicity, which picks the selection granularity.
#[derive(Clone, Copy, Debug, PartialEq, Eq, Structural)]
pub enum ClickKind {
    Single,
    Double,
    Triple,
}

/// The last press: where, when, and its multiplicity.
#[derive(Clone, Copy, Debug, PartialEq, Eq, Structural)]
pub struct ClickState {
    pub x: u32,
    pub y: u32,
    pub time_ms: u64,
    pub kind: ClickKind,
}

/// The multiplicity after one more press: a press at the same pixel
/// position within the click interval advances single to double to triple
/// (and triple back to double); anything else restarts at single.
pub open spec fn spec_click_kind(last: Option<ClickState>, x: u32, y: u32, now_ms: u64) -> ClickKind {
    match last {
        Some(l) => if l.x == x && l.y == y && l.time_ms <= now_ms < l.time_ms
            + CLICK_INTERVAL_MS {
            match l.kind {
                ClickKind::Single => ClickKind::Double,
                ClickKind::Double => ClickKind::Triple,
                ClickKind::Triple => ClickKind::Double,
            }
        } else {
            ClickKind::Single
        },
        None => ClickKind::Single,
    }
}

/// The click record a press leaves behind.
pub open spec fn spec_press_record(last: Option<ClickState>, x: u32, y: u32, now_ms: u64) -> ClickState {
    ClickState { x, y, time_ms: now_ms, kind: spec_click_kind(last, x, y, now_ms) }
}

pub fn classify_click(last: Option<ClickState>, x: u32, y: u32, now_ms: u64) -> (r: ClickKind)
    ensures
        r == spec_click_kind(last, x, y, now_ms),
{
    match last {
        Some(l) => {
            if l.x == x && l.y == y && l.time_ms <= now_ms && now_ms - l.time_ms
                < CLICK_INTERVAL_MS {
                match l.kind {
                    ClickKind::Single => ClickKind::Double,
                    ClickKind::Double => ClickKind::Triple,
                    ClickKind::Triple => ClickKind::Double,
                }
            } else {
                ClickKind::Single
            }
        },
        None => ClickKind::Single,
    }
}

/// The selection granularity a click multiplicity maps to.
pub open spec fn spec_selection_type(kind: ClickKind) -> SelectionType {
    match kind {
        ClickKind::Single => SelectionType::Simple,
        ClickKind::Double => SelectionType::Semantic,
        ClickKind::Triple => SelectionType::Lines,
    }
}

/// Click classification across a run of presses: two presses at the same
/// pixel position within the click interval classify as a double click, a
/// third as a triple, and a press at or past the interval restarts at
/// single.
pub proof fn lemma_click_classification(x: u32, y: u32, t1: u64, t2: u64, t3: u64, t4: u64)
    requires
        t1 <= t2 < t1 + CLICK_INTERVAL_MS,
        t2 <= t3 < t2 + CLICK_INTERVAL_MS,
        t3 + CLICK_INTERVAL_MS <= t4,
    ensures
        ({
            let c1 = spec_press_record(None, x, y, t1);
            let c2 = spec_press_record(Some(c1), x, y, t2);
            let c3 = spec_press_record(Some(c2), x, y, t3);
            &&& c1.kind == ClickKind::Single
            &&& c2.kind == ClickKind::Double
            &&& c3.kind == ClickKind::Triple
            &&& spec_click_kind(Some(c3), x, y, t4) == ClickKind::Single
        }),
{
}

/// Truncating division (rounding toward zero), as the accumulator uses it.
pub open spec fn trunc_div(a: int, b: int) -> int {
    if a >= 0 {
        a / b
    } else {
        -((-a) / b)
    }
}

/// The remainder truncating division leaves; it has the sign of `a`.
pub open spec fn trunc_rem(a: int, b: int) -> int {
    a - b * trunc_div(a, b)
}

proof fn lemma_trunc_div_rem(a: int, b: int)
    requires
        b > 0,
    ensures
        b * trunc_div(a, b) + trunc_rem(a, b) == a,
        -b < trunc_rem(a, b) < b,
        a >= 0 ==> trunc_rem(a, b) >= 0 && trunc_div(a, b) >= 0,
        a <= 0 ==> trunc_rem(a, b) <= 0 && trunc_div(a, b) <= 0,
{
    if a >= 0 {
        assert(b * (a / b) + a % b == a) by (nonlinear_arith)
            requires
                b > 0,
                a >= 0,
        ;
        assert(0 <= a % b < b) by (nonlinear_arith)
            requires
                b > 0,
                a >= 0,
        ;
        assert(a / b >= 0) by (nonlinear_arith)
            requires
                b > 0,
                a >= 0,
        ;
    } else {
        let m = -a;
        assert(b * (m / b) + m % b == m) by (nonlinear_arith)
            requires
                b > 0,
                m >= 0,
        ;
        assert(0 <= m % b < b) by (nonlinear_arith)
            requires
                b > 0,
                m >= 0,
        ;
        assert(m / b >= 0) by (nonlinear_arith)
            requires
                b > 0,
                m >= 0,
        ;
        let q = m / b;
        assert(b * (-q) == -(b * q)) by (nonlinear_arith);
    }
}

/// One pixel-delta step of the accumulator: the delta is subtracted, whole
/// cell heights are emitted as lines, the remainder stays.
pub open spec fn scroll_step_acc(acc: int, y: int, cell_height: int) -> int {
    trunc_rem(acc - y, cell_height)
}

pub open spec fn scroll_step_lines(acc: int, y: int, cell_height: int) -> int {
    trunc_div(acc - y, cell_height)
}

/// The accumulator after a run of pixel deltas, starting from zero.
pub open spec fn scroll_acc_after(deltas: Seq<int>, cell_height: int) -> int
    decreases deltas.len(),
{
    if deltas.len() == 0 {
        0
    } else {
        scroll_step_acc(scroll_acc_after(deltas.drop_last(), cell_height), deltas.last(), cell_height)
    }
}

/// The total line count emitted over a run of pixel deltas, starting from
/// an empty accumulator.
pub open spec fn scroll_lines_after(deltas: Seq<int>, cell_height: int) -> int
    decreases deltas.len(),
{
    if deltas.len() == 0 {
        0
    } else {
        scroll_lines_after(deltas.drop_last(), cell_height) + scroll_step_lines(
            scroll_acc_after(deltas.drop_last(), cell_height),
            deltas.last(),
            cell_height,
        )
    }
}

pub open spec fn seq_sum(deltas: Seq<int>) -> int
    decreases deltas.len(),
{
    if deltas.len() == 0 {
        0
    } else {
        seq_sum(deltas.drop_last()) + deltas.last()
    }
}

/// Accounting invariant of the accumulator: emitted lines times the cell
/// height, plus what remains in the accumulator, equals the negated sum of
/// the deltas, and the remainder stays strictly below one cell height.
proof fn lemma_scroll_accounting(deltas: Seq<int>, cell_height: int)
    requires
        cell_height > 0,
    ensures
        cell_height * scroll_lines_after(deltas, cell_height) + scroll_acc_after(
            deltas,
            cell_height,
        ) == -seq_sum(deltas),
        -cell_height < scroll_acc_after(deltas, cell_height) < cell_height,
    decreases deltas.len(),
{
    if deltas.len() == 0 {
    } else {
        let prefix = deltas.drop_last();
        let y = deltas.last();
        lemma_scroll_accounting(prefix, cell_height);
        let acc = scroll_acc_after(prefix, cell_height);
        lemma_trunc_div_rem(acc - y, cell_height);
        let q = trunc_div(acc - y, cell_height);
        let lines_before = scroll_lines_after(prefix, cell_height);
        assert(cell_height * (lines_before + q) == cell_height * lines_before + cell_height * q)
            by (nonlinear_arith)
        ;
    }
}

/// No drift: a run of pixel deltas whose total equals exactly `n` cell
/// heights (scrolling is opposite in sign to the deltas) emits exactly `n`
/// lines overall and leaves the accumulator empty, however the total is
/// fragmented across events.
pub proof fn lemma_scroll_no_drift(deltas: Seq<int>, cell_height: int, n: int)
    requires
        cell_height > 0,
        seq_sum(deltas) == -(n * cell_height),
    ensures
        scroll_lines_after(deltas, cell_height) == n,
        scroll_acc_after(deltas, cell_height) == 0,
{
    lemma_scroll_accounting(deltas, cell_height);
    let lines = scroll_lines_after(deltas, cell_height);
    let acc = scroll_acc_after(deltas, cell_height);
    assert(cell_height * lines + acc == n * cell_height);
    assert(acc == cell_height * (n - lines)) by (nonlinear_arith)
        requires
            cell_height * lines + acc == n * cell_height,
    ;
    assert(lines == n && acc == 0) by (nonlinear_arith)
        requires
            acc == cell_height * (n - lines),
            -cell_height < acc < cell_height,
            cell_height > 0,
    ;
}

/// The mutable interaction state of one pane, persisting across frames.
#[derive(Clone, Copy, Debug, PartialEq)]
pub struct TerminalViewState {
    pub is_focused: bool,
    pub is_dragged: bool,
    pub last_click: Option<ClickState>,
    /// Fractional pixel scroll left over from wheel events, in pixels.
    pub scroll_pixels: i64,
    pub keyboard_modifiers: Modifiers,
    pub size_width: u32,
    pub size_height: u32,
    pub mouse_position_on_grid: GridPoint,
}

impl TerminalViewState {
    pub open spec fn spec_new() -> TerminalViewState {
        TerminalViewState {
            is_focused: true,
            is_dragged: false,
            last_click: None,
            scroll_pixels: 0,
            keyboard_modifiers: Modifiers::spec_empty(),
            size_width: 0,
            size_height: 0,
            mouse_position_on_grid: GridPoint { line: 0, column: 0 },
        }
    }

    /// The scroll accumulator stays strictly below one maximal cell height
    /// in magnitude.
    pub open spec fn scroll_wf(self) -> bool {
        -(MAX_CELL_HEIGHT as int) < self.scroll_pixels < MAX_CELL_HEIGHT as int
    }

    pub fn new() -> (r: TerminalViewState)
        ensures
            r == TerminalViewState::spec_new(),
    {
        TerminalViewState {
            is_focused: true,
            is_dragged: false,
            last_click: None,
            scroll_pixels: 0,
            keyboard_modifiers: Modifiers::empty(),
            size_width: 0,
            size_height: 0,
            mouse_position_on_grid: GridPoint { line: 0, column: 0 },
        }
    }

    pub fn is_focused(&self) -> (r: bool)
        ensures
            r == self.is_focused,
    {
        self.is_focused
    }

    pub fn focus(&mut self)
        ensures
            *final(self) == (TerminalViewState { is_focused: true, ..*old(self) }),
    {
        self.is_focused = true;
    }

    pub fn unfocus(&mut self)
        ensures
            *final(self) == (TerminalViewState { is_focused: false, ..*old(self) }),
    {
        self.is_focused = false;
    }
}

impl Default for TerminalViewState {
    fn default() -> (r: TerminalViewState)
        ensures
            r == TerminalViewState::spec_new(),
    {
        TerminalViewState::new()
    }
}

/// A wheel event: whole-line deltas arrive in thousandths of a line, pixel
/// deltas in pixels.
#[derive(Clone, Copy, Debug, PartialEq, Eq, Structural)]
pub enum ScrollDelta {
    Lines { milli_lines: i64 },
    Pixels { y: i64 },
}

pub open spec fn delta_bounded(delta: ScrollDelta) -> bool {
    match delta {
        ScrollDelta::Lines { milli_lines } => -MAX_SCROLL_DELTA <= milli_lines
            <= MAX_SCROLL_DELTA,
        ScrollDelta::Pixels { y } => -MAX_SCROLL_DELTA <= y <= MAX_SCROLL_DELTA,
    }
}

/// A line delta in thousandths, rounded to the nearest whole line count
/// with ties away from zero, keeping the sign.
pub open spec fn spec_round_lines(milli: int) -> int {
    if milli >= 0 {
        (milli + 500) / 1000
    } else {
        -(((-milli) + 500) / 1000)
    }
}

/// What a wheel event does: a line delta becomes one scroll command
/// directly; a pixel delta feeds the accumulator, which emits whole lines
/// once its magnitude reaches one cell height and keeps the remainder.
pub open spec fn spec_wheel_scrolled(state: TerminalViewState, delta: ScrollDelta, cell_height: u32) -> (
    TerminalViewState,
    Seq<CommandView>,
) {
    match delta {
        ScrollDelta::Lines { milli_lines } => (
            state,
            seq![CommandView::Scroll(spec_round_lines(milli_lines as int) as i32)],
        ),
        ScrollDelta::Pixels { y } => {
            let acc = scroll_step_acc(state.scroll_pixels as int, y as int, cell_height as int);
            let lines = scroll_step_lines(state.scroll_pixels as int, y as int, cell_height as int);
            let s = TerminalViewState { scroll_pixels: acc as i64, ..state };
            if lines != 0 {
                (s, seq![CommandView::Scroll(lines as i32)])
            } else {
                (s, Seq::empty())
            }
        },
    }
}

pub fn handle_wheel_scrolled(state: &mut TerminalViewState, delta: ScrollDelta, cell_height: u32) -> (
    cmds: Vec<BackendCommand>)
    requires
        old(state).scroll_wf(),
        delta_bounded(delta),
        0 < cell_height <= MAX_CELL_HEIGHT,
    ensures
        ({
            let (s, cv) = spec_wheel_scrolled(*old(state), delta, cell_height);
            *final(state) == s && command_views(cmds@) == cv && s.scroll_wf()
        }),
{
    let mut cmds: Vec<BackendCommand> = Vec::new();
    match delta {
        ScrollDelta::Lines { milli_lines } => {
            let lines: i64 = if milli_lines >= 0 {
                ((milli_lines as u64 + 500) / 1000) as i64
            } else {
                -((((-milli_lines) as u64 + 500) / 1000) as i64)
            };
            cmds.push(BackendCommand::Scroll(lines as i32));
        },
        ScrollDelta::Pixels { y } => {
            let total: i64 = state.scroll_pixels - y;
            let ch: u64 = cell_height as u64;
            proof {
                let a = total as int;
                let b = cell_height as int;
                lemma_trunc_div_rem(a, b);
                if a >= 0 {
                    assert(b * (a / b) + a % b == a) by (nonlinear_arith)
                        requires
                            b > 0,
                            a >= 0,
                    ;
                    assert(a / b <= a) by (nonlinear_arith)
                        requires
                            b > 0,
                            a >= 0,
                    ;
                } else {
                    let m = -a;
                    assert(b * (m / b) + m % b == m) by (nonlinear_arith)
                        requires
                            b > 0,
                            m >= 0,
                    ;
                    assert(b * (-(m / b)) == -(b * (m / b))) by (nonlinear_arith);
                    assert(m / b <= m) by (nonlinear_arith)
                        requires
                            b > 0,
                            m >= 0,
                    ;
                }
            }
            let (q, r): (i64, i64) = if total >= 0 {
                (((total as u64) / ch) as i64, ((total as u64) % ch) as i64)
            } else {
                let m: u64 = (-total) as u64;
                (-((m / ch) as i64), -((m % ch) as i64))
            };
            state.scroll_pixels = r;
            if q != 0 {
                cmds.push(BackendCommand::Scroll(q as i32));
            }
        },
    }
    proof {
        let (s, cv) = spec_wheel_scrolled(*old(state), delta, cell_height);
        assert(command_views(cmds@) =~= cv);
    }
    cmds
}

/// What a left press does. With mouse reporting on, the press is reported
/// at the current grid position; otherwise a selection begins at the pixel
/// offset within the pane, with the granularity the click multiplicity
/// picks, and the press is recorded for later multi-click detection. Either
/// way a drag is now in progress.
pub open spec fn spec_left_button_pressed(
    state: TerminalViewState,
    mode: TermMode,
    cursor_x: u32,
    cursor_y: u32,
    layout_x: u32,
    layout_y: u32,
    now_ms: u64,
) -> (TerminalViewState, Seq<CommandView>) {
    if mode.spec_mouse_mode() {
        (
            TerminalViewState { is_dragged: true, ..state },
            seq![
                CommandView::MouseReport(
                    MouseButton::LeftButton,
                    state.keyboard_modifiers,
                    state.mouse_position_on_grid,
                    true,
                )
            ],
        )
    } else {
        let record = spec_press_record(state.last_click, cursor_x, cursor_y, now_ms);
        (
            TerminalViewState { is_dragged: true, last_click: Some(record), ..state },
            seq![
                CommandView::SelectStart(
                    spec_selection_type(record.kind),
                    (cursor_x - layout_x) as u32,
                    (cursor_y - layout_y) as u32,
                )
            ],
        )
    }
}

pub fn handle_left_button_pressed(
    state: &mut TerminalViewState,
    mode: &TermMode,
    cursor_x: u32,
    cursor_y: u32,
    layout_x: u32,
    layout_y: u32,
    now_ms: u64,
) -> (cmds: Vec<BackendCommand>)
    requires
        layout_x <= cursor_x,
        layout_y <= cursor_y,
    ensures
        ({
            let (s, cv) = spec_left_button_pressed(
                *old(state),
                *mode,
                cursor_x,
                cursor_y,
                layout_x,
                layout_y,
                now_ms,
            );
            *final(state) == s && command_views(cmds@) == cv
        }),
{
    let mut cmds: Vec<BackendCommand> = Vec::new();
    if mode.mouse_mode() {
        cmds.push(
            BackendCommand::MouseReport(
                MouseButton::LeftButton,
                state.keyboard_modifiers,
                state.mouse_position_on_grid,
                true,
            ),
        );
    } else {
        let kind = classify_click(state.last_click, cursor_x, cursor_y, now_ms);
        state.last_click = Some(ClickState { x: cursor_x, y: cursor_y, time_ms: now_ms, kind });
        let selection_type = match kind {
            ClickKind::Single => SelectionType::Simple,
            ClickKind::Double => SelectionType::Semantic,
            ClickKind::Triple => SelectionType::Lines,
        };
        cmds.push(
            BackendCommand::SelectStart(
                selection_type,
                cursor_x - layout_x,
                cursor_y - layout_y,
            ),
        );
    }
    state.is_dragged = true;
    proof {
        let (s, cv) = spec_left_button_pressed(
            *old(state),
            *mode,
            cursor_x,
            cursor_y,
            layout_x,
            layout_y,
            now_ms,
        );
        assert(command_views(cmds@) =~= cv);
    }
    cmds
}

/// What a pointer move does. The grid position under the pointer is
/// recomputed first. During a drag, the motion is reported when
/// mouse-motion reporting is on, else the selection is extended to the new
/// pixel offset. When the hyperlink modifier alone is held, the link under
/// the pointer is highlighted regardless of drag state.
pub open spec fn spec_cursor_moved(
    state: TerminalViewState,
    content: RenderableContent,
    pos_x: u32,
    pos_y: u32,
    layout_x: u32,
    layout_y: u32,
) -> (TerminalViewState, Seq<CommandView>) {
    let cursor_x = (pos_x - layout_x) as u32;
    let cursor_y = (pos_y - layout_y) as u32;
    let grid = spec_selection_point(cursor_x, cursor_y, content.terminal_size, content.display_offset);
    let s = TerminalViewState { mouse_position_on_grid: grid, ..state };
    let drag_cmds: Seq<CommandView> = if state.is_dragged {
        if content.terminal_mode.mouse_motion {
            seq![CommandView::MouseReport(MouseButton::LeftMove, state.keyboard_modifiers, grid, true)]
        } else {
            seq![CommandView::SelectUpdate(cursor_x, cursor_y)]
        }
    } else {
        Seq::empty()
    };
    let link_cmds: Seq<CommandView> = if state.keyboard_modifiers == Modifiers::spec_command() {
        seq![CommandView::ProcessLink(LinkAction::Hover, grid)]
    } else {
        Seq::empty()
    };
    (s, drag_cmds + link_cmds)
}

pub fn handle_cursor_moved(
    state: &mut TerminalViewState,
    content: &RenderableContent,
    pos_x: u32,
    pos_y: u32,
    layout_x: u32,
    layout_y: u32,
) -> (cmds: Vec<BackendCommand>)
    requires
        content.wf(),
        layout_x <= pos_x,
        layout_y <= pos_y,
    ensures
        ({
            let (s, cv) = spec_cursor_moved(*old(state), *content, pos_x, pos_y, layout_x, layout_y);
            *final(state) == s && command_views(cmds@) == cv
        }),
{
    let mut cmds: Vec<BackendCommand> = Vec::new();
    let cursor_x = pos_x - layout_x;
    let cursor_y = pos_y - layout_y;
    state.mouse_position_on_grid = selection_point(
        cursor_x,
        cursor_y,
        &content.terminal_size,
        content.display_offset,
    );
    if state.is_dragged {
        if content.terminal_mode.mouse_motion {
            cmds.push(
                BackendCommand::MouseReport(
                    MouseButton::LeftMove,
                    state.keyboard_modifiers,
                    state.mouse_position_on_grid,
                    true,
                ),
            );
        } else {
            cmds.push(BackendCommand::SelectUpdate(cursor_x, cursor_y));
        }
    }
    if state.keyboard_modifiers == Modifiers::command() {
        cmds.push(
            BackendCommand::ProcessLink(LinkAction::Hover, state.mouse_position_on_grid),
        );
    }
    proof {
        let (s, cv) = spec_cursor_moved(*old(state), *content, pos_x, pos_y, layout_x, layout_y);
        assert(command_views(cmds@) =~= cv);
    }
    cmds
}

/// What a left release does. The drag ends. With mouse reporting on, the
/// release is reported; and when the binding table maps a plain left click
/// under the held modifiers to opening links, the link under the pointer is
/// opened.
pub open spec fn spec_button_released(
    state: TerminalViewState,
    mode: TermMode,
    table: Seq<Binding>,
) -> (TerminalViewState, Seq<CommandView>) {
    let s = TerminalViewState { is_dragged: false, ..state };
    let report_cmds: Seq<CommandView> = if mode.spec_mouse_mode() {
        seq![
            CommandView::MouseReport(
                MouseButton::LeftButton,
                state.keyboard_modifiers,
                state.mouse_position_on_grid,
                false,
            )
        ]
    } else {
        Seq::empty()
    };
    let link_cmds: Seq<CommandView> = if spec_get_action(
        table,
        InputKind::Mouse(crate::bindings::MouseButton::Left),
        state.keyboard_modifiers,
        mode,
    ) == ActionView::LinkOpen {
        seq![CommandView::ProcessLink(LinkAction::Open, state.mouse_position_on_grid)]
    } else {
        Seq::empty()
    };
    (s, report_cmds + link_cmds)
}

pub fn handle_button_released(
    state: &mut TerminalViewState,
    mode: &TermMode,
    bindings: &BindingsLayout,
) -> (cmds: Vec<BackendCommand>)
    ensures
        ({
            let (s, cv) = spec_button_released(*old(state), *mode, bindings.table@);
            *final(state) == s && command_views(cmds@) == cv
        }),
{
    let mut cmds: Vec<BackendCommand> = Vec::new();
    state.is_dragged = false;
    if mode.mouse_mode() {
        cmds.push(
            BackendCommand::MouseReport(
                MouseButton::LeftButton,
                state.keyboard_modifiers,
                state.mouse_position_on_grid,
                false,
            ),
        );
    }
    let action = bindings.get_action(
        InputKind::Mouse(crate::bindings::MouseButton::Left),
        state.keyboard_modifiers,
        mode,
    );
    if action.eq_link_open() {
        cmds.push(
            BackendCommand::ProcessLink(LinkAction::Open, state.mouse_position_on_grid),
        );
    }
    proof {
        let (s, cv) = spec_button_released(*old(state), *mode, bindings.table@);
        assert(command_views(cmds@) =~= cv);
    }
    cmds
}

/// A code point UTF-8 can encode: below 0x110000 and not a surrogate.
pub open spec fn valid_code_point(cp: u32) -> bool {
    cp < 0x110000 && !(0xD800 <= cp < 0xE000)
}

/// The UTF-8 encoding of a code point; an invalid value encodes as the
/// replacement character.
pub open spec fn spec_utf8_encode(cp: u32) -> Seq<u8> {
    let c: int = if valid_code_point(cp) {
        cp as int
    } else {
        0xFFFD
    };
    if c < 0x80 {
        seq![c as u8]
    } else if c < 0x800 {
        seq![(0xC0 + c / 0x40) as u8, (0x80 + c % 0x40) as u8]
    } else if c < 0x10000 {
        seq![
            (0xE0 + c / 0x1000) as u8,
            (0x80 + (c / 0x40) % 0x40) as u8,
            (0x80 + c % 0x40) as u8,
        ]
    } else {
        seq![
            (0xF0 + c / 0x40000) as u8,
            (0x80 + (c / 0x1000) % 0x40) as u8,
            (0x80 + (c / 0x40) % 0x40) as u8,
            (0x80 + c % 0x40) as u8,
        ]
    }
}

pub fn utf8_encode(cp: u32) -> (r: Vec<u8>)
    ensures
        r@ == spec_utf8_encode(cp),
{
    let c: u32 = if cp < 0x110000 && !(0xD800 <= cp && cp < 0xE000) {
        cp
    } else {
        0xFFFD
    };
    let mut v: Vec<u8> = Vec::new();
    if c < 0x80 {
        v.push(c as u8);
    } else if c < 0x800 {
        proof {
            assert(c / 0x40 < 0x20) by (nonlinear_arith)
                requires
                    c < 0x800,
            ;
        }
        v.push((0xC0 + c / 0x40) as u8);
        v.push((0x80 + c % 0x40) as u8);
    } else if c < 0x10000 {
        proof {
            assert(c / 0x1000 < 0x10 && (c / 0x40) % 0x40 < 0x40) by (nonlinear_arith)
                requires
                    c < 0x10000,
            ;
        }
        v.push((0xE0 + c / 0x1000) as u8);
        v.push((0x80 + (c / 0x40) % 0x40) as u8);
        v.push((0x80 + c % 0x40) as u8);
    } else {
        proof {
            assert(c / 0x40000 < 0x8 && (c / 0x1000) % 0x40 < 0x40 && (c / 0x40) % 0x40 < 0x40)
                by (nonlinear_arith)
                requires
                    c < 0x110000,
            ;
        }
        v.push((0xF0 + c / 0x40000) as u8);
        v.push((0x80 + (c / 0x1000) % 0x40) as u8);
        v.push((0x80 + (c / 0x40) % 0x40) as u8);
        v.push((0x80 + c % 0x40) as u8);
    }
    proof {
        assert(v@ =~= spec_utf8_encode(cp));
    }
    v
}

/// A pressed key: a printable character (its code point, with the raw
/// bytes the toolkit delivered for it), a named key, or something the
/// resolver does not know.
#[derive(Debug, PartialEq)]
pub enum Key {
    Character { ch: u32, bytes: Vec<u8> },
    Named(KeyCode),
    Other,
}

/// A raw keyboard event.
#[derive(Debug, PartialEq)]
pub enum KeyboardEvent {
    ModifiersChanged(Modifiers),
    KeyPressed { key: Key, modifiers: Modifiers },
    Other,
}

/// A clipboard interaction the caller must perform: transient clipboard
/// failures are silent no-ops there.
#[derive(Clone, Copy, Debug, PartialEq, Eq, Structural)]
pub enum ClipboardOp {
    /// Read the clipboard and write its bytes to the backend.
    Paste,
    /// Write the current selection's text to the clipboard.
    Copy,
}

/// What a keyboard event asks for.
#[derive(Debug, PartialEq)]
pub enum KeyboardOutcome {
    Ignored,
    Command(BackendCommand),
    Clipboard(ClipboardOp),
}

pub enum KeyboardOutcomeView {
    Ignored,
    Command(CommandView),
    Clipboard(ClipboardOp),
}

impl View for KeyboardOutcome {
    type V = KeyboardOutcomeView;

    open spec fn view(&self) -> KeyboardOutcomeView {
        match self {
            KeyboardOutcome::Ignored => KeyboardOutcomeView::Ignored,
            KeyboardOutcome::Command(c) => KeyboardOutcomeView::Command(c@),
            KeyboardOutcome::Clipboard(op) => KeyboardOutcomeView::Clipboard(*op),
        }
    }
}

/// What a resolved binding action asks for: characters and escape
/// sequences become writes, copy and paste become clipboard interactions,
/// the rest is ignored here.
pub open spec fn spec_action_outcome(a: ActionView) -> KeyboardOutcomeView {
    match a {
        ActionView::Char(cp) => KeyboardOutcomeView::Command(CommandView::Write(spec_utf8_encode(cp))),
        ActionView::Esc(s) => KeyboardOutcomeView::Command(CommandView::Write(s)),
        ActionView::Paste => KeyboardOutcomeView::Clipboard(ClipboardOp::Paste),
        ActionView::Copy => KeyboardOutcomeView::Clipboard(ClipboardOp::Copy),
        ActionView::Ignore => KeyboardOutcomeView::Ignored,
        ActionView::LinkOpen => KeyboardOutcomeView::Ignored,
    }
}

fn action_outcome(a: BindingAction) -> (r: KeyboardOutcome)
    ensures
        r@ == spec_action_outcome(a@),
{
    match a {
        BindingAction::Char(cp) => KeyboardOutcome::Command(BackendCommand::Write(utf8_encode(cp))),
        BindingAction::Esc(v) => KeyboardOutcome::Command(BackendCommand::Write(v)),
        BindingAction::Paste => KeyboardOutcome::Clipboard(ClipboardOp::Paste),
        BindingAction::Copy => KeyboardOutcome::Clipboard(ClipboardOp::Copy),
        BindingAction::Ignore => KeyboardOutcome::Ignored,
        BindingAction::LinkOpen => KeyboardOutcome::Ignored,
    }
}

/// ASCII uppercase letters lower before binding lookup.
pub open spec fn ascii_lower(cp: u32) -> u32 {
    if 0x41 <= cp <= 0x5A {
        (cp + 0x20) as u32
    } else {
        cp
    }
}

/// What a keyboard event does. A modifier change is stored and refreshes
/// the link highlight: hovering when the hyperlink modifier alone is now
/// held, clearing otherwise. A printable character first consults the
/// binding table (lowercased); unclaimed characters without alt held
/// forward their raw bytes. Named keys always go through the table.
pub open spec fn spec_keyboard_event(
    state: TerminalViewState,
    mode: TermMode,
    table: Seq<Binding>,
    event: KeyboardEvent,
) -> (TerminalViewState, KeyboardOutcomeView) {
    match event {
        KeyboardEvent::ModifiersChanged(m) => {
            let s = TerminalViewState { keyboard_modifiers: m, ..state };
            let action = if m == Modifiers::spec_command() {
                LinkAction::Hover
            } else {
                LinkAction::Clear
            };
            (
                s,
                KeyboardOutcomeView::Command(
                    CommandView::ProcessLink(action, state.mouse_position_on_grid),
                ),
            )
        },
        KeyboardEvent::KeyPressed { key, modifiers } => match key {
            Key::Character { ch, bytes } => {
                let act = spec_get_action(table, InputKind::Char(ascii_lower(ch)), modifiers, mode);
                if act == ActionView::Ignore && !modifiers.alt {
                    (state, KeyboardOutcomeView::Command(CommandView::Write(bytes@)))
                } else {
                    (state, spec_action_outcome(act))
                }
            },
            Key::Named(code) => (
                state,
                spec_action_outcome(spec_get_action(table, InputKind::KeyCode(code), modifiers, mode)),
            ),
            Key::Other => (state, KeyboardOutcomeView::Ignored),
        },
        KeyboardEvent::Other => (state, KeyboardOutcomeView::Ignored),
    }
}

pub fn handle_keyboard_event(
    state: &mut TerminalViewState,
    mode: &TermMode,
    bindings: &BindingsLayout,
    event: KeyboardEvent,
) -> (outcome: KeyboardOutcome)
    ensures
        ({
            let (s, ov) = spec_keyboard_event(*old(state), *mode, bindings.table@, event);
            *final(state) == s && outcome@ == ov
        }),
{
    match event {
        KeyboardEvent::ModifiersChanged(m) => {
            state.keyboard_modifiers = m;
            let action = if m == Modifiers::command() {
                LinkAction::Hover
            } else {
                LinkAction::Clear
            };
            KeyboardOutcome::Command(
                BackendCommand::ProcessLink(action, state.mouse_position_on_grid),
            )
        },
        KeyboardEvent::KeyPressed { key, modifiers } => match key {
            Key::Character { ch, bytes } => {
                let lowered: u32 = if 0x41 <= ch && ch <= 0x5A {
                    ch + 0x20
                } else {
                    ch
                };
                let act = bindings.get_action(InputKind::Char(lowered), modifiers, mode);
                if act.eq_ignore() && !modifiers.alt {
                    KeyboardOutcome::Command(BackendCommand::Write(bytes))
                } else {
                    action_outcome(act)
                }
            },
            Key::Named(code) => action_outcome(
                bindings.get_action(InputKind::KeyCode(code), modifiers, mode),
            ),
            Key::Other => KeyboardOutcome::Ignored,
        },
        KeyboardEvent::Other => KeyboardOutcome::Ignored,
    }
}

/// A raw mouse event. The pointer position and press time come from the
/// caller's event context.
#[derive(Clone, Copy, Debug, PartialEq, Eq, Structural)]
pub enum MouseEvent {
    LeftPressed,
    CursorMoved,
    LeftReleased,
    WheelScrolled(ScrollDelta),
    Other,
}

/// What a mouse event over the pane does, dispatching to the press, move,
/// release and wheel rules.
pub open spec fn spec_mouse_event(
    state: TerminalViewState,
    content: RenderableContent,
    table: Seq<Binding>,
    layout_x: u32,
    layout_y: u32,
    cursor_x: u32,
    cursor_y: u32,
    now_ms: u64,
    event: MouseEvent,
) -> (TerminalViewState, Seq<CommandView>) {
    match event {
        MouseEvent::LeftPressed => spec_left_button_pressed(
            state,
            content.terminal_mode,
            cursor_x,
            cursor_y,
            layout_x,
            layout_y,
            now_ms,
        ),
        MouseEvent::CursorMoved => spec_cursor_moved(
            state,
            content,
            cursor_x,
            cursor_y,
            layout_x,
            layout_y,
        ),
        MouseEvent::LeftReleased => spec_button_released(state, content.terminal_mode, table),
        MouseEvent::WheelScrolled(delta) => spec_wheel_scrolled(
            state,
            delta,
            content.terminal_size.cell_height,
        ),
        MouseEvent::Other => (state, Seq::empty()),
    }
}

pub fn handle_mouse_event(
    state: &mut TerminalViewState,
    content: &RenderableContent,
    bindings: &BindingsLayout,
    layout_x: u32,
    layout_y: u32,
    cursor_x: u32,
    cursor_y: u32,
    now_ms: u64,
    event: MouseEvent,
) -> (cmds: Vec<BackendCommand>)
    requires
        old(state).scroll_wf(),
        content.wf(),
        content.terminal_size.cell_height <= MAX_CELL_HEIGHT,
        layout_x <= cursor_x,
        layout_y <= cursor_y,
        (event matches MouseEvent::WheelScrolled(delta) ==> delta_bounded(delta)),
    ensures
        ({
            let (s, cv) = spec_mouse_event(
                *old(state),
                *content,
                bindings.table@,
                layout_x,
                layout_y,
                cursor_x,
                cursor_y,
                now_ms,
                event,
            );
            *final(state) == s && command_views(cmds@) == cv && s.scroll_wf()
        }),
{
    match event {
        MouseEvent::LeftPressed => handle_left_button_pressed(
            state,
            &content.terminal_mode,
            cursor_x,
            cursor_y,
            layout_x,
            layout_y,
            now_ms,
        ),
        MouseEvent::CursorMoved => handle_cursor_moved(
            state,
            content,
            cursor_x,
            cursor_y,
            layout_x,
            layout_y,
        ),
        MouseEvent::LeftReleased => handle_button_released(
            state,
            &content.terminal_mode,
            bindings,
        ),
        MouseEvent::WheelScrolled(delta) => handle_wheel_scrolled(
            state,
            delta,
            content.terminal_size.cell_height,
        ),
        MouseEvent::Other => {
            let cmds: Vec<BackendCommand> = Vec::new();
            proof {
                assert(command_views(cmds@) =~= Seq::<CommandView>::empty());
            }
            cmds
        },
    }
}

/// The pane's layout rectangle, in window pixel coordinates.
#[derive(Clone, Copy, Debug, PartialEq, Eq, Structural)]
pub struct LayoutRect {
    pub x: u32,
    pub y: u32,
    pub width: u32,
    pub height: u32,
}

/// A raw toolkit event, as the event entry point accepts it.
#[derive(Debug, PartialEq)]
pub enum InputEvent {
    Mouse(MouseEvent),
    Keyboard(KeyboardEvent),
    Other,
}

/// What one event produced: backend commands in order, and at most one
/// clipboard interaction for the caller to perform.
#[derive(Debug)]
pub struct EventOutput {
    pub commands: Vec<BackendCommand>,
    pub clipboard: Option<ClipboardOp>,
}

pub open spec fn opt_deref(content: Option<&RenderableContent>) -> Option<RenderableContent> {
    match content {
        Some(c) => Some(*c),
        None => None,
    }
}

/// What the event entry point does, in order. First, whenever the measured
/// layout size differs from the last stored size and a backend is live, a
/// resize command is emitted and the size stored. Then the event itself:
/// a mouse event is handled when a backend is live and the pointer lies
/// within the pane's bounds, whether or not the pane is focused; a
/// keyboard event on an unfocused pane is dropped and clears the stored
/// modifiers; a keyboard event on a focused pane with a live backend goes
/// to the keyboard rules.
pub open spec fn spec_on_event(
    state: TerminalViewState,
    content: Option<RenderableContent>,
    table: Seq<Binding>,
    layout: LayoutRect,
    cursor: Option<(u32, u32)>,
    now_ms: u64,
    event: InputEvent,
) -> (TerminalViewState, Seq<CommandView>, Option<ClipboardOp>) {
    let need_resize = content is Some && (state.size_width != layout.width || state.size_height
        != layout.height);
    let s0 = if need_resize {
        TerminalViewState { size_width: layout.width, size_height: layout.height, ..state }
    } else {
        state
    };
    let resize_cmds: Seq<CommandView> = if need_resize {
        seq![CommandView::Resize { width: layout.width, height: layout.height }]
    } else {
        Seq::empty()
    };
    match event {
        InputEvent::Mouse(me) => match (content, cursor) {
            (Some(c), Some((cx, cy))) => if spec_in_rect(
                cx,
                cy,
                layout.x,
                layout.y,
                layout.width,
                layout.height,
            ) {
                let (s1, cmds) = spec_mouse_event(
                    s0,
                    c,
                    table,
                    layout.x,
                    layout.y,
                    cx,
                    cy,
                    now_ms,
                    me,
                );
                (s1, resize_cmds + cmds, None::<ClipboardOp>)
            } else {
                (s0, resize_cmds, None::<ClipboardOp>)
            },
            _ => (s0, resize_cmds, None::<ClipboardOp>),
        },
        InputEvent::Keyboard(ke) => if !s0.is_focused {
            (
                TerminalViewState { keyboard_modifiers: Modifiers::spec_empty(), ..s0 },
                resize_cmds,
                None::<ClipboardOp>,
            )
        } else {
            match content {
                Some(c) => {
                    let (s1, ov) = spec_keyboard_event(s0, c.terminal_mode, table, ke);
                    match ov {
                        KeyboardOutcomeView::Ignored => (s1, resize_cmds, None::<ClipboardOp>),
                        KeyboardOutcomeView::Command(cv) => (
                            s1,
                            resize_cmds + seq![cv],
                            None::<ClipboardOp>,
                        ),
                        KeyboardOutcomeView::Clipboard(op) => (s1, resize_cmds, Some(op)),
                    }
                },
                None => (s0, resize_cmds, None::<ClipboardOp>),
            }
        },
        InputEvent::Other => (s0, resize_cmds, None::<ClipboardOp>),
    }
}

/// The per-event entry point: resize detection, focus gating, then
/// dispatch to the mouse or keyboard rules.
pub fn on_event(
    state: &mut TerminalViewState,
    content: Option<&RenderableContent>,
    bindings: &BindingsLayout,
    layout: LayoutRect,
    cursor: Option<(u32, u32)>,
    now_ms: u64,
    event: InputEvent,
) -> (out: EventOutput)
    requires
        old(state).scroll_wf(),
        (opt_deref(content) matches Some(c) ==> c.wf() && c.terminal_size.cell_height
            <= MAX_CELL_HEIGHT),
        (event matches InputEvent::Mouse(MouseEvent::WheelScrolled(delta)) ==> delta_bounded(
            delta,
        )),
    ensures
        ({
            let (s, cv, cb) = spec_on_event(
                *old(state),
                opt_deref(content),
                bindings.table@,
                layout,
                cursor,
                now_ms,
                event,
            );
            *final(state) == s && command_views(out.commands@) == cv && out.clipboard == cb
                && s.scroll_wf()
        }),
{
    let mut commands: Vec<BackendCommand> = Vec::new();
    let mut clipboard: Option<ClipboardOp> = None;
    if content.is_some() && (state.size_width != layout.width || state.size_height
        != layout.height) {
        state.size_width = layout.width;
        state.size_height = layout.height;
        commands.push(BackendCommand::Resize { width: layout.width, height: layout.height });
    }
    match event {
        InputEvent::Mouse(me) => {
            match (content, cursor) {
                (Some(c), Some((cx, cy))) => {
                    if in_rect(cx, cy, layout.x, layout.y, layout.width, layout.height) {
                        let mut cmds = handle_mouse_event(
                            state,
                            c,
                            bindings,
                            layout.x,
                            layout.y,
                            cx,
                            cy,
                            now_ms,
                            me,
                        );
                        let n = cmds.len();
                        let ghost base = commands@;
                        let ghost extra = cmds@;
                        let mut i: usize = 0;
                        while i < n
                            invariant
                                i <= n,
                                n == extra.len(),
                                cmds@.len() == n - i,
                                forall|j: int| 0 <= j < n - i ==> cmds@[j] == extra[j + i],
                                commands@ =~= base + extra.take(i as int),
                            decreases n - i,
                        {
                            let cmd = cmds.remove(0);
                            proof {
                                assert(extra.take(i as int).push(extra[i as int]) =~= extra.take(
                                    i as int + 1,
                                ));
                            }
                            commands.push(cmd);
                            i += 1;
                        }
                        proof {
                            assert(extra.take(n as int) =~= extra);
                        }
                    }
                },
                _ => {},
            }
        },
        InputEvent::Keyboard(ke) => {
            if !state.is_focused {
                state.keyboard_modifiers = Modifiers::empty();
            } else {
                match content {
                    Some(c) => {
                        let outcome = handle_keyboard_event(state, &c.terminal_mode, bindings, ke);
                        match outcome {
                            KeyboardOutcome::Ignored => {},
                            KeyboardOutcome::Command(cmd) => {
                                commands.push(cmd);
                            },
                            KeyboardOutcome::Clipboard(op) => {
                                clipboard = Some(op);
                            },
                        }
                    },
                    None => {},
                }
            }
        },
        InputEvent::Other => {},
    }
    proof {
        let (s, cv, cb) = spec_on_event(
            *old(state),
            opt_deref(content),
            bindings.table@,
            layout,
            cursor,
            now_ms,
            event,
        );
        assert(command_views(commands@) =~= cv);
    }
    EventOutput { commands, clipboard }
}

} // verus!
