//! Key and mouse binding resolver: a table mapping (input kind, modifiers,
//! terminal mode) to a symbolic action. Bindings demand an exact modifier
//! set; bindings gated on terminal mode flags take precedence over
//! mode-independent ones; unmatched input resolves to `Ignore`, which tells
//! the caller to fall through to raw character forwarding.

use vstd::prelude::*;
use crate::modes::TermMode;

verus! {

/// The keyboard modifier set of an input event.
#[derive(Clone, Copy, Debug, PartialEq, Eq, Structural)]
pub struct Modifiers {
    pub shift: bool,
    pub control: bool,
    pub alt: bool,
    pub logo: bool,
}

impl Modifiers {
    pub open spec fn spec_empty() -> Modifiers {
        Modifiers { shift: false, control: false, alt: false, logo: false }
    }

    /// The designated hyperlink modifier: the logo (command) key alone.
    pub open spec fn spec_command() -> Modifiers {
        Modifiers { shift: false, control: false, alt: false, logo: true }
    }

    pub fn empty() -> (r: Modifiers)
        ensures
            r == Modifiers::spec_empty(),
    {
        Modifiers { shift: false, control: false, alt: false, logo: false }
    }

    pub fn command() -> (r: Modifiers)
        ensures
            r == Modifiers::spec_command(),
    {
        Modifiers { shift: false, control: false, alt: false, logo: true }
    }
}

impl Default for Modifiers {
    fn default() -> (r: Modifiers)
        ensures
            r == Modifiers::spec_empty(),
    {
        Modifiers::empty()
    }
}

/// Named (non-character) keys the resolver knows.
#[derive(Clone, Copy, Debug, PartialEq, Eq, Structural)]
pub enum KeyCode {
    Enter,
    Escape,
    Backspace,
    Tab,
    ArrowUp,
    ArrowDown,
    ArrowLeft,
    ArrowRight,
    Home,
    End,
    PageUp,
    PageDown,
    Insert,
    Delete,
}

/// Mouse buttons the resolver knows.
#[derive(Clone, Copy, Debug, PartialEq, Eq, Structural)]
pub enum MouseButton {
    Left,
    Middle,
    Right,
}

/// What an input event is: a printable character (as its Unicode code
/// point, lowercased by the caller), a named key, or a mouse button.
#[derive(Clone, Copy, Debug, PartialEq, Eq, Structural)]
pub enum InputKind {
    Char(u32),
    KeyCode(KeyCode),
    Mouse(MouseButton),
}

/// The symbolic action a binding resolves to.
#[derive(Debug, PartialEq, Eq)]
pub enum BindingAction {
    /// No binding claims the input; the caller forwards raw characters.
    Ignore,
    /// Write this character, UTF-8 encoded.
    Char(u32),
    /// Write this literal byte sequence.
    Esc(Vec<u8>),
    /// Copy the selection to the clipboard.
    Copy,
    /// Paste the clipboard contents.
    Paste,
    /// Open the hyperlink under the mouse.
    LinkOpen,
}

/// A binding action with its byte payload as a mathematical sequence.
pub enum ActionView {
    Ignore,
    Char(u32),
    Esc(Seq<u8>),
    Copy,
    Paste,
    LinkOpen,
}

impl View for BindingAction {
    type V = ActionView;

    open spec fn view(&self) -> ActionView {
        match self {
            BindingAction::Ignore => ActionView::Ignore,
            BindingAction::Char(c) => ActionView::Char(*c),
            BindingAction::Esc(v) => ActionView::Esc(v@),
            BindingAction::Copy => ActionView::Copy,
            BindingAction::Paste => ActionView::Paste,
            BindingAction::LinkOpen => ActionView::LinkOpen,
        }
    }
}

impl Clone for BindingAction {
    fn clone(&self) -> (r: BindingAction)
        ensures
            r@ == self@,
    {
        match self {
            BindingAction::Ignore => BindingAction::Ignore,
            BindingAction::Char(c) => BindingAction::Char(*c),
            BindingAction::Esc(v) => {
                let w = v.clone();
                proof {
                    assert(w@ =~= v@);
                }
                BindingAction::Esc(w)
            },
            BindingAction::Copy => BindingAction::Copy,
            BindingAction::Paste => BindingAction::Paste,
            BindingAction::LinkOpen => BindingAction::LinkOpen,
        }
    }
}

impl BindingAction {
    pub fn eq_ignore(&self) -> (r: bool)
        ensures
            r == (self is Ignore),
    {
        match self {
            BindingAction::Ignore => true,
            _ => false,
        }
    }

    pub fn eq_link_open(&self) -> (r: bool)
        ensures
            r == (self is LinkOpen),
    {
        match self {
            BindingAction::LinkOpen => true,
            _ => false,
        }
    }
}

/// One table entry. The entry fires on an exact match of `input` and
/// `modifiers` when the terminal mode contains every flag of
/// `mode_include` and none of `mode_exclude`.
#[derive(Clone, Debug)]
pub struct Binding {
    pub input: InputKind,
    pub modifiers: Modifiers,
    pub mode_include: TermMode,
    pub mode_exclude: TermMode,
    pub action: BindingAction,
}

impl Binding {
    /// Whether this entry fires on the given input.
    pub open spec fn spec_matches(self, input: InputKind, mods: Modifiers, mode: TermMode) -> bool {
        &&& self.input == input
        &&& self.modifiers == mods
        &&& mode.spec_contains(self.mode_include)
        &&& !mode.spec_intersects(self.mode_exclude)
    }

    /// Whether this entry is gated on terminal mode flags at all.
    pub open spec fn spec_gated(self) -> bool {
        !self.mode_include.spec_is_empty() || !self.mode_exclude.spec_is_empty()
    }

    fn matches(&self, input: InputKind, mods: Modifiers, mode: &TermMode) -> (r: bool)
        ensures
            r == self.spec_matches(input, mods, *mode),
    {
        self.input == input && self.modifiers == mods && mode.contains(&self.mode_include)
            && !mode.intersects(&self.mode_exclude)
    }

    fn gated(&self) -> (r: bool)
        ensures
            r == self.spec_gated(),
    {
        let empty = TermMode::empty();
        !(self.mode_include == empty) || !(self.mode_exclude == empty)
    }
}

/// The binding table. Resolution scans mode-gated entries first, then
/// mode-independent ones, each in table order.
#[derive(Clone, Debug)]
pub struct BindingsLayout {
    pub table: Vec<Binding>,
}

/// The action of the first entry of `t` that fires on the input and, when
/// `only_gated` is set, is gated on terminal mode flags; `None` when no such
/// entry exists.
pub open spec fn first_match_action(
    t: Seq<Binding>,
    input: InputKind,
    mods: Modifiers,
    mode: TermMode,
    only_gated: bool,
) -> Option<ActionView>
    decreases t.len(),
{
    if t.len() == 0 {
        None
    } else if t[0].spec_matches(input, mods, mode) && (only_gated ==> t[0].spec_gated()) {
        Some(t[0].action@)
    } else {
        first_match_action(t.drop_first(), input, mods, mode, only_gated)
    }
}

/// What resolution returns for the given input over table `t`: the first
/// firing mode-gated entry; failing that, the first firing entry of any
/// kind; failing that, `Ignore`.
pub open spec fn spec_get_action(
    t: Seq<Binding>,
    input: InputKind,
    mods: Modifiers,
    mode: TermMode,
) -> ActionView {
    match first_match_action(t, input, mods, mode, true) {
        Some(a) => a,
        None => match first_match_action(t, input, mods, mode, false) {
            Some(a) => a,
            None => ActionView::Ignore,
        },
    }
}

/// Skipping a non-firing prefix entry does not change the first match.
proof fn lemma_first_match_step(
    t: Seq<Binding>,
    input: InputKind,
    mods: Modifiers,
    mode: TermMode,
    only_gated: bool,
    i: int,
)
    requires
        0 <= i < t.len(),
        !(t[i].spec_matches(input, mods, mode) && (only_gated ==> t[i].spec_gated())),
    ensures
        first_match_action(t.skip(i), input, mods, mode, only_gated) == first_match_action(
            t.skip(i + 1),
            input,
            mods,
            mode,
            only_gated,
        ),
{
    assert(t.skip(i).len() > 0);
    assert(t.skip(i)[0] == t[i]);
    assert(t.skip(i).drop_first() =~= t.skip(i + 1));
}

fn plain_binding(input: InputKind, modifiers: Modifiers, action: BindingAction) -> (r: Binding)
    ensures
        r.input == input,
        r.modifiers == modifiers,
        r.action@ == action@,
        !r.spec_gated(),
{
    Binding {
        input,
        modifiers,
        mode_include: TermMode::empty(),
        mode_exclude: TermMode::empty(),
        action,
    }
}

fn app_cursor_binding(code: KeyCode, action: BindingAction) -> (r: Binding)
    ensures
        r.input == InputKind::KeyCode(code),
        r.modifiers == Modifiers::spec_empty(),
        r.action@ == action@,
        r.spec_gated(),
        r.mode_include == (TermMode { app_cursor: true, ..TermMode::spec_empty() }),
        r.mode_exclude == TermMode::spec_empty(),
{
    let mut gate = TermMode::empty();
    gate.app_cursor = true;
    Binding {
        input: InputKind::KeyCode(code),
        modifiers: Modifiers::empty(),
        mode_include: gate,
        mode_exclude: TermMode::empty(),
        action,
    }
}

impl BindingsLayout {
    /// The built-in table. Named keys map to their escape sequences, with
    /// application-cursor-mode variants gated on that mode flag; control +
    /// shift + `c` / `v` copy and paste; the logo (command) modifier turns a
    /// left click into opening the hovered hyperlink.
    pub fn new() -> (r: BindingsLayout) {
        let none = Modifiers::empty();
        let command = Modifiers::command();
        let ctrl_shift = Modifiers { shift: true, control: true, alt: false, logo: false };
        let mut table: Vec<Binding> = Vec::new();
        table.push(
            plain_binding(
                InputKind::KeyCode(KeyCode::Enter),
                none,
                BindingAction::Esc(vec![0x0d]),
            ),
        );
        table.push(
            plain_binding(
                InputKind::KeyCode(KeyCode::Escape),
                none,
                BindingAction::Esc(vec![0x1b]),
            ),
        );
        table.push(
            plain_binding(
                InputKind::KeyCode(KeyCode::Backspace),
                none,
                BindingAction::Esc(vec![0x7f]),
            ),
        );
        table.push(
            plain_binding(InputKind::KeyCode(KeyCode::Tab), none, BindingAction::Esc(vec![0x09])),
        );
        table.push(
            app_cursor_binding(KeyCode::ArrowUp, BindingAction::Esc(vec![0x1b, 0x4f, 0x41])),
        );
        table.push(
            app_cursor_binding(KeyCode::ArrowDown, BindingAction::Esc(vec![0x1b, 0x4f, 0x42])),
        );
        table.push(
            app_cursor_binding(KeyCode::ArrowRight, BindingAction::Esc(vec![0x1b, 0x4f, 0x43])),
        );
        table.push(
            app_cursor_binding(KeyCode::ArrowLeft, BindingAction::Esc(vec![0x1b, 0x4f, 0x44])),
        );
        table.push(
            plain_binding(
                InputKind::KeyCode(KeyCode::ArrowUp),
                none,
                BindingAction::Esc(vec![0x1b, 0x5b, 0x41]),
            ),
        );
        table.push(
            plain_binding(
                InputKind::KeyCode(KeyCode::ArrowDown),
                none,
                BindingAction::Esc(vec![0x1b, 0x5b, 0x42]),
            ),
        );
        table.push(
            plain_binding(
                InputKind::KeyCode(KeyCode::ArrowRight),
                none,
                BindingAction::Esc(vec![0x1b, 0x5b, 0x43]),
            ),
        );
        table.push(
            plain_binding(
                InputKind::KeyCode(KeyCode::ArrowLeft),
                none,
                BindingAction::Esc(vec![0x1b, 0x5b, 0x44]),
            ),
        );
        table.push(
            app_cursor_binding(KeyCode::Home, BindingAction::Esc(vec![0x1b, 0x4f, 0x48])),
        );
        table.push(app_cursor_binding(KeyCode::End, BindingAction::Esc(vec![0x1b, 0x4f, 0x46])));
        table.push(
            plain_binding(
                InputKind::KeyCode(KeyCode::Home),
                none,
                BindingAction::Esc(vec![0x1b, 0x5b, 0x48]),
            ),
        );
        table.push(
            plain_binding(
                InputKind::KeyCode(KeyCode::End),
                none,
                BindingAction::Esc(vec![0x1b, 0x5b, 0x46]),
            ),
        );
        table.push(
            plain_binding(
                InputKind::KeyCode(KeyCode::PageUp),
                none,
                BindingAction::Esc(vec![0x1b, 0x5b, 0x35, 0x7e]),
            ),
        );
        table.push(
            plain_binding(
                InputKind::KeyCode(KeyCode::PageDown),
                none,
                BindingAction::Esc(vec![0x1b, 0x5b, 0x36, 0x7e]),
            ),
        );
        table.push(
            plain_binding(
                InputKind::KeyCode(KeyCode::Insert),
                none,
                BindingAction::Esc(vec![0x1b, 0x5b, 0x32, 0x7e]),
            ),
        );
        table.push(
            plain_binding(
                InputKind::KeyCode(KeyCode::Delete),
                none,
                BindingAction::Esc(vec![0x1b, 0x5b, 0x33, 0x7e]),
            ),
        );
        table.push(plain_binding(InputKind::Char(0x63), ctrl_shift, BindingAction::Copy));
        table.push(plain_binding(InputKind::Char(0x76), ctrl_shift, BindingAction::Paste));
        table.push(
            plain_binding(InputKind::Mouse(MouseButton::Left), command, BindingAction::LinkOpen),
        );
        BindingsLayout { table }
    }

    /// Resolves an input event. A terminal-mode-gated entry that fires wins
    /// over every mode-independent one; within each class the earliest
    /// table entry wins; when nothing fires the result is `Ignore`.
    pub fn get_action(&self, input: InputKind, mods: Modifiers, mode: &TermMode) -> (r:
        BindingAction)
        ensures
            r@ == spec_get_action(self.table@, input, mods, *mode),
    {
        let t = Ghost(self.table@);
        let n = self.table.len();
        proof {
            assert(t@.skip(0) =~= t@);
        }
        let mut i: usize = 0;
        while i < n
            invariant
                i <= n,
                t@ == self.table@,
                n == t@.len(),
                first_match_action(t@, input, mods, *mode, true) == first_match_action(
                    t@.skip(i as int),
                    input,
                    mods,
                    *mode,
                    true,
                ),
            decreases n - i,
        {
            let b = &self.table[i];
            if b.matches(input, mods, mode) && b.gated() {
                assert(t@.skip(i as int)[0] == t@[i as int]);
                return b.action.clone();
            }
            proof {
                lemma_first_match_step(t@, input, mods, *mode, true, i as int);
            }
            i += 1;
        }
        assert(t@.skip(n as int) =~= Seq::<Binding>::empty());
        proof {
            assert(t@.skip(0) =~= t@);
        }
        let mut i: usize = 0;
        while i < n
            invariant
                i <= n,
                t@ == self.table@,
                n == t@.len(),
                first_match_action(t@, input, mods, *mode, true) is None,
                first_match_action(t@, input, mods, *mode, false) == first_match_action(
                    t@.skip(i as int),
                    input,
                    mods,
                    *mode,
                    false,
                ),
            decreases n - i,
        {
            let b = &self.table[i];
            if b.matches(input, mods, mode) {
                assert(t@.skip(i as int)[0] == t@[i as int]);
                return b.action.clone();
            }
            proof {
                lemma_first_match_step(t@, input, mods, *mode, false, i as int);
            }
            i += 1;
        }
        assert(t@.skip(n as int) =~= Seq::<Binding>::empty());
        BindingAction::Ignore
    }
}

} // verus!
