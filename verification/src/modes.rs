//! Terminal emulation mode flags. The emulator reports a set of mode flags
//! with each content snapshot; input interpretation and rendering consult
//! them. The set is modeled as one boolean per flag.

use vstd::prelude::*;

verus! {

/// The mode flags that input handling and rendering read.
#[derive(Clone, Copy, Debug, PartialEq, Eq, Structural)]
pub struct TermMode {
    /// Report mouse button presses and releases to the application.
    pub mouse_report_click: bool,
    /// Report mouse drag motion while a button is held.
    pub mouse_drag: bool,
    /// Report all mouse motion.
    pub mouse_motion: bool,
    /// Mouse reports use the SGR extended encoding.
    pub sgr_mouse: bool,
    /// Application cursor keys mode.
    pub app_cursor: bool,
    /// Application keypad mode.
    pub app_keypad: bool,
    /// The alternate screen buffer is active.
    pub alt_screen: bool,
    /// Pasted text is wrapped in bracketing escape sequences.
    pub bracketed_paste: bool,
}

impl TermMode {
    /// Some flavour of mouse reporting is active: presses, drags or all
    /// motion.
    pub open spec fn spec_mouse_mode(self) -> bool {
        self.mouse_report_click || self.mouse_drag || self.mouse_motion
    }

    /// Every flag set in `gate` is also set in `self`.
    pub open spec fn spec_contains(self, gate: TermMode) -> bool {
        &&& gate.mouse_report_click ==> self.mouse_report_click
        &&& gate.mouse_drag ==> self.mouse_drag
        &&& gate.mouse_motion ==> self.mouse_motion
        &&& gate.sgr_mouse ==> self.sgr_mouse
        &&& gate.app_cursor ==> self.app_cursor
        &&& gate.app_keypad ==> self.app_keypad
        &&& gate.alt_screen ==> self.alt_screen
        &&& gate.bracketed_paste ==> self.bracketed_paste
    }

    /// Some flag is set in both `self` and `other`.
    pub open spec fn spec_intersects(self, other: TermMode) -> bool {
        ||| (self.mouse_report_click && other.mouse_report_click)
        ||| (self.mouse_drag && other.mouse_drag)
        ||| (self.mouse_motion && other.mouse_motion)
        ||| (self.sgr_mouse && other.sgr_mouse)
        ||| (self.app_cursor && other.app_cursor)
        ||| (self.app_keypad && other.app_keypad)
        ||| (self.alt_screen && other.alt_screen)
        ||| (self.bracketed_paste && other.bracketed_paste)
    }

    /// No flag is set.
    pub open spec fn spec_is_empty(self) -> bool {
        self == TermMode::spec_empty()
    }

    pub open spec fn spec_empty() -> TermMode {
        TermMode {
            mouse_report_click: false,
            mouse_drag: false,
            mouse_motion: false,
            sgr_mouse: false,
            app_cursor: false,
            app_keypad: false,
            alt_screen: false,
            bracketed_paste: false,
        }
    }

    pub fn empty() -> (r: TermMode)
        ensures
            r == TermMode::spec_empty(),
    {
        TermMode {
            mouse_report_click: false,
            mouse_drag: false,
            mouse_motion: false,
            sgr_mouse: false,
            app_cursor: false,
            app_keypad: false,
            alt_screen: false,
            bracketed_paste: false,
        }
    }

    pub fn mouse_mode(&self) -> (r: bool)
        ensures
            r == self.spec_mouse_mode(),
    {
        self.mouse_report_click || self.mouse_drag || self.mouse_motion
    }

    pub fn contains(&self, gate: &TermMode) -> (r: bool)
        ensures
            r == self.spec_contains(*gate),
    {
        (!gate.mouse_report_click || self.mouse_report_click) && (!gate.mouse_drag
            || self.mouse_drag) && (!gate.mouse_motion || self.mouse_motion) && (!gate.sgr_mouse
            || self.sgr_mouse) && (!gate.app_cursor || self.app_cursor) && (!gate.app_keypad
            || self.app_keypad) && (!gate.alt_screen || self.alt_screen) && (!gate.bracketed_paste
            || self.bracketed_paste)
    }

    pub fn intersects(&self, other: &TermMode) -> (r: bool)
        ensures
            r == self.spec_intersects(*other),
    {
        (self.mouse_report_click && other.mouse_report_click) || (self.mouse_drag
            && other.mouse_drag) || (self.mouse_motion && other.mouse_motion) || (self.sgr_mouse
            && other.sgr_mouse) || (self.app_cursor && other.app_cursor) || (self.app_keypad
            && other.app_keypad) || (self.alt_screen && other.alt_screen) || (self.bracketed_paste
            && other.bracketed_paste)
    }
}

impl Default for TermMode {
    fn default() -> (r: TermMode)
        ensures
            r == TermMode::spec_empty(),
    {
        TermMode::empty()
    }
}

} // verus!
