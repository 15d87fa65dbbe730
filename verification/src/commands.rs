//! The command vocabulary sent to the terminal backend, and the dispatcher
//! that tags each command with the session that produced it.

use vstd::prelude::*;
use crate::bindings::Modifiers;
use crate::geometry::GridPoint;

verus! {

/// How a selection grows per drag step, by click multiplicity.
#[derive(Clone, Copy, Debug, PartialEq, Eq, Structural)]
pub enum SelectionType {
    /// Character-wise.
    Simple,
    /// Word-wise (semantic boundaries).
    Semantic,
    /// Line-wise.
    Lines,
}

/// The mouse event kinds reported to the application when mouse reporting
/// is on.
#[derive(Clone, Copy, Debug, PartialEq, Eq, Structural)]
pub enum MouseButton {
    /// The left button itself went down or up.
    LeftButton,
    /// The pointer moved with the left button held.
    LeftMove,
}

/// What to do about a hyperlink at a grid position.
#[derive(Clone, Copy, Debug, PartialEq, Eq, Structural)]
pub enum LinkAction {
    /// Highlight the link under the position.
    Hover,
    /// Remove any link highlight.
    Clear,
    /// Open the link under the position.
    Open,
}

/// One instruction to the terminal backend.
#[derive(Debug, PartialEq)]
pub enum BackendCommand {
    /// Feed these bytes to the pseudo-terminal.
    Write(Vec<u8>),
    /// The pane's pixel size changed.
    Resize { width: u32, height: u32 },
    /// Scroll the viewport by this many lines.
    Scroll(i32),
    /// Begin a selection of the given kind at a pixel offset within the
    /// pane.
    SelectStart(SelectionType, u32, u32),
    /// Extend the current selection to a pixel offset within the pane.
    SelectUpdate(u32, u32),
    /// Report a mouse event at a grid position; the flag tells press from
    /// release.
    MouseReport(MouseButton, Modifiers, GridPoint, bool),
    /// Hover, clear or open a hyperlink at a grid position.
    ProcessLink(LinkAction, GridPoint),
}

/// A backend command with its byte payload as a mathematical sequence.
pub enum CommandView {
    Write(Seq<u8>),
    Resize { width: u32, height: u32 },
    Scroll(i32),
    SelectStart(SelectionType, u32, u32),
    SelectUpdate(u32, u32),
    MouseReport(MouseButton, Modifiers, GridPoint, bool),
    ProcessLink(LinkAction, GridPoint),
}

impl View for BackendCommand {
    type V = CommandView;

    open spec fn view(&self) -> CommandView {
        match self {
            BackendCommand::Write(v) => CommandView::Write(v@),
            BackendCommand::Resize { width, height } => CommandView::Resize {
                width: *width,
                height: *height,
            },
            BackendCommand::Scroll(n) => CommandView::Scroll(*n),
            BackendCommand::SelectStart(t, x, y) => CommandView::SelectStart(*t, *x, *y),
            BackendCommand::SelectUpdate(x, y) => CommandView::SelectUpdate(*x, *y),
            BackendCommand::MouseReport(b, m, p, pressed) => CommandView::MouseReport(
                *b,
                *m,
                *p,
                *pressed,
            ),
            BackendCommand::ProcessLink(a, p) => CommandView::ProcessLink(*a, *p),
        }
    }
}

/// The views of a list of commands, in order.
pub open spec fn command_views(s: Seq<BackendCommand>) -> Seq<CommandView> {
    Seq::new(s.len(), |i: int| s[i]@)
}

/// A backend command tagged with the terminal session that produced it.
#[derive(Debug, PartialEq)]
pub struct Dispatched {
    pub term_id: u64,
    pub command: BackendCommand,
}

/// Wraps each command with the originating session identifier, preserving
/// order; the dispatcher neither reorders nor coalesces.
pub fn dispatch(term_id: u64, commands: Vec<BackendCommand>) -> (r: Vec<Dispatched>)
    ensures
        r@.len() == commands@.len(),
        forall|i: int|
            0 <= i < r@.len() ==> #[trigger] r@[i].term_id == term_id && r@[i].command@
                == commands@[i]@,
{
    let ghost orig = commands@;
    let mut commands = commands;
    let mut out: Vec<Dispatched> = Vec::new();
    let n = commands.len();
    let mut i: usize = 0;
    while i < n
        invariant
            i <= n,
            n == orig.len(),
            commands@.len() == n - i,
            forall|j: int| 0 <= j < n - i ==> commands@[j] == orig[j + i],
            out@.len() == i,
            forall|j: int|
                0 <= j < i ==> #[trigger] out@[j].term_id == term_id && out@[j].command@
                    == orig[j]@,
        decreases n - i,
    {
        let cmd = commands.remove(0);
        out.push(Dispatched { term_id, command: cmd });
        i += 1;
    }
    out
}

} // verus!
