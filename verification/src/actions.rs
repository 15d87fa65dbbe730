//! What a terminal session reports back to the multiplexer after processing
//! backend input.

use vstd::prelude::*;

verus! {

/// The outcome of feeding one backend event to a session.
#[derive(Debug, Clone, PartialEq)]
pub enum Action {
    /// Content changed; the pane should be redrawn.
    Redraw,
    /// The backend exited; the owning pane closes.
    Shutdown,
    /// The backend set a new window title.
    ChangeTitle(String),
    /// The backend rang the bell.
    Bell,
    /// Nothing to do.
    Ignore,
}

} // verus!
