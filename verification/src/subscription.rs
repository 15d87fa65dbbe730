//! Per-session backend event feed: the decision logic of the loop that
//! forwards backend events to the multiplexer. The loop itself — an
//! asynchronous channel read per iteration — runs in the host; each
//! iteration hands its outcome to `event_step` here.

use vstd::prelude::*;
use crate::actions::Action;

verus! {

/// An event the backend feed delivers.
#[derive(Debug, Clone, PartialEq)]
pub enum BackendEvent {
    /// The shell process exited.
    Exit,
    /// The backend rang the bell.
    Bell,
    /// The backend set a new title.
    TitleChanged(String),
    /// The visible content changed.
    ContentChanged,
}

/// What one feed iteration does next.
#[derive(Debug, PartialEq)]
pub enum StreamStep {
    /// Forward this event to the session.
    Forward(BackendEvent),
    /// The feed is over; the session is dead and its pane closes.
    SessionDead,
}

/// One terminal session's event feed.
#[derive(Clone, Copy, Debug, PartialEq, Eq, Structural)]
pub struct Subscription {
    pub term_id: u64,
}

impl Subscription {
    pub fn new(term_id: u64) -> (r: Subscription)
        ensures
            r.term_id == term_id,
    {
        Subscription { term_id }
    }

    /// One feed iteration. A delivered event is forwarded, and an exit
    /// event marks the feed as shutting down. A closed channel ends the
    /// feed; closure before an exit event is a backend protocol error,
    /// fatal for this session only — it is treated as an implicit
    /// shutdown, never as a crash.
    pub fn event_step(&self, event: Option<BackendEvent>, shutdown: bool) -> (r: (
        bool,
        StreamStep,
    ))
        ensures
            match event {
                Some(ev) => r.0 == (shutdown || ev == BackendEvent::Exit) && r.1
                    == StreamStep::Forward(ev),
                None => r.0 == true && r.1 == StreamStep::SessionDead,
            },
    {
        match event {
            Some(ev) => {
                let is_exit = match ev {
                    BackendEvent::Exit => true,
                    _ => false,
                };
                (shutdown || is_exit, StreamStep::Forward(ev))
            },
            None => (true, StreamStep::SessionDead),
        }
    }
}

/// What a forwarded backend event means to the session: an exit becomes a
/// shutdown (closing the pane), a bell rings it, a title change renames
/// it, and a content change asks for a redraw.
pub fn session_action(event: BackendEvent) -> (r: Action)
    ensures
        match event {
            BackendEvent::Exit => r == Action::Shutdown,
            BackendEvent::Bell => r == Action::Bell,
            BackendEvent::TitleChanged(t) => r == Action::ChangeTitle(t),
            BackendEvent::ContentChanged => r == Action::Redraw,
        },
{
    match event {
        BackendEvent::Exit => Action::Shutdown,
        BackendEvent::Bell => Action::Bell,
        BackendEvent::TitleChanged(t) => Action::ChangeTitle(t),
        BackendEvent::ContentChanged => Action::Redraw,
    }
}

} // verus!
