//! The event-loop state machine.  The UI runtime's run loop blocks the
//! calling thread; hotkey and tray events arrive on side channels with no
//! shared waker and are drained by explicit polling.  This module only
//! tracks the loop's state — the blocking itself belongs to the embedder.

use crate::value::str_eq;
use vstd::prelude::*;

verus! {

/// Where the UI run loop stands: not yet entered, blocking inside the UI
/// runtime, or unblocked after a quit.
#[derive(Clone, Copy, Debug, PartialEq, Eq, Structural)]
pub enum RunState {
    Idle,
    Running,
    Stopped,
}

/// The bridge's view of the UI run loop.
pub struct EventLoop {
    state: RunState,
}

impl EventLoop {
    /// The current state.
    pub closed spec fn state_spec(self) -> RunState {
        self.state
    }

    /// A loop that has not been entered yet.
    pub fn new() -> (r: EventLoop)
        ensures
            r.state_spec() == RunState::Idle,
    {
        EventLoop { state: RunState::Idle }
    }

    /// The current state.
    pub fn state(&self) -> (r: RunState)
        ensures
            r == self.state_spec(),
    {
        self.state
    }

    /// Enters the run loop: the thread is about to block inside the UI
    /// runtime.  Running with no window at all is allowed — the bare loop
    /// still serves hotkey and tray polling.
    pub fn begin_run(&mut self)
        requires
            old(self).state_spec() == RunState::Idle,
        ensures
            final(self).state_spec() == RunState::Running,
    {
        self.state = RunState::Running;
    }

    /// Asks the running loop to quit; `begin_run`'s caller unblocks and
    /// observes the stopped state.
    pub fn quit(&mut self)
        requires
            old(self).state_spec() == RunState::Running,
        ensures
            final(self).state_spec() == RunState::Stopped,
    {
        self.state = RunState::Stopped;
    }
}

/// Whether the two session environment values the embedder reads describe
/// a Wayland session: a display value is present at all, or the session
/// type spells `wayland`.  Window dragging resets the pointer state on
/// such sessions, since the compositor steals the pointer during a drag.
pub fn is_wayland_session(wayland_display: Option<&str>, xdg_session_type: Option<&str>) -> (r:
    bool)
    ensures
        r == (wayland_display is Some || match xdg_session_type {
            Some(t) => t@ == "wayland"@,
            None => false,
        }),
{
    match wayland_display {
        Some(_) => true,
        None => match xdg_session_type {
            Some(t) => str_eq(t, "wayland"),
            None => false,
        },
    }
}

} // verus!
