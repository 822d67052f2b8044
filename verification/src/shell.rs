//! The life cycle of the host shell: it starts, runs while its window is
//! open, and exits.

use vstd::prelude::*;

verus! {

/// Where the shell stands.
#[derive(Clone, Copy, Debug, PartialEq, Eq)]
pub enum ShellState {
    /// The window is being set up.
    Starting,
    /// The window is open.
    Running,
    /// The window was closed. Nothing follows.
    Exiting,
}

/// What the window reported.
#[derive(Clone, Copy, Debug, PartialEq, Eq)]
pub enum ShellEvent {
    /// The window was set up.
    WindowReady,
    /// The window could not be set up.
    WindowFailed,
    /// The window was closed.
    WindowClosed,
}

/// What becomes of the shell on an event.
#[derive(Clone, Copy, Debug, PartialEq, Eq)]
pub enum ShellStep {
    /// The shell goes on in this state.
    Continue(ShellState),
    /// The process is aborted: without a window there is no shell.
    Abort,
}

/// What becomes of a shell in `state` on `event`. A window that is ready
/// starts the run, a window that cannot be set up aborts the start, and a
/// closed window ends the run. Any other event leaves the state as it is.
pub open spec fn shell_step(state: ShellState, event: ShellEvent) -> ShellStep {
    match (state, event) {
        (ShellState::Starting, ShellEvent::WindowReady) => ShellStep::Continue(ShellState::Running),
        (ShellState::Starting, ShellEvent::WindowFailed) => ShellStep::Abort,
        (ShellState::Running, ShellEvent::WindowClosed) => ShellStep::Continue(ShellState::Exiting),
        _ => ShellStep::Continue(state),
    }
}

/// The order of the states: a shell never goes back.
pub open spec fn rank(state: ShellState) -> nat {
    match state {
        ShellState::Starting => 0,
        ShellState::Running => 1,
        ShellState::Exiting => 2,
    }
}

impl ShellState {
    /// The state of a shell that was just started.
    pub fn initial() -> (state: ShellState)
        ensures
            state == ShellState::Starting,
    {
        ShellState::Starting
    }

    /// Takes an event of the window and tells what becomes of the shell.
    pub fn on_event(self, event: ShellEvent) -> (step: ShellStep)
        ensures
            step == shell_step(self, event),
    {
        match self {
            ShellState::Starting => match event {
                ShellEvent::WindowReady => ShellStep::Continue(ShellState::Running),
                ShellEvent::WindowFailed => ShellStep::Abort,
                ShellEvent::WindowClosed => ShellStep::Continue(self),
            },
            ShellState::Running => match event {
                ShellEvent::WindowClosed => ShellStep::Continue(ShellState::Exiting),
                _ => ShellStep::Continue(self),
            },
            ShellState::Exiting => ShellStep::Continue(self),
        }
    }

    /// Whether nothing follows this state.
    pub fn is_terminal(self) -> (terminal: bool)
        ensures
            terminal == (self is Exiting),
    {
        match self {
            ShellState::Exiting => true,
            _ => false,
        }
    }
}

/// Exiting is terminal: no event leads out of it, and none aborts it.
pub proof fn lemma_exiting_is_terminal(event: ShellEvent)
    ensures
        shell_step(ShellState::Exiting, event) == ShellStep::Continue(ShellState::Exiting),
{
}

/// A shell runs only after its window was set up, exits only after its
/// window was closed while it ran, and is aborted only while it starts.
pub proof fn lemma_shell_transitions(state: ShellState, event: ShellEvent)
    ensures
        shell_step(state, event) is Abort <==> state is Starting && event is WindowFailed,
        shell_step(state, event) matches ShellStep::Continue(next) ==> {
            &&& rank(state) <= rank(next) <= rank(state) + 1
            &&& (next != state && next is Running ==> state is Starting && event is WindowReady)
            &&& (next != state && next is Exiting ==> state is Running && event is WindowClosed)
        },
{
}

} // verus!
