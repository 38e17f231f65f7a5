//! The small vocabulary the dispatch loop speaks: what a handler decides,
//! what the backend is told to do next, and where the loop is in its life.

use vstd::prelude::*;

verus! {

/// The decision every handler hands back to the dispatch loop.
#[derive(Clone, Copy, Debug, PartialEq, Eq, Structural)]
pub enum AppControl {
    /// Keep running and wait for the next event.
    Continue,
    /// Begin shutdown.
    Exit,
}

/// What the backend is asked to do once an event has been dispatched.
#[derive(Clone, Copy, Debug, PartialEq, Eq, Structural)]
pub enum ControlFlow {
    /// Suspend the thread until another event arrives.
    Wait,
    /// Stop the event loop.
    Exit,
}

/// The identity of an event loop: what tells one loop from another, and what
/// a channel names to say which loop it serves. Whoever constructs the loops
/// of a process gives each an identity of its own.
#[derive(Clone, Copy, Debug, PartialEq, Eq, Hash, Structural)]
pub struct LoopId(pub u64);

/// The life cycle of an event loop. A loop only ever moves forward through
/// these phases.
#[derive(Clone, Copy, Debug, PartialEq, Eq, Structural)]
pub enum Phase {
    /// Constructed, not started.
    Uninitialized,
    /// Started, dispatching events.
    Running,
    /// Shutdown decided, the exit hook is running.
    Exiting,
    /// Stopped for good.
    Terminated,
}

impl AppControl {
    /// Whether this decision asks the loop to shut down.
    pub fn is_exit(self) -> (b: bool)
        ensures
            b == (self == AppControl::Exit),
    {
        match self {
            AppControl::Continue => false,
            AppControl::Exit => true,
        }
    }

    /// The instruction for the backend that carries out this decision.
    pub open spec fn flow(self) -> ControlFlow {
        match self {
            AppControl::Continue => ControlFlow::Wait,
            AppControl::Exit => ControlFlow::Exit,
        }
    }

    /// Turns the decision into the instruction for the backend: `Continue`
    /// waits for the next event, `Exit` stops the loop.
    pub fn control_flow(self) -> (flow: ControlFlow)
        ensures
            flow == self.flow(),
    {
        match self {
            AppControl::Continue => ControlFlow::Wait,
            AppControl::Exit => ControlFlow::Exit,
        }
    }
}

impl Default for AppControl {
    /// A handler that has nothing to say keeps the application running.
    fn default() -> (control: AppControl)
        ensures
            control == AppControl::Continue,
    {
        AppControl::Continue
    }
}

impl Phase {
    /// A loop accepts events from its channels until it has terminated.
    pub open spec fn accepts_events(self) -> bool {
        self != Phase::Terminated
    }

    /// Whether the loop has decided to shut down.
    pub open spec fn has_left_running(self) -> bool {
        self == Phase::Exiting || self == Phase::Terminated
    }

    /// What the backend is told while the loop is in this phase: to stop once
    /// the loop has left `Running`, to wait otherwise.
    pub open spec fn flow(self) -> ControlFlow {
        if self.has_left_running() {
            ControlFlow::Exit
        } else {
            ControlFlow::Wait
        }
    }

    /// The position of the phase in the life cycle.
    pub open spec fn rank(self) -> nat {
        match self {
            Phase::Uninitialized => 0,
            Phase::Running => 1,
            Phase::Exiting => 2,
            Phase::Terminated => 3,
        }
    }

    /// Whether events are dispatched in this phase.
    pub fn is_running(self) -> (b: bool)
        ensures
            b == (self == Phase::Running),
    {
        match self {
            Phase::Running => true,
            _ => false,
        }
    }

    /// The instruction for the backend in this phase.
    pub fn control_flow(self) -> (flow: ControlFlow)
        ensures
            flow == self.flow(),
    {
        match self {
            Phase::Uninitialized => ControlFlow::Wait,
            Phase::Running => ControlFlow::Wait,
            Phase::Exiting => ControlFlow::Exit,
            Phase::Terminated => ControlFlow::Exit,
        }
    }

    /// Whether the loop has stopped for good.
    pub fn is_terminated(self) -> (b: bool)
        ensures
            b == (self == Phase::Terminated),
    {
        match self {
            Phase::Terminated => true,
            _ => false,
        }
    }
}

} // verus!
