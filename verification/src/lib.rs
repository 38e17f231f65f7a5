//! The control core of a desktop application shell: a single-threaded
//! dispatch loop that routes window, menu and user events to an application
//! and decides whether the process keeps running.
//!
//! The loop does no I/O of its own. Whoever owns the windowing backend hands
//! it the backend's events and emits the log records it returns.

use vstd::prelude::*;

pub mod app;
pub mod control;
pub mod event;
pub mod event_loop;
pub mod failure;
pub mod laws;
pub mod model;
mod progress;
pub mod report;

use crate::app::App;
use crate::control::LoopId;
use crate::event::Event;
use crate::event_loop::{Dispatched, EventLoop};
use crate::model::{all_plausible, ran_over, started, Outcome, Replies};
use crate::report::lines;

verus! {

/// Runs an application over the events that are waiting for it: a new loop
/// is started and dispatches the events in order until one of them leads to
/// exit or none is left. The loop has the identity 0. Returns the loop as
/// the run has left it, with what was logged and whether the loop has stopped
/// or waits for more.
pub fn run<U: core::fmt::Debug, A: App<U>>(app: &mut A, events: Vec<Event<U>>) -> (ran: (
    EventLoop<U>,
    Dispatched,
))
    ensures
        ran.0@.wf(),
        exists|replies: Seq<Replies>|
            {
                let outcome = #[trigger] ran_over(events@, replies);
                &&& replies.len() == events@.len()
                &&& all_plausible(replies)
                &&& ran.0@ == outcome.state
                &&& lines(ran.1.log@) == outcome.lines
                &&& ran.1.flow == outcome.state.phase.flow()
            },
{
    let mut event_loop = EventLoop::with_pending(LoopId(0), events);
    let ghost waiting = event_loop@;
    let done = event_loop.start(app);
    proof {
        let replies = choose|replies: Seq<Replies>|
            replies.len() == waiting.pending.len() && all_plausible(replies)
                && #[trigger] started(waiting, replies) == (Outcome {
                state: event_loop@,
                lines: lines(done.log@),
            });
        assert(ran_over(events@, replies) == started(waiting, replies));
    }
    (event_loop, done)
}

} // verus!
