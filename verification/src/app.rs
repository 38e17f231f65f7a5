//! The application as the loop sees it, and the policy by which the loop
//! turns what a handler answered into a decision and a report.

use vstd::prelude::*;
use crate::control::AppControl;
use crate::event::MenuId;
use crate::failure::answer;
use crate::report::{debug_line, failure_lines, lines, report_failure, Line, LogRecord};

verus! {

/// What the loop drives. Every handler may fail; none may block for long,
/// since the loop calls them on its only thread.
pub trait App<U> {
    /// An event of the application's own was delivered.
    fn handle_user_event(&mut self, event: U) -> Result<AppControl, anyhow::Error>;

    /// A menu entry was activated.
    fn handle_menu_event(&mut self, menu_id: MenuId) -> Result<AppControl, anyhow::Error>;

    /// The loop has decided to shut down: flush state, release resources.
    fn handle_exit(&mut self) -> Result<(), anyhow::Error>;
}

/// The decision the loop adopts from a handler's answer: the handler's own
/// on success, `Continue` on failure. A failed handler never terminates the
/// application by itself.
pub open spec fn adopted(reply: Result<AppControl, Seq<Seq<char>>>) -> AppControl {
    match reply {
        Ok(control) => control,
        Err(_) => AppControl::Continue,
    }
}

/// What an answer adds to the log: nothing on success, the report of the
/// failure otherwise.
pub open spec fn reply_lines<T>(what: Seq<char>, reply: Result<T, Seq<Seq<char>>>) -> Seq<Line> {
    match reply {
        Ok(_) => Seq::empty(),
        Err(chain) => failure_lines(what, chain),
    }
}

/// What the exit hook's answer adds to the log: the marker of the
/// transition, then the report of the hook's failure if it failed.
pub open spec fn exit_lines(reply: Result<(), Seq<Seq<char>>>) -> Seq<Line> {
    seq![debug_line("Application is exiting"@)] + reply_lines(
        "Could not handle application exit correctly"@,
        reply,
    )
}

/// Applies the failure policy to a handler's answer: a success is adopted as
/// it is and logs nothing, a failure is reported with its chain of causes and
/// keeps the application running. `what` says which handler failed.
pub fn adopt(what: &str, reply: Result<AppControl, Vec<String>>) -> (verdict: (
    AppControl,
    Vec<LogRecord>,
))
    ensures
        verdict.0 == adopted(answer(reply)),
        lines(verdict.1@) == reply_lines(what@, answer(reply)),
{
    match reply {
        Ok(control) => {
            let log: Vec<LogRecord> = Vec::new();
            assert(lines(log@) =~= Seq::<Line>::empty());
            (control, log)
        },
        Err(causes) => (AppControl::Continue, report_failure(what, &causes)),
    }
}

/// Reports how the exit hook went. Its failure is logged with its chain of
/// causes and changes nothing else: termination is already decided.
pub fn conclude(reply: Result<(), Vec<String>>) -> (log: Vec<LogRecord>)
    ensures
        lines(log@) == exit_lines(answer(reply)),
{
    let mut log: Vec<LogRecord> = Vec::new();
    log.push(LogRecord::debug("Application is exiting"));
    match reply {
        Ok(_) => {},
        Err(causes) => {
            let mut report = report_failure("Could not handle application exit correctly", &causes);
            let ghost head = log@;
            let ghost tail = report@;
            log.append(&mut report);
            assert(log@ == head + tail);
        },
    }
    assert(lines(log@) =~= exit_lines(answer(reply)));
    log
}

} // verus!
