//! The event loop: a state machine that is handed the backend's events one
//! at a time, calls the application's handlers, and decides whether the
//! process goes on.

use vstd::prelude::*;
use vstd::string::StringExecFns;
use crate::app::{adopt, adopted, conclude, exit_lines, reply_lines, App};
use crate::control::{AppControl, ControlFlow, LoopId, Phase};
use crate::event::Event;
use crate::failure::{answer, explain, render};
use crate::model::{
    all_plausible, decision, delivery_lines, event_lines, handler_calls,
    lemma_steps_concat, lemma_steps_idle, lemma_steps_push, sent_through, started, step, steps,
    undelivered_line, woken, Call, LoopState, Outcome, Replies,
};
use crate::progress::Progress;
use crate::report::{lines, Level, Line, LogRecord};

verus! {

/// What dispatching came to: the instruction for the backend, and the
/// records to log, in order.
#[derive(Debug)]
pub struct Dispatched {
    pub flow: ControlFlow,
    pub log: Vec<LogRecord>,
}

/// The event loop of one application. `U` is the application's own event
/// type.
pub struct EventLoop<U> {
    id: LoopId,
    progress: Progress<U>,
    pending: Vec<Event<U>>,
}

/// A handle through which events of the application's own are sent to a
/// loop. A channel serves the loop that made it and no other; it can be
/// copied and handed around freely.
#[derive(Clone, Copy, Debug)]
pub struct EventChannel {
    serves: LoopId,
}

impl<U> View for EventLoop<U> {
    type V = LoopState<U>;

    closed spec fn view(&self) -> LoopState<U> {
        LoopState {
            id: self.id,
            phase: self.progress.at(),
            pending: self.pending@,
            calls: self.progress.calls(),
        }
    }
}

/// Reports how a delivery went. A failure is logged with its reason, and that
/// is all: the sender is never told.
pub fn delivery_report(outcome: Result<(), String>) -> (log: Vec<LogRecord>)
    ensures
        lines(log@) == delivery_lines(
            match outcome {
                Ok(_) => Ok(()),
                Err(reason) => Err(reason@),
            },
        ),
{
    let mut log: Vec<LogRecord> = Vec::new();
    match outcome {
        Ok(_) => {
            assert(lines(log@) =~= Seq::<Line>::empty());
        },
        Err(reason) => {
            let mut message = String::from_str(
                "Could not send user event for message from WebView: ",
            );
            message.append(reason.as_str());
            log.push(LogRecord { level: Level::Error, message });
            assert(lines(log@) =~= seq![undelivered_line(reason@)]);
        },
    }
    log
}

impl EventChannel {
    /// The loop that this channel serves.
    pub closed spec fn serves(&self) -> LoopId {
        self.serves
    }

    /// The identity of the loop that this channel serves.
    pub fn target(&self) -> (id: LoopId)
        ensures
            id == self.serves(),
    {
        self.serves
    }

    /// Sends an event to a loop. If the loop is the one this channel serves,
    /// the event is queued behind everything pending, or, if the loop has
    /// terminated, dropped with a logged failure. Any other loop is left as
    /// it is, and the failure is logged. Returns the records to log.
    pub fn send_event<U>(&self, target: &mut EventLoop<U>, event: U) -> (log: Vec<LogRecord>)
        ensures
            final(target)@.wf(),
            (final(target)@, lines(log@)) == sent_through(self.serves(), old(target)@, event),
    {
        proof {
            use_type_invariant(&target.progress);
        }
        if self.serves != target.id {
            delivery_report(Err(String::from_str("the channel serves another event loop")))
        } else if target.progress.phase().is_terminated() {
            delivery_report(Err(String::from_str("the event loop has terminated")))
        } else {
            target.pending.push(Event::User(event));
            delivery_report(Ok(()))
        }
    }
}

impl<U> EventLoop<U> {
    /// A loop with the given identity that has not been started: nothing is
    /// pending, nothing was called.
    pub fn new(id: LoopId) -> (event_loop: Self)
        ensures
            event_loop@ == LoopState::<U>::fresh(id),
            event_loop@.wf(),
    {
        EventLoop { id, progress: Progress::new(), pending: Vec::new() }
    }

    /// A loop with the given identity that has not been started, with events
    /// already waiting for it.
    pub fn with_pending(id: LoopId, events: Vec<Event<U>>) -> (event_loop: Self)
        ensures
            event_loop@ == (LoopState { pending: events@, ..LoopState::<U>::fresh(id) }),
            event_loop@.wf(),
    {
        EventLoop { id, progress: Progress::new(), pending: events }
    }

    /// Which loop this is.
    pub fn id(&self) -> (id: LoopId)
        ensures
            id == self@.id,
    {
        self.id
    }

    /// Where the loop is in its life.
    pub fn phase(&self) -> (phase: Phase)
        ensures
            phase == self@.phase,
            self@.wf(),
    {
        self.progress.phase()
    }

    /// How many events are queued and not yet dispatched.
    pub fn pending(&self) -> (count: usize)
        ensures
            count == self@.pending.len(),
    {
        self.pending.len()
    }

    /// A channel into this loop: it serves this loop and no other. It can be
    /// made at any time, any number of times, and leaves the loop as it is.
    /// The channel stays valid until the loop has terminated.
    pub fn create_channel(&self) -> (channel: EventChannel)
        ensures
            channel.serves() == self@.id,
    {
        EventChannel { serves: self.id }
    }

    /// What there is to report when nothing was dispatched.
    fn idle(&self) -> (done: Dispatched)
        ensures
            done.flow == self@.phase.flow(),
            done.log@.len() == 0,
            lines(done.log@) == Seq::<Line>::empty(),
    {
        let log: Vec<LogRecord> = Vec::new();
        assert(lines(log@) =~= Seq::<Line>::empty());
        Dispatched { flow: self.progress.phase().control_flow(), log }
    }

    /// Shuts the running loop down: the exit hook runs, once, what it answers
    /// is reported, and the loop terminates whatever the answer.
    fn finish<A: App<U>>(&mut self, app: &mut A) -> (log: Vec<LogRecord>)
        requires
            old(self)@.phase == Phase::Running,
        ensures
            final(self)@.wf(),
            final(self)@ == (LoopState {
                phase: Phase::Terminated,
                calls: old(self)@.calls.push(Call::Exit),
                ..old(self)@
            }),
            exists|exited: Result<(), Seq<Seq<char>>>|
                (exited matches Err(chain) ==> chain.len() >= 1) && lines(log@)
                    == #[trigger] exit_lines(exited),
    {
        let reply = explain(self.progress.run_exit_hook(app));
        let log = conclude(reply);
        proof {
            use_type_invariant(&self.progress);
            assert(lines(log@) == exit_lines(answer(reply)));
        }
        log
    }

    /// Does what a handler's answer asks of the running loop. The answer is
    /// adopted as the failure policy says: a failure is reported and keeps the
    /// loop as it is, and so does `Continue`; `Exit` shuts the loop down.
    /// `what` says which handler it was.
    fn settle<A: App<U>>(
        &mut self,
        app: &mut A,
        what: &str,
        reply: Result<AppControl, Vec<String>>,
    ) -> (done: Dispatched)
        requires
            old(self)@.phase == Phase::Running,
        ensures
            final(self)@.wf(),
            done.flow == adopted(answer(reply)).flow(),
            adopted(answer(reply)) == AppControl::Continue ==> final(self)@ == old(self)@
                && lines(done.log@) == reply_lines(what@, answer(reply)),
            adopted(answer(reply)) == AppControl::Exit ==> final(self)@ == (LoopState {
                phase: Phase::Terminated,
                calls: old(self)@.calls.push(Call::Exit),
                ..old(self)@
            }) && exists|exited: Result<(), Seq<Seq<char>>>|
                (exited matches Err(chain) ==> chain.len() >= 1) && lines(done.log@) == reply_lines(
                    what@,
                    answer(reply),
                ) + #[trigger] exit_lines(exited),
    {
        let (control, mut log) = adopt(what, reply);
        if control.is_exit() {
            let mut rest = self.finish(app);
            let ghost head = log@;
            let ghost tail = rest@;
            log.append(&mut rest);
            proof {
                let exited = choose|exited: Result<(), Seq<Seq<char>>>|
                    (exited matches Err(chain) ==> chain.len() >= 1) && lines(tail)
                        == #[trigger] exit_lines(exited);
                assert(log@ == head + tail);
                assert(lines(log@) =~= reply_lines(what@, answer(reply)) + exit_lines(exited));
            }
        } else {
            proof {
                use_type_invariant(&self.progress);
            }
        }
        Dispatched { flow: control.control_flow(), log }
    }
}

impl<U: core::fmt::Debug> EventLoop<U> {
    /// Dispatches one event of the backend.
    ///
    /// Outside `Running` nothing happens. In `Running`, initialization and a
    /// close request are logged, a user or menu event is handed to its
    /// handler, and anything else is passed over. A close request is an exit;
    /// a handler's answer is adopted, and its failure is logged and taken as
    /// `Continue`. On exit the exit hook runs once, its failure is logged,
    /// and the loop terminates.
    ///
    /// The contract holds whatever the application answers: the loop ends up
    /// where the state machine puts it for some replies of the application.
    pub fn dispatch<A: App<U>>(&mut self, app: &mut A, event: Event<U>) -> (done: Dispatched)
        ensures
            final(self)@.wf(),
            exists|replies: Replies|
                replies.plausible() && #[trigger] step(old(self)@, event, replies) == (Outcome {
                    state: final(self)@,
                    lines: lines(done.log@),
                }),
            done.flow == final(self)@.phase.flow(),
    {
        let ghost before = self@;
        if !self.progress.phase().is_running() {
            let done = self.idle();
            assert(step(before, event, Replies::silent()) == (Outcome {
                state: self@,
                lines: lines(done.log@),
            }));
            return done;
        }
        match event {
            Event::Init => {
                let mut log: Vec<LogRecord> = Vec::new();
                log.push(LogRecord::debug("Application has started"));
                proof {
                    let replies = Replies::silent();
                    assert(lines(log@) =~= event_lines(event, replies));
                    assert(self@.calls =~= before.calls + handler_calls(event));
                    assert(step(before, event, replies) == (Outcome {
                        state: self@,
                        lines: lines(log@),
                    }));
                }
                Dispatched { flow: ControlFlow::Wait, log }
            },
            Event::CloseRequested => {
                let mut log: Vec<LogRecord> = Vec::new();
                log.push(LogRecord::debug("Closing window was requested"));
                let mut rest = self.finish(app);
                let ghost head = log@;
                let ghost tail = rest@;
                log.append(&mut rest);
                proof {
                    let exited = choose|exited: Result<(), Seq<Seq<char>>>|
                        (exited matches Err(chain) ==> chain.len() >= 1) && lines(tail)
                            == #[trigger] exit_lines(exited);
                    let replies = Replies {
                        shown: Seq::empty(),
                        handled: Ok(AppControl::Continue),
                        exited,
                    };
                    assert(lines(log@) =~= event_lines(event, replies) + exit_lines(exited)) by {
                        assert(log@ == head + tail);
                        assert(lines(log@) =~= lines(head) + lines(tail));
                    }
                    assert(self@.calls =~= before.calls + handler_calls(event) + seq![Call::Exit]);
                    assert(step(before, event, replies) == (Outcome {
                        state: self@,
                        lines: lines(log@),
                    }));
                }
                Dispatched { flow: ControlFlow::Exit, log }
            },
            Event::User(payload) => {
                let text = render(&payload);
                let mut message = String::from_str("Handling user event ");
                message.append(text.as_str());
                let mut log: Vec<LogRecord> = Vec::new();
                log.push(LogRecord { level: Level::Debug, message });
                let reply = explain(self.progress.hand_user_event(app, payload));
                let ghost handed = self@;
                let mut done = self.settle(app, "Could not handle user event", reply);
                let ghost head = log@;
                let ghost tail = done.log@;
                log.append(&mut done.log);
                proof {
                    let exited = if adopted(answer(reply)) == AppControl::Exit {
                        choose|exited: Result<(), Seq<Seq<char>>>|
                            (exited matches Err(chain) ==> chain.len() >= 1) && lines(tail)
                                == reply_lines("Could not handle user event"@, answer(reply))
                                + #[trigger] exit_lines(exited)
                    } else {
                        Ok(())
                    };
                    let replies = Replies { shown: text@, handled: answer(reply), exited };
                    assert(log@ == head + tail);
                    assert(lines(log@) =~= lines(head) + lines(tail));
                    assert(handed.calls =~= before.calls + handler_calls(event));
                    if adopted(answer(reply)) == AppControl::Exit {
                        assert(lines(log@) =~= event_lines(event, replies) + exit_lines(exited));
                        assert(self@.calls =~= before.calls + handler_calls(event) + seq![
                            Call::Exit,
                        ]);
                    } else {
                        assert(lines(log@) =~= event_lines(event, replies));
                    }
                    assert(step(before, event, replies) == (Outcome {
                        state: self@,
                        lines: lines(log@),
                    }));
                }
                Dispatched { flow: done.flow, log }
            },
            Event::Menu(menu_id) => {
                let reply = explain(self.progress.hand_menu_event(app, menu_id));
                let ghost handed = self@;
                let done = self.settle(app, "Could not handle menu event", reply);
                proof {
                    let exited = if adopted(answer(reply)) == AppControl::Exit {
                        choose|exited: Result<(), Seq<Seq<char>>>|
                            (exited matches Err(chain) ==> chain.len() >= 1) && lines(done.log@)
                                == reply_lines("Could not handle menu event"@, answer(reply))
                                + #[trigger] exit_lines(exited)
                    } else {
                        Ok(())
                    };
                    let replies = Replies { shown: Seq::empty(), handled: answer(reply), exited };
                    assert(handed.calls =~= before.calls + handler_calls(event));
                    if adopted(answer(reply)) == AppControl::Exit {
                        assert(self@.calls =~= before.calls + handler_calls(event) + seq![
                            Call::Exit,
                        ]);
                    }
                    assert(step(before, event, replies) == (Outcome {
                        state: self@,
                        lines: lines(done.log@),
                    }));
                }
                done
            },
            Event::Other => {
                let done = self.idle();
                proof {
                    let replies = Replies::silent();
                    assert(self@.calls =~= before.calls + handler_calls(event));
                    assert(step(before, event, replies) == (Outcome {
                        state: self@,
                        lines: lines(done.log@),
                    }));
                }
                done
            },
        }
    }

    /// Dispatches a batch of events that arrived together, one at a time and
    /// in order. Once an event has led to exit, the rest of the batch is
    /// dropped without a call into the application.
    pub fn dispatch_all<A: App<U>>(
        &mut self,
        app: &mut A,
        events: Vec<Event<U>>,
    ) -> (done: Dispatched)
        ensures
            final(self)@.wf(),
            exists|replies: Seq<Replies>|
                replies.len() == events@.len() && all_plausible(replies) && #[trigger] steps(
                    old(self)@,
                    events@,
                    replies,
                ) == (Outcome { state: final(self)@, lines: lines(done.log@) }),
            done.flow == final(self)@.phase.flow(),
    {
        proof {
            use_type_invariant(&self.progress);
        }
        let ghost before = self@;
        let ghost mut replies: Seq<Replies> = Seq::empty();
        let ghost mut taken: int = 0;
        let mut log: Vec<LogRecord> = Vec::new();
        assert(lines(log@) =~= Seq::<Line>::empty());
        for event in it: events
            invariant
                self@.wf(),
                taken == it.index(),
                replies.len() == taken,
                all_plausible(replies),
                steps(before, events@.take(taken), replies) == (Outcome {
                    state: self@,
                    lines: lines(log@),
                }),
            ensures
                taken == events@.len() || self@.phase != Phase::Running,
        {
            let ghost so_far = events@.take(taken);
            let ghost earlier = self@;
            let ghost logged = log@;
            let mut done = self.dispatch(app, event);
            proof {
                let reply = choose|reply: Replies|
                    reply.plausible() && #[trigger] step(earlier, event, reply) == (Outcome {
                        state: self@,
                        lines: lines(done.log@),
                    });
                lemma_steps_push(before, so_far, replies, event, reply);
                assert(events@.take(taken + 1) =~= so_far.push(event));
                replies = replies.push(reply);
                taken = taken + 1;
            }
            let ghost added = done.log@;
            log.append(&mut done.log);
            assert(lines(log@) =~= lines(logged) + lines(added));
            if !self.progress.phase().is_running() {
                break ;
            }
        }
        proof {
            let rest = events@.skip(taken);
            let silent = Seq::new(rest.len(), |i: int| Replies::silent());
            lemma_steps_concat(before, events@.take(taken), replies, rest, silent);
            if rest.len() > 0 {
                lemma_steps_idle(self@, rest, silent);
            }
            assert(events@.take(taken) + rest =~= events@);
            assert(lines(log@) + Seq::<Line>::empty() =~= lines(log@));
            replies = replies + silent;
        }
        Dispatched { flow: self.progress.phase().control_flow(), log }
    }

    /// Dispatches everything that is pending as one batch. Outside `Running`
    /// nothing happens and the queue is left as it is.
    pub fn wake<A: App<U>>(&mut self, app: &mut A) -> (done: Dispatched)
        ensures
            final(self)@.wf(),
            exists|replies: Seq<Replies>|
                replies.len() == old(self)@.pending.len() && all_plausible(replies)
                    && #[trigger] woken(old(self)@, replies) == (Outcome {
                    state: final(self)@,
                    lines: lines(done.log@),
                }),
            done.flow == final(self)@.phase.flow(),
    {
        if !self.progress.phase().is_running() {
            let done = self.idle();
            proof {
                let silent = Seq::new(self@.pending.len(), |i: int| Replies::silent());
                assert(woken(self@, silent) == (Outcome { state: self@, lines: lines(done.log@) }));
            }
            return done;
        }
        let mut batch: Vec<Event<U>> = Vec::new();
        core::mem::swap(&mut batch, &mut self.pending);
        let ghost drained = self@;
        let done = self.dispatch_all(app, batch);
        proof {
            let replies = choose|replies: Seq<Replies>|
                replies.len() == batch@.len() && all_plausible(replies) && #[trigger] steps(
                    drained,
                    batch@,
                    replies,
                ) == (Outcome { state: self@, lines: lines(done.log@) });
            assert(drained == old(self)@.drained());
            assert(woken(old(self)@, replies) == (Outcome {
                state: self@,
                lines: lines(done.log@),
            }));
        }
        done
    }

    /// Starts the loop: it enters `Running` and dispatches what was sent
    /// before the start. A loop is started once; on a loop that was started
    /// before, nothing happens.
    pub fn start<A: App<U>>(&mut self, app: &mut A) -> (done: Dispatched)
        ensures
            final(self)@.wf(),
            exists|replies: Seq<Replies>|
                replies.len() == old(self)@.pending.len() && all_plausible(replies)
                    && #[trigger] started(old(self)@, replies) == (Outcome {
                    state: final(self)@,
                    lines: lines(done.log@),
                }),
            done.flow == final(self)@.phase.flow(),
    {
        match self.progress.phase() {
            Phase::Uninitialized => {},
            _ => {
                let done = self.idle();
                proof {
                    let silent = Seq::new(self@.pending.len(), |i: int| Replies::silent());
                    assert(started(self@, silent) == (Outcome {
                        state: self@,
                        lines: lines(done.log@),
                    }));
                }
                return done;
            },
        }
        self.progress.begin();
        let ghost ready = self@;
        let done = self.wake(app);
        proof {
            let replies = choose|replies: Seq<Replies>|
                replies.len() == ready.pending.len() && all_plausible(replies) && #[trigger] woken(
                    ready,
                    replies,
                ) == (Outcome { state: self@, lines: lines(done.log@) });
            assert(started(old(self)@, replies) == (Outcome {
                state: self@,
                lines: lines(done.log@),
            }));
        }
        done
    }
}

} // verus!
