//! The loop as a mathematical state machine: its state, the effect of one
//! event, of a batch of events, and of a send through a channel.

use vstd::prelude::*;
use crate::app::{adopted, exit_lines, reply_lines};
use crate::control::{AppControl, LoopId, Phase};
use crate::event::{Event, MenuId};
use crate::report::{debug_line, error_line, Line};

verus! {

/// One call the loop made into the application.
pub enum Call<U> {
    /// `handle_user_event`, with the event delivered.
    UserEvent(U),
    /// `handle_menu_event`, with the entry activated.
    MenuEvent(MenuId),
    /// `handle_exit`.
    Exit,
}

/// Everything the application said while one event was dispatched. Whatever
/// the event does not ask for is ignored.
pub struct Replies {
    /// How the user event renders for the log.
    pub shown: Seq<char>,
    /// What the event's handler answered.
    pub handled: Result<AppControl, Seq<Seq<char>>>,
    /// What the exit hook answered.
    pub exited: Result<(), Seq<Seq<char>>>,
}

/// The state of an event loop.
pub struct LoopState<U> {
    /// Which loop this is.
    pub id: LoopId,
    /// Where the loop is in its life.
    pub phase: Phase,
    /// The events queued and not yet dispatched, oldest first.
    pub pending: Seq<Event<U>>,
    /// Every call made into the application so far, in order.
    pub calls: Seq<Call<U>>,
}

/// What dispatching one event comes to.
pub struct Outcome<U> {
    /// The state of the loop afterwards.
    pub state: LoopState<U>,
    /// What was logged, in order.
    pub lines: Seq<Line>,
}

impl Replies {
    /// The replies of an application that is not asked anything.
    pub open spec fn silent() -> Replies {
        Replies { shown: Seq::empty(), handled: Ok(AppControl::Continue), exited: Ok(()) }
    }

    /// A failure always comes with at least one cause: itself.
    pub open spec fn plausible(self) -> bool {
        &&& self.handled matches Err(chain) ==> chain.len() >= 1
        &&& self.exited matches Err(chain) ==> chain.len() >= 1
    }
}

/// The answer of a handler that succeeds with the given decision.
pub open spec fn answered(control: AppControl) -> Result<AppControl, Seq<Seq<char>>> {
    Ok(control)
}

/// How the calls a loop has made fit its phase: the exit hook is called when
/// the loop leaves `Running`, and it is the last call the loop ever makes; a
/// loop that was never started has called nothing.
pub open spec fn consistent<U>(phase: Phase, calls: Seq<Call<U>>) -> bool {
    &&& phase == Phase::Uninitialized ==> calls.len() == 0
    &&& forall|i: int| 0 <= i < calls.len() - 1 ==> !(#[trigger] calls[i] is Exit)
    &&& phase.has_left_running() <==> (calls.len() > 0 && calls.last() is Exit)
}

/// How many of the calls are calls of the exit hook.
pub open spec fn exits<U>(calls: Seq<Call<U>>) -> nat
    decreases calls.len(),
{
    if calls.len() == 0 {
        0
    } else if calls.last() is Exit {
        exits(calls.drop_last()) + 1
    } else {
        exits(calls.drop_last())
    }
}

/// Every entry is plausible.
pub open spec fn all_plausible(replies: Seq<Replies>) -> bool {
    forall|i: int| 0 <= i < replies.len() ==> (#[trigger] replies[i]).plausible()
}

impl<U> LoopState<U> {
    /// A loop that was just constructed.
    pub open spec fn fresh(id: LoopId) -> Self {
        LoopState { id, phase: Phase::Uninitialized, pending: Seq::empty(), calls: Seq::empty() }
    }

    /// The same loop once it has entered `Running`.
    pub open spec fn running(self) -> Self {
        LoopState { phase: Phase::Running, ..self }
    }

    /// The calls made fit the phase.
    pub open spec fn wf(self) -> bool {
        consistent(self.phase, self.calls)
    }

    /// The same loop with nothing pending.
    pub open spec fn drained(self) -> Self {
        LoopState { pending: Seq::empty(), ..self }
    }

    /// How often the exit hook was called.
    pub open spec fn exit_calls(self) -> nat {
        exits(self.calls)
    }
}

/// The decision the loop takes on an event: a close request is an exit
/// without asking, a user or menu event goes by its handler's answer, and
/// anything else keeps the loop running.
pub open spec fn decision<U>(
    event: Event<U>,
    handled: Result<AppControl, Seq<Seq<char>>>,
) -> AppControl {
    match event {
        Event::Init => AppControl::Continue,
        Event::CloseRequested => AppControl::Exit,
        Event::User(_) => adopted(handled),
        Event::Menu(_) => adopted(handled),
        Event::Other => AppControl::Continue,
    }
}

/// The handler call that an event leads to, if any.
pub open spec fn handler_calls<U>(event: Event<U>) -> Seq<Call<U>> {
    match event {
        Event::User(payload) => seq![Call::UserEvent(payload)],
        Event::Menu(menu_id) => seq![Call::MenuEvent(menu_id)],
        _ => Seq::empty(),
    }
}

/// What handling an event logs, before any exit.
pub open spec fn event_lines<U>(event: Event<U>, replies: Replies) -> Seq<Line> {
    match event {
        Event::Init => seq![debug_line("Application has started"@)],
        Event::CloseRequested => seq![debug_line("Closing window was requested"@)],
        Event::User(_) => seq![debug_line("Handling user event "@ + replies.shown)] + reply_lines(
            "Could not handle user event"@,
            replies.handled,
        ),
        Event::Menu(_) => reply_lines("Could not handle menu event"@, replies.handled),
        Event::Other => Seq::empty(),
    }
}

/// The effect of one event. Outside `Running` nothing is dispatched. In
/// `Running` the event's handler, if it has one, is called once; if the
/// decision is to exit, the exit hook is called once right after and the loop
/// terminates.
pub open spec fn step<U>(state: LoopState<U>, event: Event<U>, replies: Replies) -> Outcome<U> {
    if state.phase != Phase::Running {
        Outcome { state, lines: Seq::empty() }
    } else if decision(event, replies.handled) == AppControl::Exit {
        Outcome {
            state: LoopState {
                phase: Phase::Terminated,
                calls: state.calls + handler_calls(event) + seq![Call::Exit],
                ..state
            },
            lines: event_lines(event, replies) + exit_lines(replies.exited),
        }
    } else {
        Outcome {
            state: LoopState { calls: state.calls + handler_calls(event), ..state },
            lines: event_lines(event, replies),
        }
    }
}

/// The effect of a batch of events, dispatched one at a time in order, each
/// with the application's replies to it. `replies` has one entry per event.
pub open spec fn steps<U>(
    state: LoopState<U>,
    events: Seq<Event<U>>,
    replies: Seq<Replies>,
) -> Outcome<U>
    decreases events.len(),
{
    if events.len() == 0 {
        Outcome { state, lines: Seq::empty() }
    } else {
        let before = steps(state, events.drop_last(), replies.drop_last());
        let last = step(before.state, events.last(), replies.last());
        Outcome { state: last.state, lines: before.lines + last.lines }
    }
}

/// The effect of a wake-up: in `Running`, everything pending is dispatched as
/// one batch and the queue is left empty; in any other phase nothing happens.
pub open spec fn woken<U>(state: LoopState<U>, replies: Seq<Replies>) -> Outcome<U> {
    if state.phase != Phase::Running {
        Outcome { state, lines: Seq::empty() }
    } else {
        steps(state.drained(), state.pending, replies)
    }
}

/// The effect of starting a loop: it enters `Running` and dispatches what
/// was sent to it before the start. A loop that was started before is left as
/// it is.
pub open spec fn started<U>(state: LoopState<U>, replies: Seq<Replies>) -> Outcome<U> {
    if state.phase != Phase::Uninitialized {
        Outcome { state, lines: Seq::empty() }
    } else {
        woken(state.running(), replies)
    }
}

/// The identity of the loop that a run makes for itself.
pub open spec fn run_loop() -> LoopId {
    LoopId(0)
}

/// The whole life of a loop that finds the given events waiting when it is
/// started.
pub open spec fn ran_over<U>(events: Seq<Event<U>>, replies: Seq<Replies>) -> Outcome<U> {
    started(LoopState { pending: events, ..LoopState::fresh(run_loop()) }, replies)
}

/// The line that reports an event that could not be delivered, with the
/// reason given.
pub open spec fn undelivered_line(reason: Seq<char>) -> Line {
    error_line("Could not send user event for message from WebView: "@ + reason)
}

/// Why a loop that has terminated takes no more events.
pub open spec fn closed_reason() -> Seq<char> {
    "the event loop has terminated"@
}

/// Why a loop takes no event from a channel that serves another loop.
pub open spec fn stranger_reason() -> Seq<char> {
    "the channel serves another event loop"@
}

/// What the outcome of a delivery adds to the log: nothing if the event was
/// delivered, the failure with its reason otherwise.
pub open spec fn delivery_lines(outcome: Result<(), Seq<char>>) -> Seq<Line> {
    match outcome {
        Ok(_) => Seq::empty(),
        Err(reason) => seq![undelivered_line(reason)],
    }
}

/// The effect of a send to the loop that the channel serves: the event joins
/// the queue behind all that are pending, unless the loop has terminated;
/// then the event is dropped and the failure logged.
pub open spec fn sent<U>(state: LoopState<U>, payload: U) -> (LoopState<U>, Seq<Line>) {
    if state.phase.accepts_events() {
        (LoopState { pending: state.pending.push(Event::User(payload)), ..state }, Seq::empty())
    } else {
        (state, seq![undelivered_line(closed_reason())])
    }
}

/// The effect of a send through a channel that serves the loop `serves`: on
/// that loop it is a send; any other loop is left as it is, and the failure
/// of the delivery is logged.
pub open spec fn sent_through<U>(serves: LoopId, state: LoopState<U>, payload: U) -> (
    LoopState<U>,
    Seq<Line>,
) {
    if serves == state.id {
        sent(state, payload)
    } else {
        (state, seq![undelivered_line(stranger_reason())])
    }
}

/// A batch with one more event at its end comes to the batch, then the step
/// for that event.
pub proof fn lemma_steps_push<U>(
    state: LoopState<U>,
    events: Seq<Event<U>>,
    replies: Seq<Replies>,
    event: Event<U>,
    reply: Replies,
)
    ensures
        steps(state, events.push(event), replies.push(reply)) == ({
            let before = steps(state, events, replies);
            let last = step(before.state, event, reply);
            Outcome { state: last.state, lines: before.lines + last.lines }
        }),
{
    assert(events.push(event).drop_last() =~= events);
    assert(replies.push(reply).drop_last() =~= replies);
}

/// Outside `Running` a batch changes nothing and logs nothing, whatever it
/// holds.
pub proof fn lemma_steps_idle<U>(
    state: LoopState<U>,
    events: Seq<Event<U>>,
    replies: Seq<Replies>,
)
    requires
        state.phase != Phase::Running,
    ensures
        steps(state, events, replies) == (Outcome { state, lines: Seq::empty() }),
    decreases events.len(),
{
    if events.len() > 0 {
        lemma_steps_idle(state, events.drop_last(), replies.drop_last());
        assert(Seq::<Line>::empty() + Seq::<Line>::empty() =~= Seq::<Line>::empty());
    }
}

/// Two batches in a row come to one batch of both.
pub proof fn lemma_steps_concat<U>(
    state: LoopState<U>,
    first: Seq<Event<U>>,
    first_replies: Seq<Replies>,
    second: Seq<Event<U>>,
    second_replies: Seq<Replies>,
)
    requires
        first.len() == first_replies.len(),
        second.len() == second_replies.len(),
    ensures
        steps(state, first + second, first_replies + second_replies) == ({
            let before = steps(state, first, first_replies);
            let after = steps(before.state, second, second_replies);
            Outcome { state: after.state, lines: before.lines + after.lines }
        }),
    decreases second.len(),
{
    let before = steps(state, first, first_replies);
    if second.len() == 0 {
        assert(first + second =~= first);
        assert(first_replies + second_replies =~= first_replies);
        assert(before.lines + Seq::<Line>::empty() =~= before.lines);
    } else {
        lemma_steps_concat(
            state,
            first,
            first_replies,
            second.drop_last(),
            second_replies.drop_last(),
        );
        assert((first + second).drop_last() =~= first + second.drop_last());
        assert((first_replies + second_replies).drop_last() =~= first_replies
            + second_replies.drop_last());
        assert((first + second).last() == second.last());
        assert((first_replies + second_replies).last() == second_replies.last());
        let middle = steps(before.state, second.drop_last(), second_replies.drop_last());
        let last = step(middle.state, second.last(), second_replies.last());
        assert((before.lines + middle.lines) + last.lines =~= before.lines + (middle.lines
            + last.lines));
    }
}

} // verus!
