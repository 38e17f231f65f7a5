//! What holds of the loop on every run, proved of the state machine that the
//! loop's contracts are stated over.

use vstd::prelude::*;
use crate::app::{adopted, exit_lines};
use crate::control::{AppControl, LoopId, Phase};
use crate::event::{Event, MenuId};
use crate::model::{
    answered, closed_reason, decision, event_lines, exits, handler_calls, lemma_steps_concat,
    lemma_steps_idle, ran_over, run_loop, sent, sent_through, started, step, steps,
    stranger_reason, undelivered_line, woken, Call, LoopState, Outcome, Replies,
};
use crate::report::{cause_lines, debug_line, error_line, failure_lines, Line};

verus! {

/// The user events that deliver the given payloads.
pub open spec fn user_events<U>(payloads: Seq<U>) -> Seq<Event<U>> {
    payloads.map_values(|payload: U| Event::User(payload))
}

/// The handler calls that deliver the given payloads.
pub open spec fn user_calls<U>(payloads: Seq<U>) -> Seq<Call<U>> {
    payloads.map_values(|payload: U| Call::UserEvent(payload))
}

/// The menu events that report the given activations.
pub open spec fn menu_events<U>(ids: Seq<MenuId>) -> Seq<Event<U>> {
    ids.map_values(|menu_id: MenuId| Event::Menu(menu_id))
}

/// The handler calls that report the given activations.
pub open spec fn menu_calls<U>(ids: Seq<MenuId>) -> Seq<Call<U>> {
    ids.map_values(|menu_id: MenuId| Call::MenuEvent(menu_id))
}

/// The handler calls that the events of a batch lead to, in the order of the
/// events: one for each user event and each menu activation, none for
/// anything else.
pub open spec fn calls_for<U>(events: Seq<Event<U>>) -> Seq<Call<U>>
    decreases events.len(),
{
    if events.len() == 0 {
        Seq::empty()
    } else {
        calls_for(events.drop_last()) + handler_calls(events.last())
    }
}

/// The payloads of the user events of a batch, in the order of the events.
pub open spec fn user_payloads<U>(events: Seq<Event<U>>) -> Seq<U>
    decreases events.len(),
{
    if events.len() == 0 {
        Seq::empty()
    } else {
        match events.last() {
            Event::User(payload) => user_payloads(events.drop_last()).push(payload),
            _ => user_payloads(events.drop_last()),
        }
    }
}

/// The state after the given payloads were sent through channels, in order.
pub open spec fn sent_all<U>(state: LoopState<U>, payloads: Seq<U>) -> LoopState<U>
    decreases payloads.len(),
{
    if payloads.len() == 0 {
        state
    } else {
        sent(sent_all(state, payloads.drop_last()), payloads.last()).0
    }
}

/// Calls without a call of the exit hook count no exit.
proof fn lemma_no_exit<U>(calls: Seq<Call<U>>)
    requires
        forall|i: int| 0 <= i < calls.len() ==> !(#[trigger] calls[i] is Exit),
    ensures
        exits(calls) == 0,
    decreases calls.len(),
{
    if calls.len() > 0 {
        lemma_no_exit(calls.drop_last());
    }
}

/// The exit hook is called exactly once by a loop that has left `Running`,
/// and never by a loop that has not.
pub proof fn law_exit_hook_runs_once<U>(state: LoopState<U>)
    requires
        state.wf(),
    ensures
        state.exit_calls() == (if state.phase.has_left_running() {
            1nat
        } else {
            0nat
        }),
{
    if state.calls.len() > 0 {
        lemma_no_exit(state.calls.drop_last());
        if !state.phase.has_left_running() {
            lemma_no_exit(state.calls);
        }
    }
}

/// Whatever the event and whatever the application answers, a step keeps the
/// calls consistent with the phase, never moves the loop back in its life,
/// only ever adds to the calls made, and leaves the queue alone.
pub proof fn law_step_moves_forward<U>(state: LoopState<U>, event: Event<U>, replies: Replies)
    requires
        state.wf(),
    ensures
        step(state, event, replies).state.wf(),
        state.phase.rank() <= step(state, event, replies).state.phase.rank(),
        state.calls.is_prefix_of(step(state, event, replies).state.calls),
        step(state, event, replies).state.pending == state.pending,
{
    let after = step(state, event, replies).state;
    if state.phase == Phase::Running {
        assert(after.calls.len() >= state.calls.len());
    }
}

/// The same for a batch.
pub proof fn law_steps_move_forward<U>(
    state: LoopState<U>,
    events: Seq<Event<U>>,
    replies: Seq<Replies>,
)
    requires
        state.wf(),
    ensures
        steps(state, events, replies).state.wf(),
        state.phase.rank() <= steps(state, events, replies).state.phase.rank(),
        state.calls.is_prefix_of(steps(state, events, replies).state.calls),
        steps(state, events, replies).state.pending == state.pending,
    decreases events.len(),
{
    if events.len() > 0 {
        law_steps_move_forward(state, events.drop_last(), replies.drop_last());
        let before = steps(state, events.drop_last(), replies.drop_last()).state;
        law_step_moves_forward(before, events.last(), replies.last());
    }
}

/// Once a loop has terminated it stays as it is: no event is dispatched, no
/// handler is called, nothing is logged.
pub proof fn law_terminated_is_final<U>(
    state: LoopState<U>,
    events: Seq<Event<U>>,
    replies: Seq<Replies>,
)
    requires
        state.phase == Phase::Terminated,
    ensures
        steps(state, events, replies) == (Outcome { state, lines: Seq::empty() }),
{
    lemma_steps_idle(state, events, replies);
}

/// A batch in which no event leads to exit leaves the loop running, and the
/// application is called once for each user event and each menu activation,
/// in the order of the events, and for nothing else: not for the backend's
/// initialization, not for an event the loop does not know.
pub proof fn law_batch_that_continues<U>(
    state: LoopState<U>,
    events: Seq<Event<U>>,
    replies: Seq<Replies>,
)
    requires
        state.phase == Phase::Running,
        replies.len() == events.len(),
        forall|i: int|
            0 <= i < events.len() ==> decision(events[i], (#[trigger] replies[i]).handled)
                == AppControl::Continue,
    ensures
        steps(state, events, replies).state == (LoopState {
            id: state.id,
            phase: Phase::Running,
            pending: state.pending,
            calls: state.calls + calls_for(events),
        }),
    decreases events.len(),
{
    if events.len() == 0 {
        assert(state.calls + calls_for(events) =~= state.calls);
    } else {
        law_batch_that_continues(state, events.drop_last(), replies.drop_last());
        assert(state.calls + calls_for(events.drop_last()) + handler_calls(events.last())
            =~= state.calls + calls_for(events));
    }
}

/// In a batch without menu activations the only calls are those of the user
/// handler: one for each user event, in the order of the events.
pub proof fn law_batch_without_menu_calls_user_handler<U>(events: Seq<Event<U>>)
    requires
        forall|i: int| 0 <= i < events.len() ==> !(#[trigger] events[i] is Menu),
    ensures
        calls_for(events) == user_calls(user_payloads(events)),
    decreases events.len(),
{
    if events.len() == 0 {
        assert(calls_for(events) =~= user_calls(user_payloads(events)));
    } else {
        law_batch_without_menu_calls_user_handler(events.drop_last());
        let before = user_payloads(events.drop_last());
        match events.last() {
            Event::User(payload) => {
                assert(user_calls(before) + seq![Call::UserEvent(payload)] =~= user_calls(
                    before.push(payload),
                ));
            },
            _ => {
                assert(user_calls(before) + Seq::<Call<U>>::empty() =~= user_calls(before));
            },
        }
    }
}

/// A run over waiting events is one batch dispatched by a running loop that
/// has called nothing yet.
pub proof fn law_run_is_one_batch<U>(events: Seq<Event<U>>, replies: Seq<Replies>)
    ensures
        ran_over(events, replies) == steps(
            LoopState::<U>::fresh(run_loop()).running(),
            events,
            replies,
        ),
{
}

/// As long as every handler answers `Continue`, user events never stop the
/// loop, and each is handed to the application exactly once, in the order in
/// which the events came.
pub proof fn law_user_events_keep_running<U>(
    state: LoopState<U>,
    payloads: Seq<U>,
    replies: Seq<Replies>,
)
    requires
        state.phase == Phase::Running,
        replies.len() == payloads.len(),
        forall|i: int|
            0 <= i < replies.len() ==> (#[trigger] replies[i]).handled == answered(
                AppControl::Continue,
            ),
    ensures
        steps(state, user_events(payloads), replies).state == (LoopState {
            id: state.id,
            phase: Phase::Running,
            pending: state.pending,
            calls: state.calls + user_calls(payloads),
        }),
    decreases payloads.len(),
{
    if payloads.len() == 0 {
        assert(state.calls + user_calls(payloads) =~= state.calls);
    } else {
        law_user_events_keep_running(state, payloads.drop_last(), replies.drop_last());
        assert(user_events(payloads).drop_last() =~= user_events(payloads.drop_last()));
        assert(user_events(payloads).last() == Event::User(payloads.last()));
        assert(state.calls + user_calls(payloads.drop_last()) + seq![
            Call::UserEvent(payloads.last()),
        ] =~= state.calls + user_calls(payloads));
    }
}

/// Events sent through channels wait in the order in which they were sent,
/// behind what was pending, for as long as the loop has not terminated.
pub proof fn law_sends_queue_in_order<U>(state: LoopState<U>, payloads: Seq<U>)
    requires
        state.phase.accepts_events(),
    ensures
        sent_all(state, payloads) == (LoopState {
            id: state.id,
            phase: state.phase,
            pending: state.pending + user_events(payloads),
            calls: state.calls,
        }),
    decreases payloads.len(),
{
    if payloads.len() == 0 {
        assert(state.pending + user_events(payloads) =~= state.pending);
    } else {
        law_sends_queue_in_order(state, payloads.drop_last());
        assert((state.pending + user_events(payloads.drop_last())).push(
            Event::User(payloads.last()),
        ) =~= state.pending + user_events(payloads));
    }
}

/// What was sent to an idle running loop is handed to the application at the
/// next wake-up, each event once and in the order of the sends, if every
/// handler answers `Continue`; and the loop runs on with an empty queue.
pub proof fn law_sent_events_are_delivered<U>(
    state: LoopState<U>,
    payloads: Seq<U>,
    replies: Seq<Replies>,
)
    requires
        state.phase == Phase::Running,
        state.pending.len() == 0,
        replies.len() == payloads.len(),
        forall|i: int|
            0 <= i < replies.len() ==> (#[trigger] replies[i]).handled == answered(
                AppControl::Continue,
            ),
    ensures
        woken(sent_all(state, payloads), replies).state == (LoopState {
            id: state.id,
            phase: Phase::Running,
            pending: Seq::empty(),
            calls: state.calls + user_calls(payloads),
        }),
{
    law_sends_queue_in_order(state, payloads);
    assert(state.pending + user_events(payloads) =~= user_events(payloads));
    law_user_events_keep_running(sent_all(state, payloads).drained(), payloads, replies);
}

/// The first event of a batch that leads to exit ends the batch: the
/// application is called for the events up to and including that one, in
/// order, then the exit hook is called, once, and the loop terminates. What
/// stands behind that event in the batch might as well not be there.
pub proof fn law_exit_ends_batch<U>(
    state: LoopState<U>,
    events: Seq<Event<U>>,
    replies: Seq<Replies>,
    position: int,
)
    requires
        state.wf(),
        state.phase == Phase::Running,
        replies.len() == events.len(),
        0 <= position < events.len(),
        decision(events[position], replies[position].handled) == AppControl::Exit,
        forall|i: int|
            0 <= i < position ==> decision(events[i], (#[trigger] replies[i]).handled)
                == AppControl::Continue,
    ensures
        steps(state, events, replies) == steps(
            state,
            events.take(position + 1),
            replies.take(position + 1),
        ),
        steps(state, events, replies).state == (LoopState {
            id: state.id,
            phase: Phase::Terminated,
            pending: state.pending,
            calls: state.calls + calls_for(events.take(position + 1)) + seq![Call::Exit],
        }),
        steps(state, events, replies).state.exit_calls() == 1,
{
    let head = events.take(position);
    let head_replies = replies.take(position);
    law_batch_that_continues(state, head, head_replies);
    let upto = events.take(position + 1);
    let upto_replies = replies.take(position + 1);
    assert(upto.drop_last() =~= head);
    assert(upto_replies.drop_last() =~= head_replies);
    let at = steps(state, upto, upto_replies);
    assert(at.state.phase == Phase::Terminated);
    assert(at.state.calls =~= state.calls + calls_for(upto) + seq![Call::Exit]);
    let rest = events.skip(position + 1);
    let rest_replies = replies.skip(position + 1);
    lemma_steps_concat(state, upto, upto_replies, rest, rest_replies);
    lemma_steps_idle(at.state, rest, rest_replies);
    assert(upto + rest =~= events);
    assert(upto_replies + rest_replies =~= replies);
    assert(at.lines + Seq::<Line>::empty() =~= at.lines);
    law_steps_move_forward(state, events, replies);
    law_exit_hook_runs_once(at.state);
}

/// When the handler of the menu event at `position` is the first to answer
/// `Exit`, the events up to it are handed to the application in order, then
/// the exit hook is called, once, and the loop terminates. No event behind
/// `position` is dispatched, in this batch or in any later one.
pub proof fn law_exit_stops_dispatch<U>(
    state: LoopState<U>,
    ids: Seq<MenuId>,
    replies: Seq<Replies>,
    position: int,
    later: Seq<Event<U>>,
    later_replies: Seq<Replies>,
)
    requires
        state.wf(),
        state.phase == Phase::Running,
        replies.len() == ids.len(),
        0 <= position < ids.len(),
        replies[position].handled == answered(AppControl::Exit),
        forall|i: int|
            0 <= i < position ==> adopted((#[trigger] replies[i]).handled)
                == AppControl::Continue,
    ensures
        steps(state, menu_events(ids), replies).state == (LoopState {
            id: state.id,
            phase: Phase::Terminated,
            pending: state.pending,
            calls: state.calls + menu_calls(ids.take(position + 1)) + seq![Call::Exit],
        }),
        steps(state, menu_events(ids), replies).state.exit_calls() == 1,
        steps(steps(state, menu_events(ids), replies).state, later, later_replies) == (Outcome {
            state: steps(state, menu_events(ids), replies).state,
            lines: Seq::empty(),
        }),
{
    let events = menu_events::<U>(ids);
    law_exit_ends_batch(state, events, replies, position);
    let head = events.take(position);
    let head_replies = replies.take(position);
    lemma_menu_events_continue(state, ids.take(position), head_replies);
    assert(menu_events::<U>(ids.take(position)) =~= head);
    let upto = events.take(position + 1);
    let upto_replies = replies.take(position + 1);
    assert(upto.drop_last() =~= head);
    assert(upto_replies.drop_last() =~= head_replies);
    assert(upto.last() == Event::<U>::Menu(ids[position]));
    assert(upto_replies.last() == replies[position]);
    let end = steps(state, upto, upto_replies).state;
    assert(end.calls =~= state.calls + menu_calls(ids.take(position + 1)) + seq![Call::Exit]) by {
        assert(menu_calls::<U>(ids.take(position + 1)) =~= menu_calls::<U>(
            ids.take(position),
        ).push(Call::MenuEvent(ids[position])));
    }
    lemma_steps_idle(end, later, later_replies);
}

/// Menu events whose handlers all lead to `Continue`, by their answer or by
/// failing, are handed to the application in order and keep the loop
/// running.
proof fn lemma_menu_events_continue<U>(
    state: LoopState<U>,
    ids: Seq<MenuId>,
    replies: Seq<Replies>,
)
    requires
        state.phase == Phase::Running,
        replies.len() == ids.len(),
        forall|i: int|
            0 <= i < replies.len() ==> adopted((#[trigger] replies[i]).handled)
                == AppControl::Continue,
    ensures
        steps(state, menu_events(ids), replies).state == (LoopState {
            id: state.id,
            phase: Phase::Running,
            pending: state.pending,
            calls: state.calls + menu_calls(ids),
        }),
    decreases ids.len(),
{
    if ids.len() == 0 {
        assert(state.calls + menu_calls::<U>(ids) =~= state.calls);
    } else {
        lemma_menu_events_continue(state, ids.drop_last(), replies.drop_last());
        assert(menu_events::<U>(ids).drop_last() =~= menu_events::<U>(ids.drop_last()));
        assert(menu_events::<U>(ids).last() == Event::<U>::Menu(ids.last()));
        assert(state.calls + menu_calls::<U>(ids.drop_last()) + seq![
            Call::MenuEvent(ids.last()),
        ] =~= state.calls + menu_calls::<U>(ids));
    }
}

/// A close request always ends the loop: no handler is asked, the exit hook
/// is called, once, and the loop terminates, whatever the application would
/// have answered.
pub proof fn law_close_request_exits<U>(state: LoopState<U>, replies: Replies)
    requires
        state.wf(),
        state.phase == Phase::Running,
    ensures
        step(state, Event::CloseRequested, replies).state == (LoopState {
            id: state.id,
            phase: Phase::Terminated,
            pending: state.pending,
            calls: state.calls.push(Call::Exit),
        }),
        step(state, Event::CloseRequested, replies).state.exit_calls() == 1,
        step(state, Event::CloseRequested, replies).lines == seq![
            debug_line("Closing window was requested"@),
        ] + exit_lines(replies.exited),
{
    let after = step(state, Event::<U>::CloseRequested, replies).state;
    assert(after.calls =~= state.calls.push(Call::Exit));
    law_step_moves_forward(state, Event::<U>::CloseRequested, replies);
    law_exit_hook_runs_once(after);
}

/// A user event whose handler fails keeps the loop running, and the log
/// holds the failure once: what failed, then each cause of the chain, once
/// and in order.
pub proof fn law_failed_handler_continues<U>(
    state: LoopState<U>,
    payload: U,
    replies: Replies,
    chain: Seq<Seq<char>>,
)
    requires
        state.phase == Phase::Running,
        replies.handled == Err::<AppControl, Seq<Seq<char>>>(chain),
    ensures
        decision(Event::User(payload), replies.handled) == AppControl::Continue,
        step(state, Event::User(payload), replies).state.phase == Phase::Running,
        step(state, Event::User(payload), replies).state.calls == state.calls.push(
            Call::UserEvent(payload),
        ),
        step(state, Event::User(payload), replies).lines == seq![
            debug_line("Handling user event "@ + replies.shown),
            error_line("Could not handle user event"@),
        ] + cause_lines(chain),
{
    let out = step(state, Event::User(payload), replies);
    assert(out.state.calls =~= state.calls.push(Call::UserEvent(payload)));
    assert(out.lines =~= seq![
        debug_line("Handling user event "@ + replies.shown),
        error_line("Could not handle user event"@),
    ] + cause_lines(chain));
}

/// When the exit hook fails the loop terminates all the same, and the end of
/// the log holds the failure with its chain of causes.
pub proof fn law_failed_exit_still_terminates<U>(
    state: LoopState<U>,
    event: Event<U>,
    replies: Replies,
    chain: Seq<Seq<char>>,
)
    requires
        state.phase == Phase::Running,
        decision(event, replies.handled) == AppControl::Exit,
        replies.exited == Err::<(), Seq<Seq<char>>>(chain),
    ensures
        step(state, event, replies).state.phase == Phase::Terminated,
        step(state, event, replies).lines == event_lines(event, replies) + seq![
            debug_line("Application is exiting"@),
        ] + failure_lines("Could not handle application exit correctly"@, chain),
{
    let out = step(state, event, replies);
    assert(out.lines =~= event_lines(event, replies) + seq![
        debug_line("Application is exiting"@),
    ] + failure_lines("Could not handle application exit correctly"@, chain));
}

/// A send through a channel of the loop does the same whenever the channel
/// was made and whether or not the loop was started: until the loop has
/// terminated the event joins the end of the queue and nothing is logged.
/// After that the send changes nothing and logs the failure of the delivery.
pub proof fn law_channel_outlives_start<U>(serves: LoopId, state: LoopState<U>, payload: U)
    requires
        serves == state.id,
    ensures
        state.phase != Phase::Terminated ==> sent_through(serves, state, payload) == ((
            LoopState { pending: state.pending.push(Event::User(payload)), ..state },
            Seq::<Line>::empty(),
        )),
        state.phase == Phase::Terminated ==> sent_through(serves, state, payload) == ((
            state,
            seq![undelivered_line(closed_reason())],
        )),
{
}

/// A channel serves one loop and no other: a send through it to another loop
/// leaves that loop as it is, whatever its phase, and logs the failure of the
/// delivery.
pub proof fn law_channel_serves_one_loop<U>(serves: LoopId, state: LoopState<U>, payload: U)
    requires
        serves != state.id,
    ensures
        sent_through(serves, state, payload) == ((
            state,
            seq![undelivered_line(stranger_reason())],
        )),
{
}

/// It makes no difference whether an event is sent before the loop is
/// started or right after: sending, then starting, leaves the loop where
/// starting, then sending and waking up, leaves it, with the same log.
pub proof fn law_send_before_or_after_start<U>(
    serves: LoopId,
    state: LoopState<U>,
    payload: U,
    replies: Seq<Replies>,
)
    requires
        serves == state.id,
        state.phase == Phase::Uninitialized,
    ensures
        started(sent_through(serves, state, payload).0, replies) == woken(
            sent_through(serves, state.running(), payload).0,
            replies,
        ),
{
}

} // verus!
