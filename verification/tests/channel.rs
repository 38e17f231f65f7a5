use app_shell::app::App;
use app_shell::control::{AppControl, ControlFlow, LoopId, Phase};
use app_shell::event::{Event, MenuId};
use app_shell::event_loop::{delivery_report, EventLoop};
use app_shell::report::{Level, LogRecord};

/// An application that counts what it is asked and exits on the user event
/// `0`.
struct Counter {
    users: Vec<u32>,
    exits: usize,
}

impl App<u32> for Counter {
    fn handle_user_event(&mut self, event: u32) -> Result<AppControl, anyhow::Error> {
        self.users.push(event);
        if event == 0 {
            Ok(AppControl::Exit)
        } else {
            Ok(AppControl::Continue)
        }
    }

    fn handle_menu_event(&mut self, _menu_id: MenuId) -> Result<AppControl, anyhow::Error> {
        Ok(AppControl::Continue)
    }

    fn handle_exit(&mut self) -> Result<(), anyhow::Error> {
        self.exits += 1;
        Ok(())
    }
}

fn counter() -> Counter {
    Counter { users: Vec::new(), exits: 0 }
}

fn undelivered() -> LogRecord {
    LogRecord {
        level: Level::Error,
        message: format!(
            "Could not send user event for message from WebView: {}",
            "the event loop has terminated"
        ),
    }
}

#[test]
fn send_before_start_is_delivered_by_start() {
    let mut event_loop: EventLoop<u32> = EventLoop::new(LoopId(1));
    let mut app = counter();
    let channel = event_loop.create_channel();
    assert!(channel.send_event(&mut event_loop, 5).is_empty());
    assert!(channel.send_event(&mut event_loop, 6).is_empty());
    assert_eq!(event_loop.pending(), 2);
    assert_eq!(event_loop.phase(), Phase::Uninitialized);
    let done = event_loop.start(&mut app);
    assert_eq!(done.flow, ControlFlow::Wait);
    assert_eq!(app.users, vec![5, 6]);
    assert_eq!(event_loop.pending(), 0);
    assert_eq!(
        done.log.iter().map(|record| record.message.as_str()).collect::<Vec<_>>(),
        vec!["Handling user event 5", "Handling user event 6"]
    );
}

#[test]
fn send_after_start_is_delivered_by_the_next_wake() {
    let mut event_loop: EventLoop<u32> = EventLoop::new(LoopId(1));
    let mut app = counter();
    event_loop.start(&mut app);
    let channel = event_loop.create_channel();
    assert!(channel.send_event(&mut event_loop, 5).is_empty());
    assert!(channel.send_event(&mut event_loop, 6).is_empty());
    assert_eq!(event_loop.pending(), 2);
    assert!(app.users.is_empty());
    let done = event_loop.wake(&mut app);
    assert_eq!(done.flow, ControlFlow::Wait);
    assert_eq!(app.users, vec![5, 6]);
    assert_eq!(event_loop.pending(), 0);
    assert_eq!(
        done.log.iter().map(|record| record.message.as_str()).collect::<Vec<_>>(),
        vec!["Handling user event 5", "Handling user event 6"]
    );
}

#[test]
fn channels_made_before_and_after_start_behave_alike() {
    let mut event_loop: EventLoop<u32> = EventLoop::new(LoopId(1));
    let mut app = counter();
    let early = event_loop.create_channel();
    event_loop.start(&mut app);
    let late = event_loop.create_channel();
    assert!(early.send_event(&mut event_loop, 1).is_empty());
    assert!(late.send_event(&mut event_loop, 2).is_empty());
    assert!(early.send_event(&mut event_loop, 3).is_empty());
    event_loop.wake(&mut app);
    assert_eq!(app.users, vec![1, 2, 3]);
}

#[test]
fn send_after_termination_is_dropped_and_logged() {
    let mut event_loop: EventLoop<u32> = EventLoop::new(LoopId(1));
    let mut app = counter();
    let channel = event_loop.create_channel();
    event_loop.start(&mut app);
    event_loop.dispatch(&mut app, Event::CloseRequested);
    assert_eq!(event_loop.phase(), Phase::Terminated);
    let log = channel.send_event(&mut event_loop, 9);
    assert_eq!(log, vec![undelivered()]);
    assert_eq!(event_loop.pending(), 0);
    let done = event_loop.wake(&mut app);
    assert_eq!(done.flow, ControlFlow::Exit);
    assert!(done.log.is_empty());
    assert!(app.users.is_empty());
    assert_eq!(app.exits, 1);
}

#[test]
fn wake_stops_at_exit_and_leaves_the_rest_undelivered() {
    let mut event_loop: EventLoop<u32> = EventLoop::new(LoopId(1));
    let mut app = counter();
    event_loop.start(&mut app);
    let channel = event_loop.create_channel();
    channel.send_event(&mut event_loop, 1);
    channel.send_event(&mut event_loop, 0);
    channel.send_event(&mut event_loop, 2);
    let done = event_loop.wake(&mut app);
    assert_eq!(done.flow, ControlFlow::Exit);
    assert_eq!(app.users, vec![1, 0]);
    assert_eq!(app.exits, 1);
    assert_eq!(event_loop.phase(), Phase::Terminated);
    assert_eq!(event_loop.pending(), 0);
}

#[test]
fn wake_before_start_keeps_the_queue() {
    let mut event_loop: EventLoop<u32> = EventLoop::new(LoopId(1));
    let mut app = counter();
    let channel = event_loop.create_channel();
    channel.send_event(&mut event_loop, 4);
    let done = event_loop.wake(&mut app);
    assert_eq!(done.flow, ControlFlow::Wait);
    assert!(done.log.is_empty());
    assert_eq!(event_loop.pending(), 1);
    assert!(app.users.is_empty());
}

#[test]
fn with_pending_queues_the_events_for_the_start() {
    let mut event_loop =
        EventLoop::with_pending(LoopId(1), vec![Event::User(3u32), Event::Other, Event::User(0)]);
    assert_eq!(event_loop.pending(), 3);
    assert_eq!(event_loop.phase(), Phase::Uninitialized);
    let mut app = counter();
    let done = event_loop.start(&mut app);
    assert_eq!(done.flow, ControlFlow::Exit);
    assert_eq!(app.users, vec![3, 0]);
    assert_eq!(app.exits, 1);
}

#[test]
fn a_channel_names_the_loop_that_made_it() {
    let first: EventLoop<u32> = EventLoop::new(LoopId(1));
    let second: EventLoop<u32> = EventLoop::new(LoopId(2));
    assert_eq!(first.id(), LoopId(1));
    assert_eq!(second.id(), LoopId(2));
    assert_eq!(first.create_channel().target(), LoopId(1));
    assert_eq!(first.create_channel().target(), LoopId(1));
    assert_eq!(second.create_channel().target(), LoopId(2));
    assert_eq!(first.pending(), 0);
    assert_eq!(first.phase(), Phase::Uninitialized);
}

#[test]
fn a_channel_does_not_send_into_another_loop() {
    let mut first: EventLoop<u32> = EventLoop::new(LoopId(1));
    let mut second: EventLoop<u32> = EventLoop::new(LoopId(2));
    let channel = first.create_channel();
    let log = channel.send_event(&mut second, 7);
    assert_eq!(
        log,
        vec![LogRecord {
            level: Level::Error,
            message: format!(
                "Could not send user event for message from WebView: {}",
                "the channel serves another event loop"
            ),
        }]
    );
    assert_eq!(second.pending(), 0);
    assert_eq!(first.pending(), 0);
    assert!(channel.send_event(&mut first, 7).is_empty());
    assert_eq!(first.pending(), 1);
    assert_eq!(second.pending(), 0);
}

#[test]
fn a_copy_of_a_channel_serves_the_same_loop() {
    let mut event_loop: EventLoop<u32> = EventLoop::new(LoopId(4));
    let mut app = counter();
    let channel = event_loop.create_channel();
    let copy = channel;
    event_loop.start(&mut app);
    assert!(channel.send_event(&mut event_loop, 1).is_empty());
    assert!(copy.send_event(&mut event_loop, 2).is_empty());
    event_loop.wake(&mut app);
    assert_eq!(app.users, vec![1, 2]);
}

#[test]
fn delivery_report_is_silent_on_success() {
    assert!(delivery_report(Ok(())).is_empty());
}

#[test]
fn delivery_report_logs_the_reason_of_a_failure() {
    let log = delivery_report(Err("the event loop has terminated".to_string()));
    assert_eq!(log, vec![undelivered()]);
    let backend = delivery_report(Err("Tried to wake up a closed `EventLoop`".to_string()));
    assert_eq!(
        backend,
        vec![LogRecord {
            level: Level::Error,
            message: format!(
                "Could not send user event for message from WebView: {}",
                "Tried to wake up a closed `EventLoop`"
            ),
        }]
    );
    let other = delivery_report(Err("queue is full".to_string()));
    assert_eq!(
        other,
        vec![LogRecord {
            level: Level::Error,
            message: format!(
                "Could not send user event for message from WebView: {}",
                "queue is full"
            ),
        }]
    );
}
