use app_shell::app::App;
use app_shell::control::{AppControl, ControlFlow, LoopId, Phase};
use app_shell::event::{Event, MenuId};
use app_shell::event_loop::EventLoop;
use app_shell::report::{Level, LogRecord};
use app_shell::run;

#[derive(Debug, Clone, PartialEq, Eq)]
enum Seen {
    User(String),
    Menu(u16),
    Exit,
}

/// An application that answers from a script and writes down what it is
/// asked.
struct Scripted {
    seen: Vec<Seen>,
    exit_on_user: Option<String>,
    exit_on_menu: Option<u16>,
    fail_on_user: Option<String>,
    fail_on_menu: Option<u16>,
    fail_on_exit: bool,
}

impl Scripted {
    fn new() -> Self {
        Scripted {
            seen: Vec::new(),
            exit_on_user: None,
            exit_on_menu: None,
            fail_on_user: None,
            fail_on_menu: None,
            fail_on_exit: false,
        }
    }
}

fn layered(top: &'static str, middle: &'static str, root: &'static str) -> anyhow::Error {
    anyhow::Error::msg(root).context(middle).context(top)
}

impl App<String> for Scripted {
    fn handle_user_event(&mut self, event: String) -> Result<AppControl, anyhow::Error> {
        self.seen.push(Seen::User(event.clone()));
        if self.fail_on_user.as_deref() == Some(event.as_str()) {
            return Err(layered("cannot render", "cannot read file", "file not found"));
        }
        if self.exit_on_user.as_deref() == Some(event.as_str()) {
            return Ok(AppControl::Exit);
        }
        Ok(AppControl::Continue)
    }

    fn handle_menu_event(&mut self, menu_id: MenuId) -> Result<AppControl, anyhow::Error> {
        self.seen.push(Seen::Menu(menu_id.0));
        if self.fail_on_menu == Some(menu_id.0) {
            return Err(anyhow::Error::msg("unknown menu entry"));
        }
        if self.exit_on_menu == Some(menu_id.0) {
            return Ok(AppControl::Exit);
        }
        Ok(AppControl::Continue)
    }

    fn handle_exit(&mut self) -> Result<(), anyhow::Error> {
        self.seen.push(Seen::Exit);
        if self.fail_on_exit {
            return Err(anyhow::Error::msg("disk full").context("cannot save state"));
        }
        Ok(())
    }
}

fn debug(message: &str) -> LogRecord {
    LogRecord { level: Level::Debug, message: message.to_string() }
}

fn error(message: &str) -> LogRecord {
    LogRecord { level: Level::Error, message: message.to_string() }
}

fn running() -> (EventLoop<String>, Scripted) {
    let mut event_loop = EventLoop::new(LoopId(1));
    let mut app = Scripted::new();
    let done = event_loop.start(&mut app);
    assert_eq!(done.flow, ControlFlow::Wait);
    assert!(done.log.is_empty());
    assert_eq!(event_loop.phase(), Phase::Running);
    (event_loop, app)
}

#[test]
fn new_loop_is_uninitialized_and_empty() {
    let event_loop: EventLoop<String> = EventLoop::new(LoopId(1));
    assert_eq!(event_loop.phase(), Phase::Uninitialized);
    assert_eq!(event_loop.pending(), 0);
}

#[test]
fn start_of_an_empty_loop_calls_nothing() {
    let (event_loop, app) = running();
    assert!(app.seen.is_empty());
    assert_eq!(event_loop.pending(), 0);
}

#[test]
fn start_twice_does_nothing_the_second_time() {
    let (mut event_loop, mut app) = running();
    let again = event_loop.start(&mut app);
    assert_eq!(again.flow, ControlFlow::Wait);
    assert!(again.log.is_empty());
    assert_eq!(event_loop.phase(), Phase::Running);
    assert!(app.seen.is_empty());
}

#[test]
fn events_before_start_are_not_dispatched() {
    let mut event_loop: EventLoop<String> = EventLoop::new(LoopId(1));
    let mut app = Scripted::new();
    let done = event_loop.dispatch(&mut app, Event::User("A".to_string()));
    assert_eq!(done.flow, ControlFlow::Wait);
    assert!(done.log.is_empty());
    assert!(app.seen.is_empty());
    assert_eq!(event_loop.phase(), Phase::Uninitialized);
}

#[test]
fn init_event_is_logged_without_a_callback() {
    let (mut event_loop, mut app) = running();
    let done = event_loop.dispatch(&mut app, Event::Init);
    assert_eq!(done.flow, ControlFlow::Wait);
    assert_eq!(done.log, vec![debug("Application has started")]);
    assert!(app.seen.is_empty());
}

#[test]
fn other_events_are_passed_over() {
    let (mut event_loop, mut app) = running();
    let done = event_loop.dispatch(&mut app, Event::Other);
    assert_eq!(done.flow, ControlFlow::Wait);
    assert!(done.log.is_empty());
    assert!(app.seen.is_empty());
    assert_eq!(event_loop.phase(), Phase::Running);
}

#[test]
fn user_event_is_handed_to_its_handler() {
    let (mut event_loop, mut app) = running();
    let done = event_loop.dispatch(&mut app, Event::User("A".to_string()));
    assert_eq!(done.flow, ControlFlow::Wait);
    assert_eq!(done.log, vec![debug("Handling user event \"A\"")]);
    assert_eq!(app.seen, vec![Seen::User("A".to_string())]);
    assert_eq!(event_loop.phase(), Phase::Running);
}

#[test]
fn user_event_can_request_exit() {
    let (mut event_loop, mut app) = running();
    app.exit_on_user = Some("quit".to_string());
    let done = event_loop.dispatch(&mut app, Event::User("quit".to_string()));
    assert_eq!(done.flow, ControlFlow::Exit);
    assert_eq!(
        done.log,
        vec![debug("Handling user event \"quit\""), debug("Application is exiting")]
    );
    assert_eq!(app.seen, vec![Seen::User("quit".to_string()), Seen::Exit]);
    assert_eq!(event_loop.phase(), Phase::Terminated);
}

#[test]
fn menu_event_is_handed_to_its_handler() {
    let (mut event_loop, mut app) = running();
    let done = event_loop.dispatch(&mut app, Event::Menu(MenuId(3)));
    assert_eq!(done.flow, ControlFlow::Wait);
    assert!(done.log.is_empty());
    assert_eq!(app.seen, vec![Seen::Menu(3)]);
}

#[test]
fn menu_exit_runs_the_exit_hook_once() {
    let (mut event_loop, mut app) = running();
    app.exit_on_menu = Some(7);
    let done = event_loop.dispatch(&mut app, Event::Menu(MenuId(7)));
    assert_eq!(done.flow, ControlFlow::Exit);
    assert_eq!(done.log, vec![debug("Application is exiting")]);
    assert_eq!(app.seen, vec![Seen::Menu(7), Seen::Exit]);
    assert_eq!(event_loop.phase(), Phase::Terminated);
}

#[test]
fn close_request_exits_without_asking_a_handler() {
    let (mut event_loop, mut app) = running();
    let done = event_loop.dispatch(&mut app, Event::CloseRequested);
    assert_eq!(done.flow, ControlFlow::Exit);
    assert_eq!(
        done.log,
        vec![debug("Closing window was requested"), debug("Application is exiting")]
    );
    assert_eq!(app.seen, vec![Seen::Exit]);
    assert_eq!(event_loop.phase(), Phase::Terminated);
}

#[test]
fn failed_user_handler_is_logged_with_its_chain_and_continues() {
    let (mut event_loop, mut app) = running();
    app.fail_on_user = Some("A".to_string());
    let done = event_loop.dispatch(&mut app, Event::User("A".to_string()));
    assert_eq!(done.flow, ControlFlow::Wait);
    assert_eq!(
        done.log,
        vec![
            debug("Handling user event \"A\""),
            error("Could not handle user event"),
            error("  Caused by: cannot render"),
            error("  Caused by: cannot read file"),
            error("  Caused by: file not found"),
        ]
    );
    assert_eq!(app.seen, vec![Seen::User("A".to_string())]);
    assert_eq!(event_loop.phase(), Phase::Running);
    let next = event_loop.dispatch(&mut app, Event::User("B".to_string()));
    assert_eq!(next.log, vec![debug("Handling user event \"B\"")]);
    assert_eq!(app.seen, vec![Seen::User("A".to_string()), Seen::User("B".to_string())]);
}

#[test]
fn failed_menu_handler_is_logged_with_its_chain_and_continues() {
    let (mut event_loop, mut app) = running();
    app.fail_on_menu = Some(2);
    let done = event_loop.dispatch(&mut app, Event::Menu(MenuId(2)));
    assert_eq!(done.flow, ControlFlow::Wait);
    assert_eq!(
        done.log,
        vec![error("Could not handle menu event"), error("  Caused by: unknown menu entry")]
    );
    assert_eq!(event_loop.phase(), Phase::Running);
}

#[test]
fn failed_exit_hook_is_logged_and_the_loop_terminates() {
    let (mut event_loop, mut app) = running();
    app.fail_on_exit = true;
    let done = event_loop.dispatch(&mut app, Event::CloseRequested);
    assert_eq!(done.flow, ControlFlow::Exit);
    assert_eq!(
        done.log,
        vec![
            debug("Closing window was requested"),
            debug("Application is exiting"),
            error("Could not handle application exit correctly"),
            error("  Caused by: cannot save state"),
            error("  Caused by: disk full"),
        ]
    );
    assert_eq!(app.seen, vec![Seen::Exit]);
    assert_eq!(event_loop.phase(), Phase::Terminated);
}

#[test]
fn nothing_is_dispatched_after_termination() {
    let (mut event_loop, mut app) = running();
    event_loop.dispatch(&mut app, Event::CloseRequested);
    let done = event_loop.dispatch(&mut app, Event::User("late".to_string()));
    assert_eq!(done.flow, ControlFlow::Exit);
    assert!(done.log.is_empty());
    let again = event_loop.dispatch(&mut app, Event::CloseRequested);
    assert_eq!(again.flow, ControlFlow::Exit);
    assert!(again.log.is_empty());
    assert_eq!(app.seen, vec![Seen::Exit]);
    assert_eq!(event_loop.phase(), Phase::Terminated);
}

#[test]
fn user_events_that_continue_are_each_handled_once_in_order() {
    let (mut event_loop, mut app) = running();
    let batch: Vec<Event<String>> =
        vec!["1", "2", "3", "4"].into_iter().map(|name| Event::User(name.to_string())).collect();
    let done = event_loop.dispatch_all(&mut app, batch);
    assert_eq!(done.flow, ControlFlow::Wait);
    assert_eq!(event_loop.phase(), Phase::Running);
    assert_eq!(
        app.seen,
        vec![
            Seen::User("1".to_string()),
            Seen::User("2".to_string()),
            Seen::User("3".to_string()),
            Seen::User("4".to_string()),
        ]
    );
    assert_eq!(
        done.log,
        vec![
            debug("Handling user event \"1\""),
            debug("Handling user event \"2\""),
            debug("Handling user event \"3\""),
            debug("Handling user event \"4\""),
        ]
    );
}

#[test]
fn exit_in_a_batch_drops_the_rest_of_the_batch() {
    let (mut event_loop, mut app) = running();
    app.exit_on_menu = Some(7);
    let batch = vec![
        Event::User("A".to_string()),
        Event::Menu(MenuId(7)),
        Event::User("B".to_string()),
    ];
    let done = event_loop.dispatch_all(&mut app, batch);
    assert_eq!(done.flow, ControlFlow::Exit);
    assert_eq!(app.seen, vec![Seen::User("A".to_string()), Seen::Menu(7), Seen::Exit]);
    assert_eq!(
        done.log,
        vec![debug("Handling user event \"A\""), debug("Application is exiting")]
    );
    assert_eq!(event_loop.phase(), Phase::Terminated);
    let later = event_loop.dispatch_all(&mut app, vec![Event::User("C".to_string())]);
    assert!(later.log.is_empty());
    assert_eq!(app.seen, vec![Seen::User("A".to_string()), Seen::Menu(7), Seen::Exit]);
}

#[test]
fn menu_exit_in_a_sequence_stops_everything_behind_it() {
    let (mut event_loop, mut app) = running();
    app.exit_on_menu = Some(7);
    app.fail_on_menu = Some(2);
    let batch: Vec<Event<String>> =
        vec![1u16, 2, 7, 3, 4].into_iter().map(|id| Event::Menu(MenuId(id))).collect();
    let done = event_loop.dispatch_all(&mut app, batch);
    assert_eq!(done.flow, ControlFlow::Exit);
    assert_eq!(app.seen, vec![Seen::Menu(1), Seen::Menu(2), Seen::Menu(7), Seen::Exit]);
    assert_eq!(
        done.log,
        vec![
            error("Could not handle menu event"),
            error("  Caused by: unknown menu entry"),
            debug("Application is exiting"),
        ]
    );
    let later =
        event_loop.dispatch_all(&mut app, vec![Event::Menu(MenuId(7)), Event::Menu(MenuId(5))]);
    assert_eq!(later.flow, ControlFlow::Exit);
    assert!(later.log.is_empty());
    assert_eq!(app.seen, vec![Seen::Menu(1), Seen::Menu(2), Seen::Menu(7), Seen::Exit]);
}

#[test]
fn empty_batch_changes_nothing() {
    let (mut event_loop, mut app) = running();
    let done = event_loop.dispatch_all(&mut app, Vec::new());
    assert_eq!(done.flow, ControlFlow::Wait);
    assert!(done.log.is_empty());
    assert_eq!(event_loop.phase(), Phase::Running);
}

#[test]
fn run_handles_three_queued_events_until_exit() {
    let mut app = Scripted::new();
    app.exit_on_menu = Some(7);
    let events = vec![
        Event::User("A".to_string()),
        Event::Menu(MenuId(7)),
        Event::User("B".to_string()),
    ];
    let (event_loop, done) = run(&mut app, events);
    assert_eq!(done.flow, ControlFlow::Exit);
    assert_eq!(event_loop.phase(), Phase::Terminated);
    assert_eq!(event_loop.pending(), 0);
    assert_eq!(app.seen, vec![Seen::User("A".to_string()), Seen::Menu(7), Seen::Exit]);
    assert_eq!(app.seen.iter().filter(|seen| **seen == Seen::Exit).count(), 1);
    assert!(!app.seen.contains(&Seen::User("B".to_string())));
    assert_eq!(
        done.log,
        vec![debug("Handling user event \"A\""), debug("Application is exiting")]
    );
}

#[test]
fn run_without_exit_waits_for_more() {
    let mut app = Scripted::new();
    let (event_loop, done) =
        run(&mut app, vec![Event::Init, Event::Other, Event::Menu(MenuId(1))]);
    assert_eq!(done.flow, ControlFlow::Wait);
    assert_eq!(event_loop.phase(), Phase::Running);
    assert_eq!(app.seen, vec![Seen::Menu(1)]);
    assert_eq!(done.log, vec![debug("Application has started")]);
}

#[test]
fn run_with_nothing_queued_only_starts() {
    let mut app = Scripted::new();
    let (event_loop, done) = run(&mut app, Vec::<Event<String>>::new());
    assert_eq!(done.flow, ControlFlow::Wait);
    assert_eq!(event_loop.phase(), Phase::Running);
    assert_eq!(event_loop.id(), LoopId(0));
    assert!(app.seen.is_empty());
    assert!(done.log.is_empty());
}

#[test]
fn run_over_user_events_hands_each_over_once_and_never_asks_the_menu_handler() {
    let mut app = Scripted::new();
    let events = vec![
        Event::Init,
        Event::User("1".to_string()),
        Event::Other,
        Event::User("2".to_string()),
        Event::User("3".to_string()),
    ];
    let (event_loop, done) = run(&mut app, events);
    assert_eq!(done.flow, ControlFlow::Wait);
    assert_eq!(event_loop.phase(), Phase::Running);
    assert_eq!(
        app.seen,
        vec![
            Seen::User("1".to_string()),
            Seen::User("2".to_string()),
            Seen::User("3".to_string()),
        ]
    );
}

#[test]
fn run_adopts_the_exit_of_a_user_handler() {
    let mut app = Scripted::new();
    app.exit_on_user = Some("quit".to_string());
    let events = vec![Event::User("quit".to_string()), Event::Menu(MenuId(1))];
    let (event_loop, done) = run(&mut app, events);
    assert_eq!(done.flow, ControlFlow::Exit);
    assert_eq!(event_loop.phase(), Phase::Terminated);
    assert_eq!(app.seen, vec![Seen::User("quit".to_string()), Seen::Exit]);
}

#[test]
fn run_ends_on_a_close_request_without_asking_a_handler() {
    let mut app = Scripted::new();
    let events = vec![Event::Init, Event::CloseRequested, Event::User("late".to_string())];
    let (event_loop, done) = run(&mut app, events);
    assert_eq!(done.flow, ControlFlow::Exit);
    assert_eq!(event_loop.phase(), Phase::Terminated);
    assert_eq!(app.seen, vec![Seen::Exit]);
    assert_eq!(
        done.log,
        vec![
            debug("Application has started"),
            debug("Closing window was requested"),
            debug("Application is exiting"),
        ]
    );
}

#[test]
fn the_loop_that_run_returns_goes_on_where_the_run_stopped() {
    let mut app = Scripted::new();
    let (mut event_loop, done) = run(&mut app, vec![Event::User("A".to_string())]);
    assert_eq!(done.flow, ControlFlow::Wait);
    let channel = event_loop.create_channel();
    assert!(channel.send_event(&mut event_loop, "B".to_string()).is_empty());
    let next = event_loop.wake(&mut app);
    assert_eq!(next.flow, ControlFlow::Wait);
    assert_eq!(app.seen, vec![Seen::User("A".to_string()), Seen::User("B".to_string())]);
}
