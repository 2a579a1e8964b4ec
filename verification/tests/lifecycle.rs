use levels::app::{step, Action, App, Event, Msg, StartError, State, Status, MAILBOX};
use levels::handler::{Handler, SampleFormat};

fn handler() -> Handler {
    Handler::new(SampleFormat::I16, 48000, 1)
}

/// Plays the owner's part for one start: performs what the machine asks for until
/// it asks for nothing more, and returns the actions seen.
fn start(app: &mut App<u32>, responder: &'static str, stream: u32) -> Vec<&'static str> {
    let mut seen = Vec::new();
    let mut action = app.receive(Msg::Start(responder));
    loop {
        match action {
            Action::Idle => {
                seen.push("idle");
                return seen;
            }
            Action::Discover(responder) => {
                seen.push("discover");
                action = app.handle(Event::Configured(handler(), responder));
            }
            Action::Resume(responder) => {
                seen.push("resume");
                action = app.handle(Event::Start(responder));
            }
            Action::Launch(_handler, _responder) => {
                seen.push("launch");
                action = app.handle(Event::Started(stream));
            }
            Action::Pause(_) => {
                seen.push("pause");
                return seen;
            }
            Action::Surface(_) => {
                seen.push("surface");
                return seen;
            }
        }
    }
}

#[test]
fn machine_starts_in_init() {
    let app = App::<u32>::new();
    assert_eq!(app.status(), Status::Init);
}

#[test]
fn start_goes_through_ready_to_running() {
    let mut app = App::<u32>::new();
    match app.run("responder") {
        Action::Discover(responder) => assert_eq!(responder, "responder"),
        _ => panic!("a start from init must ask for the device"),
    }
    assert_eq!(app.status(), Status::Init);
    match app.handle(Event::Configured(handler(), "responder")) {
        Action::Resume(responder) => assert_eq!(responder, "responder"),
        _ => panic!("a configured handler must let the start go on"),
    }
    assert_eq!(app.status(), Status::Ready);
    match app.run("responder") {
        Action::Launch(handler, responder) => {
            assert!(matches!(handler, Handler::I16(_)));
            assert_eq!(responder, "responder");
        }
        _ => panic!("a start from ready must launch the handler"),
    }
    assert_eq!(app.status(), Status::Init);
    assert!(matches!(app.handle(Event::<u32, &str>::Started(7)), Action::Idle));
    assert_eq!(app.status(), Status::Running);
}

#[test]
fn start_stop_start_reaches_running_again() {
    let mut app = App::<u32>::new();
    assert_eq!(start(&mut app, "first", 1), vec!["discover", "resume", "launch", "idle"]);
    assert_eq!(app.status(), Status::Running);
    assert_eq!(app.stop(), Some(1));
    assert_eq!(app.status(), Status::Stopped);
    assert_eq!(start(&mut app, "second", 2), vec!["discover", "resume", "launch", "idle"]);
    assert_eq!(app.status(), Status::Running);
    assert_eq!(app.stop(), Some(2));
    assert_eq!(app.status(), Status::Stopped);
}

#[test]
fn restart_gets_a_ring_of_its_own() {
    let mut app = App::<u32>::new();
    let first = match app.handle(Event::Configured(handler(), ())) {
        Action::Resume(()) => match app.run(()) {
            Action::Launch(Handler::I16(inner), ()) => inner,
            _ => panic!("the handler must be launched"),
        },
        _ => panic!("the handler must be accepted"),
    };
    let (mut first_feeder, _first_poller) = first.split();
    assert_eq!(first_feeder.feed(&[123, -456]), 0);
    assert!(matches!(app.handle(Event::<u32, ()>::Started(1)), Action::Idle));
    assert_eq!(app.stop(), Some(1));
    // after the stop nothing is kept: the next start asks for the device again
    assert!(matches!(app.run(()), Action::Discover(())));
    let second = match app.handle(Event::Configured(handler(), ())) {
        Action::Resume(()) => match app.run(()) {
            Action::Launch(Handler::I16(inner), ()) => inner,
            _ => panic!("the handler must be launched"),
        },
        _ => panic!("the handler must be accepted"),
    };
    let (_second_feeder, mut second_poller) = second.split();
    let amp = second_poller.poll().unwrap();
    assert_eq!((amp.min(), amp.max()), (0, 0));
}

#[test]
fn start_while_running_changes_nothing() {
    let mut app = App::<u32>::new();
    start(&mut app, "first", 1);
    assert_eq!(start(&mut app, "again", 2), vec!["idle"]);
    assert_eq!(app.status(), Status::Running);
    assert_eq!(app.stop(), Some(1));
}

#[test]
fn stop_is_ignored_unless_running() {
    let mut app = App::<u32>::new();
    assert_eq!(app.stop(), None);
    assert_eq!(app.status(), Status::Init);
    assert!(matches!(app.receive(Msg::<&str>::Stop), Action::Idle));
    assert_eq!(app.status(), Status::Init);
    app.handle(Event::Configured(handler(), "responder"));
    assert_eq!(app.stop(), None);
    assert_eq!(app.status(), Status::Ready);
    start(&mut app, "responder", 3);
    assert_eq!(app.stop(), Some(3));
    assert_eq!(app.stop(), None);
    assert_eq!(app.status(), Status::Stopped);
}

#[test]
fn stop_message_pauses_the_live_stream() {
    let mut app = App::<u32>::new();
    start(&mut app, "responder", 9);
    match app.receive(Msg::<&str>::Stop) {
        Action::Pause(stream) => assert_eq!(stream, 9),
        _ => panic!("a stop while running must pause the stream"),
    }
    assert_eq!(app.status(), Status::Stopped);
}

#[test]
fn a_handler_is_taken_only_when_none_is_wanted_elsewhere() {
    let mut app = App::<u32>::new();
    app.handle(Event::Configured(handler(), "first"));
    assert_eq!(app.status(), Status::Ready);
    // a second handler while one is ready is dropped
    assert!(matches!(app.handle(Event::Configured(handler(), "second")), Action::Idle));
    assert_eq!(app.status(), Status::Ready);
    start(&mut app, "first", 1);
    assert!(matches!(app.handle(Event::Configured(handler(), "third")), Action::Idle));
    assert_eq!(app.status(), Status::Running);
}

#[test]
fn a_stream_that_is_not_awaited_is_paused() {
    let mut app = App::<u32>::new();
    start(&mut app, "responder", 1);
    match app.handle(Event::<u32, &str>::Started(2)) {
        Action::Pause(stream) => assert_eq!(stream, 2),
        _ => panic!("a second stream must be handed back"),
    }
    assert_eq!(app.stop(), Some(1));
    match app.handle(Event::<u32, &str>::Started(3)) {
        Action::Pause(stream) => assert_eq!(stream, 3),
        _ => panic!("a stream after a stop must be handed back"),
    }
    assert_eq!(app.status(), Status::Stopped);
}

#[test]
fn a_failed_launch_leaves_the_machine_in_init() {
    let mut app = App::<u32>::new();
    app.run("responder");
    app.handle(Event::Configured(handler(), "responder"));
    assert!(matches!(app.run("responder"), Action::Launch(_, _)));
    // the owner reports nothing when the stream could not be started
    assert_eq!(app.status(), Status::Init);
    assert!(matches!(app.run("responder"), Action::Discover(_)));
}

#[test]
fn a_failure_is_surfaced_and_changes_nothing() {
    let mut app = App::<u32>::new();
    assert!(matches!(app.run("responder"), Action::Discover(_)));
    match app.handle(Event::<u32, &str>::Failed(StartError::DeviceUnavailable)) {
        Action::Surface(error) => assert_eq!(error, StartError::DeviceUnavailable),
        _ => panic!("a failure must be surfaced"),
    }
    assert_eq!(app.status(), Status::Init);
    // nothing is retried: the next start begins anew
    assert!(matches!(app.run("responder"), Action::Discover(_)));
    app.handle(Event::Configured(handler(), "responder"));
    assert!(matches!(app.run("responder"), Action::Launch(_, _)));
    match app.handle(Event::<u32, &str>::Failed(StartError::StreamPlay)) {
        Action::Surface(error) => assert_eq!(error, StartError::StreamPlay),
        _ => panic!("a failure must be surfaced"),
    }
    assert_eq!(app.status(), Status::Init);
    start(&mut app, "responder", 4);
    match app.handle(Event::<u32, &str>::Failed(StartError::StreamBuild)) {
        Action::Surface(error) => assert_eq!(error, StartError::StreamBuild),
        _ => panic!("a failure must be surfaced"),
    }
    assert_eq!(app.status(), Status::Running);
    assert_eq!(app.stop(), Some(4));
    match app.handle(Event::<u32, &str>::Failed(StartError::ConfigUnavailable)) {
        Action::Surface(error) => assert_eq!(error, StartError::ConfigUnavailable),
        _ => panic!("a failure must be surfaced"),
    }
    assert_eq!(app.status(), Status::Stopped);
}

#[test]
fn mailbox_holds_two_hundred_messages() {
    assert_eq!(MAILBOX, 200);
}

#[test]
fn messages_stand_for_events() {
    assert!(matches!(Msg::Start(5u8).into_event::<u32>(), Event::Start(5)));
    assert!(matches!(Msg::<u8>::Stop.into_event::<u32>(), Event::Stop));
}

#[test]
fn step_is_the_machine_without_its_owner() {
    let (state, action) = step(State::<u32>::Init, Event::Start("r"));
    assert!(matches!(state, State::Init));
    assert!(matches!(action, Action::Discover("r")));
    let (state, action) = step(State::<u32>::Stopped, Event::Start("r"));
    assert!(matches!(state, State::Stopped));
    assert!(matches!(action, Action::Discover("r")));
    let (state, action) = step(State::Running(4u32), Event::<u32, &str>::Stop);
    assert!(matches!(state, State::Stopped));
    assert!(matches!(action, Action::Pause(4)));
    let (state, action) = step(State::<u32>::Stopped, Event::Configured(handler(), "r"));
    assert!(matches!(state, State::Ready(Handler::I16(_))));
    assert!(matches!(action, Action::Resume("r")));
    let (state, action) = step(State::<u32>::Init, Event::<u32, &str>::Started(8));
    assert!(matches!(state, State::Running(8)));
    assert!(matches!(action, Action::Idle));
}
