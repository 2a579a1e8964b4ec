//! The lifecycle of the capture pipeline, as a state machine.
//!
//! The machine decides; its owner acts. The owner is the one thread that takes
//! `Start` and `Stop` messages from the mailbox: it feeds each message to the
//! machine as an event, performs the action that comes back (finding the input
//! device, starting or pausing a stream), and reports what came of it as the next
//! event. A start is two steps: `Init` or `Stopped` to `Ready` once the device is
//! configured, then `Ready` to `Running` once the stream plays.

use crate::handler::Handler;
use vstd::prelude::*;

verus! {

/// The state of the pipeline. `S` is the handle of a live stream, which can pause
/// it.
pub enum State<S> {
    /// Nothing has been configured yet.
    Init,
    /// The stream was stopped; nothing of it is kept.
    Stopped,
    /// A handler is configured for the input device but not started.
    Ready(Handler),
    /// A stream is live.
    Running(S),
}

/// The state without what it owns.
#[derive(Clone, Copy, Debug, PartialEq, Eq, Structural)]
pub enum Status {
    Init,
    Stopped,
    Ready,
    Running,
}

/// The number of messages that may wait in the owner's mailbox.
pub const MAILBOX: usize = 200;

/// Why a start did not lead to a live stream. Each of these ends the start that
/// met it; none is tried again by itself.
#[derive(Clone, Copy, Debug, PartialEq, Eq, Structural)]
pub enum StartError {
    /// No input device was found.
    DeviceUnavailable,
    /// The input device has no default configuration.
    ConfigUnavailable,
    /// The capture stream could not be built.
    StreamBuild,
    /// The capture stream could not be started.
    StreamPlay,
}

/// A message in the owner's mailbox. `R` is the responder that readings are
/// delivered to.
pub enum Msg<R> {
    Start(R),
    Stop,
}

/// What the machine is told.
pub enum Event<S, R> {
    /// A caller asks for readings to be delivered to the responder.
    Start(R),
    /// A caller asks for the stream to stop.
    Stop,
    /// The input device was found and a handler configured for it.
    Configured(Handler, R),
    /// The handler was started and its stream plays.
    Started(S),
    /// The start could not go on.
    Failed(StartError),
}

/// What the owner has to do next.
pub enum Action<S, R> {
    /// Nothing.
    Idle,
    /// Find the default input device and its configuration, make a handler for it
    /// and report it with `Event::Configured`, together with this responder.
    Discover(R),
    /// Go on with the start: feed `Event::Start` with this responder again.
    Resume(R),
    /// Start this handler with this responder and report the stream with
    /// `Event::Started`.
    Launch(Handler, R),
    /// Pause this stream, ignoring failure, and drop it.
    Pause(S),
    /// Tell the caller that the start failed.
    Surface(StartError),
}

impl<S> State<S> {
    /// The state without what it owns.
    pub open spec fn status(self) -> Status {
        match self {
            State::Init => Status::Init,
            State::Stopped => Status::Stopped,
            State::Ready(_) => Status::Ready,
            State::Running(_) => Status::Running,
        }
    }

    /// Whether no handler is configured and no stream is live.
    pub open spec fn idle(self) -> bool {
        self is Init || self is Stopped
    }
}

impl<R> Msg<R> {
    /// The event that a message stands for.
    pub open spec fn event<S>(self) -> Event<S, R> {
        match self {
            Msg::Start(responder) => Event::Start(responder),
            Msg::Stop => Event::Stop,
        }
    }

    /// The event that a message stands for.
    pub fn into_event<S>(self) -> (event: Event<S, R>)
        ensures
            event == self.event::<S>(),
    {
        match self {
            Msg::Start(responder) => Event::Start(responder),
            Msg::Stop => Event::Stop,
        }
    }
}

/// The state that follows `state` on `event`.
///
/// A start from `Init` or `Stopped` changes nothing until the device is
/// configured; a start from `Ready` takes the handler out to be launched; a start
/// while running changes nothing. A stop ends a live stream and is ignored
/// otherwise. A handler is accepted only while none is configured and no stream is
/// live, a stream only from `Init`. A failure changes nothing: the start that met
/// it is over, and the machine is where that start had left it.
pub open spec fn next_state<S, R>(state: State<S>, event: Event<S, R>) -> State<S> {
    match event {
        Event::Start(_) => match state {
            State::Ready(_) => State::Init,
            _ => state,
        },
        Event::Stop => match state {
            State::Running(_) => State::Stopped,
            _ => state,
        },
        Event::Configured(handler, _) => if state.idle() {
            State::Ready(handler)
        } else {
            state
        },
        Event::Started(stream) => match state {
            State::Init => State::Running(stream),
            _ => state,
        },
        Event::Failed(_) => state,
    }
}

/// What the owner has to do when `event` arrives in `state`.
pub open spec fn action_of<S, R>(state: State<S>, event: Event<S, R>) -> Action<S, R> {
    match event {
        Event::Start(responder) => match state {
            State::Init | State::Stopped => Action::Discover(responder),
            State::Ready(handler) => Action::Launch(handler, responder),
            State::Running(_) => Action::Idle,
        },
        Event::Stop => match state {
            State::Running(stream) => Action::Pause(stream),
            _ => Action::Idle,
        },
        Event::Configured(_, responder) => if state.idle() {
            Action::Resume(responder)
        } else {
            Action::Idle
        },
        Event::Started(stream) => match state {
            State::Init => Action::Idle,
            _ => Action::Pause(stream),
        },
        Event::Failed(error) => Action::Surface(error),
    }
}

/// One step of the machine.
pub fn step<S, R>(state: State<S>, event: Event<S, R>) -> (next: (State<S>, Action<S, R>))
    ensures
        next.0 == next_state(state, event),
        next.1 == action_of(state, event),
{
    match event {
        Event::Start(responder) => match state {
            State::Init => (State::Init, Action::Discover(responder)),
            State::Stopped => (State::Stopped, Action::Discover(responder)),
            State::Ready(handler) => (State::Init, Action::Launch(handler, responder)),
            State::Running(stream) => (State::Running(stream), Action::Idle),
        },
        Event::Stop => match state {
            State::Running(stream) => (State::Stopped, Action::Pause(stream)),
            State::Init => (State::Init, Action::Idle),
            State::Stopped => (State::Stopped, Action::Idle),
            State::Ready(handler) => (State::Ready(handler), Action::Idle),
        },
        Event::Configured(handler, responder) => match state {
            State::Init => (State::Ready(handler), Action::Resume(responder)),
            State::Stopped => (State::Ready(handler), Action::Resume(responder)),
            State::Ready(kept) => (State::Ready(kept), Action::Idle),
            State::Running(stream) => (State::Running(stream), Action::Idle),
        },
        Event::Started(stream) => match state {
            State::Init => (State::Running(stream), Action::Idle),
            State::Stopped => (State::Stopped, Action::Pause(stream)),
            State::Ready(handler) => (State::Ready(handler), Action::Pause(stream)),
            State::Running(live) => (State::Running(live), Action::Pause(stream)),
        },
        Event::Failed(error) => (state, Action::Surface(error)),
    }
}

/// The pipeline's state, owned by the one thread that changes it.
pub struct App<S> {
    state: State<S>,
}

impl<S> App<S> {
    /// The current state.
    pub closed spec fn state(&self) -> State<S> {
        self.state
    }

    /// A pipeline in its initial state.
    pub fn new() -> (app: Self)
        ensures
            app.state() == State::<S>::Init,
    {
        App { state: State::Init }
    }

    /// The current state without what it owns.
    pub fn status(&self) -> (status: Status)
        ensures
            status == self.state().status(),
    {
        match &self.state {
            State::Init => Status::Init,
            State::Stopped => Status::Stopped,
            State::Ready(_) => Status::Ready,
            State::Running(_) => Status::Running,
        }
    }

    /// Takes an event and says what to do next.
    pub fn handle<R>(&mut self, event: Event<S, R>) -> (action: Action<S, R>)
        ensures
            final(self).state() == next_state(old(self).state(), event),
            action == action_of(old(self).state(), event),
    {
        let mut state = State::Init;
        core::mem::swap(&mut self.state, &mut state);
        let (next, action) = step(state, event);
        self.state = next;
        action
    }

    /// Takes a message from the mailbox and says what to do next.
    pub fn receive<R>(&mut self, msg: Msg<R>) -> (action: Action<S, R>)
        ensures
            final(self).state() == next_state(old(self).state(), msg.event::<S>()),
            action == action_of(old(self).state(), msg.event::<S>()),
    {
        self.handle(msg.into_event())
    }

    /// A start request: see `Event::Start`.
    pub fn run<R>(&mut self, responder: R) -> (action: Action<S, R>)
        ensures
            final(self).state() == next_state(old(self).state(), Event::<S, R>::Start(responder)),
            action == action_of(old(self).state(), Event::<S, R>::Start(responder)),
    {
        self.handle(Event::Start(responder))
    }

    /// A stop request: a live stream is handed out to be paused and the pipeline
    /// is stopped; in any other state nothing changes.
    pub fn stop(&mut self) -> (stream: Option<S>)
        ensures
            final(self).state() == next_state(old(self).state(), Event::<S, ()>::Stop),
            stream == match old(self).state() {
                State::Running(live) => Some(live),
                _ => None,
            },
    {
        match self.handle(Event::<S, ()>::Stop) {
            Action::Pause(live) => Some(live),
            _ => None,
        }
    }
}

/// The states that a sequence of events leads through, the last one.
pub open spec fn after<S, R>(state: State<S>, events: Seq<Event<S, R>>) -> State<S>
    decreases events.len(),
{
    if events.len() == 0 {
        state
    } else {
        next_state(after(state, events.drop_last()), events.last())
    }
}

/// A stop leaves a live stream stopped and asks for that stream to be paused; in
/// every other state it changes nothing and asks for nothing.
pub proof fn lemma_stop<S, R>(state: State<S>)
    ensures
        state matches State::Running(stream) ==> next_state(state, Event::<S, R>::Stop)
            == State::<S>::Stopped && action_of(state, Event::<S, R>::Stop) == Action::<
            S,
            R,
        >::Pause(stream),
        !(state is Running) ==> next_state(state, Event::<S, R>::Stop) == state && action_of(
            state,
            Event::<S, R>::Stop,
        ) == Action::<S, R>::Idle,
{
}

/// A start that fails is over: the failure is surfaced, and the machine stays in a
/// state from which the next start asks for the device anew.
pub proof fn lemma_failed_start_is_not_retried<S, R>(
    state: State<S>,
    responder: R,
    handler: Handler,
    error: StartError,
)
    requires
        state.idle(),
    ensures
        action_of(state, Event::<S, R>::Failed(error)) == Action::<S, R>::Surface(error),
        next_state(state, Event::<S, R>::Failed(error)) == state,
        next_state(
            next_state(State::<S>::Ready(handler), Event::<S, R>::Start(responder)),
            Event::<S, R>::Failed(error),
        ).idle(),
        action_of(
            next_state(State::<S>::Init, Event::<S, R>::Failed(error)),
            Event::<S, R>::Start(responder),
        ) == Action::<S, R>::Discover(responder),
{
}

/// A start while a stream is live changes nothing and asks for nothing.
pub proof fn lemma_start_while_running<S, R>(stream: S, responder: R)
    ensures
        next_state(State::Running(stream), Event::Start(responder)) == State::Running(stream),
        action_of(State::Running(stream), Event::Start(responder)) == Action::<S, R>::Idle,
{
}

/// From `Init` and from `Stopped` alike, a start asks for the device to be found
/// anew, goes through `Ready` with the handler made for it, launches that very
/// handler, and ends running the stream that came of it.
pub proof fn lemma_start_in_two_steps<S, R>(
    state: State<S>,
    responder: R,
    handler: Handler,
    stream: S,
)
    requires
        state.idle(),
    ensures
        action_of(state, Event::<S, R>::Start(responder)) == Action::<S, R>::Discover(responder),
        next_state(state, Event::<S, R>::Start(responder)) == state,
        next_state(state, Event::<S, R>::Configured(handler, responder)) == State::<S>::Ready(
            handler,
        ),
        action_of(state, Event::<S, R>::Configured(handler, responder)) == Action::<
            S,
            R,
        >::Resume(responder),
        action_of(State::<S>::Ready(handler), Event::<S, R>::Start(responder)) == Action::<
            S,
            R,
        >::Launch(handler, responder),
        after(
            state,
            seq![
                Event::<S, R>::Start(responder),
                Event::<S, R>::Configured(handler, responder),
                Event::<S, R>::Start(responder),
                Event::<S, R>::Started(stream),
            ],
        ) == State::<S>::Running(stream),
{
    let events = seq![
        Event::<S, R>::Start(responder),
        Event::<S, R>::Configured(handler, responder),
        Event::<S, R>::Start(responder),
        Event::<S, R>::Started(stream),
    ];
    let e3 = events.drop_last();
    let e2 = e3.drop_last();
    let e1 = e2.drop_last();
    assert(e1.drop_last().len() == 0);
    assert(after(state, e1.drop_last()) == state);
    assert(e1.last() == Event::<S, R>::Start(responder));
    assert(after(state, e1) == state);
    assert(e2.last() == Event::<S, R>::Configured(handler, responder));
    assert(after(state, e2) == State::<S>::Ready(handler));
    assert(e3.last() == Event::<S, R>::Start(responder));
    assert(after(state, e3) == State::<S>::Init);
    assert(events.last() == Event::<S, R>::Started(stream));
}

/// After a stop the pipeline keeps nothing: a stream that ran, was stopped and is
/// started again gets a handler of its own, whatever ran before.
pub proof fn lemma_restart_reuses_nothing<S, R>(
    old_stream: S,
    responder: R,
    handler: Handler,
    stream: S,
)
    ensures
        after(
            State::Running(old_stream),
            seq![
                Event::<S, R>::Stop,
                Event::<S, R>::Start(responder),
                Event::<S, R>::Configured(handler, responder),
                Event::<S, R>::Start(responder),
                Event::<S, R>::Started(stream),
            ],
        ) == State::<S>::Running(stream),
        after(State::Running(old_stream), seq![Event::<S, R>::Stop]) == State::<S>::Stopped,
        action_of(State::<S>::Stopped, Event::<S, R>::Start(responder)) == Action::<
            S,
            R,
        >::Discover(responder),
{
    let first = State::Running(old_stream);
    let events = seq![
        Event::<S, R>::Stop,
        Event::<S, R>::Start(responder),
        Event::<S, R>::Configured(handler, responder),
        Event::<S, R>::Start(responder),
        Event::<S, R>::Started(stream),
    ];
    let e4 = events.drop_last();
    let e3 = e4.drop_last();
    let e2 = e3.drop_last();
    let e1 = e2.drop_last();
    assert(e1.drop_last().len() == 0);
    assert(after(first, e1.drop_last()) == first);
    assert(e1.last() == Event::<S, R>::Stop);
    assert(e1 == seq![Event::<S, R>::Stop]);
    assert(after(first, e1) == State::<S>::Stopped);
    assert(e2.last() == Event::<S, R>::Start(responder));
    assert(after(first, e2) == State::<S>::Stopped);
    assert(e3.last() == Event::<S, R>::Configured(handler, responder));
    assert(after(first, e3) == State::<S>::Ready(handler));
    assert(e4.last() == Event::<S, R>::Start(responder));
    assert(after(first, e4) == State::<S>::Init);
    assert(events.last() == Event::<S, R>::Started(stream));
}

} // verus!
