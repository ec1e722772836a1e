//! The life cycle of the stream client, as a state machine.
//!
//! The machine decides; whoever drives it does the waiting. It is handed what
//! happened on the transport as an `Event` and answers with the state it is
//! in now and the `Action` to carry out next. It has no last state: after a
//! failure it waits `RECONNECT_DELAY_SECS` and connects again, as often as
//! it takes. Only `Event::Shutdown` makes it ask for a stop.
use vstd::prelude::*;

verus! {

/// Seconds between losing or failing a connection and the next attempt.
pub const RECONNECT_DELAY_SECS: u64 = 3;

#[derive(Clone, Copy, Debug, PartialEq, Eq, Structural)]
pub enum EngineState {
    /// No connection; waiting out the delay before the next attempt.
    Disconnected,
    /// An attempt to open the stream is under way.
    Connecting,
    /// The stream is open and messages are read from it.
    Streaming,
}

/// What happened on the transport, or around it.
#[derive(Clone, Debug, PartialEq, Eq)]
pub enum Event {
    /// The stream was opened.
    Connected,
    /// The stream could not be opened.
    ConnectFailed,
    /// A text message arrived.
    Text(String),
    /// A message arrived that is no text.
    OtherMessage,
    /// Reading from the stream failed.
    ReadFailed,
    /// The stream has no more messages.
    Closed,
    /// The delay asked for by `Action::Wait` is over.
    DelayElapsed,
    /// The owner wants the client to stop.
    Shutdown,
}

/// What to do next.
#[derive(Clone, Debug, PartialEq, Eq)]
pub enum Action {
    /// Open the stream at this address; report `Connected` or `ConnectFailed`.
    Connect(String),
    /// Read the next message; report `Text`, `OtherMessage`, `ReadFailed` or
    /// `Closed`.
    Receive,
    /// Wait this many seconds; report `DelayElapsed`.
    Wait(u64),
    /// Stop driving the machine.
    Stop,
}

/// The mathematical content of an `Action`.
pub enum ActionView {
    Connect(Seq<char>),
    Receive,
    Wait(u64),
    Stop,
}

impl View for Action {
    type V = ActionView;

    open spec fn view(&self) -> ActionView {
        match *self {
            Action::Connect(url) => ActionView::Connect(url@),
            Action::Receive => ActionView::Receive,
            Action::Wait(secs) => ActionView::Wait(secs),
            Action::Stop => ActionView::Stop,
        }
    }
}

/// One step of the machine: where it is now and what to do next.
#[derive(Clone, Debug, PartialEq, Eq)]
pub struct Transition {
    pub state: EngineState,
    pub action: Action,
}

/// The state after `event` happened in `state`. An event that cannot happen
/// in a state leaves the state as it is.
pub open spec fn next_state(state: EngineState, event: Event) -> EngineState {
    match (state, event) {
        (_, Event::Shutdown) => EngineState::Disconnected,
        (EngineState::Disconnected, Event::DelayElapsed) => EngineState::Connecting,
        (EngineState::Connecting, Event::Connected) => EngineState::Streaming,
        (EngineState::Connecting, Event::ConnectFailed) => EngineState::Disconnected,
        (EngineState::Streaming, Event::ReadFailed) => EngineState::Disconnected,
        (EngineState::Streaming, Event::Closed) => EngineState::Disconnected,
        (_, _) => state,
    }
}

/// What each state asks for: to wait out the delay, to open the stream at
/// `url`, or to read the next message.
pub open spec fn action_in(state: EngineState, url: Seq<char>) -> ActionView {
    match state {
        EngineState::Disconnected => ActionView::Wait(RECONNECT_DELAY_SECS),
        EngineState::Connecting => ActionView::Connect(url),
        EngineState::Streaming => ActionView::Receive,
    }
}

/// The action after `event` happened in `state`: a stop after a shutdown, and
/// otherwise what the state reached asks for.
pub open spec fn next_action(state: EngineState, event: Event, url: Seq<char>) -> ActionView {
    if event is Shutdown {
        ActionView::Stop
    } else {
        action_in(next_state(state, event), url)
    }
}

/// The state after `event` happened in `state`.
pub fn advance(state: EngineState, event: &Event) -> (r: EngineState)
    ensures
        r == next_state(state, *event),
{
    match event {
        Event::Shutdown => EngineState::Disconnected,
        Event::DelayElapsed => match state {
            EngineState::Disconnected => EngineState::Connecting,
            _ => state,
        },
        Event::Connected => match state {
            EngineState::Connecting => EngineState::Streaming,
            _ => state,
        },
        Event::ConnectFailed => match state {
            EngineState::Connecting => EngineState::Disconnected,
            _ => state,
        },
        Event::ReadFailed => match state {
            EngineState::Streaming => EngineState::Disconnected,
            _ => state,
        },
        Event::Closed => match state {
            EngineState::Streaming => EngineState::Disconnected,
            _ => state,
        },
        Event::Text(_) => state,
        Event::OtherMessage => state,
    }
}

/// Unless a shutdown is asked for, the machine never stops: whatever
/// happens, it asks for a connection, a message or a delay, and a delay is
/// always followed by a new attempt.
pub proof fn lemma_retries_forever(state: EngineState, event: Event, url: Seq<char>)
    requires
        !(event is Shutdown),
    ensures
        !(next_action(state, event, url) is Stop),
        next_action(state, event, url) is Wait ==> next_action(
            next_state(state, event),
            Event::DelayElapsed,
            url,
        ) == ActionView::Connect(url),
{
}

/// A failure of the transport is never final: a failed attempt, a failed
/// read and the end of the stream all lead to the fixed delay.
pub proof fn lemma_failures_back_off(url: Seq<char>)
    ensures
        next_action(EngineState::Connecting, Event::ConnectFailed, url) == ActionView::Wait(3),
        next_action(EngineState::Streaming, Event::ReadFailed, url) == ActionView::Wait(3),
        next_action(EngineState::Streaming, Event::Closed, url) == ActionView::Wait(3),
{
}

} // verus!
