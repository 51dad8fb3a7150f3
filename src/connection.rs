//! The realtime transport of one connection, as a state machine.
//!
//! The machine owns no socket. Each event that the socket or the registry
//! produces is handed to [`MyWebSocket::handle_event`], which returns the
//! actions to carry out, in order.
use vstd::prelude::*;

use crate::chat::MyMessage;

verus! {

/// The life of a connection; `Closed` is terminal.
#[derive(Clone, Copy, Debug, PartialEq, Eq, Structural)]
pub enum ConnectionState {
    Connecting,
    Open,
    Closed,
}

/// A frame read from the socket.
pub enum InboundFrame {
    Ping(Vec<u8>),
    Pong,
    Text(String),
    Binary,
    Continuation,
    Close,
    Nop,
}

/// Something that happened to the connection.
pub enum ConnectionEvent {
    /// The upgrade finished and the connection runs.
    Started,
    /// A frame arrived.
    Frame(InboundFrame),
    /// The socket failed or sent something that is not a frame.
    TransportError,
    /// The registry handed over a payload for this connection.
    Push(MyMessage),
    /// The connection is being torn down.
    Stopped,
}

/// What the owner of the socket must do.
pub enum ConnectionAction {
    /// Register this connection in the session registry.
    Register { user_id: u128, handle: u64 },
    /// Answer a ping with these bytes.
    SendPong(Vec<u8>),
    /// Write an outbound text frame.
    SendText(String),
    /// Close the socket.
    Stop,
    /// Remove this connection from the session registry.
    Deregister { user_id: u128, handle: u64 },
}

/// The state after `event` in state `state`.
pub open spec fn next_state(state: ConnectionState, event: ConnectionEvent) -> ConnectionState {
    match state {
        ConnectionState::Connecting => match event {
            ConnectionEvent::Started => ConnectionState::Open,
            ConnectionEvent::Stopped | ConnectionEvent::TransportError => ConnectionState::Closed,
            _ => ConnectionState::Connecting,
        },
        ConnectionState::Open => match event {
            ConnectionEvent::Frame(InboundFrame::Close) | ConnectionEvent::TransportError
            | ConnectionEvent::Stopped => ConnectionState::Closed,
            _ => ConnectionState::Open,
        },
        ConnectionState::Closed => ConnectionState::Closed,
    }
}

/// The actions for `event` in state `state`, for the connection `handle` of
/// `user_id`. Leaving for `Closed` always deregisters, once; a closed
/// connection does nothing.
pub open spec fn actions_for(
    state: ConnectionState,
    event: ConnectionEvent,
    user_id: u128,
    handle: u64,
) -> Seq<ConnectionAction> {
    let deregister = ConnectionAction::Deregister { user_id, handle };
    match state {
        ConnectionState::Connecting => match event {
            ConnectionEvent::Started => seq![ConnectionAction::Register { user_id, handle }],
            ConnectionEvent::Stopped => seq![deregister],
            ConnectionEvent::TransportError => seq![ConnectionAction::Stop, deregister],
            _ => Seq::empty(),
        },
        ConnectionState::Open => match event {
            ConnectionEvent::Frame(InboundFrame::Ping(bytes)) => seq![
                ConnectionAction::SendPong(bytes),
            ],
            ConnectionEvent::Frame(InboundFrame::Close) | ConnectionEvent::TransportError => seq![
                ConnectionAction::Stop,
                deregister,
            ],
            ConnectionEvent::Stopped => seq![deregister],
            ConnectionEvent::Push(message) => seq![ConnectionAction::SendText(message.0)],
            _ => Seq::empty(),
        },
        ConnectionState::Closed => Seq::empty(),
    }
}

/// The state after a run of `events` from `state`.
pub open spec fn state_after(state: ConnectionState, events: Seq<ConnectionEvent>) -> ConnectionState
    decreases events.len(),
{
    if events.len() == 0 {
        state
    } else {
        state_after(next_state(state, events[0]), events.drop_first())
    }
}

/// How many deregistrations `actions` holds.
pub open spec fn deregister_count(actions: Seq<ConnectionAction>) -> nat
    decreases actions.len(),
{
    if actions.len() == 0 {
        0
    } else {
        (if actions[0] is Deregister {
            1nat
        } else {
            0nat
        }) + deregister_count(actions.drop_first())
    }
}

/// How many deregistrations a run of `events` from `state` asks for.
pub open spec fn deregistrations(
    state: ConnectionState,
    events: Seq<ConnectionEvent>,
    user_id: u128,
    handle: u64,
) -> nat
    decreases events.len(),
{
    if events.len() == 0 {
        0
    } else {
        deregister_count(actions_for(state, events[0], user_id, handle)) + deregistrations(
            next_state(state, events[0]),
            events.drop_first(),
            user_id,
            handle,
        )
    }
}

proof fn lemma_step_deregisters(
    state: ConnectionState,
    event: ConnectionEvent,
    user_id: u128,
    handle: u64,
)
    ensures
        deregister_count(actions_for(state, event, user_id, handle)) == (if state
            != ConnectionState::Closed && next_state(state, event) == ConnectionState::Closed {
            1nat
        } else {
            0nat
        }),
{
    let acts = actions_for(state, event, user_id, handle);
    lemma_count_small(acts);
}

proof fn lemma_count_small(acts: Seq<ConnectionAction>)
    requires
        acts.len() <= 2,
    ensures
        deregister_count(acts) == (if acts.len() > 0 && acts[0] is Deregister {
            1nat
        } else {
            0nat
        }) + (if acts.len() > 1 && acts[1] is Deregister {
            1nat
        } else {
            0nat
        }),
{
    if acts.len() > 0 {
        let rest = acts.drop_first();
        if rest.len() > 0 {
            assert(rest[0] == acts[1]);
            assert(rest.drop_first().len() == 0);
            assert(deregister_count(rest.drop_first()) == 0);
        }
        assert(deregister_count(rest) == (if rest.len() > 0 && rest[0] is Deregister {
            1nat
        } else {
            0nat
        }));
    }
}

/// A connection deregisters exactly once over its whole life: once if the
/// run of events closes it, never otherwise, and never again once closed.
pub proof fn lemma_deregisters_exactly_once(
    state: ConnectionState,
    events: Seq<ConnectionEvent>,
    user_id: u128,
    handle: u64,
)
    ensures
        deregistrations(state, events, user_id, handle) == (if state != ConnectionState::Closed
            && state_after(state, events) == ConnectionState::Closed {
            1nat
        } else {
            0nat
        }),
    decreases events.len(),
{
    if events.len() > 0 {
        lemma_step_deregisters(state, events[0], user_id, handle);
        lemma_deregisters_exactly_once(
            next_state(state, events[0]),
            events.drop_first(),
            user_id,
            handle,
        );
        if next_state(state, events[0]) == ConnectionState::Closed {
            lemma_closed_stays_closed(events.drop_first());
        }
    }
}

proof fn lemma_closed_stays_closed(events: Seq<ConnectionEvent>)
    ensures
        state_after(ConnectionState::Closed, events) == ConnectionState::Closed,
    decreases events.len(),
{
    if events.len() > 0 {
        lemma_closed_stays_closed(events.drop_first());
    }
}

/// One live connection of one user.
pub struct MyWebSocket {
    pub user_id: u128,
    pub handle: u64,
    pub state: ConnectionState,
}

impl MyWebSocket {
    /// A connection of `user_id`, known to the registry as `handle`, not yet
    /// running.
    pub fn new(user_id: u128, handle: u64) -> (r: MyWebSocket)
        ensures
            r.user_id == user_id,
            r.handle == handle,
            r.state == ConnectionState::Connecting,
    {
        MyWebSocket { user_id, handle, state: ConnectionState::Connecting }
    }

    /// Advances the connection by `event` and returns what to do, in order.
    ///
    /// While open, a ping is answered with a pong, pongs and data frames are
    /// ignored, and each pushed payload becomes one outbound text frame. A
    /// close frame, a transport failure or teardown closes the connection
    /// and deregisters it.
    pub fn handle_event(&mut self, event: ConnectionEvent) -> (r: Vec<ConnectionAction>)
        ensures
            final(self).user_id == old(self).user_id,
            final(self).handle == old(self).handle,
            final(self).state == next_state(old(self).state, event),
            r@ == actions_for(old(self).state, event, old(self).user_id, old(self).handle),
    {
        let user_id = self.user_id;
        let handle = self.handle;
        let mut r: Vec<ConnectionAction> = Vec::new();
        match self.state {
            ConnectionState::Connecting => match event {
                ConnectionEvent::Started => {
                    r.push(ConnectionAction::Register { user_id, handle });
                    self.state = ConnectionState::Open;
                },
                ConnectionEvent::Stopped => {
                    r.push(ConnectionAction::Deregister { user_id, handle });
                    self.state = ConnectionState::Closed;
                },
                ConnectionEvent::TransportError => {
                    r.push(ConnectionAction::Stop);
                    r.push(ConnectionAction::Deregister { user_id, handle });
                    self.state = ConnectionState::Closed;
                },
                _ => {},
            },
            ConnectionState::Open => match event {
                ConnectionEvent::Frame(InboundFrame::Ping(bytes)) => {
                    r.push(ConnectionAction::SendPong(bytes));
                },
                ConnectionEvent::Frame(InboundFrame::Close) | ConnectionEvent::TransportError => {
                    r.push(ConnectionAction::Stop);
                    r.push(ConnectionAction::Deregister { user_id, handle });
                    self.state = ConnectionState::Closed;
                },
                ConnectionEvent::Stopped => {
                    r.push(ConnectionAction::Deregister { user_id, handle });
                    self.state = ConnectionState::Closed;
                },
                ConnectionEvent::Push(message) => {
                    r.push(ConnectionAction::SendText(message.0));
                },
                _ => {},
            },
            ConnectionState::Closed => {},
        }
        proof {
            assert(r@ =~= actions_for(old(self).state, event, user_id, handle));
        }
        r
    }
}

} // verus!
