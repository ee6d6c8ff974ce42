//! The life of one client session, from handshake to removal.
//!
//! A session is driven by the events of its transport. For each event it
//! decides three things: the state it is in afterwards, what becomes of the
//! registry, and which work it leaves to its caller, who talks to the store
//! and to the sockets.

use crate::broadcaster::{broadcast, fan_out_of, Delivery, DeliveryView};
use crate::models::{NewMessage, NewMessageView};
use crate::registry::{
    lemma_dead_handle_is_gone, reported_dead, without_dead, ConnId, Liveness, Registry,
};
use vstd::prelude::*;

verus! {

/// Where a session stands.
#[derive(Debug, Clone, Copy, PartialEq, Eq, Structural)]
pub enum SessionState {
    /// The transport is still shaking hands; the registry does not know the
    /// connection yet.
    Connecting,
    /// The connection is registered and its frames are relayed.
    Active,
    /// The client has asked to close; the session waits for its transport
    /// to end and relays nothing any more.
    Terminating,
    /// The session is over and its handle is out of the registry. Nothing
    /// leads out of this state.
    Terminated,
}

/// One frame from the client, as far as the session reads it: the text of a
/// text frame, and of every other frame its kind alone.
#[derive(Debug, PartialEq, Eq)]
pub enum Frame {
    Text(String),
    Binary,
    Continuation,
    Ping,
    Pong,
    Close,
    Nop,
}

/// What the transport reports to a session.
#[derive(Debug, PartialEq, Eq)]
pub enum Event {
    /// The handshake is done.
    Established,
    /// The client has sent a frame.
    Inbound(Frame),
    /// The client has broken the protocol. The transport says whether it
    /// can go on after that.
    ProtocolError { fatal: bool },
    /// The transport is closed.
    TransportClosed,
    /// The server is shutting down.
    Shutdown,
}

/// The work that an event leaves to the caller. The two parts do not depend
/// on each other: if the store refuses the message, the deliveries are
/// still made, and a delivery that fails stops neither the storing nor
/// the other deliveries.
#[derive(Debug, PartialEq, Eq)]
pub struct Reaction {
    /// The message to append to the durable store, if any.
    pub store: Option<NewMessage>,
    /// The pushes to make, one for each connection that was registered
    /// when the event was handled.
    pub deliveries: Vec<Delivery>,
}

/// Whether `event` ends a session for good.
pub open spec fn ends_session(event: Event) -> bool {
    match event {
        Event::TransportClosed => true,
        Event::Shutdown => true,
        Event::ProtocolError { fatal } => fatal,
        _ => false,
    }
}

/// The state that follows `state` on `event`.
pub open spec fn next_state(state: SessionState, event: Event) -> SessionState {
    match state {
        SessionState::Connecting => {
            if event is Established {
                SessionState::Active
            } else if ends_session(event) {
                SessionState::Terminated
            } else {
                SessionState::Connecting
            }
        },
        SessionState::Active => {
            if ends_session(event) {
                SessionState::Terminated
            } else if event == Event::Inbound(Frame::Close) {
                SessionState::Terminating
            } else {
                SessionState::Active
            }
        },
        SessionState::Terminating => {
            if ends_session(event) {
                SessionState::Terminated
            } else {
                SessionState::Terminating
            }
        },
        SessionState::Terminated => SessionState::Terminated,
    }
}

/// The registry that the session of `connection` leaves behind when it
/// meets `event` in `state`: the handle is added on entry to
/// [`SessionState::Active`], taken out on entry to
/// [`SessionState::Terminated`] if it was ever added, and nothing changes
/// otherwise.
pub open spec fn registry_after(
    state: SessionState,
    connection: ConnId,
    event: Event,
    handles: Seq<ConnId>,
) -> Seq<ConnId> {
    if state is Connecting && event is Established {
        handles.push(connection)
    } else if (state is Active || state is Terminating) && ends_session(event) {
        without_dead(handles, set![connection])
    } else {
        handles
    }
}

/// The text that `event` asks to relay when it meets a session in `state`:
/// that of a text frame in [`SessionState::Active`], and none otherwise.
pub open spec fn relayed_text(state: SessionState, event: Event) -> Option<Seq<char>> {
    match (state, event) {
        (SessionState::Active, Event::Inbound(Frame::Text(text))) => Some(text@),
        _ => None,
    }
}

/// The message that goes to the store for a relayed text.
pub open spec fn stored_for(text: Option<Seq<char>>) -> Option<NewMessageView> {
    match text {
        Some(content) => Some(NewMessageView { content }),
        None => None,
    }
}

/// The pushes that a relayed text calls for, with `handles` registered: one
/// to each of them, the sender's own among them.
pub open spec fn deliveries_for(text: Option<Seq<char>>, handles: Seq<ConnId>) -> Seq<
    DeliveryView,
> {
    match text {
        Some(content) => fan_out_of(handles, content),
        None => Seq::empty(),
    }
}

/// One client session: its connection handle and where it stands.
pub struct Session {
    connection: ConnId,
    state: SessionState,
}

/// A [`Session`] as contracts see it.
pub struct SessionView {
    pub connection: ConnId,
    pub state: SessionState,
}

impl View for Session {
    type V = SessionView;

    closed spec fn view(&self) -> SessionView {
        SessionView { connection: self.connection, state: self.state }
    }
}

impl Session {
    /// The session of `connection`, before its handshake is done.
    pub fn new(connection: ConnId) -> (session: Session)
        ensures
            session@ == (SessionView { connection, state: SessionState::Connecting }),
    {
        Session { connection, state: SessionState::Connecting }
    }

    /// The handle of the session's connection.
    pub fn connection(&self) -> (connection: ConnId)
        ensures
            connection == self@.connection,
    {
        self.connection
    }

    /// Where the session stands.
    pub fn state(&self) -> (state: SessionState)
        ensures
            state == self@.state,
    {
        self.state
    }

    /// Takes one event of the transport.
    ///
    /// The session moves to the state that [`next_state`] gives. The
    /// registry is changed as [`registry_after`] says, by this call and
    /// before it returns. A text frame that meets an active session comes
    /// back as work for the caller: the message to store and one push for
    /// each handle that was registered when the frame came in. Every other
    /// event leaves the caller nothing to do.
    pub fn handle(&mut self, event: Event, registry: &mut Registry) -> (reaction: Reaction)
        ensures
            final(self)@.connection == old(self)@.connection,
            final(self)@.state == next_state(old(self)@.state, event),
            final(registry)@ == registry_after(
                old(self)@.state,
                old(self)@.connection,
                event,
                old(registry)@,
            ),
            reaction.store.deep_view() == stored_for(relayed_text(old(self)@.state, event)),
            reaction.deliveries.deep_view() == deliveries_for(
                relayed_text(old(self)@.state, event),
                old(registry)@,
            ),
    {
        let ending = ends(&event);
        match self.state {
            SessionState::Connecting => {
                if let Event::Established = event {
                    registry.register(self.connection);
                    self.state = SessionState::Active;
                } else if ending {
                    self.state = SessionState::Terminated;
                }
                nothing_to_do()
            },
            SessionState::Active => {
                if ending {
                    self.leave(registry);
                    nothing_to_do()
                } else {
                    match event {
                        Event::Inbound(Frame::Text(text)) => {
                            let deliveries = broadcast(registry, text.as_str());
                            let store = Some(NewMessage::of_text(text.as_str()));
                            Reaction { store, deliveries }
                        },
                        Event::Inbound(Frame::Close) => {
                            self.state = SessionState::Terminating;
                            nothing_to_do()
                        },
                        _ => nothing_to_do(),
                    }
                }
            },
            SessionState::Terminating => {
                if ending {
                    self.leave(registry);
                }
                nothing_to_do()
            },
            SessionState::Terminated => nothing_to_do(),
        }
    }

    /// Ends the session and takes its handle out of `registry`.
    fn leave(&mut self, registry: &mut Registry)
        ensures
            final(self)@.connection == old(self)@.connection,
            final(self)@.state == SessionState::Terminated,
            final(registry)@ == without_dead(old(registry)@, set![old(self)@.connection]),
    {
        let mut report: Vec<Liveness> = Vec::new();
        report.push(Liveness { connection: self.connection, alive: false });
        proof {
            let only = Liveness { connection: self.connection, alive: false };
            assert(report@ =~= seq![only]);
            assert(report@[0] == only);
            assert(reported_dead(report@) =~= set![self.connection]);
        }
        registry.deregister_dead(&report);
        self.state = SessionState::Terminated;
    }
}

/// Whether `event` ends a session for good.
fn ends(event: &Event) -> (ending: bool)
    ensures
        ending == ends_session(*event),
{
    match event {
        Event::TransportClosed => true,
        Event::Shutdown => true,
        Event::ProtocolError { fatal } => *fatal,
        _ => false,
    }
}

/// The reaction to an event that leaves the caller no work.
fn nothing_to_do() -> (reaction: Reaction)
    ensures
        reaction.store.deep_view() == None::<NewMessageView>,
        reaction.deliveries.deep_view() == Seq::<DeliveryView>::empty(),
{
    let reaction = Reaction { store: None, deliveries: Vec::new() };
    proof {
        assert(reaction.deliveries.deep_view() =~= Seq::<DeliveryView>::empty());
    }
    reaction
}

/// A session that ends leaves the registry without its handle, however
/// often the handle stood there, and ends up in
/// [`SessionState::Terminated`].
pub proof fn lemma_ended_session_is_deregistered(
    state: SessionState,
    connection: ConnId,
    event: Event,
    handles: Seq<ConnId>,
)
    requires
        state is Active || state is Terminating,
        ends_session(event),
    ensures
        next_state(state, event) is Terminated,
        !registry_after(state, connection, event, handles).contains(connection),
{
    lemma_dead_handle_is_gone(handles, set![connection], connection);
}

/// Nothing moves a session that is over: it stays where it is, leaves the
/// registry as it is and relays nothing.
pub proof fn lemma_terminated_is_final(connection: ConnId, event: Event, handles: Seq<ConnId>)
    ensures
        next_state(SessionState::Terminated, event) is Terminated,
        registry_after(SessionState::Terminated, connection, event, handles) == handles,
        relayed_text(SessionState::Terminated, event) is None,
{
}

/// An active session hears its own texts: among the pushes for a text
/// frame is one to the sender, as long as the sender is registered.
pub proof fn lemma_sender_hears_itself(connection: ConnId, text: Seq<char>, handles: Seq<ConnId>)
    requires
        handles.contains(connection),
    ensures
        deliveries_for(Some(text), handles).contains(
            DeliveryView { to: connection, payload: text },
        ),
{
    let i = choose|i: int| 0 <= i < handles.len() && handles[i] == connection;
    assert(fan_out_of(handles, text)[i] == DeliveryView { to: connection, payload: text });
}

} // verus!
