//! The server's state and the rule by which one connection's events change it.
//!
//! [`TCPServer`] holds no socket and takes no lock. Whoever owns the listener
//! keeps one server behind a lock, and for every event on a connection calls
//! [`TCPServer::handle_event`] and then writes what the outcome names, all
//! while holding that lock: the change and its broadcast then reach the other
//! connections as one step.

use vstd::prelude::*;
use crate::player::{Player, PlayerView};
use crate::position::Position;
use crate::protocol::{
    compose_join,
    compose_move,
    compose_pong,
    join_message,
    move_message,
    pong_message,
    Request,
    RequestView,
};
use crate::registry::{audience, identities, EntryView, Registry};
use crate::vector::Vector;

verus! {

/// The mathematical value of an [`Event`].
pub enum EventView<H> {
    Request { request: RequestView, outbound: H },
    EndOfStream,
    ReadFailed,
}

/// What can happen on one connection.
#[derive(Debug)]
pub enum Event<H> {
    /// A chunk of input arrived and was read as `request`. `outbound` is a
    /// handle on which this client can be written to; a join registers it, and
    /// any other request drops it.
    Request { request: Request, outbound: H },
    /// The client closed the connection.
    EndOfStream,
    /// Reading from the connection failed.
    ReadFailed,
}

impl<H> View for Event<H> {
    type V = EventView<H>;

    open spec fn view(&self) -> EventView<H> {
        match self {
            Event::Request { request, outbound } => EventView::Request {
                request: request@,
                outbound: *outbound,
            },
            Event::EndOfStream => EventView::EndOfStream,
            Event::ReadFailed => EventView::ReadFailed,
        }
    }
}

/// The mathematical value of a [`Broadcast`].
pub struct BroadcastView {
    pub payload: Seq<char>,
    pub exclude: Option<u64>,
}

/// A message for every registered connection but the excluded one.
#[derive(Debug, Clone, PartialEq, Eq)]
pub struct Broadcast {
    pub payload: String,
    pub exclude: Option<u64>,
}

impl View for Broadcast {
    type V = BroadcastView;

    open spec fn view(&self) -> BroadcastView {
        BroadcastView { payload: self.payload@, exclude: self.exclude }
    }
}

/// The mathematical value of an [`Outcome`].
pub struct OutcomeView {
    pub reply: Option<Seq<char>>,
    pub broadcast: Option<BroadcastView>,
    pub close: bool,
}

/// What the caller has to do after an event: write `reply` to the connection
/// the event came from, write `broadcast` to the others, and, if `close` is
/// set, end the connection.
#[derive(Debug, Clone, PartialEq, Eq)]
pub struct Outcome {
    pub reply: Option<String>,
    pub broadcast: Option<Broadcast>,
    pub close: bool,
}

impl View for Outcome {
    type V = OutcomeView;

    open spec fn view(&self) -> OutcomeView {
        OutcomeView {
            reply: match self.reply {
                Some(text) => Some(text@),
                None => None,
            },
            broadcast: match self.broadcast {
                Some(broadcast) => Some(broadcast@),
                None => None,
            },
            close: self.close,
        }
    }
}

impl OutcomeView {
    /// Nothing to write, and the connection stays.
    pub open spec fn silent() -> OutcomeView {
        OutcomeView { reply: None, broadcast: None, close: false }
    }

    /// Nothing to write, and the connection ends.
    pub open spec fn closing() -> OutcomeView {
        OutcomeView { reply: None, broadcast: None, close: true }
    }

    /// `payload` goes to everyone but `sender`.
    pub open spec fn announcing(payload: Seq<char>, sender: u64) -> OutcomeView {
        OutcomeView {
            reply: None,
            broadcast: Some(BroadcastView { payload, exclude: Some(sender) }),
            close: false,
        }
    }
}

/// The registry after `event` on connection `id`.
///
/// A join puts a fresh session under `id`, over any earlier one. A move
/// changes the session under `id` if there is one. A violation, the end of
/// the stream and a failed read take `id` out. Nothing else changes anything,
/// and no event touches another identity.
pub open spec fn next_sessions<H>(
    sessions: Map<u64, EntryView<H>>,
    id: u64,
    event: EventView<H>,
) -> Map<u64, EntryView<H>> {
    match event {
        EventView::Request { request, outbound } => match request {
            RequestView::Join { name } => sessions.insert(
                id,
                EntryView { session: PlayerView::joined(name), handle: outbound },
            ),
            RequestView::Move { position, direction } => if sessions.contains_key(id) {
                sessions.insert(
                    id,
                    EntryView {
                        session: sessions[id].session.moved(position, direction),
                        handle: sessions[id].handle,
                    },
                )
            } else {
                sessions
            },
            RequestView::Violation => sessions.remove(id),
            RequestView::Ping | RequestView::Ignore => sessions,
        },
        EventView::EndOfStream | EventView::ReadFailed => sessions.remove(id),
    }
}

/// What `event` on connection `id` asks of the caller, the registry being
/// `sessions` when it arrives.
///
/// A ping is answered to the sender alone. A join is announced to the others,
/// and so is a move by a connection that has a session; a move by one that has
/// none is dropped. A violation, the end of the stream and a failed read end
/// the connection, and nobody is told.
pub open spec fn outcome_of<H>(
    sessions: Map<u64, EntryView<H>>,
    id: u64,
    event: EventView<H>,
) -> OutcomeView {
    match event {
        EventView::Request { request, outbound } => match request {
            RequestView::Ping => OutcomeView {
                reply: Some(pong_message()),
                broadcast: None,
                close: false,
            },
            RequestView::Join { name } => OutcomeView::announcing(join_message(name), id),
            RequestView::Move { position, direction } => if sessions.contains_key(id) {
                OutcomeView::announcing(
                    move_message(sessions[id].session.username, position, direction),
                    id,
                )
            } else {
                OutcomeView::silent()
            },
            RequestView::Ignore => OutcomeView::silent(),
            RequestView::Violation => OutcomeView::closing(),
        },
        EventView::EndOfStream | EventView::ReadFailed => OutcomeView::closing(),
    }
}

/// The mathematical value of a [`TCPServer`].
pub struct ServerView<H> {
    pub address: Seq<char>,
    pub sessions: Map<u64, EntryView<H>>,
}

/// The state of one server: the address it is to listen on and the registry
/// of its sessions. `H` is the type of the handles on which clients are
/// written to.
pub struct TCPServer<H> {
    address: String,
    registry: Registry<H>,
}

impl<H> View for TCPServer<H> {
    type V = ServerView<H>;

    closed spec fn view(&self) -> ServerView<H> {
        ServerView { address: self.address@, sessions: self.registry@ }
    }
}

impl<H> TCPServer<H> {
    /// A server for `address` with nobody connected.
    pub fn new(address: &str) -> (server: Self)
        ensures
            server@.address == address@,
            server@.sessions == Map::<u64, EntryView<H>>::empty(),
    {
        TCPServer { address: address.to_owned(), registry: Registry::new() }
    }

    /// The address to listen on.
    pub fn address(&self) -> (address: &str)
        ensures
            address@ == self@.address,
    {
        self.address.as_str()
    }

    /// The registry of sessions.
    pub fn registry(&self) -> (registry: &Registry<H>)
        ensures
            registry@ == self@.sessions,
    {
        &self.registry
    }

    /// Applies `event` on connection `id` and says what the caller has to do.
    pub fn handle_event(&mut self, id: u64, event: Event<H>) -> (outcome: Outcome)
        ensures
            final(self)@.address == old(self)@.address,
            final(self)@.sessions == next_sessions(old(self)@.sessions, id, event@),
            outcome@ == outcome_of(old(self)@.sessions, id, event@),
    {
        match event {
            Event::Request { request, outbound } => match request {
                Request::Ping => Outcome {
                    reply: Some(compose_pong()),
                    broadcast: None,
                    close: false,
                },
                Request::Join { name } => {
                    let payload = compose_join(name.as_str());
                    let session = Player::new(name.as_str(), Position::origin(), Vector::zero());
                    self.registry.register(id, session, outbound);
                    Outcome {
                        reply: None,
                        broadcast: Some(Broadcast { payload, exclude: Some(id) }),
                        close: false,
                    }
                },
                Request::Move { position, direction } => {
                    let announced = match self.registry.session(id) {
                        Some(player) => Some(
                            compose_move(player.username.as_str(), &position, &direction),
                        ),
                        None => None,
                    };
                    match announced {
                        Some(payload) => {
                            self.registry.update(id, position, direction);
                            Outcome {
                                reply: None,
                                broadcast: Some(Broadcast { payload, exclude: Some(id) }),
                                close: false,
                            }
                        },
                        None => Outcome { reply: None, broadcast: None, close: false },
                    }
                },
                Request::Ignore => Outcome { reply: None, broadcast: None, close: false },
                Request::Violation => {
                    self.registry.remove(id);
                    Outcome { reply: None, broadcast: None, close: true }
                },
            },
            Event::EndOfStream | Event::ReadFailed => {
                self.registry.remove(id);
                Outcome { reply: None, broadcast: None, close: true }
            },
        }
    }

    /// The handles to write a broadcast to: one for every registered identity
    /// other than `exclude_client`, each with its identity, in no particular
    /// order. Without an excluded identity the broadcast reaches everyone.
    pub fn broadcast(&self, exclude_client: Option<u64>) -> (recipients: Vec<(u64, &H)>)
        ensures
            identities(recipients@).no_duplicates(),
            identities(recipients@).to_set() == audience(self@.sessions, exclude_client),
            forall|i: int|
                0 <= i < recipients.len() ==> *(#[trigger] recipients[i]).1
                    == self@.sessions[recipients[i].0].handle,
    {
        self.registry.snapshot_handles(exclude_client)
    }
}

} // verus!
