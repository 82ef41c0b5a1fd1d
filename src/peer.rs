//! One remote peer: its address, lifecycle state, mode and socket.

use vstd::prelude::*;
use crate::addr::{PeerAddr, same_host};

verus! {

/// The payloads this core schedules for sending.
#[derive(Clone, Copy, Debug, PartialEq, Eq, Structural)]
pub enum Message {
    /// Liveness probe carrying the node's current height.
    Ping { height: u64 },
    /// Request for the remote peer's known peers.
    GetPeers,
}

impl Message {
    pub fn ping(height: u64) -> (r: Message)
        ensures
            r == (Message::Ping { height }),
    {
        Message::Ping { height }
    }
}

/// Lifecycle of a connection. `since` is a reading, in seconds, of the
/// node's monotonic clock taken when the peer became idle.
#[derive(Clone, Copy, Debug, PartialEq, Eq, Structural)]
pub enum State {
    Connecting,
    Idle { since: u64 },
    Sending { message: Message },
}

impl State {
    pub fn message(message: Message) -> (r: State)
        ensures
            r == (State::Sending { message }),
    {
        State::Sending { message }
    }

    pub fn idle(since: u64) -> (r: State)
        ensures
            r == (State::Idle { since }),
    {
        State::Idle { since }
    }
}

/// What a peer is, apart from its socket.
pub struct PeerView {
    pub addr: PeerAddr,
    pub state: State,
    pub public: bool,
    pub disabled: bool,
}

/// A peer is active while it is mid-handshake or mid-send, that is, not idle.
pub open spec fn is_active(p: PeerView) -> bool {
    !(p.state is Idle)
}

/// A remote peer, owning the socket `S` of its connection.
pub struct Peer<S> {
    addr: PeerAddr,
    socket: S,
    state: State,
    public: bool,
    disabled: bool,
}

impl<S> View for Peer<S> {
    type V = PeerView;

    closed spec fn view(&self) -> PeerView {
        PeerView {
            addr: self.addr,
            state: self.state,
            public: self.public,
            disabled: self.disabled,
        }
    }
}

impl<S> Peer<S> {
    /// A new peer; it starts enabled.
    pub fn new(addr: PeerAddr, socket: S, state: State, public: bool) -> (r: Peer<S>)
        ensures
            r@ == (PeerView { addr, state, public, disabled: false }),
            r.socket_spec() == socket,
    {
        Peer { addr, socket, state, public, disabled: false }
    }

    pub closed spec fn socket_spec(&self) -> S {
        self.socket
    }

    /// Whether this peer's host is the host of `addr`.
    pub fn equals(&self, addr: &PeerAddr) -> (r: bool)
        ensures
            r == same_host(self@.addr, *addr),
    {
        self.addr.same_host(addr)
    }

    pub fn get_addr(&self) -> (r: PeerAddr)
        ensures
            r == self@.addr,
    {
        self.addr
    }

    pub fn get_state(&self) -> (r: State)
        ensures
            r == self@.state,
    {
        self.state
    }

    pub fn set_state(&mut self, state: State)
        ensures
            final(self)@ == (PeerView { state, ..old(self)@ }),
            final(self).socket_spec() == old(self).socket_spec(),
    {
        self.state = state;
    }

    pub fn is_public(&self) -> (r: bool)
        ensures
            r == self@.public,
    {
        self.public
    }

    pub fn set_public(&mut self, public: bool)
        ensures
            final(self)@ == (PeerView { public, ..old(self)@ }),
            final(self).socket_spec() == old(self).socket_spec(),
    {
        self.public = public;
    }

    pub fn disabled(&self) -> (r: bool)
        ensures
            r == self@.disabled,
    {
        self.disabled
    }

    pub fn set_disabled(&mut self, disabled: bool)
        ensures
            final(self)@ == (PeerView { disabled, ..old(self)@ }),
            final(self).socket_spec() == old(self).socket_spec(),
    {
        self.disabled = disabled;
    }

    pub fn active(&self) -> (r: bool)
        ensures
            r == is_active(self@),
    {
        match self.state {
            State::Idle { .. } => false,
            _ => true,
        }
    }

    pub fn get_stream(&self) -> (r: &S)
        ensures
            *r == self.socket_spec(),
    {
        &self.socket
    }

    /// The socket, for re-registration with an event multiplexer.
    pub fn get_mut_stream(&mut self) -> (r: &mut S)
        ensures
            *r == old(self).socket_spec(),
            final(self)@ == old(self)@,
            final(self).socket_spec() == *final(r),
    {
        &mut self.socket
    }

    /// Takes the peer apart to close its socket.
    pub fn into_stream(self) -> (r: S)
        ensures
            r == self.socket_spec(),
    {
        self.socket
    }
}

} // verus!
