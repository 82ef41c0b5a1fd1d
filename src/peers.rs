//! The connection table and the pending-connect queue, with gossip intake,
//! gossip export, connection admission and the keepalive schedule.

use vstd::prelude::*;
use crate::addr::{PeerAddr, is_loopback_ip, same_host};
use crate::peer::{Message, Peer, PeerView, State, is_active};

verus! {

/// The port every node listens on; disclosed peers are dialled there.
pub const LISTEN_PORT: u16 = 4244;

/// Seconds a peer may stay idle before it is probed.
pub const PING_PERIOD: u64 = 30;

/// A keepalive draw (a uniform byte) below this asks for peers instead of
/// pinging: one time in sixteen.
pub const DISCOVERY_ODDS: u8 = 16;

/// Bound on the pending-connect queue, so that a flood of gossip cannot
/// grow it without limit. Addresses offered while it is full are dropped.
pub const MAX_PENDING: usize = 1024;

/// The connection table seen as a sequence of (handle, peer) entries.
pub type Table = Seq<(usize, PeerView)>;

pub open spec fn unique_handles(t: Table) -> bool {
    forall|i: int, j: int| 0 <= i < t.len() && 0 <= j < t.len() && i != j ==> t[i].0 != t[j].0
}

pub open spec fn has_handle(t: Table, h: usize) -> bool {
    exists|i: int| 0 <= i < t.len() && t[i].0 == h
}

/// Some peer of the table is on the host of `a`.
pub open spec fn knows(t: Table, a: PeerAddr) -> bool {
    exists|i: int| 0 <= i < t.len() && same_host(t[i].1.addr, a)
}

/// Position of the entry under handle `h`; meaningful when there is one.
pub open spec fn handle_index(t: Table, h: usize) -> int {
    choose|i: int| 0 <= i < t.len() && t[i].0 == h
}

/// The peer under handle `h`, if any.
pub open spec fn lookup(t: Table, h: usize) -> Option<PeerView> {
    if has_handle(t, h) {
        Some(t[handle_index(t, h)].1)
    } else {
        None
    }
}

/// What the table looks like after `insert(h, p)`: the entry under `h` is
/// replaced if there is one, else the entry is added at the end.
pub open spec fn table_insert(t: Table, h: usize, p: PeerView) -> Table {
    if has_handle(t, h) {
        t.update(handle_index(t, h), (h, p))
    } else {
        t.push((h, p))
    }
}

/// An offered address joins the queue `q` when it is not loopback, no
/// connected peer is on its host, it is not queued yet and there is room.
pub open spec fn admissible(t: Table, q: Seq<PeerAddr>, a: PeerAddr) -> bool {
    &&& !is_loopback_ip(a.ip)
    &&& !knows(t, a)
    &&& !q.contains(a)
    &&& q.len() < MAX_PENDING
}

/// The queue after the offered addresses `batch` are taken in, in order.
pub open spec fn intake(t: Table, q: Seq<PeerAddr>, batch: Seq<PeerAddr>) -> Seq<PeerAddr>
    decreases batch.len(),
{
    if batch.len() == 0 {
        q
    } else {
        let before = intake(t, q, batch.drop_last());
        if admissible(t, before, batch.last()) {
            before.push(batch.last())
        } else {
            before
        }
    }
}

/// A peer is disclosed to `requester` when it is public and not on the
/// requester's host.
pub open spec fn disclosed(p: PeerView, requester: PeerAddr) -> bool {
    p.public && !same_host(p.addr, requester)
}

/// The addresses disclosed to `requester`, in table order, each at the
/// listening port.
pub open spec fn exchange_list(t: Table, requester: PeerAddr) -> Seq<PeerAddr>
    decreases t.len(),
{
    if t.len() == 0 {
        Seq::empty()
    } else {
        let before = exchange_list(t.drop_last(), requester);
        let p = t.last().1;
        if disclosed(p, requester) {
            before.push(PeerAddr { ip: p.addr.ip, port: LISTEN_PORT })
        } else {
            before
        }
    }
}

/// A peer on the candidate's host stands in the way of a new connection
/// when it is private, active or disabled.
pub open spec fn blocks(p: PeerView) -> bool {
    !p.public || is_active(p) || p.disabled
}

pub open spec fn should_skip(t: Table, a: PeerAddr) -> bool {
    exists|i: int| 0 <= i < t.len() && same_host(t[i].1.addr, a) && blocks(t[i].1)
}

/// A peer is due for a keepalive when it has been idle for at least
/// `PING_PERIOD` seconds at clock reading `now`.
pub open spec fn keepalive_due(p: PeerView, now: u64) -> bool {
    match p.state {
        State::Idle { since } => since <= now && now - since >= PING_PERIOD,
        _ => false,
    }
}

/// The handles of the peers due for a keepalive, in table order.
pub open spec fn due_handles(t: Table, now: u64) -> Seq<usize>
    decreases t.len(),
{
    if t.len() == 0 {
        Seq::empty()
    } else {
        let before = due_handles(t.drop_last(), now);
        if keepalive_due(t.last().1, now) {
            before.push(t.last().0)
        } else {
            before
        }
    }
}

/// The payload of a keepalive for the uniform byte `draw`.
pub open spec fn keepalive_payload(draw: u8, height: u64) -> Message {
    if draw < DISCOVERY_ODDS {
        Message::GetPeers
    } else {
        Message::Ping { height }
    }
}

/// One entry before and after a keepalive tick: a due peer moves to sending
/// a ping with `height` or a request for peers; any other entry is unchanged.
pub open spec fn keepalive_step(before: (usize, PeerView), after: (usize, PeerView), now: u64, height: u64) -> bool {
    if keepalive_due(before.1, now) {
        exists|m: Message|
            (m == Message::GetPeers || m == (Message::Ping { height }))
            && after == (before.0, PeerView { state: State::Sending { message: m }, ..before.1 })
    } else {
        after == before
    }
}

/// Relies on rand::random::<u8>: a uniform byte from the thread-local
/// generator, so nothing is stated of its value. It panics only when the
/// operating system's generator cannot seed that generator, which no
/// argument decides.
#[verifier::external_body]
fn random_draw() -> (r: u8) {
    rand::random::<u8>()
}

/// The keepalive payload for the uniform byte `draw`: a request for peers
/// when `draw < DISCOVERY_ODDS`, else a ping carrying `height`.
pub fn keepalive_message(draw: u8, height: u64) -> (r: Message)
    ensures
        r == keepalive_payload(draw, height),
{
    if draw < DISCOVERY_ODDS {
        Message::GetPeers
    } else {
        Message::ping(height)
    }
}

/// Whether `peer` is due for a keepalive at clock reading `now`.
pub fn is_keepalive_due<S>(peer: &Peer<S>, now: u64) -> (r: bool)
    ensures
        r == keepalive_due(peer@, now),
{
    match peer.get_state() {
        State::Idle { since } => since <= now && now - since >= PING_PERIOD,
        _ => false,
    }
}

/// The connection table and the pending-connect queue.
pub struct Peers<S> {
    peers: Vec<(usize, Peer<S>)>,
    new_peers: Vec<PeerAddr>,
}

impl<S> Peers<S> {
    pub closed spec fn table(&self) -> Table {
        self.peers@.map_values(|e: (usize, Peer<S>)| (e.0, e.1@))
    }

    pub closed spec fn pending(&self) -> Seq<PeerAddr> {
        self.new_peers@
    }

    /// Handles are unique; the queue holds no address twice, no loopback
    /// address, and no more than `MAX_PENDING` addresses.
    pub open spec fn wf(&self) -> bool {
        &&& unique_handles(self.table())
        &&& self.pending().no_duplicates()
        &&& forall|i: int| 0 <= i < self.pending().len() ==> !is_loopback_ip(#[trigger] self.pending()[i].ip)
        &&& self.pending().len() <= MAX_PENDING
    }

    pub fn new() -> (r: Peers<S>)
        ensures
            r.wf(),
            r.table() == Seq::<(usize, PeerView)>::empty(),
            r.pending() == Seq::<PeerAddr>::empty(),
    {
        let r = Peers { peers: Vec::new(), new_peers: Vec::new() };
        assert(r.table() =~= Seq::<(usize, PeerView)>::empty());
        r
    }

    /// Index of the entry under handle `h`, if any.
    fn find(&self, h: usize) -> (r: Option<usize>)
        requires
            self.wf(),
        ensures
            match r {
                Some(i) => i < self.table().len() && self.table()[i as int].0 == h,
                None => !has_handle(self.table(), h),
            },
    {
        let mut i: usize = 0;
        while i < self.peers.len()
            invariant
                i <= self.peers.len(),
                self.table().len() == self.peers.len(),
                forall|j: int| 0 <= j < i ==> self.table()[j].0 != h,
            decreases self.peers.len() - i,
        {
            if self.peers[i].0 == h {
                return Some(i);
            }
            i += 1;
        }
        None
    }

    /// Whether some connected peer is on the host of `addr`.
    fn knows_host(&self, addr: &PeerAddr) -> (r: bool)
        ensures
            r == knows(self.table(), *addr),
    {
        let mut i: usize = 0;
        while i < self.peers.len()
            invariant
                i <= self.peers.len(),
                self.table().len() == self.peers.len(),
                forall|j: int| 0 <= j < i ==> !same_host(#[trigger] self.table()[j].1.addr, *addr),
            decreases self.peers.len() - i,
        {
            if self.peers[i].1.equals(addr) {
                assert(same_host(self.table()[i as int].1.addr, *addr));
                return true;
            }
            i += 1;
        }
        false
    }

    /// Whether `addr` is waiting in the pending-connect queue.
    fn is_queued(&self, addr: &PeerAddr) -> (r: bool)
        ensures
            r == self.pending().contains(*addr),
    {
        let mut i: usize = 0;
        while i < self.new_peers.len()
            invariant
                i <= self.new_peers.len(),
                forall|j: int| 0 <= j < i ==> self.pending()[j] != *addr,
            decreases self.new_peers.len() - i,
        {
            if self.new_peers[i] == *addr {
                assert(self.pending()[i as int] == *addr);
                return true;
            }
            i += 1;
        }
        false
    }

    /// Takes in the addresses a remote peer reported in a gossip exchange.
    /// Loopback addresses, addresses whose host is already connected and
    /// addresses already queued are dropped; the others join the
    /// pending-connect queue in the order given, while it has room.
    pub fn add_peers_from_exchange(&mut self, peers: Vec<PeerAddr>)
        requires
            old(self).wf(),
        ensures
            final(self).wf(),
            final(self).table() == old(self).table(),
            final(self).pending() == intake(old(self).table(), old(self).pending(), peers@),
    {
        let ghost t = self.table();
        let ghost q0 = self.pending();
        let mut k: usize = 0;
        while k < peers.len()
            invariant
                k <= peers.len(),
                self.wf(),
                self.table() == t,
                self.pending() == intake(t, q0, peers@.subrange(0, k as int)),
            decreases peers.len() - k,
        {
            let a = peers[k];
            let ghost before = self.pending();
            proof {
                assert(peers@.subrange(0, k + 1).drop_last() =~= peers@.subrange(0, k as int));
                assert(peers@.subrange(0, k + 1).last() == a);
            }
            if !a.is_loopback() && !self.knows_host(&a) && !self.is_queued(&a)
                && self.new_peers.len() < MAX_PENDING {
                self.new_peers.push(a);
                proof {
                    assert(self.pending() == before.push(a));
                    assert forall|i: int, j: int|
                        0 <= i < self.pending().len() && 0 <= j < self.pending().len() && i != j
                        implies self.pending()[i] != self.pending()[j] by {
                        if i == before.len() as int {
                            assert(!before.contains(a));
                            assert(before[j] == self.pending()[j]);
                        } else if j == before.len() as int {
                            assert(!before.contains(a));
                            assert(before[i] == self.pending()[i]);
                        }
                    }
                }
            }
            k += 1;
        }
        assert(peers@.subrange(0, peers.len() as int) =~= peers@);
    }

    /// The addresses to tell `peer_address` about: every public peer not on
    /// its host, in table order, at the listening port.
    pub fn get_peers_for_exchange(&self, peer_address: &PeerAddr) -> (r: Vec<PeerAddr>)
        ensures
            r@ == exchange_list(self.table(), *peer_address),
    {
        let ghost t = self.table();
        let mut result: Vec<PeerAddr> = Vec::new();
        let mut i: usize = 0;
        while i < self.peers.len()
            invariant
                i <= self.peers.len(),
                t.len() == self.peers.len(),
                t == self.table(),
                result@ == exchange_list(t.subrange(0, i as int), *peer_address),
            decreases self.peers.len() - i,
        {
            let peer = &self.peers[i].1;
            proof {
                assert(t.subrange(0, i + 1).drop_last() =~= t.subrange(0, i as int));
                assert(t.subrange(0, i + 1).last() == t[i as int]);
            }
            if !peer.equals(peer_address) && peer.is_public() {
                result.push(PeerAddr::new(peer.get_addr().ip, LISTEN_PORT));
            }
            i += 1;
        }
        assert(t.subrange(0, t.len() as int) =~= t);
        result
    }

    /// Whether a connection to `addr` should not be made: some peer on its
    /// host is private, active or disabled.
    pub fn skip_peer_connection(&self, addr: &PeerAddr) -> (r: bool)
        ensures
            r == should_skip(self.table(), *addr),
    {
        let mut i: usize = 0;
        while i < self.peers.len()
            invariant
                i <= self.peers.len(),
                self.table().len() == self.peers.len(),
                forall|j: int| 0 <= j < i ==>
                    !(same_host(#[trigger] self.table()[j].1.addr, *addr) && blocks(self.table()[j].1)),
            decreases self.peers.len() - i,
        {
            let peer = &self.peers[i].1;
            if peer.equals(addr) && (!peer.is_public() || peer.active() || peer.disabled()) {
                assert(same_host(self.table()[i as int].1.addr, *addr) && blocks(self.table()[i as int].1));
                return true;
            }
            i += 1;
        }
        false
    }


    /// Keepalive tick at clock reading `now`: every peer idle for at least
    /// `PING_PERIOD` seconds is set to send a ping carrying `height`, or, one
    /// time in sixteen at random, a request for peers. Returns the handles of
    /// those peers, in table order, to be re-registered for writing.
    pub fn send_pings(&mut self, now: u64, height: u64) -> (r: Vec<usize>)
        requires
            old(self).wf(),
        ensures
            final(self).wf(),
            final(self).pending() == old(self).pending(),
            r@ == due_handles(old(self).table(), now),
            final(self).table().len() == old(self).table().len(),
            forall|i: int| 0 <= i < old(self).table().len() ==>
                keepalive_step(old(self).table()[i], #[trigger] final(self).table()[i], now, height),
    {
        let ghost t0 = self.table();
        let mut armed: Vec<usize> = Vec::new();
        let mut i: usize = 0;
        while i < self.peers.len()
            invariant
                i <= self.peers.len(),
                self.peers.len() == t0.len(),
                self.table().len() == t0.len(),
                self.pending() == old(self).pending(),
                unique_handles(t0),
                self.pending().no_duplicates(),
                forall|j: int| 0 <= j < self.pending().len() ==> !is_loopback_ip(#[trigger] self.pending()[j].ip),
                self.pending().len() <= MAX_PENDING,
                forall|j: int| 0 <= j < t0.len() ==> (#[trigger] self.table()[j]).0 == t0[j].0,
                forall|j: int| 0 <= j < i ==> keepalive_step(t0[j], #[trigger] self.table()[j], now, height),
                forall|j: int| i <= j < t0.len() ==> #[trigger] self.table()[j] == t0[j],
                armed@ == due_handles(t0.subrange(0, i as int), now),
            decreases t0.len() - i,
        {
            proof {
                assert(t0.subrange(0, i + 1).drop_last() =~= t0.subrange(0, i as int));
                assert(t0.subrange(0, i + 1).last() == t0[i as int]);
            }
            let ghost before = self.peers@;
            let ghost tb = self.table();
            assert(tb[i as int] == (before[i as int].0, before[i as int].1@));
            if is_keepalive_due(&self.peers[i].1, now) {
                let message = keepalive_message(random_draw(), height);
                let entry = &mut self.peers[i];
                entry.1.set_state(State::message(message));
                armed.push(entry.0);
                proof {
                    assert(self.peers@[i as int].1@ == PeerView { state: State::Sending { message }, ..before[i as int].1@ });
                    assert(self.peers@[i as int].0 == before[i as int].0);
                    assert(self.peers@ =~= before.update(i as int, self.peers@[i as int]));
                    assert(self.table() =~= tb.update(i as int, (tb[i as int].0,
                        PeerView { state: State::Sending { message }, ..tb[i as int].1 })));
                    assert(self.table()[i as int] == (t0[i as int].0,
                        PeerView { state: State::Sending { message }, ..t0[i as int].1 }));
                }
            }
            i += 1;
        }
        proof {
            assert(t0.subrange(0, t0.len() as int) =~= t0);
            assert(unique_handles(self.table()));
        }
        armed
    }

    /// Puts `peer` in the table under `token`, in place of any peer there.
    pub fn add_peer(&mut self, token: usize, peer: Peer<S>)
        requires
            old(self).wf(),
        ensures
            final(self).wf(),
            final(self).pending() == old(self).pending(),
            final(self).table() == table_insert(old(self).table(), token, peer@),
    {
        let ghost t = self.table();
        match self.find(token) {
            Some(i) => {
                proof {
                    let k = handle_index(t, token);
                    assert(t[i as int].0 == token);
                    assert(k == i);
                }
                self.peers[i] = (token, peer);
                assert(self.table() =~= t.update(i as int, (token, peer@)));
            },
            None => {
                self.peers.push((token, peer));
                assert(self.table() =~= t.push((token, peer@)));
            },
        }
    }

    /// The peer under `token`; none when the handle is unknown.
    pub fn get_peer(&self, token: &usize) -> (r: Option<&Peer<S>>)
        requires
            self.wf(),
        ensures
            match r {
                Some(p) => lookup(self.table(), *token) == Some(p@),
                None => lookup(self.table(), *token) == None::<PeerView>,
            },
    {
        match self.find(*token) {
            Some(i) => {
                proof {
                    let k = handle_index(self.table(), *token);
                    assert(self.table()[i as int].0 == *token);
                    assert(k == i);
                }
                Some(&self.peers[i].1)
            },
            None => None,
        }
    }

    /// The peer under `token`, to change in place; none when the handle is
    /// unknown.
    pub fn get_mut_peer(&mut self, token: &usize) -> (r: Option<&mut Peer<S>>)
        requires
            old(self).wf(),
        ensures
            final(self).pending() == old(self).pending(),
            match r {
                Some(p) => {
                    &&& lookup(old(self).table(), *token) == Some(p@)
                    &&& final(self).table() == old(self).table().update(
                        handle_index(old(self).table(), *token),
                        (*token, final(p)@),
                    )
                },
                None => {
                    &&& lookup(old(self).table(), *token) == None::<PeerView>
                    &&& final(self).table() == old(self).table()
                },
            },
            final(self).wf(),
    {
        let ghost t = self.table();
        match self.find(*token) {
            Some(i) => {
                proof {
                    let k = handle_index(t, *token);
                    assert(t[i as int].0 == *token);
                    assert(k == i);
                }
                proof {
                    assert forall|v: PeerView| unique_handles(#[trigger] t.update(i as int, (*token, v))) by {
                        let u = t.update(i as int, (*token, v));
                        assert forall|a: int, b: int| 0 <= a < u.len() && 0 <= b < u.len() && a != b
                            implies u[a].0 != u[b].0 by {
                            assert(u[a].0 == t[a].0 && u[b].0 == t[b].0);
                        }
                    }
                }
                let entry = &mut self.peers[i];
                Some(&mut entry.1)
            },
            None => None,
        }
    }

    /// Takes the peer under `token` out of the table; the caller closes its
    /// socket. None when the handle is unknown.
    pub fn remove_peer(&mut self, token: &usize) -> (r: Option<Peer<S>>)
        requires
            old(self).wf(),
        ensures
            final(self).wf(),
            final(self).pending() == old(self).pending(),
            match r {
                Some(p) => {
                    &&& lookup(old(self).table(), *token) == Some(p@)
                    &&& final(self).table() == old(self).table().remove(handle_index(old(self).table(), *token))
                },
                None => {
                    &&& lookup(old(self).table(), *token) == None::<PeerView>
                    &&& final(self).table() == old(self).table()
                },
            },
    {
        let ghost t = self.table();
        match self.find(*token) {
            Some(i) => {
                proof {
                    let k = handle_index(t, *token);
                    assert(t[i as int].0 == *token);
                    assert(k == i);
                }
                let entry = self.peers.remove(i);
                assert(self.table() =~= t.remove(i as int));
                Some(entry.1)
            },
            None => None,
        }
    }

    /// Empties the pending-connect queue and hands its addresses over, in
    /// order, for dialling. On an empty queue nothing changes.
    pub fn take_new_peers(&mut self) -> (r: Vec<PeerAddr>)
        requires
            old(self).wf(),
        ensures
            final(self).wf(),
            r@ == old(self).pending(),
            final(self).pending() == Seq::<PeerAddr>::empty(),
            final(self).table() == old(self).table(),
    {
        let mut taken: Vec<PeerAddr> = Vec::new();
        std::mem::swap(&mut taken, &mut self.new_peers);
        assert(self.pending() =~= Seq::<PeerAddr>::empty());
        taken
    }

    /// Admits a connection just dialled to `addr`: a public peer in the
    /// `Connecting` state, put under `token`.
    pub fn admit_outbound(&mut self, token: usize, addr: PeerAddr, socket: S)
        requires
            old(self).wf(),
        ensures
            final(self).wf(),
            final(self).pending() == old(self).pending(),
            final(self).table() == table_insert(
                old(self).table(),
                token,
                PeerView { addr, state: State::Connecting, public: true, disabled: false },
            ),
    {
        let mut peer = Peer::new(addr, socket, State::Connecting, false);
        peer.set_public(true);
        self.add_peer(token, peer);
    }
}

} // verus!
