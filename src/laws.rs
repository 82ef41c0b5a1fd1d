//! Properties of gossip intake and export that hold across all inputs.

use vstd::prelude::*;
use crate::addr::{PeerAddr, is_loopback_ip};
use crate::peers::{LISTEN_PORT, Table, exchange_list, intake, knows};

verus! {

/// Gossip intake never queues an address twice: starting from a queue
/// without repeats, the queue after any batch has no repeats, keeps the old
/// queue as its prefix, and each address it adds came from the batch, is
/// not loopback and has no connected peer on its host.
pub proof fn lemma_intake_dedup(t: Table, q: Seq<PeerAddr>, batch: Seq<PeerAddr>)
    requires
        q.no_duplicates(),
    ensures
        intake(t, q, batch).no_duplicates(),
        q.len() <= intake(t, q, batch).len(),
        intake(t, q, batch).subrange(0, q.len() as int) == q,
        forall|i: int| q.len() <= i < intake(t, q, batch).len() ==> {
            let a = #[trigger] intake(t, q, batch)[i];
            &&& batch.contains(a)
            &&& !is_loopback_ip(a.ip)
            &&& !knows(t, a)
        },
    decreases batch.len(),
{
    if batch.len() > 0 {
        let prefix = batch.drop_last();
        lemma_intake_dedup(t, q, prefix);
        let before = intake(t, q, prefix);
        let r = intake(t, q, batch);
        assert forall|i: int| q.len() <= i < before.len() implies batch.contains(#[trigger] before[i]) by {
            let a = before[i];
            let k = choose|k: int| 0 <= k < prefix.len() && prefix[k] == a;
            assert(batch[k] == a);
        }
        if r != before {
            let a = batch.last();
            assert(r == before.push(a));
            assert(!before.contains(a));
            assert forall|i: int, j: int| 0 <= i < r.len() && 0 <= j < r.len() && i != j
                implies r[i] != r[j] by {
                if i == before.len() as int {
                    assert(r[j] == before[j]);
                } else if j == before.len() as int {
                    assert(r[i] == before[i]);
                }
            }
            assert(batch[batch.len() - 1] == a);
            assert(r.subrange(0, q.len() as int) =~= before.subrange(0, q.len() as int));
        }
    }
}

/// No loopback address is ever queued: when the queue holds none, it holds
/// none after any batch.
pub proof fn lemma_intake_no_loopback(t: Table, q: Seq<PeerAddr>, batch: Seq<PeerAddr>)
    requires
        forall|i: int| 0 <= i < q.len() ==> !is_loopback_ip(#[trigger] q[i].ip),
    ensures
        forall|i: int| 0 <= i < intake(t, q, batch).len() ==> !is_loopback_ip(#[trigger] intake(t, q, batch)[i].ip),
    decreases batch.len(),
{
    if batch.len() > 0 {
        lemma_intake_no_loopback(t, q, batch.drop_last());
    }
}

/// The addresses disclosed to a requester never name the requester's host,
/// so they never hold the requester's own address.
pub proof fn lemma_exchange_excludes_requester(t: Table, requester: PeerAddr)
    ensures
        forall|i: int| 0 <= i < exchange_list(t, requester).len() ==>
            (#[trigger] exchange_list(t, requester)[i]).ip != requester.ip,
        !exchange_list(t, requester).contains(requester),
    decreases t.len(),
{
    if t.len() > 0 {
        lemma_exchange_excludes_requester(t.drop_last(), requester);
    }
    let r = exchange_list(t, requester);
    if r.contains(requester) {
        let k = choose|k: int| 0 <= k < r.len() && r[k] == requester;
        assert(r[k].ip != requester.ip);
    }
}

/// Every disclosed address is that of a public peer of the table, at the
/// listening port.
pub proof fn lemma_exchange_public_only(t: Table, requester: PeerAddr)
    ensures
        forall|i: int| 0 <= i < exchange_list(t, requester).len() ==> {
            let a = #[trigger] exchange_list(t, requester)[i];
            &&& a.port == LISTEN_PORT
            &&& exists|j: int| 0 <= j < t.len() && t[j].1.public && t[j].1.addr.ip == a.ip
        },
    decreases t.len(),
{
    if t.len() > 0 {
        let prefix = t.drop_last();
        lemma_exchange_public_only(prefix, requester);
        let before = exchange_list(prefix, requester);
        let r = exchange_list(t, requester);
        assert forall|i: int| 0 <= i < r.len() implies {
            let a = #[trigger] r[i];
            &&& a.port == LISTEN_PORT
            &&& exists|j: int| 0 <= j < t.len() && t[j].1.public && t[j].1.addr.ip == a.ip
        } by {
            if i < before.len() {
                let a = before[i];
                let j = choose|j: int| 0 <= j < prefix.len() && prefix[j].1.public && prefix[j].1.addr.ip == a.ip;
                assert(t[j] == prefix[j]);
            } else {
                assert(t[t.len() - 1] == t.last());
            }
        }
    }
}

} // verus!
