//! Peer registry: the single authoritative map of known peers, keyed by
//! node id, with liveness refresh and timeout eviction.

use vstd::prelude::*;
use vstd::seq_lib::group_seq_properties;
use crate::protocol::{clone_bytes, NodeStatus, TransportAddr, TransportAddrV};

verus! {

/// One known remote node: identity, reachability, liveness.
#[derive(Debug)]
pub struct Peer {
    pub node_id: String,
    pub node_name: String,
    pub address: TransportAddr,
    pub virtual_ip: String,
    pub public_key: Vec<u8>,
    pub status: NodeStatus,
    pub last_seen: u64,
    pub capabilities: u32,
}

pub ghost struct PeerV {
    pub node_id: Seq<char>,
    pub node_name: Seq<char>,
    pub address: TransportAddrV,
    pub virtual_ip: Seq<char>,
    pub public_key: Seq<u8>,
    pub status: NodeStatus,
    pub last_seen: u64,
    pub capabilities: u32,
}

impl View for Peer {
    type V = PeerV;

    open spec fn view(&self) -> PeerV {
        PeerV {
            node_id: self.node_id@,
            node_name: self.node_name@,
            address: self.address@,
            virtual_ip: self.virtual_ip@,
            public_key: self.public_key@,
            status: self.status,
            last_seen: self.last_seen,
            capabilities: self.capabilities,
        }
    }
}

impl Clone for Peer {
    fn clone(&self) -> (r: Peer)
        ensures
            r@ == self@,
    {
        Peer {
            node_id: self.node_id.clone(),
            node_name: self.node_name.clone(),
            address: self.address.clone_addr(),
            virtual_ip: self.virtual_ip.clone(),
            public_key: clone_bytes(&self.public_key),
            status: self.status,
            last_seen: self.last_seen,
            capabilities: self.capabilities,
        }
    }
}

/// A peer whose last heartbeat lies further back than the timeout.
pub open spec fn spec_expired(p: PeerV, now: u64, timeout: u64) -> bool {
    p.last_seen < now && now - p.last_seen > timeout
}

/// No two entries share a node id.
pub open spec fn spec_ids_distinct(s: Seq<PeerV>) -> bool {
    forall|i: int, j: int| 0 <= i < j < s.len() ==> s[i].node_id != s[j].node_id
}

/// The node ids of a snapshot, in order.
pub open spec fn spec_ids_of(s: Seq<PeerV>) -> Seq<Seq<char>> {
    s.map_values(|p: PeerV| p.node_id)
}

/// The position of the entry with `id`, scanning from the front.
pub open spec fn spec_find_peer(s: Seq<PeerV>, id: Seq<char>) -> Option<int>
    decreases s.len(),
{
    if s.len() == 0 {
        None
    } else if s[0].node_id == id {
        Some(0)
    } else {
        match spec_find_peer(s.drop_first(), id) {
            Some(i) => Some(i + 1),
            None => None,
        }
    }
}

pub proof fn lemma_find_peer_props(s: Seq<PeerV>, id: Seq<char>)
    ensures
        spec_find_peer(s, id) matches Some(i) ==> 0 <= i < s.len() && s[i].node_id == id,
        spec_find_peer(s, id) is None ==> (forall|j: int| 0 <= j < s.len() ==> s[j].node_id != id),
    decreases s.len(),
{
    if s.len() > 0 {
        lemma_find_peer_props(s.drop_first(), id);
        assert(forall|j: int| 1 <= j < s.len() ==> s[j] == s.drop_first()[j - 1]);
    }
}

proof fn lemma_find_peer_at(s: Seq<PeerV>, id: Seq<char>, i: int)
    requires
        0 <= i < s.len(),
        s[i].node_id == id,
        forall|j: int| 0 <= j < i ==> s[j].node_id != id,
    ensures
        spec_find_peer(s, id) == Some(i),
    decreases s.len(),
{
    if i == 0 {
    } else {
        assert(s.drop_first()[i - 1] == s[i]);
        assert(forall|j: int| 0 <= j < i - 1 ==> s.drop_first()[j] == s[j + 1]);
        lemma_find_peer_at(s.drop_first(), id, i - 1);
    }
}

proof fn lemma_find_peer_absent(s: Seq<PeerV>, id: Seq<char>)
    requires
        forall|j: int| 0 <= j < s.len() ==> s[j].node_id != id,
    ensures
        spec_find_peer(s, id) is None,
    decreases s.len(),
{
    if s.len() > 0 {
        assert(forall|j: int| 0 <= j < s.len() - 1 ==> s.drop_first()[j] == s[j + 1]);
        lemma_find_peer_absent(s.drop_first(), id);
    }
}

/// The snapshot after an upsert: an already known id is overwritten in
/// place; a new id is appended.
pub open spec fn spec_upserted(s: Seq<PeerV>, p: PeerV) -> Seq<PeerV> {
    match spec_find_peer(s, p.node_id) {
        Some(i) => s.update(i, p),
        None => s.push(p),
    }
}

/// The snapshot after a liveness refresh of `id` at `now`: the entry,
/// when there is one, with `last_seen` and status updated; otherwise the
/// snapshot unchanged.
pub open spec fn spec_touched(s: Seq<PeerV>, id: Seq<char>, now: u64) -> Seq<PeerV> {
    match spec_find_peer(s, id) {
        Some(i) => s.update(i, PeerV { last_seen: now, status: NodeStatus::Online, ..s[i] }),
        None => s,
    }
}

/// The registry: one live entry per node id.
#[derive(Debug)]
pub struct PeerRegistry {
    peers: Vec<Peer>,
}

impl View for PeerRegistry {
    type V = Seq<PeerV>;

    closed spec fn view(&self) -> Seq<PeerV> {
        Seq::new(self.peers@.len(), |i: int| self.peers@[i]@)
    }
}

impl PeerRegistry {
    /// Node ids uniquely identify entries.
    pub open spec fn wf(&self) -> bool {
        spec_ids_distinct(self@)
    }

    /// An empty registry.
    pub fn new() -> (r: PeerRegistry)
        ensures
            r@ == Seq::<PeerV>::empty(),
            r.wf(),
    {
        let r = PeerRegistry { peers: Vec::new() };
        proof {
            assert(r@ =~= Seq::<PeerV>::empty());
        }
        r
    }

    /// How many peers are known.
    pub fn len(&self) -> (n: usize)
        ensures
            n == self@.len(),
    {
        self.peers.len()
    }

    fn find_index(&self, node_id: &String) -> (r: Option<usize>)
        ensures
            match r {
                Some(i) => spec_find_peer(self@, node_id@) == Some(i as int),
                None => spec_find_peer(self@, node_id@) is None,
            },
    {
        let mut i: usize = 0;
        while i < self.peers.len()
            invariant
                i <= self@.len(),
                self@.len() == self.peers@.len(),
                forall|j: int| 0 <= j < i ==> self@[j].node_id != node_id@,
            decreases self@.len() - i,
        {
            if self.peers[i].node_id == *node_id {
                proof {
                    lemma_find_peer_at(self@, node_id@, i as int);
                }
                return Some(i);
            }
            i = i + 1;
        }
        proof {
            lemma_find_peer_absent(self@, node_id@);
        }
        None
    }

    /// Inserts or replaces the entry with `peer`'s node id: an already
    /// known id is overwritten in place, never duplicated; a new id is
    /// appended.
    pub fn upsert(&mut self, peer: Peer)
        requires
            old(self).wf(),
        ensures
            final(self).wf(),
            final(self)@ == spec_upserted(old(self)@, peer@),
    {
        proof {
            lemma_find_peer_props(self@, peer.node_id@);
        }
        match self.find_index(&peer.node_id) {
            Some(i) => {
                let ghost before = self@;
                self.peers.remove(i);
                self.peers.insert(i, peer);
                proof {
                    assert(self@ =~= before.update(i as int, peer@));
                }
            },
            None => {
                let ghost before = self@;
                self.peers.push(peer);
                proof {
                    assert(self@ =~= before.push(peer@));
                }
            },
        }
    }

    /// Refreshes liveness: a known id gets `last_seen = now` and status
    /// `Online`, everything else about it untouched; an unknown id is a
    /// no-op, never an error and never an insertion.
    pub fn touch(&mut self, node_id: &String, now: u64)
        requires
            old(self).wf(),
        ensures
            final(self).wf(),
            final(self)@ == spec_touched(old(self)@, node_id@, now),
    {
        proof {
            lemma_find_peer_props(self@, node_id@);
        }
        match self.find_index(node_id) {
            Some(i) => {
                let ghost before = self@;
                let mut p = self.peers.remove(i);
                p.last_seen = now;
                p.status = NodeStatus::Online;
                self.peers.insert(i, p);
                proof {
                    assert(self@ =~= before.update(
                        i as int,
                        PeerV { last_seen: now, status: NodeStatus::Online, ..before[i as int] },
                    ));
                }
            },
            None => {},
        }
    }

    /// Removes every peer whose last heartbeat lies further back than
    /// `timeout`, and returns the removed ids.
    pub fn sweep(&mut self, now: u64, timeout: u64) -> (removed: Vec<String>)
        requires
            old(self).wf(),
        ensures
            final(self).wf(),
            final(self)@ == old(self)@.filter(|p: PeerV| !spec_expired(p, now, timeout)),
            Seq::new(removed@.len(), |i: int| removed@[i]@) == spec_ids_of(
                old(self)@.filter(|p: PeerV| spec_expired(p, now, timeout)),
            ),
    {
        broadcast use group_seq_properties;

        let ghost keep_pred = |p: PeerV| !spec_expired(p, now, timeout);
        let ghost drop_pred = |p: PeerV| spec_expired(p, now, timeout);
        let ghost all = self@;
        let mut kept: Vec<Peer> = Vec::new();
        let mut removed: Vec<String> = Vec::new();
        let mut i: usize = 0;
        proof {
            reveal(Seq::filter);
            assert(all.take(0) =~= Seq::<PeerV>::empty());
            assert(Seq::<PeerV>::empty().filter(keep_pred) == Seq::<PeerV>::empty());
            assert(Seq::<PeerV>::empty().filter(drop_pred) == Seq::<PeerV>::empty());
            assert(Seq::new(kept@.len(), |k: int| kept@[k]@) =~= all.take(0).filter(keep_pred));
            assert(Seq::new(removed@.len(), |k: int| removed@[k]@) =~= spec_ids_of(
                all.take(0).filter(drop_pred),
            ));
        }
        while i < self.peers.len()
            invariant
                keep_pred == (|p: PeerV| !spec_expired(p, now, timeout)),
                drop_pred == (|p: PeerV| spec_expired(p, now, timeout)),
                i <= all.len(),
                all == self@,
                self@.len() == self.peers@.len(),
                forall|j: int| 0 <= j < all.len() ==> all[j] == self.peers@[j]@,
                Seq::new(kept@.len(), |k: int| kept@[k]@) == all.take(i as int).filter(keep_pred),
                Seq::new(removed@.len(), |k: int| removed@[k]@) == spec_ids_of(
                    all.take(i as int).filter(drop_pred),
                ),
            decreases all.len() - i,
        {
            let ghost taken = all.take(i as int);
            let ghost x = all[i as int];
            let p = &self.peers[i];
            let expired = p.last_seen < now && now - p.last_seen > timeout;
            proof {
                reveal(Seq::filter);
                assert(all.take(i + 1).drop_last() =~= taken);
                assert(all.take(i + 1).last() == x);
                assert(expired == spec_expired(x, now, timeout));
                if expired {
                    assert(all.take(i + 1).filter(drop_pred) == taken.filter(drop_pred).push(x));
                    assert(all.take(i + 1).filter(keep_pred) == taken.filter(keep_pred));
                } else {
                    assert(all.take(i + 1).filter(keep_pred) == taken.filter(keep_pred).push(x));
                    assert(all.take(i + 1).filter(drop_pred) == taken.filter(drop_pred));
                }
            }
            if expired {
                removed.push(p.node_id.clone());
                proof {
                    assert(spec_ids_of(taken.filter(drop_pred).push(x)) =~= spec_ids_of(
                        taken.filter(drop_pred),
                    ).push(x.node_id));
                    assert(Seq::new(removed@.len(), |k: int| removed@[k]@) =~= spec_ids_of(
                        all.take(i + 1).filter(drop_pred),
                    ));
                    assert(Seq::new(kept@.len(), |k: int| kept@[k]@) =~= all.take(i + 1).filter(
                        keep_pred,
                    ));
                }
            } else {
                kept.push(p.clone());
                proof {
                    assert(Seq::new(kept@.len(), |k: int| kept@[k]@) =~= all.take(i + 1).filter(
                        keep_pred,
                    ));
                    assert(Seq::new(removed@.len(), |k: int| removed@[k]@) =~= spec_ids_of(
                        all.take(i + 1).filter(drop_pred),
                    ));
                }
            }
            i = i + 1;
        }
        proof {
            assert(all.take(all.len() as int) =~= all);
        }
        self.peers = kept;
        proof {
            lemma_filter_keeps_ids_distinct(all, keep_pred);
            assert(final(self)@ =~= all.filter(keep_pred));
        }
        removed
    }

    /// A snapshot copy of every known peer, in registry order.
    pub fn list(&self) -> (r: Vec<Peer>)
        ensures
            Seq::new(r@.len(), |i: int| r@[i]@) == self@,
    {
        let mut out: Vec<Peer> = Vec::new();
        let mut i: usize = 0;
        while i < self.peers.len()
            invariant
                i <= self.peers@.len(),
                out@.len() == i,
                forall|j: int| 0 <= j < i ==> out@[j]@ == self.peers@[j]@,
            decreases self.peers@.len() - i,
        {
            out.push(self.peers[i].clone());
            i = i + 1;
        }
        proof {
            assert(Seq::new(out@.len(), |i: int| out@[i]@) =~= self@);
        }
        out
    }

    /// A copy of the entry with `node_id`, when one exists.
    pub fn get(&self, node_id: &String) -> (r: Option<Peer>)
        ensures
            match r {
                Some(p) => spec_find_peer(self@, node_id@) matches Some(i) && self@[i] == p@,
                None => spec_find_peer(self@, node_id@) is None,
            },
    {
        proof {
            lemma_find_peer_props(self@, node_id@);
        }
        match self.find_index(node_id) {
            Some(i) => Some(self.peers[i].clone()),
            None => None,
        }
    }
}

proof fn lemma_filter_keeps_ids_distinct(s: Seq<PeerV>, pred: spec_fn(PeerV) -> bool)
    requires
        spec_ids_distinct(s),
    ensures
        spec_ids_distinct(s.filter(pred)),
    decreases s.len(),
{
    broadcast use group_seq_properties;

    reveal(Seq::filter);
    if s.len() == 0 {
    } else {
        let d = s.drop_last();
        let last = s.last();
        assert(spec_ids_distinct(d));
        lemma_filter_keeps_ids_distinct(d, pred);
        if pred(last) {
            let f = d.filter(pred);
            assert forall|k: int| 0 <= k < f.len() implies f[k].node_id != last.node_id by {
                assert(f.contains(f[k]));
                Seq::<PeerV>::lemma_filter_contains_rev(d, pred, f[k]);
                let j = choose|j: int| 0 <= j < d.len() && d[j] == f[k];
                assert(s[j] == d[j]);
                assert(s[s.len() - 1] == last);
            }
            assert(s.filter(pred) == f.push(last));
        } else {
            assert(s.filter(pred) == d.filter(pred));
        }
    }
}

/// An upserted id names exactly one entry afterwards, and that entry is
/// the upserted peer: how many entries carry `id` in a registry snapshot.
pub open spec fn spec_count_id(s: Seq<PeerV>, id: Seq<char>) -> nat
    decreases s.len(),
{
    if s.len() == 0 {
        0
    } else {
        (if s[0].node_id == id {
            1nat
        } else {
            0nat
        }) + spec_count_id(s.drop_first(), id)
    }
}

proof fn lemma_count_id_update(s: Seq<PeerV>, i: int, p: PeerV, id: Seq<char>)
    requires
        0 <= i < s.len(),
        s[i].node_id == id,
        p.node_id == id,
        forall|j: int| 0 <= j < s.len() && j != i ==> s[j].node_id != id,
    ensures
        spec_count_id(s.update(i, p), id) == 1,
    decreases s.len(),
{
    let t = s.update(i, p);
    if i == 0 {
        assert(t[0].node_id == id);
        assert(t.drop_first() =~= s.drop_first());
        lemma_count_id_none(s.drop_first(), id);
    } else {
        assert(t[0] == s[0]);
        assert(t.drop_first() =~= s.drop_first().update(i - 1, p));
        lemma_count_id_update(s.drop_first(), i - 1, p, id);
    }
}

proof fn lemma_count_id_none(s: Seq<PeerV>, id: Seq<char>)
    requires
        forall|j: int| 0 <= j < s.len() ==> s[j].node_id != id,
    ensures
        spec_count_id(s, id) == 0,
    decreases s.len(),
{
    if s.len() > 0 {
        lemma_count_id_none(s.drop_first(), id);
    }
}

proof fn lemma_count_id_push(s: Seq<PeerV>, p: PeerV, id: Seq<char>)
    requires
        forall|j: int| 0 <= j < s.len() ==> s[j].node_id != id,
        p.node_id == id,
    ensures
        spec_count_id(s.push(p), id) == 1,
    decreases s.len(),
{
    let t = s.push(p);
    if s.len() == 0 {
        assert(t[0] == p);
        assert(t.drop_first() =~= Seq::<PeerV>::empty());
        assert(spec_count_id(t.drop_first(), id) == 0);
    } else {
        assert(t[0] == s[0]);
        assert(t.drop_first() =~= s.drop_first().push(p));
        lemma_count_id_push(s.drop_first(), p, id);
    }
}

/// After an upsert, the registry holds exactly one entry with the
/// upserted node id, and that entry is the upserted peer.
pub proof fn lemma_upsert_one_entry(s: Seq<PeerV>, p: PeerV)
    requires
        spec_ids_distinct(s),
    ensures
        spec_count_id(spec_upserted(s, p), p.node_id) == 1,
        exists|i: int|
            0 <= i < spec_upserted(s, p).len() && #[trigger] spec_upserted(s, p)[i] == p,
{
    lemma_find_peer_props(s, p.node_id);
    let s2 = spec_upserted(s, p);
    match spec_find_peer(s, p.node_id) {
        Some(i) => {
            assert(s2 == s.update(i, p));
            assert forall|j: int| 0 <= j < s.len() && j != i implies s[j].node_id
                != p.node_id by {
                if j < i {
                    assert(s[j].node_id != s[i].node_id);
                } else {
                    assert(s[i].node_id != s[j].node_id);
                }
            }
            lemma_count_id_update(s, i, p, p.node_id);
            assert(s2[i] == p);
        },
        None => {
            assert(s2 == s.push(p));
            lemma_count_id_push(s, p, p.node_id);
            assert(s2[s.len() as int] == p);
        },
    }
}

/// No entry of `s` is expired at `now`.
pub open spec fn spec_no_expired(s: Seq<PeerV>, now: u64, timeout: u64) -> bool {
    forall|i: int| 0 <= i < s.len() ==> !spec_expired(#[trigger] s[i], now, timeout)
}

/// After a sweep at time `now`, no entry whose last heartbeat lies
/// further back than the timeout remains.
pub proof fn lemma_sweep_removes_expired(s: Seq<PeerV>, now: u64, timeout: u64)
    ensures
        spec_no_expired(s.filter(|p: PeerV| !spec_expired(p, now, timeout)), now, timeout),
{
    let pred = |p: PeerV| !spec_expired(p, now, timeout);
    let f = s.filter(pred);
    assert forall|i: int| 0 <= i < f.len() implies !spec_expired(f[i], now, timeout) by {
        Seq::<PeerV>::lemma_filter_pred(s, pred, i);
    }
}

} // verus!
