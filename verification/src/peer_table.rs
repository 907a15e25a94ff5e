//! The bookkeeping of a UDP channel: which address each peer (by user id)
//! is sent to, and the largest datagram it sends. The socket itself is
//! handled by the caller; these are the decisions taken before each send.

use vstd::prelude::*;

use std::collections::HashMap;

use vstd::std_specs::iter::IteratorSpec;

use crate::errors::UdpError;
use crate::MAX_UDP_PACKET_SIZE;

verus! {

broadcast use vstd::std_specs::hash::group_hash_axioms;

/// Peer addresses by user id, and the datagram size limit.
pub struct PeerTable<A> {
    peers: HashMap<u16, A>,
    max_packet_size: usize,
}

/// `r` lists the peers of `m` other than `exclude`: each once, with its
/// address.
pub open spec fn lists_peers<A>(r: Seq<(u16, A)>, m: Map<u16, A>, exclude: Option<u16>) -> bool {
    &&& forall|i: int, j: int| 0 <= i < j < r.len() ==> (#[trigger] r[i]).0 != (#[trigger] r[j]).0
    &&& forall|i: int|
        0 <= i < r.len() ==> m.contains_key((#[trigger] r[i]).0) && m[r[i].0] == r[i].1 && Some(
            r[i].0,
        ) != exclude
    &&& forall|k: u16|
        #[trigger] m.contains_key(k) && Some(k) != exclude ==> exists|i: int|
            0 <= i < r.len() && (#[trigger] r[i]).0 == k
}

/// The error for a datagram of `size` bytes over the limit `max`.
pub open spec fn too_large(size: usize, max: usize) -> UdpError {
    UdpError::PacketTooLarge { size, max }
}

impl<A: Copy> PeerTable<A> {
    /// The peers, by user id.
    pub closed spec fn peers(&self) -> Map<u16, A> {
        self.peers@
    }

    /// The largest datagram sent, in bytes.
    pub closed spec fn max_packet(&self) -> usize {
        self.max_packet_size
    }

    /// No peers, and the default limit of `MAX_UDP_PACKET_SIZE` bytes.
    pub fn new() -> (r: Self)
        ensures
            r.peers() == Map::<u16, A>::empty(),
            r.max_packet() == MAX_UDP_PACKET_SIZE,
    {
        Self { peers: HashMap::new(), max_packet_size: MAX_UDP_PACKET_SIZE }
    }

    /// Register (or replace) a peer's address.
    pub fn add_peer(&mut self, user_id: u16, addr: A)
        ensures
            final(self).peers() == old(self).peers().insert(user_id, addr),
            final(self).max_packet() == old(self).max_packet(),
    {
        let _ = self.peers.insert(user_id, addr);
    }

    /// Forget a peer.
    pub fn remove_peer(&mut self, user_id: u16)
        ensures
            final(self).peers() == old(self).peers().remove(user_id),
            final(self).max_packet() == old(self).max_packet(),
    {
        let _ = self.peers.remove(&user_id);
    }

    /// A peer's address.
    pub fn get_peer_addr(&self, user_id: u16) -> (r: Option<A>)
        ensures
            r == self.peers().get(user_id),
    {
        match self.peers.get(&user_id) {
            Some(a) => Some(*a),
            None => None,
        }
    }

    /// The ids of all peers, each once.
    pub fn peer_ids(&self) -> (r: Vec<u16>)
        ensures
            r@.len() == self.peers().len(),
            r@.no_duplicates(),
            forall|k: u16| #[trigger] r@.contains(k) <==> self.peers().contains_key(k),
    {
        let all = self.targets(None);
        let mut out: Vec<u16> = Vec::new();
        let mut i: usize = 0;
        while i < all.len()
            invariant
                i <= all@.len(),
                out@.len() == i,
                forall|j: int| 0 <= j < i ==> out@[j] == (#[trigger] all@[j]).0,
            decreases all@.len() - i,
        {
            out.push(all[i].0);
            i = i + 1;
        }
        proof {
            let m = self.peers();
            assert forall|a: int, b: int| 0 <= a < out@.len() && 0 <= b < out@.len() && a != b implies out@[a]
                != out@[b] by {
                if a < b {
                    assert(all@[a].0 != all@[b].0);
                } else {
                    assert(all@[b].0 != all@[a].0);
                }
            }
            assert forall|k: u16| #[trigger] out@.contains(k) <==> m.contains_key(k) by {
                if m.contains_key(k) {
                    let j = choose|j: int| 0 <= j < all@.len() && (#[trigger] all@[j]).0 == k;
                    assert(out@[j] == k);
                }
                if out@.contains(k) {
                    let j = choose|j: int| 0 <= j < out@.len() && out@[j] == k;
                    assert(all@[j].0 == k);
                }
            }
            lemma_listed_len(all@, m);
        }
        out
    }

    /// Refuse a datagram over the size limit.
    pub fn check_size(&self, size: usize) -> (r: Result<(), UdpError>)
        ensures
            size <= self.max_packet() ==> r is Ok,
            size > self.max_packet() ==> r == Err::<(), UdpError>(too_large(size, self.max_packet())),
    {
        if size > self.max_packet_size {
            Err(UdpError::PacketTooLarge { size, max: self.max_packet_size })
        } else {
            Ok(())
        }
    }

    /// Where a datagram of `size` bytes for peer `user_id` goes: refused if
    /// too large, then refused if the peer is unknown.
    pub fn send_target(&self, user_id: u16, size: usize) -> (r: Result<A, UdpError>)
        ensures
            size > self.max_packet() ==> r == Err::<A, UdpError>(too_large(size, self.max_packet())),
            size <= self.max_packet() && !self.peers().contains_key(user_id) ==> r == Err::<
                A,
                UdpError,
            >(UdpError::UnknownPeer(user_id)),
            size <= self.max_packet() && self.peers().contains_key(user_id) ==> r == Ok::<
                A,
                UdpError,
            >(self.peers()[user_id]),
    {
        if size > self.max_packet_size {
            return Err(UdpError::PacketTooLarge { size, max: self.max_packet_size });
        }
        match self.get_peer_addr(user_id) {
            Some(a) => Ok(a),
            None => Err(UdpError::UnknownPeer(user_id)),
        }
    }

    /// Where a broadcast of `size` bytes goes: every peer but
    /// `exclude_user` (refused if too large).
    pub fn broadcast_targets(&self, size: usize, exclude_user: u16) -> (r: Result<Vec<(u16, A)>, UdpError>)
        ensures
            size > self.max_packet() ==> r == Err::<Vec<(u16, A)>, UdpError>(
                too_large(size, self.max_packet()),
            ),
            size <= self.max_packet() ==> (r matches Ok(v) && lists_peers(
                v@,
                self.peers(),
                Some(exclude_user),
            )),
    {
        if size > self.max_packet_size {
            return Err(UdpError::PacketTooLarge { size, max: self.max_packet_size });
        }
        Ok(self.targets(Some(exclude_user)))
    }

    /// Where a broadcast of `size` bytes to every peer goes (refused if
    /// too large).
    pub fn broadcast_all_targets(&self, size: usize) -> (r: Result<Vec<(u16, A)>, UdpError>)
        ensures
            size > self.max_packet() ==> r == Err::<Vec<(u16, A)>, UdpError>(
                too_large(size, self.max_packet()),
            ),
            size <= self.max_packet() ==> (r matches Ok(v) && lists_peers(v@, self.peers(), None)),
    {
        if size > self.max_packet_size {
            return Err(UdpError::PacketTooLarge { size, max: self.max_packet_size });
        }
        Ok(self.targets(None))
    }

    /// The peers other than `exclude`, with their addresses.
    fn targets(&self, exclude: Option<u16>) -> (r: Vec<(u16, A)>)
        ensures
            lists_peers(r@, self.peers(), exclude),
    {
        let mut out: Vec<(u16, A)> = Vec::new();
        let ghost entries = vstd::std_specs::hash::spec_hash_map_iter(&self.peers).remaining();
        let ghost m = self.peers@;
        let ghost mut taken: Seq<int> = Seq::empty();
        for pair in it: self.peers.iter()
            invariant
                it.seq() == entries,
                entries.no_duplicates(),
                entries.len() == m.dom().len(),
                m == self.peers@,
                forall|j: int|
                    0 <= j < entries.len() ==> m.contains_key(*entries[j].0) && m[*entries[j].0]
                        == *entries[j].1,
                forall|k: u16| #[trigger] m.contains_key(k) ==> entries.contains((&k, &m[k])),
                taken.len() == out@.len(),
                forall|t: int| 0 <= t < taken.len() ==> 0 <= #[trigger] taken[t] < it.index(),
                forall|t: int, u: int| 0 <= t < u < taken.len() ==> taken[t] < taken[u],
                forall|t: int|
                    0 <= t < taken.len() ==> (#[trigger] out@[t]).0 == *entries[taken[t]].0
                        && out@[t].1 == *entries[taken[t]].1,
                forall|j: int|
                    0 <= j < it.index() && Some(*entries[j].0) != exclude ==> exists|t: int|
                        0 <= t < taken.len() && #[trigger] taken[t] == j,
                forall|t: int| 0 <= t < taken.len() ==> Some((#[trigger] out@[t]).0) != exclude,
        {
            let ghost idx = it.index() as int;
            let ghost taken0 = taken;
            let (k, a) = pair;
            proof {
                assert(pair == entries[idx]);
            }
            let keep = match exclude {
                Some(e) => *k != e,
                None => true,
            };
            if keep {
                proof {
                    taken = taken.push(idx);
                    assert(taken[taken.len() - 1] == idx);
                }
                out.push((*k, *a));
            }
            proof {
                assert forall|j: int|
                    0 <= j < idx + 1 && Some(*entries[j].0) != exclude implies exists|t: int|
                    0 <= t < taken.len() && #[trigger] taken[t] == j by {
                    if j < idx {
                        let t = choose|t: int| 0 <= t < taken0.len() && #[trigger] taken0[t] == j;
                        assert(taken[t] == j);
                    } else {
                        assert(taken[taken.len() - 1] == j);
                    }
                }
            }
        }
        proof {
            assert forall|i: int, j: int| 0 <= i < j < out@.len() implies (#[trigger] out@[i]).0
                != (#[trigger] out@[j]).0 by {
                lemma_distinct_keys(entries, m, taken[i], taken[j]);
            }
            assert forall|i: int| 0 <= i < out@.len() implies m.contains_key((#[trigger] out@[i]).0)
                && m[out@[i].0] == out@[i].1 && Some(out@[i].0) != exclude by {
                let e = entries[taken[i]];
                assert(m.contains_key(*e.0) && m[*e.0] == *e.1);
            }
            assert forall|k: u16| #[trigger] m.contains_key(k) && Some(k) != exclude implies exists|i: int|
                0 <= i < out@.len() && (#[trigger] out@[i]).0 == k by {
                let j = choose|j: int| 0 <= j < entries.len() && entries[j] == (&k, &m[k]);
                let t = choose|t: int| 0 <= t < taken.len() && #[trigger] taken[t] == j;
                assert(out@[t].0 == k);
            }
        }
        out
    }
}

/// Two different positions of a map's entry list hold different keys.
proof fn lemma_distinct_keys<A>(entries: Seq<(&u16, &A)>, m: Map<u16, A>, i: int, j: int)
    requires
        entries.no_duplicates(),
        0 <= i < entries.len(),
        0 <= j < entries.len(),
        i != j,
        forall|x: int|
            0 <= x < entries.len() ==> m.contains_key(*entries[x].0) && m[*entries[x].0]
                == *entries[x].1,
    ensures
        *entries[i].0 != *entries[j].0,
{
    if *entries[i].0 == *entries[j].0 {
        assert(*entries[i].1 == *entries[j].1);
        assert(entries[i] == entries[j]);
    }
}

/// A list of all peers has one entry per peer.
proof fn lemma_listed_len<A>(r: Seq<(u16, A)>, m: Map<u16, A>)
    requires
        m.dom().finite(),
        lists_peers(r, m, None),
    ensures
        r.len() == m.len(),
    decreases r.len(),
{
    let ks = r.map_values(|p: (u16, A)| p.0);
    assert(ks.no_duplicates()) by {
        assert forall|a: int, b: int| 0 <= a < ks.len() && 0 <= b < ks.len() && a != b implies ks[a]
            != ks[b] by {
            if a < b {
                assert(r[a].0 != r[b].0);
            } else {
                assert(r[b].0 != r[a].0);
            }
        }
    }
    assert(ks.to_set() =~= m.dom()) by {
        assert forall|k: u16| ks.to_set().contains(k) <==> m.dom().contains(k) by {
            if m.contains_key(k) {
                let i = choose|i: int| 0 <= i < r.len() && (#[trigger] r[i]).0 == k;
                assert(ks[i] == k);
            }
            if ks.to_set().contains(k) {
                let i = choose|i: int| 0 <= i < ks.len() && ks[i] == k;
                assert(r[i].0 == k);
            }
        }
    }
    ks.unique_seq_to_set();
}

} // verus!
