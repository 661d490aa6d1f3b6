//! The peers that are connected right now, in the order in which they
//! connected.

use crate::peer::{Peer, PeerId};
use vstd::prelude::*;

verus! {

/// The test a peer passes when its identity is not `id`.
pub open spec fn has_other_id(id: Seq<char>) -> spec_fn(Peer) -> bool {
    |p: Peer| p.spec_id() != id
}

/// The test a peer passes when its identity is `id`.
pub open spec fn has_id(id: Seq<char>) -> spec_fn(Peer) -> bool {
    |p: Peer| p.spec_id() == id
}

/// `peers` without those whose identity is `id`, the others in their order.
pub open spec fn without_id(peers: Seq<Peer>, id: Seq<char>) -> Seq<Peer> {
    peers.filter(has_other_id(id))
}

/// The live peers. Nothing keeps two of them from having the same identity.
#[derive(Debug)]
pub struct PeerRegistry {
    peers: Vec<Peer>,
}

impl View for PeerRegistry {
    type V = Seq<Peer>;

    closed spec fn view(&self) -> Seq<Peer> {
        self.peers@
    }
}

impl PeerRegistry {
    /// A registry with no peer in it.
    pub fn new() -> (registry: PeerRegistry)
        ensures
            registry@ == Seq::<Peer>::empty(),
    {
        PeerRegistry { peers: Vec::new() }
    }

    /// Appends a peer, whatever the registry holds already.
    pub fn add(&mut self, peer: Peer)
        ensures
            final(self)@ == old(self)@.push(peer),
    {
        self.peers.push(peer);
    }

    /// Removes every peer whose identity is `id` and leaves the others as they
    /// stand.
    pub fn remove_by_id(&mut self, id: &PeerId)
        ensures
            final(self)@ == without_id(old(self)@, id@),
    {
        let ghost before = self.peers@;
        let ghost mut seen: int = 0;
        let mut i: usize = 0;
        proof {
            reveal(Seq::filter);
        }
        while i < self.peers.len()
            invariant
                0 <= seen <= before.len(),
                i == before.take(seen).filter(has_other_id(id@)).len(),
                self.peers@ == before.take(seen).filter(has_other_id(id@)) + before.skip(seen),
            decreases before.len() - seen,
        {
            proof {
                reveal(Seq::filter);
                assert(before.take(seen + 1).drop_last() =~= before.take(seen));
            }
            if self.peers[i].id() == *id {
                let _ = self.peers.remove(i);
            } else {
                i = i + 1;
            }
            proof {
                seen = seen + 1;
            }
        }
        assert(before.take(seen) =~= before);
    }

    /// How many peers are registered.
    pub fn len(&self) -> (n: usize)
        ensures
            n == self@.len(),
    {
        self.peers.len()
    }

    /// The registered peers as they stand, for sending to each in turn.
    pub fn peers(&self) -> (all: &Vec<Peer>)
        ensures
            all@ == self@,
    {
        &self.peers
    }

    /// The identities of the registered peers, in registry order.
    pub fn ids(&self) -> (ids: Vec<PeerId>)
        ensures
            ids@.len() == self@.len(),
            forall|i: int| 0 <= i < ids@.len() ==> (#[trigger] ids@[i])@ == self@[i].spec_id(),
    {
        let mut ids: Vec<PeerId> = Vec::new();
        let mut i: usize = 0;
        while i < self.peers.len()
            invariant
                i <= self.peers.len(),
                ids@.len() == i,
                forall|j: int| 0 <= j < i ==> (#[trigger] ids@[j])@ == self.peers@[j].spec_id(),
            decreases self.peers.len() - i,
        {
            ids.push(self.peers[i].id());
            i = i + 1;
        }
        ids
    }
}

/// After a removal no peer of that identity is left.
pub proof fn lemma_removed_id_is_gone(peers: Seq<Peer>, id: Seq<char>)
    ensures
        forall|i: int|
            0 <= i < without_id(peers, id).len() ==> (#[trigger] without_id(peers, id)[i]).spec_id()
                != id,
        without_id(peers, id).filter(has_id(id)) == Seq::<Peer>::empty(),
    decreases peers.len(),
{
    reveal(Seq::filter);
    if peers.len() > 0 {
        let rest = peers.drop_last();
        lemma_removed_id_is_gone(rest, id);
        if has_other_id(id)(peers.last()) {
            let kept = without_id(peers, id);
            assert(kept.drop_last() =~= without_id(rest, id));
        }
    }
}

/// A removal leaves the peers of every other identity untouched: as many of
/// them as before, the same ones, in the same order.
pub proof fn lemma_other_ids_are_kept(peers: Seq<Peer>, id: Seq<char>, other: Seq<char>)
    requires
        other != id,
    ensures
        without_id(peers, id).filter(has_id(other)) == peers.filter(has_id(other)),
    decreases peers.len(),
{
    reveal(Seq::filter);
    if peers.len() > 0 {
        let rest = peers.drop_last();
        lemma_other_ids_are_kept(rest, id, other);
        if has_other_id(id)(peers.last()) {
            let kept = without_id(peers, id);
            assert(kept.drop_last() =~= without_id(rest, id));
        }
    }
}

/// Removing an identity that no registered peer has changes nothing, so a
/// second removal of the same identity has no effect.
pub proof fn lemma_removal_happens_once(peers: Seq<Peer>, id: Seq<char>)
    ensures
        (forall|i: int| 0 <= i < peers.len() ==> (#[trigger] peers[i]).spec_id() != id)
            ==> without_id(peers, id) == peers,
        without_id(without_id(peers, id), id) == without_id(peers, id),
    decreases peers.len(),
{
    reveal(Seq::filter);
    if peers.len() > 0 {
        let rest = peers.drop_last();
        lemma_removal_happens_once(rest, id);
        assert(forall|i: int| 0 <= i < rest.len() ==> rest[i] == peers[i]);
        if has_other_id(id)(peers.last()) {
            assert(without_id(peers, id).drop_last() =~= without_id(rest, id));
        }
    }
}

/// Where no other peer has the identity of the peer at the place `k`,
/// removing that identity takes out that peer alone: every other peer stays,
/// once, as it was, queue and all, and in the same order.
pub proof fn lemma_removal_takes_out_one(peers: Seq<Peer>, k: int)
    requires
        0 <= k < peers.len(),
        forall|j: int|
            0 <= j < peers.len() && j != k ==> (#[trigger] peers[j]).spec_id()
                != peers[k].spec_id(),
    ensures
        without_id(peers, peers[k].spec_id()) == peers.remove(k),
    decreases peers.len(),
{
    reveal(Seq::filter);
    let id = peers[k].spec_id();
    let rest = peers.drop_last();
    if k == peers.len() - 1 {
        assert forall|j: int| 0 <= j < rest.len() implies (#[trigger] rest[j]).spec_id()
            != id by {
            assert(rest[j] == peers[j]);
        }
        lemma_removal_happens_once(rest, id);
        assert(peers.remove(k) =~= rest);
    } else {
        assert(rest[k] == peers[k]);
        assert forall|j: int| 0 <= j < rest.len() && j != k implies (#[trigger] rest[j]).spec_id()
            != rest[k].spec_id() by {
            assert(rest[j] == peers[j]);
        }
        lemma_removal_takes_out_one(rest, k);
        assert(peers.last() == peers[peers.len() - 1]);
        assert(rest.remove(k).push(peers.last()) =~= peers.remove(k));
    }
}

} // verus!
