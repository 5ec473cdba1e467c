//! Peer identifiers and the explicit peer set.

use vstd::prelude::*;

verus! {

/// Copies a byte vector.
pub fn copy_bytes(src: &Vec<u8>) -> (out: Vec<u8>)
    ensures
        out@ == src@,
{
    let mut out: Vec<u8> = Vec::new();
    let mut i: usize = 0;
    while i < src.len()
        invariant
            i <= src.len(),
            out@ == src@.take(i as int),
        decreases src.len() - i,
    {
        out.push(src[i]);
        i += 1;
        assert(src@.take(i as int) == src@.take(i as int - 1).push(src@[i as int - 1]));
    }
    assert(src@.take(src.len() as int) == src@);
    out
}

/// Tells whether two byte vectors hold the same bytes.
pub fn bytes_equal(a: &Vec<u8>, b: &Vec<u8>) -> (same: bool)
    ensures
        same == (a@ == b@),
{
    if a.len() != b.len() {
        return false;
    }
    let mut i: usize = 0;
    while i < a.len()
        invariant
            i <= a.len(),
            a.len() == b.len(),
            forall|k: int| 0 <= k < i ==> a@[k] == b@[k],
        decreases a.len() - i,
    {
        if a[i] != b[i] {
            return false;
        }
        i += 1;
    }
    assert(a@ =~= b@);
    true
}

/// The public identifier of a peer: the bytes derived from its public key.
/// It is stable for the lifetime of the process that owns the key.
#[derive(Debug, PartialEq, Eq)]
pub struct PeerId {
    pub bytes: Vec<u8>,
}

impl View for PeerId {
    type V = Seq<u8>;

    open spec fn view(&self) -> Seq<u8> {
        self.bytes@
    }
}

impl PeerId {
    /// Wraps the identifier bytes.
    pub fn new(bytes: Vec<u8>) -> (id: PeerId)
        ensures
            id@ == bytes@,
    {
        PeerId { bytes }
    }

    /// The identifier bytes.
    pub fn as_bytes(&self) -> (bytes: &Vec<u8>)
        ensures
            bytes@ == self@,
    {
        &self.bytes
    }

    /// Tells whether both identifiers name the same peer.
    pub fn same(&self, other: &PeerId) -> (same: bool)
        ensures
            same == (self@ == other@),
    {
        bytes_equal(&self.bytes, &other.bytes)
    }
}

impl Clone for PeerId {
    fn clone(&self) -> (copy: PeerId)
        ensures
            copy@ == self@,
    {
        PeerId { bytes: copy_bytes(&self.bytes) }
    }
}

/// The identifiers of a sequence of peers, in order.
pub open spec fn ids(peers: Seq<PeerId>) -> Seq<Seq<u8>> {
    Seq::new(peers.len(), |i: int| peers[i]@)
}

/// The peers that gossip is actively sent to. Every peer occurs once.
#[derive(Debug)]
pub struct ExplicitPeerSet {
    pub members: Vec<PeerId>,
}

impl View for ExplicitPeerSet {
    type V = Set<Seq<u8>>;

    open spec fn view(&self) -> Set<Seq<u8>> {
        ids(self.members@).to_set()
    }
}

impl ExplicitPeerSet {
    /// No peer is listed twice.
    pub open spec fn wf(&self) -> bool {
        ids(self.members@).no_duplicates()
    }

    /// The members in the order in which they joined.
    pub open spec fn order(&self) -> Seq<Seq<u8>> {
        ids(self.members@)
    }

    /// The empty set.
    pub fn new() -> (set: ExplicitPeerSet)
        ensures
            set.wf(),
            set@ == Set::<Seq<u8>>::empty(),
            set.order() == Seq::<Seq<u8>>::empty(),
    {
        let set = ExplicitPeerSet { members: Vec::new() };
        assert(ids(set.members@) =~= Seq::<Seq<u8>>::empty());
        assert(set@ =~= Set::<Seq<u8>>::empty());
        set
    }

    /// Tells whether no peer is listed twice.
    pub fn is_well_formed(&self) -> (ok: bool)
        ensures
            ok == self.wf(),
    {
        let ghost order = ids(self.members@);
        let mut j: usize = 0;
        while j < self.members.len()
            invariant
                j <= self.members.len(),
                order == ids(self.members@),
                forall|a: int, b: int| 0 <= a < b < j ==> order[a] != order[b],
            decreases self.members.len() - j,
        {
            let mut i: usize = 0;
            while i < j
                invariant
                    i <= j < self.members.len(),
                    order == ids(self.members@),
                    forall|a: int| 0 <= a < i ==> order[a] != order[j as int],
                decreases j - i,
            {
                if self.members[i].same(&self.members[j]) {
                    assert(order[i as int] == order[j as int]);
                    return false;
                }
                i += 1;
            }
            j += 1;
        }
        assert forall|a: int, b: int|
            0 <= a < order.len() && 0 <= b < order.len() && a != b implies order[a]
            != order[b] by {
            if a < b {
                assert(order[a] != order[b]);
            } else {
                assert(order[b] != order[a]);
            }
        }
        true
    }

    /// The number of members.
    pub fn len(&self) -> (n: usize)
        requires
            self.wf(),
        ensures
            n == self@.len(),
            n == self.order().len(),
    {
        proof {
            ids(self.members@).unique_seq_to_set();
        }
        self.members.len()
    }

    /// Tells whether there is no member.
    pub fn is_empty(&self) -> (empty: bool)
        ensures
            empty == (self@ == Set::<Seq<u8>>::empty()),
            empty == (self.order().len() == 0),
    {
        if self.members.len() == 0 {
            assert(self@ =~= Set::<Seq<u8>>::empty());
            true
        } else {
            assert(ids(self.members@)[0] == self.members@[0]@);
            assert(self@.contains(self.members@[0]@));
            false
        }
    }

    /// The place of `peer` in the joining order, if it is a member.
    pub fn position(&self, peer: &PeerId) -> (at: Option<usize>)
        ensures
            at is Some <==> self@.contains(peer@),
            at matches Some(i) ==> i < self.members.len() && self.order()[i as int] == peer@,
    {
        let mut i: usize = 0;
        while i < self.members.len()
            invariant
                i <= self.members.len(),
                forall|k: int| 0 <= k < i ==> ids(self.members@)[k] != peer@,
            decreases self.members.len() - i,
        {
            if self.members[i].same(peer) {
                assert(ids(self.members@)[i as int] == peer@);
                return Some(i);
            }
            i += 1;
        }
        None
    }

    /// Tells whether `peer` is a member.
    pub fn contains(&self, peer: &PeerId) -> (found: bool)
        ensures
            found == self@.contains(peer@),
    {
        self.position(peer).is_some()
    }

    /// Adds `peer`. Returns whether it was new.
    pub fn insert(&mut self, peer: PeerId) -> (added: bool)
        requires
            old(self).wf(),
        ensures
            final(self).wf(),
            final(self)@ == old(self)@.insert(peer@),
            added == !old(self)@.contains(peer@),
            added ==> final(self).order() == old(self).order().push(peer@),
            !added ==> final(self).order() == old(self).order(),
    {
        if self.contains(&peer) {
            assert(self@ =~= self@.insert(peer@));
            false
        } else {
            let ghost before = ids(self.members@);
            self.members.push(peer);
            assert(ids(self.members@) =~= before.push(peer@));
            assert forall|id: Seq<u8>| self@.contains(id) <==> before.to_set().insert(
                peer@,
            ).contains(id) by {
                if before.contains(id) {
                    let k = choose|k: int| 0 <= k < before.len() && before[k] == id;
                    assert(ids(self.members@)[k] == id);
                }
                if id == peer@ {
                    assert(ids(self.members@)[before.len() as int] == id);
                }
            }
            assert(self@ =~= before.to_set().insert(peer@));
            true
        }
    }

    /// Removes `peer`. Returns whether it was a member.
    pub fn remove(&mut self, peer: &PeerId) -> (removed: bool)
        requires
            old(self).wf(),
        ensures
            final(self).wf(),
            final(self)@ == old(self)@.remove(peer@),
            removed == old(self)@.contains(peer@),
            !removed ==> final(self).order() == old(self).order(),
            removed ==> exists|i: int|
                0 <= i < old(self).order().len() && old(self).order()[i] == peer@
                    && final(self).order() == old(self).order().remove(i),
    {
        match self.position(peer) {
            None => {
                assert(self@ =~= self@.remove(peer@));
                false
            },
            Some(i) => {
                let ghost before = ids(self.members@);
                let _gone = self.members.remove(i);
                let ghost after = ids(self.members@);
                assert(after =~= before.remove(i as int));
                assert forall|id: Seq<u8>| after.to_set().contains(id) <==> before.to_set().remove(
                    peer@,
                ).contains(id) by {
                    if after.contains(id) {
                        let k = choose|k: int| 0 <= k < after.len() && after[k] == id;
                        if k < i {
                            assert(before[k] == id);
                        } else {
                            assert(before[k + 1] == id);
                        }
                    }
                    if before.contains(id) && id != peer@ {
                        let k = choose|k: int| 0 <= k < before.len() && before[k] == id;
                        if k < i {
                            assert(after[k] == id);
                        } else {
                            assert(after[k - 1] == id);
                        }
                    }
                }
                assert(self@ =~= before.to_set().remove(peer@));
                true
            },
        }
    }

    /// A copy of the members, in joining order.
    pub fn snapshot(&self) -> (peers: Vec<PeerId>)
        ensures
            ids(peers@) == self.order(),
    {
        let mut peers: Vec<PeerId> = Vec::new();
        let mut i: usize = 0;
        while i < self.members.len()
            invariant
                i <= self.members.len(),
                peers.len() == i,
                forall|k: int| 0 <= k < i ==> peers@[k]@ == self.members@[k]@,
            decreases self.members.len() - i,
        {
            peers.push(self.members[i].clone());
            i += 1;
        }
        assert(ids(peers@) =~= ids(self.members@));
        peers
    }
}

} // verus!
