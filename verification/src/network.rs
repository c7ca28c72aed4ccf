//! The gossip network actor's bookkeeping: which peers are connected, and
//! what to do with each message while the network runs or after it stopped.

use crate::mempool::GossipBatch;
use vstd::prelude::*;

verus! {

/// An event reported by the gossip transport, with peers named by the bytes
/// of their peer id.
pub enum GossipEvent {
    PeerConnected(Vec<u8>),
    PeerDisconnected(Vec<u8>),
    /// A gossiped transaction batch, carrying the transaction's bytes.
    TransactionBatch(Vec<u8>),
    /// Any other event (listening addresses, other messages, ...).
    Other,
}

/// Whether two byte strings are equal.
pub fn same_bytes(a: &Vec<u8>, b: &Vec<u8>) -> (r: bool)
    ensures
        r == (a@ == b@),
{
    if a.len() != b.len() {
        return false;
    }
    let mut i: usize = 0;
    while i < a.len()
        invariant
            0 <= i <= a.len(),
            a.len() == b.len(),
            forall|k: int| 0 <= k < i ==> a@[k] == b@[k],
        decreases a.len() - i,
    {
        if a[i] != b[i] {
            return false;
        }
        i = i + 1;
    }
    proof {
        assert(a@ =~= b@);
    }
    true
}

/// A byte-for-byte copy of a byte string.
fn copy_bytes(a: &Vec<u8>) -> (c: Vec<u8>)
    ensures
        c@ == a@,
{
    let mut c: Vec<u8> = Vec::new();
    let mut i: usize = 0;
    while i < a.len()
        invariant
            0 <= i <= a.len(),
            c@ == a@.take(i as int),
        decreases a.len() - i,
    {
        c.push(a[i]);
        i = i + 1;
        proof {
            assert(c@ =~= a@.take(i as int));
        }
    }
    proof {
        assert(a@.take(i as int) =~= a@);
    }
    c
}

/// The set of connected peers.
pub struct PeerSet {
    peers: Vec<Vec<u8>>,
}

impl View for PeerSet {
    type V = Set<Seq<u8>>;

    closed spec fn view(&self) -> Set<Seq<u8>> {
        self.peers@.map_values(|p: Vec<u8>| p@).to_set()
    }
}

impl PeerSet {
    #[verifier::type_invariant]
    spec fn inv(self) -> bool {
        self.peers@.map_values(|p: Vec<u8>| p@).no_duplicates()
    }

    /// No peer.
    pub fn new() -> (s: PeerSet)
        ensures
            s@ == Set::<Seq<u8>>::empty(),
    {
        let s = PeerSet { peers: Vec::new() };
        proof {
            assert(s@ =~= Set::<Seq<u8>>::empty());
        }
        s
    }

    /// Whether the peer is in the set.
    pub fn contains(&self, peer: &Vec<u8>) -> (r: bool)
        ensures
            r == self@.contains(peer@),
    {
        let ghost ps = self.peers@.map_values(|p: Vec<u8>| p@);
        let mut i: usize = 0;
        while i < self.peers.len()
            invariant
                0 <= i <= self.peers.len(),
                ps == self.peers@.map_values(|p: Vec<u8>| p@),
                forall|k: int| 0 <= k < i ==> ps[k] != peer@,
            decreases self.peers.len() - i,
        {
            if same_bytes(&self.peers[i], peer) {
                proof {
                    assert(ps[i as int] == peer@);
                    assert(ps.contains(peer@));
                }
                return true;
            }
            i = i + 1;
        }
        false
    }

    /// How many peers are in the set.
    pub fn len(&self) -> (n: usize)
        ensures
            n == self@.len(),
    {
        proof {
            use_type_invariant(self);
            self.peers@.map_values(|p: Vec<u8>| p@).unique_seq_to_set();
        }
        self.peers.len()
    }

    /// Adds a peer; a peer already there stays once.
    pub fn insert(&mut self, peer: Vec<u8>)
        ensures
            final(self)@ == old(self)@.insert(peer@),
    {
        proof {
            use_type_invariant(&*self);
        }
        if self.contains(&peer) {
            proof {
                assert(old(self)@.insert(peer@) =~= old(self)@);
            }
            return;
        }
        let ghost before = self.peers@.map_values(|p: Vec<u8>| p@);
        let mut taken = PeerSet { peers: Vec::new() };
        std::mem::swap(&mut taken, self);
        let PeerSet { mut peers } = taken;
        peers.push(peer);
        proof {
            let after = peers@.map_values(|p: Vec<u8>| p@);
            assert(after =~= before.push(peer@));
            before.lemma_push_to_set_commute(peer@);
            assert(!before.contains(peer@));
            assert forall|a: int, b: int|
                0 <= a < after.len() && 0 <= b < after.len() && a != b implies after[a]
                != after[b] by {
                if a < before.len() && b < before.len() {
                    assert(before[a] != before[b]);
                } else if a < before.len() {
                    assert(before.contains(before[a]));
                } else if b < before.len() {
                    assert(before.contains(before[b]));
                }
            }
        }
        *self = PeerSet { peers };
    }

    /// Removes a peer; removing one that is not there changes nothing.
    pub fn remove(&mut self, peer: &Vec<u8>)
        ensures
            final(self)@ == old(self)@.remove(peer@),
    {
        proof {
            use_type_invariant(&*self);
        }
        let ghost before = self.peers@.map_values(|p: Vec<u8>| p@);
        let mut taken = PeerSet { peers: Vec::new() };
        std::mem::swap(&mut taken, self);
        let PeerSet { peers } = taken;
        let mut kept: Vec<Vec<u8>> = Vec::new();
        let mut i: usize = 0;
        while i < peers.len()
            invariant
                0 <= i <= peers.len(),
                before == peers@.map_values(|p: Vec<u8>| p@),
                before.no_duplicates(),
                kept@.map_values(|p: Vec<u8>| p@).no_duplicates(),
                forall|x: Seq<u8>|
                    kept@.map_values(|p: Vec<u8>| p@).contains(x) <==> (before.take(
                        i as int,
                    ).contains(x) && x != peer@),
            decreases peers.len() - i,
        {
            let ghost ks = kept@.map_values(|p: Vec<u8>| p@);
            proof {
                assert(before.take(i + 1) =~= before.take(i as int).push(before[i as int]));
                assert(!before.take(i as int).contains(before[i as int])) by {
                    if before.take(i as int).contains(before[i as int]) {
                        let t = before.take(i as int);
                        let j = choose|j: int| 0 <= j < t.len() && t[j] == before[i as int];
                        assert(before[j] == before[i as int]);
                    }
                }
            }
            if !same_bytes(&peers[i], peer) {
                let c = copy_bytes(&peers[i]);
                kept.push(c);
                proof {
                    let ks2 = kept@.map_values(|p: Vec<u8>| p@);
                    assert(ks2 =~= ks.push(before[i as int]));
                    assert forall|x: Seq<u8>|
                        ks2.contains(x) <==> (before.take(i + 1).contains(x) && x != peer@) by {
                        vstd::seq_lib::lemma_seq_contains_after_push(ks, before[i as int], x);
                        vstd::seq_lib::lemma_seq_contains_after_push(
                            before.take(i as int),
                            before[i as int],
                            x,
                        );
                        assert(ks2.contains(x) <==> (ks.contains(x) || x == before[i as int]));
                        assert(before.take(i + 1).contains(x) <==> (before.take(i as int).contains(
                            x,
                        ) || x == before[i as int]));
                    }
                    assert forall|a: int, b: int|
                        0 <= a < ks2.len() && 0 <= b < ks2.len() && a != b implies ks2[a]
                        != ks2[b] by {
                        if a < ks.len() && b < ks.len() {
                            assert(ks[a] != ks[b]);
                        } else if a < ks.len() {
                            assert(ks.contains(ks[a]));
                        } else if b < ks.len() {
                            assert(ks.contains(ks[b]));
                        }
                    }
                }
            } else {
                proof {
                    assert forall|x: Seq<u8>|
                        ks.contains(x) <==> (before.take(i + 1).contains(x) && x != peer@) by {
                        vstd::seq_lib::lemma_seq_contains_after_push(
                            before.take(i as int),
                            before[i as int],
                            x,
                        );
                        assert(before.take(i + 1).contains(x) <==> (before.take(i as int).contains(
                            x,
                        ) || x == before[i as int]));
                    }
                }
            }
            i = i + 1;
        }
        proof {
            assert(before.take(peers.len() as int) =~= before);
            let ks = kept@.map_values(|p: Vec<u8>| p@);
            assert forall|x: Seq<u8>| ks.to_set().contains(x) <==> before.to_set().remove(
                peer@,
            ).contains(x) by {
                assert(before.take(i as int) == before);
                assert(ks.contains(x) <==> (before.take(i as int).contains(x) && x != peer@));
                assert(ks.contains(x) <==> (before.contains(x) && x != peer@));
            }
            assert(ks.to_set() =~= before.to_set().remove(peer@));
        }
        *self = PeerSet { peers: kept };
    }
}

/// The state of the network actor.
pub enum State {
    Stopped,
    Running { peers: PeerSet },
}

/// A message to the network actor, with what the actor needs to decide.
pub enum NetworkInput {
    /// Someone subscribes to the gossip events.
    Subscribe,
    /// A batch to broadcast to all peers.
    Broadcast(GossipBatch),
    /// An event from the transport.
    NewEvent(GossipEvent),
}

/// What the network actor does with a message.
pub enum NetworkAction {
    /// Nothing: the network has stopped.
    Ignore,
    /// Subscribe the sender to the events.
    Subscribe,
    /// Broadcast the batch to all peers.
    Broadcast(GossipBatch),
    /// Publish the event to the subscribers.
    Publish,
}

/// The network actor's decisions.
pub struct MempoolNetwork;

impl MempoolNetwork {
    /// The state once the transport runs: no peer connected yet.
    pub fn started(&self) -> (s: State)
        ensures
            s matches State::Running { peers } && peers@ == Set::<Seq<u8>>::empty(),
    {
        State::Running { peers: PeerSet::new() }
    }

    /// Handles a message: a stopped network ignores everything; a running one
    /// subscribes, broadcasts, or records peer (dis)connections and publishes
    /// every transport event.
    pub fn handle(&self, state: &mut State, msg: NetworkInput) -> (a: NetworkAction)
        ensures
            match *old(state) {
                State::Stopped => (a is Ignore) && (*final(state) is Stopped),
                State::Running { peers: old_peers } => match msg {
                    NetworkInput::Subscribe => (a is Subscribe) && (*final(state) matches State::Running { peers } && peers@ == old_peers@),
                    NetworkInput::Broadcast(batch) => (a matches NetworkAction::Broadcast(b) && b == batch)
                        && (*final(state) matches State::Running { peers } && peers@ == old_peers@),
                    NetworkInput::NewEvent(event) => (a is Publish) && (*final(state) matches State::Running { peers } && peers@ == match event {
                        GossipEvent::PeerConnected(p) => old_peers@.insert(p@),
                        GossipEvent::PeerDisconnected(p) => old_peers@.remove(p@),
                        _ => old_peers@,
                    }),
                },
            },
    {
        match state {
            State::Stopped => NetworkAction::Ignore,
            State::Running { peers } => match msg {
                NetworkInput::Subscribe => NetworkAction::Subscribe,
                NetworkInput::Broadcast(batch) => NetworkAction::Broadcast(batch),
                NetworkInput::NewEvent(event) => {
                    match event {
                        GossipEvent::PeerConnected(p) => peers.insert(p),
                        GossipEvent::PeerDisconnected(p) => peers.remove(&p),
                        _ => {},
                    }
                    NetworkAction::Publish
                },
            },
        }
    }

    /// Stops the network; says whether it was running (and so has a transport
    /// to shut down).
    pub fn stop(&self, state: &mut State) -> (was_running: bool)
        ensures
            was_running == (*old(state) is Running),
            *final(state) is Stopped,
    {
        let was = match state {
            State::Stopped => false,
            State::Running { .. } => true,
        };
        *state = State::Stopped;
        was
    }
}

} // verus!
