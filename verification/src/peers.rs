//! The peers that the node has met: a list in the order in which they were
//! first seen, each peer once.

use vstd::prelude::*;

verus! {

/// A peer of the node: its public key and where to reach it.
#[derive(Clone, Debug)]
pub struct PeerInformation {
    pub pubkey: String,
    pub host: String,
}

impl View for PeerInformation {
    type V = (Seq<char>, Seq<char>);

    open spec fn view(&self) -> (Seq<char>, Seq<char>) {
        (self.pubkey@, self.host@)
    }
}

/// The peers of a vector, each as a pair of texts.
pub open spec fn peers_view(peers: Seq<PeerInformation>) -> Seq<(Seq<char>, Seq<char>)> {
    peers.map_values(|p: PeerInformation| p@)
}

/// The list of known peers after `peer` has been met: unchanged if the peer is
/// on it, else with the peer at its end.
pub open spec fn with_peer(known: Seq<(Seq<char>, Seq<char>)>, peer: (Seq<char>, Seq<char>)) -> Seq<
    (Seq<char>, Seq<char>),
> {
    if known.contains(peer) {
        known
    } else {
        known.push(peer)
    }
}

/// Tells whether two peers have the same public key and the same host.
pub fn same_peer(a: &PeerInformation, b: &PeerInformation) -> (same: bool)
    ensures
        same == (a@ == b@),
{
    a.pubkey == b.pubkey && a.host == b.host
}

/// Tells whether `peer` is among `known`.
pub fn contains_peer(known: &Vec<PeerInformation>, peer: &PeerInformation) -> (found: bool)
    ensures
        found == peers_view(known@).contains(peer@),
{
    let mut i: usize = 0;
    while i < known.len()
        invariant
            i <= known.len(),
            forall|j: int| 0 <= j < i ==> peers_view(known@)[j] != peer@,
        decreases known.len() - i,
    {
        if same_peer(&known[i], peer) {
            assert(peers_view(known@)[i as int] == peer@);
            return true;
        }
        i = i + 1;
    }
    false
}

/// Puts `peer` on the list of known peers unless it is there already, and
/// tells whether the list has changed and so has to be stored again.
pub fn save_peer(known: &mut Vec<PeerInformation>, peer: PeerInformation) -> (changed: bool)
    ensures
        changed == !peers_view(old(known)@).contains(peer@),
        peers_view(final(known)@) == with_peer(peers_view(old(known)@), peer@),
{
    if contains_peer(known, &peer) {
        return false;
    }
    known.push(peer);
    assert(peers_view(known@) =~= peers_view(old(known)@).push(peer@));
    true
}

/// A list on which no peer stands twice stays so when a peer is met, keeps
/// the peers it had in the order it had them, and holds the peer afterwards.
pub proof fn lemma_with_peer_keeps_the_list(known: Seq<(Seq<char>, Seq<char>)>, peer: (Seq<char>, Seq<char>))
    requires
        known.no_duplicates(),
    ensures
        with_peer(known, peer).no_duplicates(),
        with_peer(known, peer).contains(peer),
        known.is_prefix_of(with_peer(known, peer)),
        with_peer(with_peer(known, peer), peer) == with_peer(known, peer),
{
    let after = with_peer(known, peer);
    if !known.contains(peer) {
        assert(after[known.len() as int] == peer);
        assert forall|i: int, j: int| 0 <= i < after.len() && 0 <= j < after.len() && i != j implies after[i]
            != after[j] by {
            if i < known.len() && j < known.len() {
            } else if i < known.len() {
                assert(known.contains(known[i]));
            } else {
                assert(known.contains(known[j]));
            }
        }
    }
    assert(after.contains(peer));
}

} // verus!
