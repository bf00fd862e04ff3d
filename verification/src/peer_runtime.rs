//! Per-peer connection runtime: session state and dial attempt counters.

use vstd::prelude::*;
use crate::backoff::AttemptCounter;
use crate::devmap::DeviceMap;
use crate::ids::DeviceId;

verus! {

/// Runtime state for one peer; `S` is the transport's session state.
#[derive(Clone, Copy, Debug)]
pub struct PeerEntry<S> {
    pub state: S,
    pub attempts: AttemptCounter,
}

/// Per-peer connection state machine. Peers never seen are in the
/// `offline` session state with a fresh attempt counter.
pub struct PeerRuntime<S> {
    peers: DeviceMap<PeerEntry<S>>,
    offline: S,
}

impl<S: Copy> PeerRuntime<S> {
    /// The entry held for each peer, by device id bytes.
    pub closed spec fn entries(&self) -> Map<Seq<u8>, PeerEntry<S>> {
        self.peers.map()
    }

    /// The session state of peers without an entry.
    pub closed spec fn offline(&self) -> S {
        self.offline
    }

    /// The entry a peer starts with.
    pub open spec fn fresh(&self) -> PeerEntry<S> {
        PeerEntry { state: self.offline(), attempts: AttemptCounter { attempts: 0, authenticated: false } }
    }

    /// The entry of `k`, or the fresh entry when there is none.
    pub open spec fn entry_of(&self, k: Seq<u8>) -> PeerEntry<S> {
        if self.entries().contains_key(k) {
            self.entries()[k]
        } else {
            self.fresh()
        }
    }

    pub fn new(offline: S) -> (r: Self)
        ensures
            r.entries() == Map::<Seq<u8>, PeerEntry<S>>::empty(),
            r.offline() == offline,
    {
        PeerRuntime { peers: DeviceMap::new(), offline }
    }

    /// The entry of a peer, created fresh when the peer had none.
    pub fn entry(&mut self, peer: DeviceId) -> (e: PeerEntry<S>)
        ensures
            e == old(self).entry_of(peer.bytes@),
            final(self).entries() == old(self).entries().insert(peer.bytes@, e),
            final(self).offline() == old(self).offline(),
    {
        let e = match self.peers.get(&peer) {
            Some(e) => *e,
            None => PeerEntry { state: self.offline, attempts: AttemptCounter::new() },
        };
        self.peers.insert(peer, e);
        e
    }

    /// The session state of a peer.
    pub fn state(&self, peer: &DeviceId) -> (s: S)
        ensures
            s == self.entry_of(peer.bytes@).state,
    {
        match self.peers.get(peer) {
            Some(e) => e.state,
            None => self.offline,
        }
    }

    /// Move a peer to session state `next`.
    pub fn transition(&mut self, peer: DeviceId, next: S)
        ensures
            final(self).entries() == old(self).entries().insert(
                peer.bytes@,
                PeerEntry { state: next, ..old(self).entry_of(peer.bytes@) },
            ),
            final(self).offline() == old(self).offline(),
    {
        let mut e = self.entry(peer);
        e.state = next;
        self.peers.insert(peer, e);
        proof {
            assert(self.entries() =~= old(self).entries().insert(
                peer.bytes@,
                PeerEntry { state: next, ..old(self).entry_of(peer.bytes@) },
            ));
        }
    }

    /// Reset the dial attempt counter after an authenticated session.
    pub fn reset_on_auth(&mut self, peer: DeviceId)
        ensures
            final(self).entries() == old(self).entries().insert(
                peer.bytes@,
                PeerEntry {
                    attempts: AttemptCounter { attempts: 0, authenticated: true },
                    ..old(self).entry_of(peer.bytes@)
                },
            ),
            final(self).offline() == old(self).offline(),
    {
        let mut e = self.entry(peer);
        e.attempts.reset_on_auth();
        self.peers.insert(peer, e);
        proof {
            assert(self.entries() =~= old(self).entries().insert(
                peer.bytes@,
                PeerEntry {
                    attempts: AttemptCounter { attempts: 0, authenticated: true },
                    ..old(self).entry_of(peer.bytes@)
                },
            ));
        }
    }

    /// The number of peers with an entry.
    pub fn peer_count(&self) -> (n: usize)
        ensures
            n == self.entries().dom().len(),
    {
        let n = self.peers.len();
        proof {
            crate::devmap::lemma_dom_len(self.peers.pairs());
        }
        n
    }
}

} // verus!
