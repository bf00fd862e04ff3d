//! Runtime status: replica state and peer reachability.

use vstd::prelude::*;
use crate::devmap::DeviceMap;
use crate::ids::DeviceId;
use crate::recovery::ReplicaState;

verus! {

#[derive(Clone, Copy, Debug, PartialEq, Eq)]
pub struct PeerStatus {
    pub device_id: DeviceId,
    pub reachable: bool,
}

#[derive(Clone, Debug, PartialEq, Eq)]
pub struct RuntimeStatus {
    pub replica: ReplicaState,
    pub peers: Vec<PeerStatus>,
}

/// The reachability last reported for each peer.
pub struct RuntimeState {
    peers: DeviceMap<bool>,
}

impl RuntimeState {
    /// Reachability by device id bytes.
    pub closed spec fn reachability(&self) -> Map<Seq<u8>, bool> {
        self.peers.map()
    }

    /// The peers in ascending device order, each with its reachability.
    pub closed spec fn ordered(&self) -> Seq<(DeviceId, bool)> {
        self.peers.pairs()
    }

    pub fn new() -> (s: Self)
        ensures
            s.reachability() == Map::<Seq<u8>, bool>::empty(),
    {
        RuntimeState { peers: DeviceMap::new() }
    }

    /// Record the latest reachability of a peer.
    pub fn update_peer(&mut self, device: DeviceId, reachable: bool)
        ensures
            final(self).reachability() == old(self).reachability().insert(device.bytes@, reachable),
    {
        self.peers.insert(device, reachable);
    }

    /// The status snapshot: the given replica state and every known peer,
    /// in ascending device order, each once.
    pub fn status(&self, replica: ReplicaState) -> (st: RuntimeStatus)
        ensures
            st.replica == replica,
            st.peers@.len() == self.ordered().len(),
            forall|i: int|
                0 <= i < st.peers@.len() ==> #[trigger] st.peers@[i] == (PeerStatus {
                    device_id: self.ordered()[i].0,
                    reachable: self.ordered()[i].1,
                }),
            crate::devmap::keys_sorted(self.ordered()),
            self.reachability() == crate::devmap::pairs_to_map(self.ordered()),
    {
        let n = self.peers.len();
        let mut peers: Vec<PeerStatus> = Vec::new();
        let mut i: usize = 0;
        while i < n
            invariant
                n == self.peers.pairs().len(),
                i <= n,
                peers@.len() == i,
                forall|j: int|
                    0 <= j < i ==> #[trigger] peers@[j] == (PeerStatus {
                        device_id: self.peers.pairs()[j].0,
                        reachable: self.peers.pairs()[j].1,
                    }),
            decreases n - i,
        {
            let pair = self.peers.pair_at(i);
            peers.push(PeerStatus { device_id: pair.0, reachable: pair.1 });
            i = i + 1;
        }
        RuntimeStatus { replica, peers }
    }
}

} // verus!
