//! Per-peer transfer state: which ranges still have to be sent.

use vstd::prelude::*;
use crate::checkpoint::TransferCheckpoint;
use crate::devmap::DeviceMap;
use crate::ids::DeviceId;
use crate::ranges::{SeqRange, clip_ranges, clip_seq};

verus! {

/// Track per-peer transfer checkpoints and compute what to send next.
pub struct SyncState<S> {
    checkpoints: DeviceMap<TransferCheckpoint<S>>,
}

impl<S> SyncState<S> {
    #[verifier::type_invariant]
    spec fn inv(self) -> bool {
        &&& forall|k: Seq<u8>| #[trigger]
            self.checkpoints.map().contains_key(k) ==> self.checkpoints.map()[k].peer.bytes@ == k
    }

    /// The checkpoint held for each peer, keyed by the peer's id bytes.
    pub closed spec fn view_map(&self) -> Map<Seq<u8>, TransferCheckpoint<S>> {
        self.checkpoints.map()
    }

    pub fn new() -> (st: Self)
        ensures
            st.view_map() == Map::<Seq<u8>, TransferCheckpoint<S>>::empty(),
    {
        SyncState { checkpoints: DeviceMap::new() }
    }

    /// Ranges to send to `peer`, given the ranges it lacks (`missing`): when
    /// a checkpoint for the peer holds an acknowledgement above zero, each
    /// range is cut to start at that acknowledgement and emptied ranges are
    /// dropped; otherwise `missing` is returned as it is.
    pub fn ranges_to_send(&self, peer: &DeviceId, missing: Vec<SeqRange>) -> (r: Vec<SeqRange>)
        ensures
            r@ == if self.view_map().contains_key(peer.bytes@) && self.view_map()[peer.bytes@].highest_ack > 0 {
                clip_seq(missing@, self.view_map()[peer.bytes@].highest_ack)
            } else {
                missing@
            },
    {
        proof {
            use_type_invariant(self);
        }
        match self.checkpoints.get(peer) {
            Some(cp) => {
                if cp.highest_ack > 0 {
                    clip_ranges(missing.as_slice(), cp.highest_ack)
                } else {
                    missing
                }
            },
            None => missing,
        }
    }

    pub fn checkpoint(&self, peer: &DeviceId) -> (r: Option<&TransferCheckpoint<S>>)
        ensures
            r is None <==> !self.view_map().contains_key(peer.bytes@),
            r matches Some(cp) ==> *cp == self.view_map()[peer.bytes@],
    {
        proof {
            use_type_invariant(self);
        }
        self.checkpoints.get(peer)
    }

    /// Store `cp` as the checkpoint of its peer, replacing any earlier one.
    pub fn record_checkpoint(&mut self, cp: TransferCheckpoint<S>)
        ensures
            final(self).view_map() == old(self).view_map().insert(cp.peer.bytes@, cp),
    {
        proof {
            use_type_invariant(&*self);
        }
        let peer = cp.peer;
        let mut m = DeviceMap::new();
        std::mem::swap(&mut m, &mut self.checkpoints);
        m.insert(peer, cp);
        self.checkpoints = m;
    }

    /// Advance the durable acknowledgement for a peer (monotonic); a peer
    /// without a checkpoint is left alone.
    pub fn advance_ack(&mut self, peer: &DeviceId, acknowledged: u64)
        ensures
            !old(self).view_map().contains_key(peer.bytes@) ==> final(self).view_map() == old(self).view_map(),
            old(self).view_map().contains_key(peer.bytes@) ==> {
                let cp = old(self).view_map()[peer.bytes@];
                final(self).view_map() == old(self).view_map().insert(
                    peer.bytes@,
                    TransferCheckpoint {
                        highest_ack: if cp.highest_ack >= acknowledged {
                            cp.highest_ack
                        } else {
                            acknowledged
                        },
                        ..cp
                    },
                )
            },
    {
        proof {
            use_type_invariant(&*self);
        }
        let mut m = DeviceMap::new();
        std::mem::swap(&mut m, &mut self.checkpoints);
        match m.remove(peer) {
            Some(mut cp) => {
                cp.advance_ack(acknowledged);
                m.insert(*peer, cp);
                proof {
                    assert(m.map() =~= old(self).view_map().insert(peer.bytes@, cp));
                }
            },
            None => {},
        }
        self.checkpoints = m;
    }
}

} // verus!
