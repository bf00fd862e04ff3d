//! Durable transfer checkpoints.

use vstd::prelude::*;
use crate::ids::DeviceId;
use crate::ranges::{SeqRange, clip_ranges, clip_seq};

verus! {

/// A persisted transfer checkpoint: what was requested, and how far the peer
/// durably acknowledged. `S` is the version summary the transfer started from,
/// carried through unchanged.
#[derive(Clone, Debug, PartialEq, Eq)]
pub struct TransferCheckpoint<S> {
    pub peer: DeviceId,
    pub transfer_id: [u8; 16],
    pub requested_ranges: Vec<SeqRange>,
    /// Highest contiguous sequence the peer durably acknowledged.
    pub highest_ack: u64,
    pub starting_summary: S,
}

impl<S> TransferCheckpoint<S> {
    pub fn new(
        peer: DeviceId,
        transfer_id: [u8; 16],
        requested_ranges: Vec<SeqRange>,
        starting_summary: S,
    ) -> (cp: Self)
        ensures
            cp.peer == peer,
            cp.transfer_id == transfer_id,
            cp.requested_ranges@ == requested_ranges@,
            cp.highest_ack == 0,
            cp.starting_summary == starting_summary,
    {
        TransferCheckpoint { peer, transfer_id, requested_ranges, highest_ack: 0, starting_summary }
    }

    /// Ranges still missing after `acknowledged` is persisted: each requested
    /// range cut to start at `acknowledged`, in order, with emptied ranges dropped.
    pub fn remaining(&self, acknowledged: u64) -> (r: Vec<SeqRange>)
        ensures
            r@ == clip_seq(self.requested_ranges@, acknowledged),
    {
        clip_ranges(self.requested_ranges.as_slice(), acknowledged)
    }

    /// Record a durable acknowledgement (monotonic).
    pub fn advance_ack(&mut self, acknowledged: u64)
        ensures
            final(self).highest_ack == if old(self).highest_ack >= acknowledged {
                old(self).highest_ack
            } else {
                acknowledged
            },
            final(self).peer == old(self).peer,
            final(self).transfer_id == old(self).transfer_id,
            final(self).requested_ranges == old(self).requested_ranges,
            final(self).starting_summary == old(self).starting_summary,
    {
        if acknowledged > self.highest_ack {
            self.highest_ack = acknowledged;
        }
    }
}

} // verus!
