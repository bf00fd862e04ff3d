//! The decisions of projection rebuilds and snapshot adoption: which
//! operations survive a per-origin cutoff, and which snapshots may be
//! adopted. Replaying operations into a projection belongs to the domain
//! layer.

use vstd::prelude::*;
use crate::devmap::DeviceMap;
use crate::error::CoreError;
use crate::ids::DeviceId;

verus! {

/// Whether an operation stamped by `device` with `sequence` survives the
/// cutoff: origins without a cutoff keep everything, the others keep what
/// is at or below theirs.
pub open spec fn kept_by(cutoff: Map<Seq<u8>, u64>, device: DeviceId, sequence: u64) -> bool {
    !cutoff.contains_key(device.bytes@) || sequence <= cutoff[device.bytes@]
}

/// For each operation stamp `(origin device, sequence)`, in order, whether
/// the operation is retained under the causal cutoff.
pub fn within_cutoff(stamps: &Vec<(DeviceId, u64)>, cutoff: &DeviceMap<u64>) -> (keep: Vec<bool>)
    ensures
        keep@.len() == stamps@.len(),
        forall|i: int|
            0 <= i < stamps@.len() ==> #[trigger] keep@[i] == kept_by(cutoff.map(), stamps@[i].0, stamps@[i].1),
{
    let mut keep: Vec<bool> = Vec::new();
    let mut i: usize = 0;
    while i < stamps.len()
        invariant
            i <= stamps@.len(),
            keep@.len() == i,
            forall|j: int|
                0 <= j < i ==> #[trigger] keep@[j] == kept_by(cutoff.map(), stamps@[j].0, stamps@[j].1),
        decreases stamps@.len() - i,
    {
        let (device, sequence) = stamps[i];
        let k = match cutoff.get(&device) {
            Some(c) => sequence <= *c,
            None => true,
        };
        keep.push(k);
        i = i + 1;
    }
    keep
}

/// Whether a snapshot reflecting `membership_epoch` may be adopted: the
/// all-zero epoch marks a snapshot that reflects no membership and is
/// refused.
pub fn check_snapshot_epoch(membership_epoch: &[u8; 32]) -> (r: Result<(), CoreError>)
    ensures
        r is Ok <==> membership_epoch@ != Seq::new(32, |_i: int| 0u8),
        r matches Err(e) ==> (e matches CoreError::InvalidCommand(m) && m@ == "bad membership epoch"@),
{
    let mut i: usize = 0;
    while i < 32
        invariant
            i <= 32,
            forall|j: int| 0 <= j < i ==> membership_epoch@[j] == 0u8,
        decreases 32 - i,
    {
        if membership_epoch[i] != 0 {
            assert(membership_epoch@[i as int] != Seq::new(32, |_i: int| 0u8)[i as int]);
            return Ok(());
        }
        i = i + 1;
    }
    assert(membership_epoch@ =~= Seq::new(32, |_i: int| 0u8));
    Err(CoreError::InvalidCommand("bad membership epoch".to_string()))
}

} // verus!
