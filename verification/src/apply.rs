//! Verified, idempotent application of remote operation batches: which
//! operations are admitted, which are applied, and the receipt.

use vstd::prelude::*;
use crate::error::CoreError;

verus! {

#[derive(Clone, Copy, Debug, PartialEq, Eq, Structural, Hash)]
pub struct ApplyBatchReceipt {
    pub applied: usize,
    pub duplicated: usize,
}

/// What becomes of an admitted remote operation once it is recorded.
#[derive(Clone, Copy, Debug, PartialEq, Eq, Structural, Hash)]
pub enum RemoteVerdict {
    /// Newly recorded and current: materialized.
    Apply,
    /// Already recorded: counted, nothing else.
    Duplicate,
    /// Recorded for history, but for an older lifecycle generation: not materialized.
    Stale,
}

/// Admission of one remote operation: its signer must be a member, its
/// signature must verify (`signature` is the verifier's verdict), and its
/// sequence may not skip past the next one expected from its origin.
pub open spec fn admission(is_member: bool, signature: Result<(), CoreError>, sequence: u64, frontier: u64) -> Result<(), CoreError> {
    if !is_member {
        Err(CoreError::UnknownMember)
    } else if signature is Err {
        signature
    } else if sequence > frontier + 1 {
        Err(CoreError::OriginGap)
    } else {
        Ok(())
    }
}

/// Decide whether a remote operation is admitted.
pub fn admit_remote(is_member: bool, signature: Result<(), CoreError>, sequence: u64, frontier: u64) -> (r: Result<(), CoreError>)
    requires
        frontier < u64::MAX,
    ensures
        r == admission(is_member, signature, sequence, frontier),
{
    if !is_member {
        return Err(CoreError::UnknownMember);
    }
    if signature.is_err() {
        return signature;
    }
    if sequence > frontier + 1 {
        return Err(CoreError::OriginGap);
    }
    Ok(())
}

/// The fate of an admitted operation: a duplicate if it was already
/// recorded, stale if older than the entity's current generation, else applied.
pub open spec fn verdict_of(inserted: bool, op_generation: u64, current_generation: u64) -> RemoteVerdict {
    if !inserted {
        RemoteVerdict::Duplicate
    } else if op_generation < current_generation {
        RemoteVerdict::Stale
    } else {
        RemoteVerdict::Apply
    }
}

pub fn classify_remote(inserted: bool, op_generation: u64, current_generation: u64) -> (v: RemoteVerdict)
    ensures
        v == verdict_of(inserted, op_generation, current_generation),
{
    if !inserted {
        RemoteVerdict::Duplicate
    } else if op_generation < current_generation {
        RemoteVerdict::Stale
    } else {
        RemoteVerdict::Apply
    }
}

impl ApplyBatchReceipt {
    pub fn new() -> (r: Self)
        ensures
            r.applied == 0,
            r.duplicated == 0,
    {
        ApplyBatchReceipt { applied: 0, duplicated: 0 }
    }

    /// Count one operation's verdict.
    pub fn record(&mut self, v: RemoteVerdict)
        requires
            old(self).applied < usize::MAX,
            old(self).duplicated < usize::MAX,
        ensures
            final(self).applied == old(self).applied + if v == RemoteVerdict::Apply { 1int } else { 0int },
            final(self).duplicated == old(self).duplicated + if v == RemoteVerdict::Duplicate { 1int } else { 0int },
    {
        match v {
            RemoteVerdict::Apply => {
                self.applied = self.applied + 1;
            },
            RemoteVerdict::Duplicate => {
                self.duplicated = self.duplicated + 1;
            },
            RemoteVerdict::Stale => {},
        }
    }
}

} // verus!
