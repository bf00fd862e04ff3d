//! Safe compaction: stable watermarks and membership-aware tombstone rules.

use vstd::prelude::*;
use crate::devmap::{DeviceMap, has_key, lemma_lookup};
use crate::ids::DeviceId;

verus! {

/// Tombstones require at least this age (days) plus every active member's ack.
pub const TOMBSTONE_MIN_AGE_DAYS: u32 = 30;

/// `m` is the least acknowledgement among `acks`, or 0 when there is none.
pub open spec fn least_ack(acks: Seq<(DeviceId, u64)>, m: u64) -> bool {
    if acks.len() == 0 {
        m == 0
    } else {
        (exists|i: int| 0 <= i < acks.len() && #[trigger] acks[i].1 == m) && (forall|i: int|
            0 <= i < acks.len() ==> m <= #[trigger] acks[i].1)
    }
}

/// The per-origin minimum acknowledgement across every currently trusted,
/// non-revoked member. Operations at or below the watermark are safe to
/// compact away behind a pinned snapshot.
pub struct StableWatermark {
    pub per_origin: DeviceMap<u64>,
}

/// The least acknowledgement of one origin, or 0 when no member reported.
fn min_ack(acks: &Vec<(DeviceId, u64)>) -> (m: u64)
    ensures
        least_ack(acks@, m),
{
    if acks.len() == 0 {
        return 0;
    }
    let mut m = acks[0].1;
    let mut i: usize = 1;
    while i < acks.len()
        invariant
            1 <= i <= acks@.len(),
            exists|j: int| 0 <= j < i && #[trigger] acks@[j].1 == m,
            forall|j: int| 0 <= j < i ==> m <= #[trigger] acks@[j].1,
        decreases acks@.len() - i,
    {
        if acks[i].1 < m {
            m = acks[i].1;
        }
        i = i + 1;
    }
    m
}

/// Compute the stable watermark from per-origin acknowledgement reports:
/// `member_acks` maps each origin to the `(member, highest_acked_seq)` pairs
/// reported by every active, non-revoked member. Each origin's watermark is
/// its least reported acknowledgement, or 0 when none was reported.
pub fn compute_watermark(member_acks: &DeviceMap<Vec<(DeviceId, u64)>>) -> (w: StableWatermark)
    ensures
        w.per_origin.map().dom() == member_acks.map().dom(),
        forall|k: Seq<u8>| #[trigger]
            w.per_origin.map().contains_key(k) ==> least_ack(
                member_acks.map()[k]@,
                w.per_origin.map()[k],
            ),
{
    let mut per_origin: DeviceMap<u64> = DeviceMap::new();
    let n = member_acks.len();
    let mut i: usize = 0;
    while i < n
        invariant
            n == member_acks.pairs().len(),
            member_acks.wf(),
            i <= n,
            forall|k: Seq<u8>| #[trigger]
                per_origin.map().contains_key(k) <==> has_key(member_acks.pairs().take(i as int), k),
            forall|k: Seq<u8>| #[trigger]
                per_origin.map().contains_key(k) ==> least_ack(
                    member_acks.map()[k]@,
                    per_origin.map()[k],
                ),
        decreases n - i,
    {
        let pair = member_acks.pair_at(i);
        let m = min_ack(&pair.1);
        proof {
            lemma_lookup(member_acks.pairs(), i as int);
        }
        per_origin.insert(pair.0, m);
        proof {
            let s = member_acks.pairs();
            assert forall|k: Seq<u8>| #[trigger]
                per_origin.map().contains_key(k) <==> has_key(s.take(i + 1), k) by {
                if has_key(s.take(i + 1), k) {
                    let j = choose|j: int| 0 <= j < i + 1 && #[trigger] s.take(i + 1)[j].0.bytes@ == k;
                    if j < i {
                        assert(s.take(i as int)[j] == s.take(i + 1)[j]);
                    }
                }
                if has_key(s.take(i as int), k) {
                    let j = choose|j: int| 0 <= j < i && #[trigger] s.take(i as int)[j].0.bytes@ == k;
                    assert(s.take(i + 1)[j] == s.take(i as int)[j]);
                }
                if k == pair.0.bytes@ {
                    assert(s.take(i + 1)[i as int] == s[i as int]);
                }
            }
        }
        i = i + 1;
    }
    proof {
        let s = member_acks.pairs();
        assert(s.take(n as int) =~= s);
        assert(per_origin.map().dom() =~= member_acks.map().dom());
    }
    StableWatermark { per_origin }
}

impl StableWatermark {
    /// Whether the watermark of `origin` reaches `sequence`.
    pub fn covers(&self, origin: &DeviceId, sequence: u64) -> (r: bool)
        ensures
            r == (self.per_origin.map().contains_key(origin.bytes@) && sequence
                <= self.per_origin.map()[origin.bytes@]),
    {
        match self.per_origin.get(origin) {
            Some(wm) => sequence <= *wm,
            None => false,
        }
    }
}

/// A tombstone may be collected only when it is old enough and every active
/// member has causally acknowledged it.
pub fn tombstone_collectable(age_days: u32, all_active_members_acked: bool) -> (r: bool)
    ensures
        r == (age_days >= TOMBSTONE_MIN_AGE_DAYS && all_active_members_acked),
{
    age_days >= TOMBSTONE_MIN_AGE_DAYS && all_active_members_acked
}

} // verus!
