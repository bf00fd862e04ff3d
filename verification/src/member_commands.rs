//! Member management: each member's lifecycle status, and the member list a
//! platform UI shows.

use vstd::prelude::*;
use crate::ids::{
    DeviceId, bytes_eq, bytes_less, bytes_lt, lemma_bytes_lt_irreflexive, lemma_bytes_lt_total,
    lemma_bytes_lt_transitive,
};

verus! {

broadcast use vstd::seq_lib::group_to_multiset_ensures;

/// A member's lifecycle status.
#[derive(Clone, Copy, Debug, PartialEq, Eq, Structural, Hash)]
pub enum MemberStatus {
    /// Active and trusted.
    Active,
    /// Authenticated but not yet committed (mid-pairing).
    Pending,
    /// Historically revoked; re-add requires a fresh key.
    Revoked,
    /// Unknown to this replica.
    Unknown,
}

/// A member together with its status.
#[derive(Clone, Copy, Debug, PartialEq, Eq)]
pub struct MemberInfo {
    pub device: DeviceId,
    pub status: MemberStatus,
}

/// The status rule: trust wins, then a pending pairing, then a revocation.
pub open spec fn status_of(trusted: bool, pending: bool, revoked: bool) -> MemberStatus {
    if trusted {
        MemberStatus::Active
    } else if pending {
        MemberStatus::Pending
    } else if revoked {
        MemberStatus::Revoked
    } else {
        MemberStatus::Unknown
    }
}

/// A single member's status from what the membership store reports of it.
pub fn member_status(trusted: bool, pending: bool, revoked: bool) -> (s: MemberStatus)
    ensures
        s == status_of(trusted, pending, revoked),
{
    if trusted {
        MemberStatus::Active
    } else if pending {
        MemberStatus::Pending
    } else if revoked {
        MemberStatus::Revoked
    } else {
        MemberStatus::Unknown
    }
}

/// A trusted device is active whatever else is recorded of it; a pending
/// pairing shows only for an untrusted device, a revocation only for a
/// device neither trusted nor pending, and a device with none of the three
/// is unknown.
pub proof fn lemma_member_status_precedence(trusted: bool, pending: bool, revoked: bool)
    ensures
        trusted ==> status_of(trusted, pending, revoked) == MemberStatus::Active,
        status_of(trusted, pending, revoked) == MemberStatus::Active ==> trusted,
        status_of(trusted, pending, revoked) == MemberStatus::Pending <==> !trusted && pending,
        status_of(trusted, pending, revoked) == MemberStatus::Revoked <==> !trusted && !pending && revoked,
        status_of(trusted, pending, revoked) == MemberStatus::Unknown <==> !trusted && !pending && !revoked,
{
}

/// Some entry of `infos` is for the device with id bytes `k`.
pub open spec fn lists_device(infos: Seq<MemberInfo>, k: Seq<u8>) -> bool {
    exists|i: int| 0 <= i < infos.len() && #[trigger] infos[i].device.bytes@ == k
}

/// `listed` followed by each device of `devices` that is not listed yet,
/// with `status`, in the order given.
pub open spec fn with_unlisted(listed: Seq<MemberInfo>, devices: Seq<DeviceId>, status: MemberStatus) -> Seq<MemberInfo>
    decreases devices.len(),
{
    if devices.len() == 0 {
        listed
    } else {
        let prev = with_unlisted(listed, devices.drop_last(), status);
        if lists_device(prev, devices.last().bytes@) {
            prev
        } else {
            prev.push(MemberInfo { device: devices.last(), status })
        }
    }
}

/// The active members, each `Active`, followed by every pending device not
/// listed yet, each `Pending`, then by every revoked device not listed yet,
/// each `Revoked`, in the order given.
pub open spec fn unsorted_members(active: Seq<DeviceId>, pending: Seq<DeviceId>, revoked: Seq<DeviceId>) -> Seq<MemberInfo> {
    let actives = active.map_values(|d: DeviceId| MemberInfo { device: d, status: MemberStatus::Active });
    with_unlisted(with_unlisted(actives, pending, MemberStatus::Pending), revoked, MemberStatus::Revoked)
}

/// No two entries of `infos` are for the same device.
pub open spec fn distinct_devices(infos: Seq<MemberInfo>) -> bool {
    forall|i: int, j: int|
        0 <= i < j < infos.len() ==> #[trigger] infos[i].device.bytes@ != #[trigger] infos[j].device.bytes@
}

/// No device occurs twice in `ds`.
pub open spec fn distinct_ids(ds: Seq<DeviceId>) -> bool {
    forall|i: int, j: int| 0 <= i < j < ds.len() ==> #[trigger] ds[i].bytes@ != #[trigger] ds[j].bytes@
}

/// `infos` strictly ascend by device id.
pub open spec fn strictly_sorted_by_device(infos: Seq<MemberInfo>) -> bool {
    forall|i: int, j: int|
        0 <= i < j < infos.len() ==> bytes_lt(
            #[trigger] infos[i].device.bytes@,
            #[trigger] infos[j].device.bytes@,
        )
}

/// Adding the unlisted devices never lists a device twice.
proof fn lemma_with_unlisted_distinct(listed: Seq<MemberInfo>, devices: Seq<DeviceId>, status: MemberStatus)
    requires
        distinct_devices(listed),
    ensures
        distinct_devices(with_unlisted(listed, devices, status)),
    decreases devices.len(),
{
    if devices.len() > 0 {
        lemma_with_unlisted_distinct(listed, devices.drop_last(), status);
        let prev = with_unlisted(listed, devices.drop_last(), status);
        if !lists_device(prev, devices.last().bytes@) {
            let next = prev.push(MemberInfo { device: devices.last(), status });
            assert forall|i: int, j: int| 0 <= i < j < next.len() implies #[trigger] next[i].device.bytes@
                != #[trigger] next[j].device.bytes@ by {
                assert(next[i] == prev[i]);
                if j < prev.len() {
                    assert(next[j] == prev[j]);
                }
            }
        }
    }
}

/// Inserting the next item keeps every entry traced to an item taken so
/// far, and keeps the entries' devices distinct when the items' are.
proof fn lemma_insert_tracks(items: Seq<MemberInfo>, i: int, before: Seq<MemberInfo>, p: int, after: Seq<MemberInfo>)
    requires
        0 <= i < items.len(),
        0 <= p <= before.len(),
        after == before.insert(p, items[i]),
        forall|k: int|
            0 <= k < before.len() ==> exists|m: int|
                0 <= m < i && #[trigger] items[m].device.bytes@ == (#[trigger] before[k]).device.bytes@,
        distinct_devices(items) ==> distinct_devices(before),
    ensures
        forall|k: int|
            0 <= k < after.len() ==> exists|m: int|
                0 <= m < i + 1 && #[trigger] items[m].device.bytes@ == (#[trigger] after[k]).device.bytes@,
        distinct_devices(items) ==> distinct_devices(after),
{
    assert forall|k: int| 0 <= k < after.len() implies exists|m: int|
        0 <= m < i + 1 && #[trigger] items[m].device.bytes@ == (#[trigger] after[k]).device.bytes@ by {
        if k < p {
            assert(after[k] == before[k]);
        } else if k == p {
            assert(items[i].device.bytes@ == after[k].device.bytes@);
        } else {
            assert(after[k] == before[k - 1]);
        }
    }
    if distinct_devices(items) {
        assert forall|a: int, b: int| 0 <= a < b < after.len() implies #[trigger] after[a].device.bytes@
            != #[trigger] after[b].device.bytes@ by {
            if a == p || b == p {
                let o = if a == p { b } else { a };
                let ob = if o < p { o } else { o - 1 };
                assert(after[o] == before[ob]);
                let m = choose|m: int|
                    0 <= m < i && #[trigger] items[m].device.bytes@ == (#[trigger] before[ob]).device.bytes@;
                assert(items[m].device.bytes@ != items[i].device.bytes@);
            } else {
                let aa = if a < p { a } else { a - 1 };
                let bb = if b < p { b } else { b - 1 };
                assert(after[a] == before[aa] && after[b] == before[bb]);
            }
        }
    }
}

/// What adding the unlisted devices does: the entries listed before stay
/// first and unchanged; each added entry has `status` and is a device of
/// `devices` that the earlier entries did not list; and every device of
/// `devices` ends up listed.
proof fn lemma_with_unlisted_entries(listed: Seq<MemberInfo>, devices: Seq<DeviceId>, status: MemberStatus)
    ensures
        with_unlisted(listed, devices, status).len() >= listed.len(),
        forall|i: int| 0 <= i < listed.len() ==> #[trigger] with_unlisted(listed, devices, status)[i] == listed[i],
        forall|i: int|
            listed.len() <= i < with_unlisted(listed, devices, status).len() ==> {
                let e = #[trigger] with_unlisted(listed, devices, status)[i];
                &&& e.status == status
                &&& devices.contains(e.device)
                &&& !lists_device(listed, e.device.bytes@)
            },
        forall|j: int|
            0 <= j < devices.len() ==> lists_device(with_unlisted(listed, devices, status), #[trigger] devices[j].bytes@),
    decreases devices.len(),
{
    if devices.len() > 0 {
        let rest = devices.drop_last();
        lemma_with_unlisted_entries(listed, rest, status);
        let prev = with_unlisted(listed, rest, status);
        let cur = with_unlisted(listed, devices, status);
        let d = devices.last();
        assert forall|i: int| listed.len() <= i < cur.len() implies {
            let e = #[trigger] cur[i];
            &&& e.status == status
            &&& devices.contains(e.device)
            &&& !lists_device(listed, e.device.bytes@)
        } by {
            if i < prev.len() {
                assert(cur[i] == prev[i]);
                let e = prev[i];
                let k = choose|k: int| 0 <= k < rest.len() && rest[k] == e.device;
                assert(devices[k] == e.device);
            } else {
                assert(cur[i].device == d);
                assert(devices[devices.len() - 1] == d);
                if lists_device(listed, d.bytes@) {
                    let k = choose|k: int| 0 <= k < listed.len() && #[trigger] listed[k].device.bytes@ == d.bytes@;
                    assert(prev[k] == listed[k]);
                }
            }
        }
        assert forall|i: int| 0 <= i < listed.len() implies #[trigger] cur[i] == listed[i] by {
            assert(prev[i] == listed[i]);
        }
        assert forall|j: int| 0 <= j < devices.len() implies lists_device(cur, #[trigger] devices[j].bytes@) by {
            if j < rest.len() {
                assert(rest[j] == devices[j]);
                let k = choose|k: int| 0 <= k < prev.len() && #[trigger] prev[k].device.bytes@ == devices[j].bytes@;
                assert(cur[k] == prev[k]);
            } else if !lists_device(prev, d.bytes@) {
                assert(cur[prev.len() as int].device.bytes@ == devices[j].bytes@);
            }
        }
    }
}

/// The member list lists every active, pending and revoked device, and
/// nothing else. An active device is listed as active; a device is listed
/// as pending only when it is pending and not active, and as revoked only
/// when it is revoked and neither active nor pending. No member is listed
/// as unknown.
pub proof fn lemma_member_list_statuses(active: Seq<DeviceId>, pending: Seq<DeviceId>, revoked: Seq<DeviceId>)
    ensures
        forall|j: int|
            #![trigger active[j]]
            0 <= j < active.len() ==> exists|i: int|
                0 <= i < unsorted_members(active, pending, revoked).len()
                    && #[trigger] unsorted_members(active, pending, revoked)[i] == (MemberInfo {
                    device: active[j],
                    status: MemberStatus::Active,
                }),
        forall|j: int|
            0 <= j < pending.len() ==> lists_device(unsorted_members(active, pending, revoked), #[trigger] pending[j].bytes@),
        forall|j: int|
            0 <= j < revoked.len() ==> lists_device(unsorted_members(active, pending, revoked), #[trigger] revoked[j].bytes@),
        forall|i: int|
            0 <= i < unsorted_members(active, pending, revoked).len() ==> {
                let e = #[trigger] unsorted_members(active, pending, revoked)[i];
                &&& e.status != MemberStatus::Unknown
                &&& e.status == MemberStatus::Active ==> active.contains(e.device)
                &&& e.status == MemberStatus::Pending ==> pending.contains(e.device) && forall|k: int|
                    0 <= k < active.len() ==> #[trigger] active[k].bytes@ != e.device.bytes@
                &&& e.status == MemberStatus::Revoked ==> revoked.contains(e.device) && (forall|k: int|
                    0 <= k < active.len() ==> #[trigger] active[k].bytes@ != e.device.bytes@) && forall|k: int|
                    0 <= k < pending.len() ==> #[trigger] pending[k].bytes@ != e.device.bytes@
            },
{
    let actives = active.map_values(|d: DeviceId| MemberInfo { device: d, status: MemberStatus::Active });
    let mid = with_unlisted(actives, pending, MemberStatus::Pending);
    let u = unsorted_members(active, pending, revoked);
    lemma_with_unlisted_entries(actives, pending, MemberStatus::Pending);
    lemma_with_unlisted_entries(mid, revoked, MemberStatus::Revoked);
    assert forall|j: int| #![trigger active[j]] 0 <= j < active.len() implies exists|i: int|
        0 <= i < u.len() && #[trigger] u[i] == (MemberInfo { device: active[j], status: MemberStatus::Active }) by {
        assert(mid[j] == actives[j]);
        assert(u[j] == mid[j]);
    }
    assert forall|j: int| 0 <= j < pending.len() implies lists_device(u, #[trigger] pending[j].bytes@) by {
        let k = choose|k: int| 0 <= k < mid.len() && #[trigger] mid[k].device.bytes@ == pending[j].bytes@;
        assert(u[k] == mid[k]);
    }
    assert forall|i: int| 0 <= i < u.len() implies {
        let e = #[trigger] u[i];
        &&& e.status != MemberStatus::Unknown
        &&& e.status == MemberStatus::Active ==> active.contains(e.device)
        &&& e.status == MemberStatus::Pending ==> pending.contains(e.device) && forall|k: int|
            0 <= k < active.len() ==> #[trigger] active[k].bytes@ != e.device.bytes@
        &&& e.status == MemberStatus::Revoked ==> revoked.contains(e.device) && (forall|k: int|
            0 <= k < active.len() ==> #[trigger] active[k].bytes@ != e.device.bytes@) && forall|k: int|
            0 <= k < pending.len() ==> #[trigger] pending[k].bytes@ != e.device.bytes@
    } by {
        let e = u[i];
        if i < actives.len() {
            assert(u[i] == mid[i] && mid[i] == actives[i]);
            assert(active[i] == e.device);
        } else if i < mid.len() {
            assert(u[i] == mid[i]);
            assert forall|k: int| 0 <= k < active.len() implies #[trigger] active[k].bytes@ != e.device.bytes@ by {
                if active[k].bytes@ == e.device.bytes@ {
                    assert(actives[k].device.bytes@ == e.device.bytes@);
                }
            }
        } else {
            assert forall|k: int| 0 <= k < active.len() implies #[trigger] active[k].bytes@ != e.device.bytes@ by {
                if active[k].bytes@ == e.device.bytes@ {
                    assert(mid[k] == actives[k]);
                    assert(mid[k].device.bytes@ == e.device.bytes@);
                }
            }
            assert forall|k: int| 0 <= k < pending.len() implies #[trigger] pending[k].bytes@ != e.device.bytes@ by {
                if pending[k].bytes@ == e.device.bytes@ {
                    assert(lists_device(mid, pending[k].bytes@));
                }
            }
        }
    }
}

/// `infos` ascend by device id (ties allowed).
pub open spec fn sorted_by_device(infos: Seq<MemberInfo>) -> bool {
    forall|i: int, j: int|
        0 <= i < j < infos.len() ==> !bytes_lt(
            #[trigger] infos[j].device.bytes@,
            #[trigger] infos[i].device.bytes@,
        )
}

/// Append each device of `devices` that `infos` does not list yet, with `status`.
fn append_unlisted(infos: &mut Vec<MemberInfo>, devices: &Vec<DeviceId>, status: MemberStatus)
    ensures
        final(infos)@ == with_unlisted(old(infos)@, devices@, status),
{
    let ghost start = infos@;
    assert(devices@.take(0) =~= Seq::<DeviceId>::empty());
    let mut j: usize = 0;
    while j < devices.len()
        invariant
            j <= devices@.len(),
            infos@ == with_unlisted(start, devices@.take(j as int), status),
        decreases devices@.len() - j,
    {
        let d = devices[j];
        let mut listed = false;
        let mut k: usize = 0;
        while k < infos.len()
            invariant
                k <= infos@.len(),
                listed <==> exists|x: int|
                    0 <= x < k && #[trigger] infos@[x].device.bytes@ == d.bytes@,
            decreases infos@.len() - k,
        {
            if bytes_eq(&infos[k].device.bytes, &d.bytes) {
                listed = true;
            }
            k = k + 1;
        }
        assert(devices@.take(j + 1).drop_last() =~= devices@.take(j as int));
        if !listed {
            infos.push(MemberInfo { device: d, status });
        }
        j = j + 1;
    }
    assert(devices@.take(devices@.len() as int) =~= devices@);
}

/// Every known member (active, then pending ones not active, then revoked
/// ones neither active nor pending) in ascending device order; when no
/// device is active twice, each device is listed once.
pub fn list_members(active: &Vec<DeviceId>, pending: &Vec<DeviceId>, revoked: &Vec<DeviceId>) -> (infos: Vec<MemberInfo>)
    ensures
        sorted_by_device(infos@),
        distinct_ids(active@) ==> strictly_sorted_by_device(infos@),
        infos@.to_multiset() == unsorted_members(active@, pending@, revoked@).to_multiset(),
{
    let mut infos: Vec<MemberInfo> = Vec::new();
    let mut i: usize = 0;
    while i < active.len()
        invariant
            i <= active@.len(),
            infos@ == active@.take(i as int).map_values(
                |d: DeviceId| MemberInfo { device: d, status: MemberStatus::Active },
            ),
        decreases active@.len() - i,
    {
        infos.push(MemberInfo { device: active[i], status: MemberStatus::Active });
        assert(infos@ =~= active@.take(i + 1).map_values(
            |d: DeviceId| MemberInfo { device: d, status: MemberStatus::Active },
        ));
        i = i + 1;
    }
    assert(active@.take(active@.len() as int) =~= active@);
    let ghost actives = infos@;
    append_unlisted(&mut infos, pending, MemberStatus::Pending);
    let ghost with_pending = infos@;
    append_unlisted(&mut infos, revoked, MemberStatus::Revoked);
    proof {
        if distinct_ids(active@) {
            assert forall|a: int, b: int| 0 <= a < b < actives.len() implies #[trigger] actives[a].device.bytes@
                != #[trigger] actives[b].device.bytes@ by {
                assert(actives[a].device == active@[a] && actives[b].device == active@[b]);
            }
            lemma_with_unlisted_distinct(actives, pending@, MemberStatus::Pending);
            lemma_with_unlisted_distinct(with_pending, revoked@, MemberStatus::Revoked);
        }
    }
    sort_by_device(infos)
}

/// Sort members ascending by device id; members with equal ids keep their order.
fn sort_by_device(items: Vec<MemberInfo>) -> (out: Vec<MemberInfo>)
    ensures
        sorted_by_device(out@),
        out@.to_multiset() == items@.to_multiset(),
        distinct_devices(items@) ==> strictly_sorted_by_device(out@),
{
    let mut out: Vec<MemberInfo> = Vec::new();
    let mut i: usize = 0;
    while i < items.len()
        invariant
            i <= items@.len(),
            sorted_by_device(out@),
            out@.to_multiset() == items@.take(i as int).to_multiset(),
            distinct_devices(items@) ==> distinct_devices(out@),
            forall|k: int|
                0 <= k < out@.len() ==> exists|m: int|
                    0 <= m < i && #[trigger] items@[m].device.bytes@ == (#[trigger] out@[k]).device.bytes@,
        decreases items@.len() - i,
    {
        let x = items[i];
        let mut p: usize = 0;
        while p < out.len() && !bytes_less(&x.device.bytes, &out[p].device.bytes)
            invariant
                p <= out@.len(),
                forall|k: int| 0 <= k < p ==> !bytes_lt(x.device.bytes@, #[trigger] out@[k].device.bytes@),
            decreases out@.len() - p,
        {
            p = p + 1;
        }
        let ghost before = out@;
        out.insert(p, x);
        proof {
            assert(out@.remove(p as int) =~= before);
            assert(out@[p as int] == x);
            assert(out@.to_multiset().remove(x) == before.to_multiset());
            assert(out@.to_multiset().count(x) > 0);
            assert(out@.to_multiset() =~= before.to_multiset().insert(x));
            assert(items@.take(i + 1) =~= items@.take(i as int).push(x));
            assert forall|a: int, b: int| 0 <= a < b < out@.len() implies !bytes_lt(
                #[trigger] out@[b].device.bytes@,
                #[trigger] out@[a].device.bytes@,
            ) by {
                if b < p {
                    assert(out@[a] == before[a] && out@[b] == before[b]);
                } else if b == p {
                    assert(out@[a] == before[a]);
                } else if a == p {
                    let y = before[b - 1].device.bytes@;
                    let z = before[p as int].device.bytes@;
                    let xb = x.device.bytes@;
                    assert(out@[b] == before[b - 1]);
                    assert(bytes_lt(xb, z));
                    if b - 1 > p {
                        assert(!bytes_lt(y, z));
                        lemma_bytes_lt_total(y, z);
                        if y != z {
                            lemma_bytes_lt_transitive(xb, z, y);
                        }
                    }
                    if bytes_lt(y, xb) {
                        lemma_bytes_lt_transitive(xb, y, xb);
                        lemma_bytes_lt_irreflexive(xb);
                    }
                } else if a < p {
                    assert(out@[a] == before[a] && out@[b] == before[b - 1]);
                } else {
                    assert(out@[a] == before[a - 1] && out@[b] == before[b - 1]);
                }
            }
        }
        proof {
            lemma_insert_tracks(items@, i as int, before, p as int, out@);
        }
        i = i + 1;
    }
    assert(items@.take(items@.len() as int) =~= items@);
    proof {
        if distinct_devices(items@) {
            assert forall|a: int, b: int| 0 <= a < b < out@.len() implies bytes_lt(
                #[trigger] out@[a].device.bytes@,
                #[trigger] out@[b].device.bytes@,
            ) by {
                lemma_bytes_lt_total(out@[a].device.bytes@, out@[b].device.bytes@);
            }
        }
    }
    out
}

} // verus!
