//! Device identities and their total order.

use vstd::prelude::*;

verus! {

/// Strict lexicographic order on two byte strings of the same length.
pub open spec fn bytes_lt(a: Seq<u8>, b: Seq<u8>) -> bool {
    exists|k: int|
        0 <= k < a.len() && k < b.len() && a[k] < b[k] && (forall|j: int|
            0 <= j < k ==> #[trigger] a[j] == b[j])
}

/// A device's 32-byte identity.
#[derive(Clone, Copy, Debug, PartialEq, Eq, Hash, PartialOrd, Ord)]
pub struct DeviceId {
    pub bytes: [u8; 32],
}

impl DeviceId {
    pub open spec fn key(self) -> Seq<u8> {
        self.bytes@
    }

    pub fn from_bytes(bytes: [u8; 32]) -> (id: DeviceId)
        ensures
            id.bytes == bytes,
    {
        DeviceId { bytes }
    }
}

/// An entity's identity (a task, list, tag or subtask): the 128 bits of a UUID.
#[derive(Clone, Copy, Debug, PartialEq, Eq, Structural, Hash, PartialOrd, Ord)]
pub struct EntityId {
    pub bits: u128,
}

/// Whether two byte arrays hold the same bytes.
pub fn bytes_eq(a: &[u8; 32], b: &[u8; 32]) -> (r: bool)
    ensures
        r == (a@ == b@),
{
    let mut i: usize = 0;
    while i < 32
        invariant
            i <= 32,
            a@.len() == 32,
            b@.len() == 32,
            forall|j: int| 0 <= j < i ==> a@[j] == b@[j],
        decreases 32 - i,
    {
        if a[i] != b[i] {
            return false;
        }
        i = i + 1;
    }
    assert(a@ =~= b@);
    true
}

/// Whether `a` precedes `b` in lexicographic byte order.
pub fn bytes_less(a: &[u8; 32], b: &[u8; 32]) -> (r: bool)
    ensures
        r == bytes_lt(a@, b@),
{
    let mut i: usize = 0;
    while i < 32
        invariant
            i <= 32,
            a@.len() == 32,
            b@.len() == 32,
            forall|j: int| 0 <= j < i ==> a@[j] == b@[j],
        decreases 32 - i,
    {
        if a[i] != b[i] {
            let r = a[i] < b[i];
            proof {
                if bytes_lt(a@, b@) {
                    let k = choose|k: int|
                        0 <= k < a@.len() && k < b@.len() && a@[k] < b@[k] && (forall|j: int|
                            0 <= j < k ==> #[trigger] a@[j] == b@[j]);
                    if k < i {
                        assert(a@[k] == b@[k]);
                    } else if k > i {
                        assert(a@[i as int] == b@[i as int]);
                    }
                }
                if r {
                    assert(forall|j: int| 0 <= j < i ==> #[trigger] a@[j] == b@[j]);
                }
            }
            return r;
        }
        i = i + 1;
    }
    proof {
        if bytes_lt(a@, b@) {
            let k = choose|k: int|
                0 <= k < a@.len() && k < b@.len() && a@[k] < b@[k] && (forall|j: int|
                    0 <= j < k ==> #[trigger] a@[j] == b@[j]);
            assert(a@[k] == b@[k]);
        }
    }
    false
}

/// Preferred-dialer rule: of two peers, the one with the lexicographically
/// lower device id dials.
pub fn preferred_dialer(a: &[u8; 32], b: &[u8; 32]) -> (r: bool)
    ensures
        r == bytes_lt(a@, b@),
{
    bytes_less(a, b)
}

/// No byte string precedes itself.
pub proof fn lemma_bytes_lt_irreflexive(a: Seq<u8>)
    ensures
        !bytes_lt(a, a),
{
}

/// The lexicographic order is transitive.
pub proof fn lemma_bytes_lt_transitive(a: Seq<u8>, b: Seq<u8>, c: Seq<u8>)
    requires
        a.len() == b.len(),
        b.len() == c.len(),
        bytes_lt(a, b),
        bytes_lt(b, c),
    ensures
        bytes_lt(a, c),
{
    let k1 = choose|k: int|
        0 <= k < a.len() && k < b.len() && a[k] < b[k] && (forall|j: int|
            0 <= j < k ==> #[trigger] a[j] == b[j]);
    let k2 = choose|k: int|
        0 <= k < b.len() && k < c.len() && b[k] < c[k] && (forall|j: int|
            0 <= j < k ==> #[trigger] b[j] == c[j]);
    let k = if k1 <= k2 { k1 } else { k2 };
    assert forall|j: int| 0 <= j < k implies #[trigger] a[j] == c[j] by {
        assert(a[j] == b[j]);
        assert(b[j] == c[j]);
    }
    assert(a[k] < c[k]);
}

/// Of two distinct byte strings of one length, one precedes the other.
pub proof fn lemma_bytes_lt_total(a: Seq<u8>, b: Seq<u8>)
    requires
        a.len() == b.len(),
    ensures
        bytes_lt(a, b) || bytes_lt(b, a) || a == b,
{
    if a != b {
        assert(!(a =~= b));
        let d = choose|i: int| 0 <= i < a.len() && a[i] != b[i];
        let k = first_difference(a, b, d);
        if a[k] < b[k] {
            assert(bytes_lt(a, b));
        } else {
            assert(forall|j: int| 0 <= j < k ==> #[trigger] b[j] == a[j]);
            assert(bytes_lt(b, a));
        }
    }
}

/// Of two distinct peers exactly one is the preferred dialer, and a peer
/// never dials itself.
pub proof fn lemma_exactly_one_dials(a: Seq<u8>, b: Seq<u8>)
    requires
        a.len() == 32,
        b.len() == 32,
    ensures
        a != b ==> (bytes_lt(a, b) != bytes_lt(b, a)),
        a == b ==> !bytes_lt(a, b),
{
    lemma_bytes_lt_total(a, b);
    if bytes_lt(a, b) && bytes_lt(b, a) {
        lemma_bytes_lt_transitive(a, b, a);
    }
}

/// The first index at which two byte strings differ, given that they differ at `d`.
proof fn first_difference(a: Seq<u8>, b: Seq<u8>, d: int) -> (k: int)
    requires
        a.len() == b.len(),
        0 <= d < a.len(),
        a[d] != b[d],
    ensures
        0 <= k <= d,
        a[k] != b[k],
        forall|j: int| 0 <= j < k ==> #[trigger] a[j] == b[j],
    decreases d,
{
    if exists|j: int| 0 <= j < d && a[j] != b[j] {
        let j = choose|j: int| 0 <= j < d && a[j] != b[j];
        first_difference(a, b, j)
    } else {
        d
    }
}

} // verus!
