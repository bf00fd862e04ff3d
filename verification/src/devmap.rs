//! A finite map keyed by device id, kept in ascending key order so that it
//! serves wherever a map keyed by device is needed, hashed or ordered.

use vstd::prelude::*;
use crate::ids::{
    DeviceId, bytes_eq, bytes_less, bytes_lt, lemma_bytes_lt_irreflexive,
    lemma_bytes_lt_total, lemma_bytes_lt_transitive,
};

verus! {

/// Keys of `s` strictly ascend.
pub open spec fn keys_sorted<V>(s: Seq<(DeviceId, V)>) -> bool {
    forall|i: int, j: int|
        0 <= i < j < s.len() ==> bytes_lt(#[trigger] s[i].0.bytes@, #[trigger] s[j].0.bytes@)
}

/// Some pair of `s` has key `k`.
pub open spec fn has_key<V>(s: Seq<(DeviceId, V)>, k: Seq<u8>) -> bool {
    exists|i: int| 0 <= i < s.len() && #[trigger] s[i].0.bytes@ == k
}

/// The map that a sequence of pairs with distinct keys denotes.
pub open spec fn pairs_to_map<V>(s: Seq<(DeviceId, V)>) -> Map<Seq<u8>, V> {
    Map::new(
        |k: Seq<u8>| has_key(s, k),
        |k: Seq<u8>| s[choose|i: int| 0 <= i < s.len() && #[trigger] s[i].0.bytes@ == k].1,
    )
}

/// In a key-sorted sequence, the pair at `i` is what the map holds for its key.
pub proof fn lemma_lookup<V>(s: Seq<(DeviceId, V)>, i: int)
    requires
        keys_sorted(s),
        0 <= i < s.len(),
    ensures
        pairs_to_map(s).contains_key(s[i].0.bytes@),
        pairs_to_map(s)[s[i].0.bytes@] == s[i].1,
{
    let k = s[i].0.bytes@;
    assert(has_key(s, k));
    let j = choose|j: int| 0 <= j < s.len() && #[trigger] s[j].0.bytes@ == k;
    if j != i {
        lemma_bytes_lt_irreflexive(k);
        if j < i {
            assert(bytes_lt(s[j].0.bytes@, s[i].0.bytes@));
        } else {
            assert(bytes_lt(s[i].0.bytes@, s[j].0.bytes@));
        }
    }
}

/// The map of a key-sorted sequence has one key per pair.
pub proof fn lemma_dom_len<V>(s: Seq<(DeviceId, V)>)
    requires
        keys_sorted(s),
    ensures
        pairs_to_map(s).dom().finite(),
        pairs_to_map(s).dom().len() == s.len(),
    decreases s.len(),
{
    if s.len() == 0 {
        assert(pairs_to_map(s).dom() =~= Set::<Seq<u8>>::empty());
    } else {
        let init = s.drop_last();
        lemma_dom_len(init);
        let k = s.last().0.bytes@;
        assert(!pairs_to_map(init).dom().contains(k)) by {
            if has_key(init, k) {
                let i = choose|i: int| 0 <= i < init.len() && #[trigger] init[i].0.bytes@ == k;
                assert(bytes_lt(s[i].0.bytes@, s[s.len() - 1].0.bytes@));
                lemma_bytes_lt_irreflexive(k);
            }
        }
        assert forall|q: Seq<u8>| pairs_to_map(s).dom().contains(q) <==> pairs_to_map(init).dom().insert(k).contains(q) by {
            if has_key(s, q) && q != k {
                let i = choose|i: int| 0 <= i < s.len() && #[trigger] s[i].0.bytes@ == q;
                assert(init[i].0.bytes@ == q);
            }
            if has_key(init, q) {
                let i = choose|i: int| 0 <= i < init.len() && #[trigger] init[i].0.bytes@ == q;
                assert(s[i].0.bytes@ == q);
            }
            if q == k {
                assert(s[s.len() - 1].0.bytes@ == q);
            }
        }
        assert(pairs_to_map(s).dom() =~= pairs_to_map(init).dom().insert(k));
    }
}

/// A device-keyed map held as pairs in ascending key order.
pub struct DeviceMap<V> {
    entries: Vec<(DeviceId, V)>,
}

impl<V> DeviceMap<V> {
    #[verifier::type_invariant]
    spec fn inv(self) -> bool {
        keys_sorted(self.entries@)
    }

    /// The pairs in ascending key order.
    pub closed spec fn pairs(&self) -> Seq<(DeviceId, V)> {
        self.entries@
    }

    pub open spec fn wf(&self) -> bool {
        keys_sorted(self.pairs())
    }

    /// The map the pairs denote.
    pub open spec fn map(&self) -> Map<Seq<u8>, V> {
        pairs_to_map(self.pairs())
    }

    pub fn new() -> (m: DeviceMap<V>)
        ensures
            m.wf(),
            m.pairs() == Seq::<(DeviceId, V)>::empty(),
            m.map() == Map::<Seq<u8>, V>::empty(),
    {
        let m = DeviceMap { entries: Vec::new() };
        assert(m.map() =~= Map::<Seq<u8>, V>::empty());
        m
    }

    /// The number of pairs; the pairs are in strictly ascending key order.
    pub fn len(&self) -> (n: usize)
        ensures
            n == self.pairs().len(),
            self.wf(),
    {
        proof {
            use_type_invariant(self);
        }
        self.entries.len()
    }

    /// The pair at position `i` in key order.
    pub fn pair_at(&self, i: usize) -> (r: &(DeviceId, V))
        requires
            i < self.pairs().len(),
        ensures
            *r == self.pairs()[i as int],
    {
        &self.entries[i]
    }

    /// The first position whose key does not precede `k`.
    fn position(&self, k: &DeviceId) -> (p: usize)
        ensures
            p <= self.pairs().len(),
            forall|i: int| 0 <= i < p ==> bytes_lt(#[trigger] self.pairs()[i].0.bytes@, k.bytes@),
            p < self.pairs().len() ==> !bytes_lt(self.pairs()[p as int].0.bytes@, k.bytes@),
    {
        let mut p: usize = 0;
        while p < self.entries.len() && bytes_less(&self.entries[p].0.bytes, &k.bytes)
            invariant
                p <= self.entries@.len(),
                forall|i: int|
                    0 <= i < p ==> bytes_lt(#[trigger] self.entries@[i].0.bytes@, k.bytes@),
            decreases self.entries@.len() - p,
        {
            p = p + 1;
        }
        p
    }

    /// Whether position `p` (from `position`) holds key `k`; if not, `k` is absent.
    fn found_at(&self, k: &DeviceId, p: usize) -> (found: bool)
        requires
            self.wf(),
            p <= self.pairs().len(),
            forall|i: int| 0 <= i < p ==> bytes_lt(#[trigger] self.pairs()[i].0.bytes@, k.bytes@),
            p < self.pairs().len() ==> !bytes_lt(self.pairs()[p as int].0.bytes@, k.bytes@),
        ensures
            found ==> p < self.pairs().len() && self.pairs()[p as int].0.bytes@ == k.bytes@,
            !found ==> !has_key(self.pairs(), k.bytes@),
            !found ==> forall|i: int|
                p <= i < self.pairs().len() ==> bytes_lt(
                    k.bytes@,
                    #[trigger] self.pairs()[i].0.bytes@,
                ),
    {
        let found = p < self.entries.len() && bytes_eq(&self.entries[p].0.bytes, &k.bytes);
        proof {
            let s = self.entries@;
            if !found {
                if p < s.len() {
                    lemma_bytes_lt_total(s[p as int].0.bytes@, k.bytes@);
                }
                assert forall|i: int| p <= i < s.len() implies bytes_lt(
                    k.bytes@,
                    #[trigger] s[i].0.bytes@,
                ) by {
                    if i > p {
                        lemma_bytes_lt_transitive(k.bytes@, s[p as int].0.bytes@, s[i].0.bytes@);
                    }
                }
                if has_key(s, k.bytes@) {
                    let i = choose|i: int| 0 <= i < s.len() && #[trigger] s[i].0.bytes@ == k.bytes@;
                    lemma_bytes_lt_irreflexive(k.bytes@);
                    if i < p {
                        assert(bytes_lt(s[i].0.bytes@, k.bytes@));
                    } else {
                        assert(bytes_lt(k.bytes@, s[i].0.bytes@));
                    }
                }
            }
        }
        found
    }

    /// The value held for `k`, if any.
    pub fn get(&self, k: &DeviceId) -> (r: Option<&V>)
        ensures
            r is None <==> !self.map().contains_key(k.bytes@),
            r matches Some(v) ==> *v == self.map()[k.bytes@],
    {
        proof {
            use_type_invariant(self);
        }
        let p = self.position(k);
        if self.found_at(k, p) {
            proof {
                lemma_lookup(self.entries@, p as int);
            }
            Some(&self.entries[p].1)
        } else {
            None
        }
    }

    /// Whether `k` has a value.
    pub fn contains_key(&self, k: &DeviceId) -> (r: bool)
        ensures
            r == self.map().contains_key(k.bytes@),
    {
        proof {
            use_type_invariant(self);
        }
        let p = self.position(k);
        let found = self.found_at(k, p);
        proof {
            if found {
                lemma_lookup(self.entries@, p as int);
            }
        }
        found
    }

    /// Map `k` to `v`, replacing any earlier value.
    pub fn insert(&mut self, k: DeviceId, v: V)
        ensures
            final(self).map() == old(self).map().insert(k.bytes@, v),
    {
        proof {
            use_type_invariant(&*self);
        }
        let p = self.position(&k);
        let found = self.found_at(&k, p);
        let ghost s = self.entries@;
        let ghost kk = k.bytes@;
        let mut entries = Vec::new();
        std::mem::swap(&mut entries, &mut self.entries);
        if found {
            entries.set(p, (k, v));
        } else {
            entries.insert(p, (k, v));
        }
        proof {
            let t = entries@;
            assert forall|i: int, j: int| 0 <= i < j < t.len() implies bytes_lt(
                #[trigger] t[i].0.bytes@,
                #[trigger] t[j].0.bytes@,
            ) by {
                if found {
                    assert(t[i].0.bytes@ == s[i].0.bytes@);
                    assert(t[j].0.bytes@ == s[j].0.bytes@);
                } else if j < p {
                    assert(t[i] == s[i] && t[j] == s[j]);
                } else if j == p {
                    assert(t[i] == s[i]);
                } else if i == p {
                    assert(t[j] == s[j - 1]);
                } else if i < p {
                    assert(t[i] == s[i] && t[j] == s[j - 1]);
                } else {
                    assert(t[i] == s[i - 1] && t[j] == s[j - 1]);
                }
            }
            let before = pairs_to_map(s);
            let after = pairs_to_map(t);
            let want = before.insert(kk, v);
            assert forall|q: Seq<u8>| after.contains_key(q) <==> want.contains_key(q) by {
                if after.contains_key(q) && q != kk {
                    let i = choose|i: int| 0 <= i < t.len() && #[trigger] t[i].0.bytes@ == q;
                    if found {
                        assert(s[i].0.bytes@ == q);
                    } else if i < p {
                        assert(s[i].0.bytes@ == q);
                    } else {
                        assert(i != p);
                        assert(s[i - 1].0.bytes@ == q);
                    }
                }
                if want.contains_key(q) {
                    if q == kk {
                        assert(t[p as int].0.bytes@ == q);
                    } else {
                        let i = choose|i: int| 0 <= i < s.len() && #[trigger] s[i].0.bytes@ == q;
                        if found {
                            assert(t[i].0.bytes@ == q);
                        } else if i < p {
                            assert(t[i].0.bytes@ == q);
                        } else {
                            assert(t[i + 1].0.bytes@ == q);
                        }
                    }
                }
            }
            assert forall|q: Seq<u8>| after.contains_key(q) implies after[q] == want[q] by {
                if q == kk {
                    lemma_lookup(t, p as int);
                } else {
                    let i = choose|i: int| 0 <= i < t.len() && #[trigger] t[i].0.bytes@ == q;
                    lemma_lookup(t, i);
                    if found || i < p {
                        lemma_lookup(s, i);
                    } else {
                        assert(i != p);
                        lemma_lookup(s, i - 1);
                    }
                }
            }
            assert(after =~= want);
        }
        self.entries = entries;
    }

    /// Remove the value held for `k`, returning it.
    pub fn remove(&mut self, k: &DeviceId) -> (r: Option<V>)
        ensures
            final(self).map() == old(self).map().remove(k.bytes@),
            r is None <==> !old(self).map().contains_key(k.bytes@),
            r matches Some(v) ==> v == old(self).map()[k.bytes@],
    {
        proof {
            use_type_invariant(&*self);
        }
        let p = self.position(k);
        if self.found_at(k, p) {
            let ghost s = self.entries@;
            let ghost kk = k.bytes@;
            proof {
                lemma_lookup(s, p as int);
            }
            let mut entries = Vec::new();
            std::mem::swap(&mut entries, &mut self.entries);
            let (_, v) = entries.remove(p);
            proof {
                let t = entries@;
                assert forall|i: int, j: int| 0 <= i < j < t.len() implies bytes_lt(
                    #[trigger] t[i].0.bytes@,
                    #[trigger] t[j].0.bytes@,
                ) by {
                    if j < p {
                        assert(t[i] == s[i] && t[j] == s[j]);
                    } else if i < p {
                        assert(t[i] == s[i] && t[j] == s[j + 1]);
                    } else {
                        assert(t[i] == s[i + 1] && t[j] == s[j + 1]);
                    }
                }
                let before = pairs_to_map(s);
                let after = pairs_to_map(t);
                let want = before.remove(kk);
                assert forall|q: Seq<u8>| after.contains_key(q) <==> want.contains_key(q) by {
                    if after.contains_key(q) {
                        let i = choose|i: int| 0 <= i < t.len() && #[trigger] t[i].0.bytes@ == q;
                        if i < p {
                            assert(s[i].0.bytes@ == q);
                            assert(bytes_lt(s[i].0.bytes@, s[p as int].0.bytes@));
                        } else {
                            assert(s[i + 1].0.bytes@ == q);
                            assert(bytes_lt(s[p as int].0.bytes@, s[i + 1].0.bytes@));
                        }
                        lemma_bytes_lt_irreflexive(kk);
                    }
                    if want.contains_key(q) {
                        let i = choose|i: int| 0 <= i < s.len() && #[trigger] s[i].0.bytes@ == q;
                        assert(i != p);
                        if i < p {
                            assert(t[i].0.bytes@ == q);
                        } else {
                            assert(t[i - 1].0.bytes@ == q);
                        }
                    }
                }
                assert forall|q: Seq<u8>| after.contains_key(q) implies after[q] == want[q] by {
                    let i = choose|i: int| 0 <= i < t.len() && #[trigger] t[i].0.bytes@ == q;
                    lemma_lookup(t, i);
                    if i < p {
                        lemma_lookup(s, i);
                    } else {
                        lemma_lookup(s, i + 1);
                    }
                }
                assert(after =~= want);
            }
            self.entries = entries;
            Some(v)
        } else {
            proof {
                assert(self.map() =~= self.map().remove(k.bytes@));
            }
            None
        }
    }
}

} // verus!
