//! Half-open sequence ranges `[start, end)` of one origin's operations, and
//! the range arithmetic that transfer checkpoints and the sync loop share.

use vstd::prelude::*;

verus! {

broadcast use vstd::seq_lib::group_to_multiset_ensures;

/// A half-open range `[start, end)` of operation sequence numbers.
#[derive(Clone, Copy, Debug, PartialEq, Eq, Structural, PartialOrd, Ord, Hash)]
pub struct SeqRange {
    pub start: u64,
    pub end: u64,
}

impl SeqRange {
    pub fn new(start: u64, end: u64) -> (r: SeqRange)
        ensures
            r.start == start,
            r.end == end,
    {
        SeqRange { start, end }
    }

    pub open spec fn contains(self, x: int) -> bool {
        self.start <= x < self.end
    }

    pub open spec fn nonempty(self) -> bool {
        self.start < self.end
    }
}

/// The range restricted to sequences at or above `floor`, if anything remains.
pub open spec fn clip_one(r: SeqRange, floor: u64) -> Option<SeqRange> {
    let s = if r.start >= floor { r.start } else { floor };
    if s < r.end {
        Some(SeqRange { start: s, end: r.end })
    } else {
        None
    }
}

/// Every range restricted to sequences at or above `floor`, in order, with
/// ranges that become empty dropped.
pub open spec fn clip_seq(rs: Seq<SeqRange>, floor: u64) -> Seq<SeqRange>
    decreases rs.len(),
{
    if rs.len() == 0 {
        Seq::empty()
    } else {
        let prev = clip_seq(rs.drop_last(), floor);
        match clip_one(rs.last(), floor) {
            Some(c) => prev.push(c),
            None => prev,
        }
    }
}

/// Whether some range of `rs` holds the sequence `x`.
pub open spec fn covers(rs: Seq<SeqRange>, x: int) -> bool {
    exists|k: int| 0 <= k < rs.len() && (#[trigger] rs[k]).contains(x)
}

/// Every range of `rs` is non-empty.
pub open spec fn all_nonempty(rs: Seq<SeqRange>) -> bool {
    forall|k: int| 0 <= k < rs.len() ==> (#[trigger] rs[k]).nonempty()
}

/// The total order on ranges: by start, then by end.
pub open spec fn range_le(a: SeqRange, b: SeqRange) -> bool {
    a.start < b.start || (a.start == b.start && a.end <= b.end)
}

/// `rs` is in ascending order.
pub open spec fn sorted_ranges(rs: Seq<SeqRange>) -> bool {
    forall|i: int, j: int| 0 <= i < j < rs.len() ==> range_le(#[trigger] rs[i], #[trigger] rs[j])
}

/// Restrict each range to sequences at or above `floor`, dropping ranges
/// that become empty and keeping the order of the rest.
pub fn clip_ranges(ranges: &[SeqRange], floor: u64) -> (out: Vec<SeqRange>)
    ensures
        out@ == clip_seq(ranges@, floor),
{
    let mut out: Vec<SeqRange> = Vec::new();
    let mut i: usize = 0;
    while i < ranges.len()
        invariant
            i <= ranges@.len(),
            out@ == clip_seq(ranges@.take(i as int), floor),
        decreases ranges@.len() - i,
    {
        let r = ranges[i];
        let start = if r.start >= floor {
            r.start
        } else {
            floor
        };
        if start < r.end {
            out.push(SeqRange::new(start, r.end));
        }
        assert(ranges@.take(i + 1).drop_last() =~= ranges@.take(i as int));
        i = i + 1;
    }
    assert(ranges@.take(ranges@.len() as int) =~= ranges@);
    out
}

/// Sort ranges ascending by start, then end.
pub fn sort_ranges(ranges: Vec<SeqRange>) -> (out: Vec<SeqRange>)
    ensures
        sorted_ranges(out@),
        out@.to_multiset() == ranges@.to_multiset(),
{
    let mut out: Vec<SeqRange> = Vec::new();
    let mut i: usize = 0;
    while i < ranges.len()
        invariant
            i <= ranges@.len(),
            sorted_ranges(out@),
            out@.to_multiset() == ranges@.take(i as int).to_multiset(),
        decreases ranges@.len() - i,
    {
        let x = ranges[i];
        let mut p: usize = 0;
        while p < out.len() && (out[p].start < x.start || (out[p].start == x.start && out[p].end
            <= x.end))
            invariant
                p <= out@.len(),
                forall|k: int| 0 <= k < p ==> range_le(#[trigger] out@[k], x),
            decreases out@.len() - p,
        {
            p = p + 1;
        }
        let ghost before = out@;
        out.insert(p, x);
        proof {
            assert(out@.remove(p as int) =~= before);
            assert(out@[p as int] == x);
            assert(out@.to_multiset().remove(x) == before.to_multiset());
            assert(out@.to_multiset().count(x) > 0);
            assert(out@.to_multiset() =~= before.to_multiset().insert(x));
            assert(ranges@.take(i + 1) =~= ranges@.take(i as int).push(x));
            assert forall|a: int, b: int| 0 <= a < b < out@.len() implies range_le(
                #[trigger] out@[a],
                #[trigger] out@[b],
            ) by {
                if b < p {
                    assert(out@[a] == before[a] && out@[b] == before[b]);
                } else if b == p {
                    assert(out@[a] == before[a]);
                } else if a == p {
                    assert(out@[b] == before[b - 1]);
                    if p < before.len() {
                        assert(!range_le(before[p as int], x));
                        assert(range_le(before[p as int], before[b - 1]) || b - 1 == p);
                    }
                } else if a < p {
                    assert(out@[a] == before[a] && out@[b] == before[b - 1]);
                } else {
                    assert(out@[a] == before[a - 1] && out@[b] == before[b - 1]);
                }
            }
        }
        i = i + 1;
    }
    assert(ranges@.take(ranges@.len() as int) =~= ranges@);
    out
}

/// A range that survives clipping holds exactly the clipped sequences.
proof fn lemma_clip_one_contains(r: SeqRange, floor: u64, x: int)
    ensures
        (clip_one(r, floor) matches Some(c) && c.contains(x)) <==> (r.contains(x) && x >= floor),
{
}

/// Clipping keeps exactly the sequences at or above the floor.
pub proof fn lemma_clip_covers(rs: Seq<SeqRange>, floor: u64, x: int)
    ensures
        covers(clip_seq(rs, floor), x) <==> (covers(rs, x) && x >= floor),
    decreases rs.len(),
{
    if rs.len() > 0 {
        let init = rs.drop_last();
        let prev = clip_seq(init, floor);
        lemma_clip_covers(init, floor, x);
        lemma_clip_one_contains(rs.last(), floor, x);
        let out = clip_seq(rs, floor);
        if covers(rs, x) && x >= floor {
            let k = choose|k: int| 0 <= k < rs.len() && (#[trigger] rs[k]).contains(x);
            if k < rs.len() - 1 {
                assert(init[k] == rs[k]);
                assert(covers(init, x));
                let j = choose|j: int| 0 <= j < prev.len() && (#[trigger] prev[j]).contains(x);
                assert(out[j] == prev[j]);
            } else {
                assert(out.last().contains(x));
                assert(out[out.len() - 1].contains(x));
            }
        }
        if covers(out, x) {
            let j = choose|j: int| 0 <= j < out.len() && (#[trigger] out[j]).contains(x);
            if j < prev.len() {
                assert(prev[j] == out[j]);
                assert(covers(prev, x));
                let k = choose|k: int| 0 <= k < init.len() && (#[trigger] init[k]).contains(x);
                assert(rs[k] == init[k]);
            } else {
                assert(rs[rs.len() - 1].contains(x));
            }
        }
    }
}

/// Clipping at `a` then at `b` is clipping once at the higher of the two.
pub proof fn lemma_clip_twice(rs: Seq<SeqRange>, a: u64, b: u64)
    ensures
        clip_seq(clip_seq(rs, a), b) == clip_seq(rs, if a >= b { a } else { b }),
    decreases rs.len(),
{
    let m = if a >= b { a } else { b };
    if rs.len() > 0 {
        let init = rs.drop_last();
        lemma_clip_twice(init, a, b);
        let pa = clip_seq(init, a);
        match clip_one(rs.last(), a) {
            Some(c) => {
                assert(pa.push(c).drop_last() =~= pa);
            },
            None => {},
        }
    }
}

/// Clipped ranges are non-empty and start at or above the floor.
pub proof fn lemma_clip_shape(rs: Seq<SeqRange>, floor: u64)
    ensures
        all_nonempty(clip_seq(rs, floor)),
        forall|k: int|
            0 <= k < clip_seq(rs, floor).len() ==> #[trigger] clip_seq(rs, floor)[k].start >= floor,
        clip_seq(rs, floor).len() <= rs.len(),
    decreases rs.len(),
{
    if rs.len() > 0 {
        lemma_clip_shape(rs.drop_last(), floor);
    }
}

/// Clipping ranges that are already non-empty and above the floor keeps them.
pub proof fn lemma_clip_identity(rs: Seq<SeqRange>, floor: u64)
    requires
        all_nonempty(rs),
        forall|k: int| 0 <= k < rs.len() ==> #[trigger] rs[k].start >= floor,
    ensures
        clip_seq(rs, floor) == rs,
    decreases rs.len(),
{
    if rs.len() > 0 {
        lemma_clip_identity(rs.drop_last(), floor);
        assert(rs.drop_last().push(rs.last()) =~= rs);
    }
}

/// What is left of range `r` once the sequences `[lo, hi)` are removed: the
/// range itself when they do not meet it; otherwise the part below `lo` and
/// the part from `hi` on, each only when non-empty, in that order.
pub open spec fn cut_one(r: SeqRange, lo: u64, hi: u64) -> Seq<SeqRange> {
    if !r.nonempty() {
        Seq::empty()
    } else if hi <= lo || r.end <= lo || hi <= r.start {
        seq![r]
    } else {
        (if r.start < lo {
            seq![SeqRange { start: r.start, end: lo }]
        } else {
            Seq::<SeqRange>::empty()
        }) + (if hi < r.end {
            seq![SeqRange { start: hi, end: r.end }]
        } else {
            Seq::<SeqRange>::empty()
        })
    }
}

/// Every range with the sequences `[lo, hi)` removed, in order.
pub open spec fn cut_seq(rs: Seq<SeqRange>, lo: u64, hi: u64) -> Seq<SeqRange>
    decreases rs.len(),
{
    if rs.len() == 0 {
        Seq::empty()
    } else {
        cut_seq(rs.drop_last(), lo, hi) + cut_one(rs.last(), lo, hi)
    }
}

/// A sequence is covered by two lists of ranges put together exactly when
/// one of them covers it.
pub proof fn lemma_covers_concat(a: Seq<SeqRange>, b: Seq<SeqRange>, x: int)
    ensures
        covers(a + b, x) <==> (covers(a, x) || covers(b, x)),
{
    let ab = a + b;
    if covers(ab, x) {
        let k = choose|k: int| 0 <= k < ab.len() && (#[trigger] ab[k]).contains(x);
        if k < a.len() {
            assert(a[k] == ab[k]);
        } else {
            assert(b[k - a.len()] == ab[k]);
        }
    }
    if covers(a, x) {
        let k = choose|k: int| 0 <= k < a.len() && (#[trigger] a[k]).contains(x);
        assert(ab[k] == a[k]);
    }
    if covers(b, x) {
        let k = choose|k: int| 0 <= k < b.len() && (#[trigger] b[k]).contains(x);
        assert(ab[k + a.len()] == b[k]);
    }
}

/// What is left of one range holds exactly its sequences outside `[lo, hi)`,
/// in non-empty ranges.
proof fn lemma_cut_one(r: SeqRange, lo: u64, hi: u64, x: int)
    ensures
        covers(cut_one(r, lo, hi), x) <==> (r.contains(x) && !(lo <= x < hi)),
        all_nonempty(cut_one(r, lo, hi)),
        cut_one(r, lo, hi).len() <= 2,
{
    let c = cut_one(r, lo, hi);
    if r.nonempty() && !(hi <= lo || r.end <= lo || hi <= r.start) {
        let a = if r.start < lo {
            seq![SeqRange { start: r.start, end: lo }]
        } else {
            Seq::<SeqRange>::empty()
        };
        let b = if hi < r.end {
            seq![SeqRange { start: hi, end: r.end }]
        } else {
            Seq::<SeqRange>::empty()
        };
        lemma_covers_concat(a, b, x);
        if r.start < lo {
            assert(a[0].contains(x) <==> (r.start <= x < lo));
            assert(covers(a, x) <==> a[0].contains(x));
        }
        if hi < r.end {
            assert(covers(b, x) <==> b[0].contains(x));
        }
        assert forall|k: int| 0 <= k < c.len() implies (#[trigger] c[k]).nonempty() by {
            if k < a.len() {
                assert(c[k] == a[k]);
            } else {
                assert(c[k] == b[k - a.len()]);
            }
        }
    } else if r.nonempty() {
        assert(covers(c, x) <==> c[0].contains(x));
    }
}

/// Removing `[lo, hi)` keeps exactly the covered sequences outside it, in
/// non-empty ranges, at most one more range than there was.
pub proof fn lemma_cut_covers(rs: Seq<SeqRange>, lo: u64, hi: u64, x: int)
    ensures
        covers(cut_seq(rs, lo, hi), x) <==> (covers(rs, x) && !(lo <= x < hi)),
        all_nonempty(cut_seq(rs, lo, hi)),
        cut_seq(rs, lo, hi).len() <= 2 * rs.len(),
    decreases rs.len(),
{
    if rs.len() > 0 {
        let init = rs.drop_last();
        lemma_cut_covers(init, lo, hi, x);
        lemma_cut_one(rs.last(), lo, hi, x);
        let prev = cut_seq(init, lo, hi);
        let last = cut_one(rs.last(), lo, hi);
        lemma_covers_concat(prev, last, x);
        assert(rs =~= init.push(rs.last()));
        lemma_covers_concat(init, seq![rs.last()], x);
        assert(init + seq![rs.last()] =~= rs);
        assert(covers(seq![rs.last()], x) <==> rs.last().contains(x)) by {
            if rs.last().contains(x) {
                assert(seq![rs.last()][0] == rs.last());
            }
        }
        let out = prev + last;
        assert forall|k: int| 0 <= k < out.len() implies (#[trigger] out[k]).nonempty() by {
            if k < prev.len() {
                assert(out[k] == prev[k]);
            } else {
                assert(out[k] == last[k - prev.len()]);
            }
        }
    }
}

} // verus!
