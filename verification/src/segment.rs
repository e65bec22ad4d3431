//! Byte-range segments of a download and the two ways of splitting a file
//! into them: a fixed number of connections, or a fixed chunk size.

use vstd::prelude::*;
use vstd::arithmetic::mul::{lemma_mul_inequality, lemma_mul_is_distributive_add_other_way};
use vstd::arithmetic::div_mod::lemma_fundamental_div_mod;

verus! {

/// One inclusive byte range `start..=end` of the output file, with the number
/// of bytes of it that are already on disk.
#[derive(Clone, Copy, Debug, PartialEq, Eq)]
pub struct Segment {
    pub id: usize,
    pub start: u64,
    pub end: u64,
    pub downloaded: u64,
}

/// Where a transfer of `s` has to resume, if anything is left of it.
pub open spec fn spec_remaining_start(s: Segment) -> Option<u64> {
    if s.start + s.downloaded > s.end {
        None
    } else {
        Some((s.start + s.downloaded) as u64)
    }
}

impl Segment {
    /// The offset at which the rest of this segment starts, or `None` once
    /// every byte of it has been written.
    pub fn remaining_start(&self) -> (r: Option<u64>)
        requires
            self.start + self.downloaded <= u64::MAX,
        ensures
            r == spec_remaining_start(*self),
    {
        let start = self.start + self.downloaded;
        if start > self.end {
            return None;
        }
        Some(start)
    }
}

/// The number of byte ranges that `build_segments` splits `total` bytes into.
pub open spec fn segment_count(total: nat, connections: nat) -> nat {
    if total == 0 {
        0
    } else {
        let c = if connections == 0 { 1 } else { connections };
        if c <= total { c } else { total }
    }
}

/// `segs` lays bytes `0..total` out in order: each range is non-empty, each
/// one starts right after the previous one ends, the first starts at 0, the
/// last ends at `total - 1`, ids are positions and nothing is downloaded yet.
pub open spec fn is_fresh_tiling(segs: Seq<Segment>, total: nat) -> bool {
    &&& (segs.len() == 0 <==> total == 0)
    &&& segs.len() > 0 ==> segs[0].start == 0 && segs.last().end == total - 1
    &&& forall|i: int|
        0 <= i < segs.len() ==> {
            &&& (#[trigger] segs[i]).id == i
            &&& segs[i].start <= segs[i].end
            &&& segs[i].downloaded == 0
        }
    &&& forall|i: int| 0 <= i < segs.len() - 1 ==> (#[trigger] segs[i + 1]).start == segs[i].end + 1
}

/// Total number of bytes that the ranges of `segs` span.
pub open spec fn span_sum(segs: Seq<Segment>) -> int
    decreases segs.len(),
{
    if segs.len() == 0 {
        0
    } else {
        span_sum(segs.drop_last()) + (segs.last().end - segs.last().start + 1)
    }
}

/// Bytes of `segs` that are already on disk.
pub open spec fn downloaded_sum(segs: Seq<Segment>) -> int
    decreases segs.len(),
{
    if segs.len() == 0 {
        0
    } else {
        downloaded_sum(segs.drop_last()) + segs.last().downloaded
    }
}

proof fn lemma_tiling_prefix_sum(segs: Seq<Segment>, k: int)
    requires
        0 < k <= segs.len(),
        segs[0].start == 0,
        forall|i: int| 0 <= i < segs.len() ==> (#[trigger] segs[i]).start <= segs[i].end,
        forall|i: int| 0 <= i < segs.len() - 1 ==> (#[trigger] segs[i + 1]).start == segs[i].end + 1,
    ensures
        span_sum(segs.take(k)) == segs[k - 1].end + 1,
    decreases k,
{
    let p = segs.take(k);
    assert(p.drop_last() =~= segs.take(k - 1));
    assert(p.last() == segs[k - 1]);
    assert(span_sum(p) == span_sum(segs.take(k - 1)) + (segs[k - 1].end - segs[k - 1].start + 1));
    if k > 1 {
        lemma_tiling_prefix_sum(segs, k - 1);
        let j = k - 2;
        assert(segs[j + 1].start == segs[j].end + 1);
    } else {
        assert(segs.take(0) =~= Seq::<Segment>::empty());
    }
}

/// Law: a fresh tiling of `total` bytes spans exactly `total` bytes, so the
/// ranges handed to the workers neither overlap nor leave a gap.
pub proof fn lemma_fresh_tiling_spans_total(segs: Seq<Segment>, total: nat)
    requires
        is_fresh_tiling(segs, total),
    ensures
        span_sum(segs) == total,
        downloaded_sum(segs) == 0,
{
    if segs.len() > 0 {
        lemma_tiling_prefix_sum(segs, segs.len() as int);
        assert(segs.take(segs.len() as int) =~= segs);
    }
    lemma_fresh_has_nothing_downloaded(segs, total);
}

proof fn lemma_fresh_has_nothing_downloaded(segs: Seq<Segment>, total: nat)
    requires
        forall|i: int| 0 <= i < segs.len() ==> (#[trigger] segs[i]).downloaded == 0,
    ensures
        downloaded_sum(segs) == 0,
    decreases segs.len(),
{
    if segs.len() > 0 {
        let p = segs.drop_last();
        assert forall|i: int| 0 <= i < p.len() implies (#[trigger] p[i]).downloaded == 0 by {
            assert(p[i] == segs[i]);
        }
        lemma_fresh_has_nothing_downloaded(p, total);
    }
}

/// `segs` is the even split of `total` bytes over `connections` parts that
/// `build_segments` makes: `segment_count` parts tiling the file, each
/// starting at a multiple of `total / parts` (the last one takes the remainder).
pub open spec fn even_split(segs: Seq<Segment>, total: nat, connections: nat) -> bool {
    &&& segs.len() == segment_count(total, connections)
    &&& is_fresh_tiling(segs, total)
    &&& forall|i: int| 0 <= i < segs.len() ==> (#[trigger] segs[i]).start == i * (total as int / segs.len() as int)
}

/// `segs` is the split of `total` bytes into chunks of `chunk_size` bytes (0
/// counting as 1) that `build_segments_with_chunk_size` makes.
pub open spec fn chunked_split(segs: Seq<Segment>, total: nat, chunk_size: nat) -> bool {
    &&& segs.len() == chunk_count(total, chunk_size)
    &&& is_fresh_tiling(segs, total)
    &&& forall|i: int| 0 <= i < segs.len() ==> (#[trigger] segs[i]).start == i * effective_chunk(chunk_size)
}

/// Splits `total` bytes into `connections` nearly equal ranges (at least one,
/// at most one per byte); the last range takes the remainder.
pub fn build_segments(total: u64, connections: usize) -> (segs: Vec<Segment>)
    ensures
        segs@.len() == segment_count(total as nat, connections as nat),
        is_fresh_tiling(segs@, total as nat),
        forall|i: int|
            0 <= i < segs@.len() ==> {
                let base = total as int / segs@.len() as int;
                &&& (#[trigger] segs@[i]).start == i * base
                &&& (i < segs@.len() - 1 ==> segs@[i].end == (i + 1) * base - 1)
            },
        even_split(segs@, total as nat, connections as nat),
{
    let mut segments: Vec<Segment> = Vec::new();
    if total == 0 {
        return segments;
    }
    let wanted: usize = if connections == 0 { 1 } else { connections };
    let n: usize = if (wanted as u64) <= total { wanted } else { total as usize };
    assert(n == segment_count(total as nat, connections as nat));
    let base = total / n as u64;
    proof {
        lemma_fundamental_div_mod(total as int, n as int);
        if base == 0 {
            assert(total as int == n * 0 + total as int % n as int);
        }
        assert(n * base <= total) by {
            vstd::arithmetic::div_mod::lemma_mul_hoist_inequality(n as int, total as int, n as int);
            vstd::arithmetic::div_mod::lemma_remainder_lower(total as int, n as int);
        }
    }
    let mut start: u64 = 0;
    let mut id: usize = 0;
    while id < n
        invariant
            0 < n,
            1 <= base,
            base == total as int / n as int,
            n * base <= total,
            id <= n,
            segments@.len() == id,
            id < n ==> start == id * base,
            id > 0 ==> segments@[id - 1].end + 1 == start,
            forall|i: int|
                0 <= i < id ==> {
                    &&& (#[trigger] segments@[i]).id == i
                    &&& segments@[i].start == i * base
                    &&& segments@[i].downloaded == 0
                    &&& segments@[i].start <= segments@[i].end
                    &&& (i < n - 1 ==> segments@[i].end == (i + 1) * base - 1)
                    &&& (i == n - 1 ==> segments@[i].end == total - 1)
                },
            forall|i: int| 0 <= i < id - 1 ==> (#[trigger] segments@[i + 1]).start == segments@[i].end + 1,
        decreases n - id,
    {
        proof {
            lemma_mul_is_distributive_add_other_way(base as int, id as int, 1);
            lemma_mul_inequality(id as int + 1, n as int, base as int);
        }
        let mut end = start + base;
        if id == n - 1 {
            end = total - 1;
        } else {
            end -= 1;
        }
        segments.push(Segment { id, start, end, downloaded: 0 });
        start = end + 1;
        id += 1;
    }
    segments
}

/// The number of chunks of `chunk_size` bytes (at least 1) that cover `total` bytes.
pub open spec fn chunk_count(total: nat, chunk_size: nat) -> nat {
    let c = if chunk_size == 0 { 1 } else { chunk_size };
    ((total + c - 1) / c as int) as nat
}

/// The chunk size that `build_segments_with_chunk_size` uses for a request of `chunk_size`.
pub open spec fn effective_chunk(chunk_size: nat) -> nat {
    if chunk_size == 0 { 1 } else { chunk_size }
}

/// Whether `build_segments_with_chunk_size(total, chunk_size)` can lay out its
/// chunks: their combined span and their number fit the machine's integers.
pub fn chunked_layout_fits(total: u64, chunk_size: u64) -> (b: bool)
    ensures
        b == (chunk_count(total as nat, chunk_size as nat) * effective_chunk(chunk_size as nat) <= u64::MAX
            && chunk_count(total as nat, chunk_size as nat) <= usize::MAX),
{
    let chunk: u128 = if chunk_size == 0 { 1 } else { chunk_size as u128 };
    let count: u128 = (total as u128 + chunk - 1) / chunk;
    proof {
        lemma_fundamental_div_mod(total + chunk - 1, chunk as int);
        vstd::arithmetic::div_mod::lemma_mod_pos_bound(total + chunk - 1, chunk as int);
        vstd::arithmetic::mul::lemma_mul_is_commutative(chunk as int, count as int);
    }
    let span: u128 = count * chunk;
    span <= u64::MAX as u128 && count <= usize::MAX as u128
}

/// Splits `total` bytes into consecutive chunks of `chunk_size` bytes (a size
/// of 0 counts as 1); the last chunk may be shorter.
pub fn build_segments_with_chunk_size(total: u64, chunk_size: u64) -> (segs: Vec<Segment>)
    requires
        total == 0 || chunk_count(total as nat, chunk_size as nat) * effective_chunk(chunk_size as nat)
            <= u64::MAX,
        chunk_count(total as nat, chunk_size as nat) <= usize::MAX,
    ensures
        segs@.len() == chunk_count(total as nat, chunk_size as nat),
        is_fresh_tiling(segs@, total as nat),
        forall|i: int|
            0 <= i < segs@.len() ==> {
                let c = effective_chunk(chunk_size as nat);
                &&& (#[trigger] segs@[i]).start == i * c
                &&& segs@[i].end == if (i + 1) * c - 1 < total { (i + 1) * c - 1 } else { total - 1 }
            },
        chunked_split(segs@, total as nat, chunk_size as nat),
{
    let mut segments: Vec<Segment> = Vec::new();
    if total == 0 {
        proof {
            let c0 = effective_chunk(chunk_size as nat) as int;
            vstd::arithmetic::div_mod::lemma_basic_div(c0 - 1, c0);
        }
        return segments;
    }
    let chunk: u64 = if chunk_size == 0 { 1 } else { chunk_size };
    let ghost c = chunk as int;
    let ghost count = chunk_count(total as nat, chunk_size as nat) as int;
    proof {
        lemma_fundamental_div_mod(total + c - 1, c);
        vstd::arithmetic::div_mod::lemma_mod_pos_bound(total + c - 1, c);
        vstd::arithmetic::mul::lemma_mul_is_commutative(c, count);
        assert(count * c >= total);
    }
    let mut start: u64 = 0;
    let mut id: usize = 0;
    while start < total
        invariant
            c == chunk,
            1 <= c,
            count == (total + c - 1) / c,
            count * c >= total,
            count * c <= u64::MAX,
            count <= usize::MAX,
            0 < total,
            start < total ==> start == id * c,
            start <= total,
            id == 0 ==> start == 0,
            segments@.len() == id,
            id > 0 ==> segments@[id - 1].end + 1 == start,
            forall|i: int|
                0 <= i < id ==> {
                    &&& (#[trigger] segments@[i]).id == i
                    &&& segments@[i].start == i * c
                    &&& segments@[i].downloaded == 0
                    &&& segments@[i].start <= segments@[i].end
                    &&& segments@[i].end == if (i + 1) * c - 1 < total { (i + 1) * c - 1 } else { total - 1 }
                },
            forall|i: int| 0 <= i < id - 1 ==> (#[trigger] segments@[i + 1]).start == segments@[i].end + 1,
        decreases total - start,
    {
        proof {
            if id >= count {
                lemma_mul_inequality(count, id as int, c);
            }
            assert(id < count);
            lemma_mul_inequality(id as int + 1, count, c);
            lemma_mul_is_distributive_add_other_way(c, id as int, 1);
            assert((id + 1) * c == id * c + c);
            assert(start + c <= u64::MAX);
        }
        let mut end = start + chunk - 1;
        if end >= total {
            end = total - 1;
        }
        segments.push(Segment { id, start, end, downloaded: 0 });
        start = end + 1;
        id += 1;
    }
    proof {
        assert(id > 0);
        let q = id as int;
        lemma_mul_is_distributive_add_other_way(c, q - 1, 1);
        assert((q - 1) * c < total);
        vstd::arithmetic::div_mod::lemma_fundamental_div_mod_converse(total + c - 1, c, q, total + c - 1 - q * c);
    }
    segments
}

} // verus!
