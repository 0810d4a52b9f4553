//! Top-level coordinator: owns the stream, derives and validates the column
//! ranges, caches the header row once, and hands out column groups.

use vstd::prelude::*;
use vstd::arithmetic::div_mod::{
    lemma_div_is_ordered, lemma_div_pos_is_pos, lemma_fundamental_div_mod,
    lemma_fundamental_div_mod_converse, lemma_mod_bound,
};
use crate::columngroup::ColumnGroup;
use crate::error::PartitionError;
use crate::range::Range;
use crate::stream::read_headers;

verus! {

/// The least `q` with `q * d >= total`, written so that the executable code
/// can compute it without overflow: for `total >= 1` this equals the ceiling
/// of `total / d`.
pub open spec fn ceil_div(total: int, d: int) -> int
    recommends
        0 < total,
        0 < d,
{
    (total - 1) / d + 1
}

/// Width of each equal-split chunk: the ceiling of `total / groups`.
pub open spec fn chunk_size(total: int, groups: int) -> int
    recommends
        0 < total,
        0 < groups,
{
    ceil_div(total, groups)
}

/// How many ranges the equal split yields: enough chunks to cover every
/// column. It never exceeds `groups`; requesting more groups than columns
/// yields a shorter, still-valid partition.
pub open spec fn split_count(total: int, groups: int) -> int
    recommends
        0 < total,
        0 < groups,
{
    ceil_div(total, chunk_size(total, groups))
}

/// The `i`-th equal-split range: `[i * chunk, min((i + 1) * chunk, total))`.
pub open spec fn split_range_at(total: int, groups: int, i: int) -> Range
    recommends
        0 < total,
        0 < groups,
{
    let c = chunk_size(total, groups);
    Range {
        lower: (i * c) as usize,
        upper: (if (i + 1) * c <= total {
            (i + 1) * c
        } else {
            total
        }) as usize,
    }
}

/// All equal-split ranges, in order.
pub open spec fn split_ranges(total: int, groups: int) -> Seq<Range>
    recommends
        0 < total,
        0 < groups,
{
    Seq::new(split_count(total, groups) as nat, |i: int| split_range_at(total, groups, i))
}

/// A range stays inside a table of `total` columns.
pub open spec fn range_in_bounds(rg: Range, total: int) -> bool {
    rg.upper <= total && rg.lower < total
}

pub open spec fn all_in_bounds(rs: Seq<Range>, total: int) -> bool {
    forall|i: int| 0 <= i < rs.len() ==> range_in_bounds(#[trigger] rs[i], total)
}

/// Two half-open intervals intersect.
pub open spec fn ranges_overlap(a: Range, b: Range) -> bool {
    a.lower < b.upper && b.lower < a.upper
}

pub open spec fn pairwise_disjoint(rs: Seq<Range>) -> bool {
    forall|i: int, j: int| 0 <= i < j < rs.len() ==> !ranges_overlap(#[trigger] rs[i], #[trigger] rs[j])
}

/// The ticket the next issued row producer receives. Tickets only grow; once
/// they saturate, staleness can no longer be told apart, so the count is 64
/// bits wide to keep that out of reach.
pub open spec fn next_ticket(t: u64) -> u64 {
    if t < u64::MAX {
        (t + 1) as u64
    } else {
        t
    }
}

/// The cached header as an optional sequence of column names.
pub open spec fn cached_view(h: Option<Vec<String>>) -> Option<Seq<String>> {
    match h {
        Some(v) => Some(v@),
        None => None,
    }
}

proof fn lemma_ceil_div(t: int, d: int)
    requires
        0 < t,
        0 < d,
    ensures
        1 <= ceil_div(t, d) <= t,
        d * ceil_div(t, d) >= t,
        d * (ceil_div(t, d) - 1) <= t - 1,
{
    let q0 = (t - 1) / d;
    lemma_fundamental_div_mod(t - 1, d);
    lemma_div_pos_is_pos(t - 1, d);
    lemma_mod_bound(t - 1, d);
    let r = (t - 1) % d;
    assert(t - 1 == d * q0 + r);
    assert(q0 <= d * q0) by (nonlinear_arith)
        requires
            q0 >= 0,
            d >= 1,
    ;
    assert(d * (q0 + 1) == d * q0 + d) by (nonlinear_arith);
}

proof fn lemma_split_elem_shape(total: int, groups: int, i: int)
    requires
        0 < total <= usize::MAX,
        0 < groups,
        0 <= i < split_count(total, groups),
    ensures
        split_ranges(total, groups)[i].lower == i * chunk_size(total, groups),
        split_ranges(total, groups)[i].upper == (if (i + 1) * chunk_size(total, groups) <= total {
            (i + 1) * chunk_size(total, groups)
        } else {
            total
        }),
        i * chunk_size(total, groups) < total,
{
    let c = chunk_size(total, groups);
    let k = split_count(total, groups);
    lemma_ceil_div(total, groups);
    lemma_ceil_div(total, c);
    assert(i * c <= (k - 1) * c) by (nonlinear_arith)
        requires
            i <= k - 1,
            c >= 0,
    ;
    assert((k - 1) * c == c * (k - 1)) by (nonlinear_arith);
    assert(0 <= i * c) by (nonlinear_arith)
        requires
            i >= 0,
            c >= 0,
    ;
    assert((i + 1) * c == i * c + c) by (nonlinear_arith);
}

/// What the equal split guarantees: at most `groups` ranges, each well-formed
/// and chunk-sized except a possibly shorter final one, together covering
/// `[0, total)` with no gaps and no overlaps.
pub proof fn lemma_equal_split(total: int, groups: int)
    requires
        0 < total <= usize::MAX,
        0 < groups,
    ensures
        1 <= split_count(total, groups) <= groups,
        split_ranges(total, groups).len() == split_count(total, groups),
        forall|i: int|
            0 <= i < split_count(total, groups) ==> (#[trigger] split_ranges(total, groups)[i]).wf(),
        forall|i: int|
            0 <= i < split_count(total, groups) ==> range_in_bounds(
                #[trigger] split_ranges(total, groups)[i],
                total,
            ),
        split_ranges(total, groups)[0].lower == 0,
        split_ranges(total, groups)[split_count(total, groups) - 1].upper == total,
        forall|i: int|
            0 <= i < split_count(total, groups) - 1 ==> (#[trigger] split_ranges(total, groups)[i]).upper
                == split_ranges(total, groups)[i + 1].lower,
        forall|i: int|
            0 <= i < split_count(total, groups) - 1 ==> (#[trigger] split_ranges(total, groups)[i]).spec_len()
                == chunk_size(total, groups),
        forall|i: int|
            0 <= i < split_count(total, groups) ==> (#[trigger] split_ranges(total, groups)[i]).spec_len()
                <= chunk_size(total, groups),
        pairwise_disjoint(split_ranges(total, groups)),
{
    let c = chunk_size(total, groups);
    let k = split_count(total, groups);
    lemma_ceil_div(total, groups);
    lemma_ceil_div(total, c);
    assert(groups * c >= total);
    assert(c * k >= total);
    assert(c * (k - 1) <= total - 1);
    // The requested count suffices: k <= groups, else groups * c < total.
    assert(k <= groups) by {
        if k > groups {
            assert(groups * c <= (k - 1) * c) by (nonlinear_arith)
                requires
                    groups <= k - 1,
                    c >= 0,
            ;
            assert((k - 1) * c == c * (k - 1)) by (nonlinear_arith);
        }
    }
    assert forall|i: int| #![trigger split_ranges(total, groups)[i]] 0 <= i < k implies {
        let rg = split_ranges(total, groups)[i];
        &&& rg.lower == i * c
        &&& rg.upper == (if (i + 1) * c <= total {
            (i + 1) * c
        } else {
            total
        })
        &&& rg.wf()
        &&& range_in_bounds(rg, total)
        &&& rg.spec_len() <= c
        &&& (i < k - 1 ==> rg.spec_len() == c && rg.upper == (i + 1) * c)
        &&& (i == k - 1 ==> rg.upper == total)
    } by {
        assert(i * c <= (k - 1) * c) by (nonlinear_arith)
            requires
                i <= k - 1,
                c >= 0,
        ;
        assert((k - 1) * c == c * (k - 1)) by (nonlinear_arith);
        assert(i * c < total);
        assert(0 <= i * c) by (nonlinear_arith)
            requires
                i >= 0,
                c >= 0,
        ;
        assert((i + 1) * c == i * c + c) by (nonlinear_arith);
        if i < k - 1 {
            assert((i + 1) * c <= (k - 1) * c) by (nonlinear_arith)
                requires
                    i + 1 <= k - 1,
                    c >= 0,
            ;
        }
        if i == k - 1 {
            assert((i + 1) * c == c * k) by (nonlinear_arith)
                requires
                    i == k - 1,
            ;
        }
    }
    assert forall|i: int, j: int| 0 <= i < j < k implies !ranges_overlap(
        #[trigger] split_ranges(total, groups)[i],
        #[trigger] split_ranges(total, groups)[j],
    ) by {
        assert((i + 1) * c <= j * c) by (nonlinear_arith)
            requires
                i + 1 <= j,
                c >= 0,
        ;
    }
}

/// The equal split leaves no gaps: every column of the table falls in some
/// range of the split.
pub proof fn lemma_equal_split_covers(total: int, groups: int, col: int)
    requires
        0 < total <= usize::MAX,
        0 < groups,
        0 <= col < total,
    ensures
        exists|i: int|
            0 <= i < split_count(total, groups) && (#[trigger] split_ranges(total, groups)[i]).spec_contains(col),
{
    let c = chunk_size(total, groups);
    let k = split_count(total, groups);
    lemma_equal_split(total, groups);
    lemma_ceil_div(total, groups);
    lemma_ceil_div(total, c);
    let q = col / c;
    lemma_fundamental_div_mod(col, c);
    lemma_mod_bound(col, c);
    lemma_div_pos_is_pos(col, c);
    lemma_div_is_ordered(col, total - 1, c);
    assert(q * c == c * q) by (nonlinear_arith);
    assert((q + 1) * c == c * q + c) by (nonlinear_arith);
    assert(q <= k - 1);
    assert(split_ranges(total, groups)[q].lower == q * c && split_ranges(total, groups)[q].upper > col) by {
        lemma_split_elem_shape(total, groups, q);
    }
    assert(split_ranges(total, groups)[q].spec_contains(col));
}

/// The coordinator. It owns the stream exclusively, holds the validated
/// ranges, and caches the full header row, read from the stream at most once.
/// Row producers claim the stream through `active_ticket`: only the producer
/// issued last may pull, so two row sequences can never interleave reads.
#[verifier::reject_recursive_types(R)]
pub struct Partition<R> {
    /// The underlying stream; exclusively owned, advanced only by the
    /// producer holding the active ticket.
    pub reader: csv::Reader<R>,
    /// The validated column ranges, in declaration order.
    pub ranges: Vec<Range>,
    /// The full, unsliced header row.
    pub headers_cached: Option<Vec<String>>,
    /// Ticket of the most recently issued row producer; 0 means none yet.
    pub active_ticket: u64,
}

impl<R> Partition<R> {
    /// Number of columns of the underlying table, as the cached header shows.
    pub open spec fn spec_total_columns(self) -> int {
        match self.headers_cached {
            Some(h) => h@.len() as int,
            None => 0,
        }
    }

    /// The coordinator's invariant: the header is cached, and every range is
    /// well-formed, inside the table, and disjoint from its siblings.
    pub open spec fn wf(self) -> bool {
        &&& self.headers_cached is Some
        &&& forall|i: int| 0 <= i < self.ranges@.len() ==> (#[trigger] self.ranges@[i]).wf()
        &&& all_in_bounds(self.ranges@, self.spec_total_columns())
        &&& pairwise_disjoint(self.ranges@)
    }

    /// Number of column groups.
    pub fn group_count(&self) -> (r: usize)
        ensures
            r == self.ranges@.len(),
    {
        self.ranges.len()
    }

    /// Total number of columns in the table; 0 when no header is cached.
    pub fn total_columns(&self) -> (r: usize)
        ensures
            r == self.spec_total_columns(),
    {
        match &self.headers_cached {
            Some(h) => h.len(),
            None => 0,
        }
    }

    /// The validated ranges, in order.
    pub fn ranges(&self) -> (r: &Vec<Range>)
        ensures
            r@ == self.ranges@,
    {
        &self.ranges
    }

    /// Claims the stream for a new row producer: the returned ticket
    /// supersedes every ticket issued before it.
    pub(crate) fn claim_stream(&mut self) -> (t: u64)
        ensures
            final(self).reader == old(self).reader,
            final(self).ranges == old(self).ranges,
            final(self).headers_cached == old(self).headers_cached,
            final(self).active_ticket == next_ticket(old(self).active_ticket),
            t == final(self).active_ticket,
    {
        if self.active_ticket < u64::MAX {
            self.active_ticket = self.active_ticket + 1;
        }
        self.active_ticket
    }

    /// The ranges behind a shared handle, so many holders can keep the same
    /// range set cheaply.
    pub fn ranges_arc(&self) -> (r: std::sync::Arc<Vec<Range>>)
        ensures
            r@ == self.ranges@,
    {
        let v = self.ranges.clone();
        proof {
            assert(v@ =~= self.ranges@);
        }
        std::sync::Arc::new(v)
    }
}

/// Copies a header row; the copy reads exactly as the original.
pub(crate) fn clone_string_vec(v: &Vec<String>) -> (r: Vec<String>)
    ensures
        r@ == v@,
{
    let r = v.clone();
    proof {
        assert(r@ =~= v@);
    }
    r
}

/// Copies an optional header row.
pub(crate) fn clone_header(h: &Option<Vec<String>>) -> (r: Option<Vec<String>>)
    ensures
        cached_view(r) == cached_view(*h),
{
    match h {
        Some(v) => Some(clone_string_vec(v)),
        None => None,
    }
}

impl<R: std::io::Read> Partition<R> {
    /// Builds a partition with equal-sized column groups: reads and caches the
    /// header once, then splits `[0, total_columns)` into ceiling-sized
    /// chunks, stopping early once the columns are exhausted.
    pub fn new(reader: csv::Reader<R>, num_groups: usize) -> (r: Result<
        Partition<R>,
        PartitionError,
    >)
        ensures
            (r matches Err(e) && e is EmptyGroupCount) <==> num_groups == 0,
            r matches Err(e) ==> e is EmptyGroupCount || e is EmptySchema || e is StreamError,
            r matches Ok(p) ==> num_groups > 0 && p.wf() && p.spec_total_columns() > 0
                && p.ranges@ == split_ranges(p.spec_total_columns(), num_groups as int)
                && p.ranges@.len() <= num_groups && p.active_ticket == 0,
    {
        let mut reader = reader;
        if num_groups == 0 {
            return Err(PartitionError::EmptyGroupCount);
        }
        let headers_read = read_headers(&mut reader);
        Self::assemble_equal_split(reader, headers_read, num_groups)
    }

    /// Finishes equal-split construction from the header read's outcome, so
    /// that everything after the stream call is pinned: a failed read comes
    /// back exactly as `StreamError`, an empty header exactly as
    /// `EmptySchema`, and every other header yields the partition whose
    /// ranges are the equal split of its columns.
    pub fn assemble_equal_split(
        reader: csv::Reader<R>,
        headers_read: Result<Vec<String>, csv::Error>,
        num_groups: usize,
    ) -> (r: Result<Partition<R>, PartitionError>)
        requires
            num_groups > 0,
        ensures
            headers_read matches Err(e) ==> (r matches Err(pe) && pe == PartitionError::StreamError(e)),
            headers_read matches Ok(h) ==> (h@.len() == 0 <==> (r matches Err(e)
                && e is EmptySchema)),
            headers_read matches Ok(h) ==> (h@.len() > 0 ==> (r matches Ok(p) && p.wf()
                && p.headers_cached == Some(h) && p.ranges@ == split_ranges(
                h@.len() as int,
                num_groups as int,
            ) && p.ranges@.len() <= num_groups && p.active_ticket == 0)),
            r matches Err(e) ==> e is EmptySchema || e is StreamError,
    {
        let headers: Vec<String> = match headers_read {
            Ok(h) => h,
            Err(e) => {
                return Err(PartitionError::StreamError(e));
            },
        };
        let total: usize = headers.len();
        if total == 0 {
            return Err(PartitionError::EmptySchema);
        }
        let g: usize = num_groups;
        let t: usize = total;
        let chunk: usize = (total - 1) / g + 1;
        proof {
            lemma_ceil_div(t as int, g as int);
        }
        let mut ranges: Vec<Range> = Vec::new();
        let mut lower: usize = 0;
        let mut i: usize = 0;
        while i < g && lower < t
            invariant
                g == num_groups,
                t == headers@.len(),
                0 < g,
                0 < t <= usize::MAX,
                chunk == chunk_size(t as int, g as int),
                1 <= chunk <= t,
                g * chunk >= t,
                i <= g,
                ranges@.len() == i,
                lower == (if i * chunk <= t {
                    i * (chunk as int)
                } else {
                    t as int
                }),
                i > 0 ==> (i - 1) * (chunk as int) < t,
                forall|j: int|
                    0 <= j < i ==> #[trigger] ranges@[j] == split_range_at(t as int, g as int, j),
            decreases g - i,
        {
            proof {
                assert(i * chunk < t);
                assert((i + 1) * (chunk as int) == i * (chunk as int) + chunk) by (nonlinear_arith);
            }
            let upper: usize = if t - lower > chunk {
                lower + chunk
            } else {
                t
            };
            ranges.push(Range { lower, upper });
            proof {
                assert(ranges@[i as int] == split_range_at(t as int, g as int, i as int));
            }
            lower = upper;
            i = i + 1;
        }
        proof {
            // At exit the columns are exhausted, and exactly split_count
            // ranges were made.
            assert(lower == t);
            assert(i >= 1);
            assert(i * (chunk as int) >= t);
            assert((i - 1) * (chunk as int) < t);
            assert((i - 1) * (chunk as int) + chunk == i * (chunk as int)) by (nonlinear_arith);
            lemma_fundamental_div_mod_converse(
                t - 1,
                chunk as int,
                i - 1,
                t - 1 - (i - 1) * (chunk as int),
            );
            assert(i == split_count(t as int, g as int));
            assert(ranges@ =~= split_ranges(t as int, g as int));
            lemma_equal_split(t as int, g as int);
        }
        Ok(Partition { reader, ranges, headers_cached: Some(headers), active_ticket: 0 })
    }

    /// Builds a partition from caller-supplied ranges: reads and caches the
    /// header once, then rejects an empty range list, an empty schema, and
    /// any range that leaves the table or overlaps a sibling.
    pub fn with_custom_ranges(reader: csv::Reader<R>, ranges: Vec<Range>) -> (r: Result<
        Partition<R>,
        PartitionError,
    >)
        requires
            forall|i: int| 0 <= i < ranges@.len() ==> (#[trigger] ranges@[i]).wf(),
        ensures
            (r matches Err(e) && e is EmptyRanges) <==> ranges@.len() == 0,
            r matches Err(e) ==> e is EmptyRanges || e is StreamError || e is EmptySchema
                || e is RangeOutOfBounds || e is RangeOverlap,
            r matches Err(PartitionError::RangeOverlap { first, second }) ==> first < second
                < ranges@.len() && ranges_overlap(
                ranges@[first as int],
                ranges@[second as int],
            ),
            r matches Err(PartitionError::RangeOutOfBounds { index }) ==> index < ranges@.len(),
            !pairwise_disjoint(ranges@) && ranges@.len() > 0 ==> r is Err,
            r matches Ok(p) ==> p.wf() && p.ranges@ == ranges@ && p.spec_total_columns() > 0
                && all_in_bounds(ranges@, p.spec_total_columns()) && pairwise_disjoint(ranges@)
                && p.active_ticket == 0,
    {
        let mut reader = reader;
        if ranges.len() == 0 {
            return Err(PartitionError::EmptyRanges);
        }
        let headers_read = read_headers(&mut reader);
        Self::assemble_with_ranges(reader, headers_read, ranges)
    }

    /// Finishes custom-range construction from the header read's outcome, so
    /// that everything after the stream call is pinned: a failed read comes
    /// back exactly as `StreamError`, an empty header exactly as
    /// `EmptySchema`, and any other header yields the partition exactly when
    /// validation passes, with the first violation reported otherwise.
    pub fn assemble_with_ranges(
        reader: csv::Reader<R>,
        headers_read: Result<Vec<String>, csv::Error>,
        ranges: Vec<Range>,
    ) -> (r: Result<Partition<R>, PartitionError>)
        requires
            ranges@.len() > 0,
            forall|i: int| 0 <= i < ranges@.len() ==> (#[trigger] ranges@[i]).wf(),
        ensures
            headers_read matches Err(e) ==> (r matches Err(pe) && pe == PartitionError::StreamError(e)),
            headers_read matches Ok(h) ==> (h@.len() == 0 <==> (r matches Err(e)
                && e is EmptySchema)),
            headers_read matches Ok(h) ==> (h@.len() > 0 ==> ((r is Ok <==> all_in_bounds(
                ranges@,
                h@.len() as int,
            ) && pairwise_disjoint(ranges@)) && (r matches Ok(p) ==> p.wf() && p.ranges == ranges
                && p.headers_cached == Some(h) && p.active_ticket == 0) && (r matches Err(
                PartitionError::RangeOutOfBounds { index },
            ) ==> index < ranges@.len() && !range_in_bounds(ranges@[index as int], h@.len() as int)
                && (forall|k: int|
                0 <= k < index ==> range_in_bounds(#[trigger] ranges@[k], h@.len() as int))) && (r
                matches Err(PartitionError::RangeOverlap { first, second }) ==> first < second
                < ranges@.len() && ranges_overlap(ranges@[first as int], ranges@[second as int])
                && (forall|a: int, b: int|
                0 <= a < b < ranges@.len() && (a < first || (a == first && b < second))
                    ==> !ranges_overlap(#[trigger] ranges@[a], #[trigger] ranges@[b]))))),
            r matches Err(e) ==> e is StreamError || e is EmptySchema || e is RangeOutOfBounds
                || e is RangeOverlap,
    {
        let headers: Vec<String> = match headers_read {
            Ok(h) => h,
            Err(e) => {
                return Err(PartitionError::StreamError(e));
            },
        };
        let total: usize = headers.len();
        if total == 0 {
            return Err(PartitionError::EmptySchema);
        }
        match Self::validate_ranges(&ranges, total) {
            Ok(()) => Ok(
                Partition { reader, ranges, headers_cached: Some(headers), active_ticket: 0 },
            ),
            Err(e) => Err(e),
        }
    }

    /// Checks every range against the table bounds, then every pair for
    /// overlap, reporting the first violation in scan order.
    fn validate_ranges(ranges: &Vec<Range>, total_columns: usize) -> (r: Result<
        (),
        PartitionError,
    >)
        ensures
            r is Ok <==> all_in_bounds(ranges@, total_columns as int) && pairwise_disjoint(
                ranges@,
            ),
            r matches Err(e) ==> e is RangeOutOfBounds || e is RangeOverlap,
            r matches Err(PartitionError::RangeOutOfBounds { index }) ==> index < ranges@.len()
                && !range_in_bounds(ranges@[index as int], total_columns as int) && (forall|k: int|
                0 <= k < index ==> range_in_bounds(#[trigger] ranges@[k], total_columns as int)),
            r matches Err(PartitionError::RangeOverlap { first, second }) ==> all_in_bounds(
                ranges@,
                total_columns as int,
            ) && first < second < ranges@.len() && ranges_overlap(
                ranges@[first as int],
                ranges@[second as int],
            ) && (forall|a: int, b: int|
                0 <= a < b < ranges@.len() && (a < first || (a == first && b < second))
                    ==> !ranges_overlap(#[trigger] ranges@[a], #[trigger] ranges@[b])),
    {
        let n = ranges.len();
        let total = total_columns;
        let mut i: usize = 0;
        while i < n
            invariant
                n == ranges@.len(),
                total == total_columns,
                i <= n,
                forall|k: int| 0 <= k < i ==> range_in_bounds(#[trigger] ranges@[k], total as int),
            decreases n - i,
        {
            let rg = ranges[i];
            if rg.upper > total || rg.lower >= total {
                proof {
                    assert(!range_in_bounds(ranges@[i as int], total_columns as int));
                    assert(!all_in_bounds(ranges@, total_columns as int));
                }
                return Err(PartitionError::RangeOutOfBounds { index: i });
            }
            i = i + 1;
        }
        let mut a: usize = 0;
        while a < n
            invariant
                n == ranges@.len(),
                total == total_columns,
                a <= n,
                all_in_bounds(ranges@, total as int),
                forall|x: int, y: int|
                    0 <= x < y < n && x < a ==> !ranges_overlap(
                        #[trigger] ranges@[x],
                        #[trigger] ranges@[y],
                    ),
            decreases n - a,
        {
            let mut b: usize = a + 1;
            while b < n
                invariant
                    n == ranges@.len(),
                    total == total_columns,
                    a < b,
                    b <= n,
                    a < n,
                    all_in_bounds(ranges@, total as int),
                    forall|x: int, y: int|
                        0 <= x < y < n && x < a ==> !ranges_overlap(
                            #[trigger] ranges@[x],
                            #[trigger] ranges@[y],
                        ),
                    forall|y: int| a < y < b ==> !ranges_overlap(
                        ranges@[a as int],
                        #[trigger] ranges@[y],
                    ),
                decreases n - b,
            {
                let ra = ranges[a];
                let rb = ranges[b];
                if ra.lower < rb.upper && rb.lower < ra.upper {
                    proof {
                        assert(ranges_overlap(ranges@[a as int], ranges@[b as int]));
                        assert(!pairwise_disjoint(ranges@));
                    }
                    return Err(PartitionError::RangeOverlap { first: a, second: b });
                }
                b = b + 1;
            }
            a = a + 1;
        }
        Ok(())
    }

    /// Lazily reads, caches, and returns the full header row.
    pub fn headers(&mut self) -> (r: Result<Vec<String>, PartitionError>)
        ensures
            final(self).ranges == old(self).ranges,
            final(self).active_ticket == old(self).active_ticket,
            old(self).headers_cached matches Some(h) ==> (r matches Ok(v) && v@ == h@)
                && *final(self) == *old(self),
            old(self).headers_cached is None ==> match r {
                Ok(v) => cached_view(final(self).headers_cached) == Some(v@),
                Err(e) => e is StreamError && final(self).headers_cached is None,
            },
    {
        match &self.headers_cached {
            Some(h) => Ok(clone_string_vec(h)),
            None => {
                match read_headers(&mut self.reader) {
                    Ok(h) => {
                        let out = clone_string_vec(&h);
                        self.headers_cached = Some(h);
                        Ok(out)
                    },
                    Err(e) => Err(PartitionError::StreamError(e)),
                }
            },
        }
    }
}

impl<R> Partition<R> {
    /// The column group at `group_index`; no value for an out-of-bounds index.
    pub fn create_group(&self, group_index: usize) -> (r: Option<ColumnGroup>)
        requires
            self.wf(),
        ensures
            group_index < self.ranges@.len() <==> (r matches Some(g) && g.wf() && g.range
                == self.ranges@[group_index as int] && g.group_index == group_index
                && cached_view(g.headers_cached) == cached_view(self.headers_cached)),
            group_index >= self.ranges@.len() <==> r is None,
    {
        if group_index < self.ranges.len() {
            let rg = self.ranges[group_index];
            Some(ColumnGroup::new(rg, group_index, clone_header(&self.headers_cached)))
        } else {
            None
        }
    }

    /// One column group per range, in range order.
    pub fn groups(&self) -> (r: Vec<ColumnGroup>)
        requires
            self.wf(),
        ensures
            r@.len() == self.ranges@.len(),
            forall|i: int|
                0 <= i < r@.len() ==> (#[trigger] r@[i]).wf() && r@[i].range == self.ranges@[i]
                    && r@[i].group_index == i && cached_view(r@[i].headers_cached) == cached_view(
                    self.headers_cached,
                ),
    {
        let mut out: Vec<ColumnGroup> = Vec::new();
        let mut i: usize = 0;
        while i < self.ranges.len()
            invariant
                self.wf(),
                i <= self.ranges@.len(),
                out@.len() == i,
                forall|j: int|
                    0 <= j < i ==> (#[trigger] out@[j]).wf() && out@[j].range == self.ranges@[j]
                        && out@[j].group_index == j && cached_view(out@[j].headers_cached)
                        == cached_view(self.headers_cached),
            decreases self.ranges@.len() - i,
        {
            let rg = self.ranges[i];
            let g = ColumnGroup::new(rg, i, clone_header(&self.headers_cached));
            out.push(g);
            i = i + 1;
        }
        out
    }

    /// Each column group paired with its index.
    pub fn groups_with_indicies(&self) -> (r: Vec<(usize, ColumnGroup)>)
        requires
            self.wf(),
        ensures
            r@.len() == self.ranges@.len(),
            forall|i: int| #![trigger r@[i]]
                0 <= i < r@.len() ==> r@[i].0 == i && r@[i].1.wf() && r@[i].1.range
                    == self.ranges@[i] && r@[i].1.group_index == i && cached_view(
                    r@[i].1.headers_cached,
                ) == cached_view(self.headers_cached),
    {
        let mut out: Vec<(usize, ColumnGroup)> = Vec::new();
        let mut i: usize = 0;
        while i < self.ranges.len()
            invariant
                self.wf(),
                i <= self.ranges@.len(),
                out@.len() == i,
                forall|j: int| #![trigger out@[j]]
                    0 <= j < i ==> out@[j].0 == j && out@[j].1.wf() && out@[j].1.range
                        == self.ranges@[j] && out@[j].1.group_index == j && cached_view(
                        out@[j].1.headers_cached,
                    ) == cached_view(self.headers_cached),
            decreases self.ranges@.len() - i,
        {
            let rg = self.ranges[i];
            let g = ColumnGroup::new(rg, i, clone_header(&self.headers_cached));
            out.push((i, g));
            proof {
                assert(out@[i as int].0 == i && out@[i as int].1.range == self.ranges@[i as int]);
            }
            i = i + 1;
        }
        out
    }
}

} // verus!
