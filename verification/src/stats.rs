//! Histogram of gated block powers.
//!
//! A `Stats` counts finalized block powers in a fixed table of cells, one per
//! 0.01 LU of loudness between -70.00 LU and +5.00 LU.  The cell index is the
//! integer form of a loudness: cell `i` stands for the loudness
//! `-70.00 + 0.01 * i` LU, so callers that work in the continuous domain hand
//! this module a cell index and read cell indices back.

use vstd::prelude::*;

verus! {

/// Number of histogram cells: loudness -70.00 LU .. +5.00 LU in 0.01 LU steps.
pub const BIN_COUNT: usize = 7501;

/// Sum of the counts `s[i], s[i+1], ...` as an unbounded integer.
pub open spec fn sum_from(s: Seq<u64>, i: int) -> int
    decreases s.len() - i,
{
    if 0 <= i < s.len() {
        s[i] + sum_from(s, i + 1)
    } else {
        0
    }
}

/// Sum of the counts over the half-open index range `[i, j)`.
pub open spec fn sum_range(s: Seq<u64>, i: int, j: int) -> int {
    sum_from(s, i) - sum_from(s, j)
}

pub proof fn lemma_sum_nonneg(s: Seq<u64>, i: int)
    ensures
        0 <= sum_from(s, i),
    decreases s.len() - i,
{
    if 0 <= i < s.len() {
        lemma_sum_nonneg(s, i + 1);
    }
}

pub proof fn lemma_sum_mono(s: Seq<u64>, i: int, j: int)
    requires
        0 <= i <= j,
    ensures
        sum_from(s, j) <= sum_from(s, i),
    decreases j - i,
{
    if i < j {
        lemma_sum_mono(s, i + 1, j);
    }
}

/// Changing one cell moves the tail sums that cover it by the same offset.
pub proof fn lemma_sum_update(s: Seq<u64>, i: int, v: u64, j: int)
    requires
        0 <= j <= i < s.len(),
    ensures
        sum_from(s.update(i, v), j) == sum_from(s, j) + v - s[i],
    decreases i - j,
{
    if j < i {
        lemma_sum_update(s, i, v, j + 1);
    } else {
        assert(s.update(i, v)[i] == v);
        lemma_sum_agree(s.update(i, v), s, i + 1);
    }
}

/// Two tables equal from `i` on have the same tail sums from `i` on.
proof fn lemma_sum_agree(a: Seq<u64>, b: Seq<u64>, i: int)
    requires
        a.len() == b.len(),
        forall|k: int| i <= k < a.len() ==> a[k] == b[k],
    ensures
        sum_from(a, i) == sum_from(b, i),
    decreases a.len() - i,
{
    if 0 <= i < a.len() {
        lemma_sum_agree(a, b, i + 1);
    } else if i < 0 {
        lemma_sum_agree(a, b, 0);
    }
}

/// An all-zero table sums to zero.
pub proof fn lemma_sum_zero(s: Seq<u64>, i: int)
    requires
        forall|k: int| 0 <= k < s.len() ==> s[k] == 0,
    ensures
        sum_from(s, i) == 0,
    decreases s.len() - i,
{
    if 0 <= i < s.len() {
        lemma_sum_zero(s, i + 1);
    }
}

/// Each cell's count is at most any covering range sum.
pub proof fn lemma_elem_le_sum(s: Seq<u64>, i: int, j: int)
    requires
        0 <= j <= i < s.len(),
    ensures
        s[i] <= sum_from(s, j),
    decreases i - j,
{
    if j < i {
        lemma_elem_le_sum(s, i, j + 1);
        lemma_sum_nonneg(s, j);
    } else {
        lemma_sum_nonneg(s, j + 1);
    }
}

/// Per-source statistics: a count of gated blocks per loudness cell.
///
/// The continuous companions of the histogram (the raw maximum power and the
/// running mean power) are functions of floating-point inputs and are kept by
/// the caller; everything that can be read back from the histogram itself is
/// computed here.
pub struct Stats {
    bins: Vec<u64>,
    count: u64,
}

impl Stats {
    /// The histogram always has exactly one cell per 0.01 LU step, and the
    /// cell counts always sum to the number of blocks recorded.
    pub closed spec fn wf(&self) -> bool {
        &&& self.bins@.len() == BIN_COUNT
        &&& sum_from(self.bins@, 0) == self.count
    }

    pub closed spec fn spec_bins(&self) -> Seq<u64> {
        self.bins@
    }

    pub closed spec fn spec_count(&self) -> u64 {
        self.count
    }

    /// A fresh `Stats` has no blocks recorded.
    pub fn new() -> (s: Stats)
        ensures
            s.wf(),
            s.spec_count() == 0,
            forall|i: int| 0 <= i < BIN_COUNT ==> s.spec_bins()[i] == 0,
    {
        let bins: Vec<u64> = vec![0u64; BIN_COUNT];
        proof {
            lemma_sum_zero(bins@, 0);
        }
        Stats { bins, count: 0 }
    }

    /// Number of blocks recorded so far.
    pub fn total_count(&self) -> (n: u64)
        requires
            self.wf(),
        ensures
            n == self.spec_count(),
            n == sum_from(self.spec_bins(), 0),
    {
        self.count
    }

    /// Count held by one cell.
    pub fn bin_count(&self, i: usize) -> (n: u64)
        requires
            self.wf(),
            i < BIN_COUNT,
        ensures
            n == self.spec_bins()[i as int],
    {
        self.bins[i]
    }

    /// Record one gated block whose power falls in cell `bin`.
    ///
    /// The caller has already applied the absolute gate: a block below the
    /// lowest cell is never handed in, so every recorded block lands in a
    /// cell.
    pub fn add_block(&mut self, bin: usize)
        requires
            old(self).wf(),
            bin < BIN_COUNT,
            old(self).spec_count() < u64::MAX,
        ensures
            final(self).wf(),
            final(self).spec_count() == old(self).spec_count() + 1,
            final(self).spec_bins() == old(self).spec_bins().update(
                bin as int,
                (old(self).spec_bins()[bin as int] + 1) as u64,
            ),
    {
        proof {
            lemma_elem_le_sum(self.bins@, bin as int, 0);
        }
        let c = self.bins[bin];
        self.bins[bin] = c + 1;
        self.count = self.count + 1;
        proof {
            lemma_sum_update(old(self).bins@, bin as int, (c + 1) as u64, 0);
        }
    }

    /// Merge another histogram into this one, cell by cell.
    ///
    /// Both histograms have the same cell edges, so merging two sources is
    /// exactly the pointwise sum of their tables; afterwards this `Stats`
    /// holds every block either source recorded.
    pub fn merge(&mut self, other: &Stats)
        requires
            old(self).wf(),
            other.wf(),
            old(self).spec_count() + other.spec_count() <= u64::MAX,
        ensures
            final(self).wf(),
            final(self).spec_count() == old(self).spec_count() + other.spec_count(),
            final(self).spec_bins().len() == BIN_COUNT,
            forall|i: int|
                0 <= i < BIN_COUNT ==> final(self).spec_bins()[i] == old(self).spec_bins()[i]
                    + other.spec_bins()[i],
    {
        let mut i: usize = 0;
        while i < BIN_COUNT
            invariant
                self.bins@.len() == BIN_COUNT,
                other.wf(),
                i <= BIN_COUNT,
                self.count == old(self).count,
                old(self).wf(),
                old(self).spec_count() + other.spec_count() <= u64::MAX,
                forall|k: int|
                    0 <= k < i ==> self.bins@[k] == old(self).spec_bins()[k]
                        + other.spec_bins()[k],
                forall|k: int| i <= k < BIN_COUNT ==> self.bins@[k] == old(self).spec_bins()[k],
                sum_from(self.bins@, 0) == old(self).count + sum_range(other.spec_bins(), 0, i as int),
            decreases BIN_COUNT - i,
        {
            proof {
                lemma_elem_le_sum(old(self).bins@, i as int, 0);
                lemma_elem_le_sum(other.spec_bins(), i as int, 0);
                lemma_sum_mono(other.spec_bins(), 0, i as int);
                lemma_sum_nonneg(other.spec_bins(), i as int);
                lemma_sum_nonneg(other.spec_bins(), i + 1);
                lemma_sum_mono(other.spec_bins(), i as int, i + 1);
            }
            let ghost prev = self.bins@;
            let a = self.bins[i];
            let b = other.bins[i];
            proof {
                assert(a == old(self).spec_bins()[i as int]);
                assert(a <= sum_from(old(self).spec_bins(), 0));
                assert(b <= sum_from(other.spec_bins(), 0));
                assert(a + b <= u64::MAX);
            }
            self.bins[i] = a + b;
            proof {
                lemma_sum_update(prev, i as int, (a + b) as u64, 0);
                assert(self.bins@ =~= prev.update(i as int, (a + b) as u64));
            }
            i = i + 1;
        }
        proof {
            lemma_sum_nonneg(other.spec_bins(), BIN_COUNT as int);
            lemma_sum_mono(other.spec_bins(), 0, BIN_COUNT as int);
        }
        self.count = self.count + other.count;
    }

    /// Number of blocks at or above the cell `threshold`.
    ///
    /// The relative gate hands in the first cell whose power lies above the
    /// gate threshold; the result is the count feeding the gated mean.
    pub fn gated_count(&self, threshold: usize) -> (n: u64)
        requires
            self.wf(),
            threshold <= BIN_COUNT,
        ensures
            n == sum_from(self.spec_bins(), threshold as int),
    {
        let mut i: usize = threshold;
        let mut acc: u64 = 0;
        while i < BIN_COUNT
            invariant
                self.wf(),
                threshold <= i <= BIN_COUNT,
                acc == sum_range(self.spec_bins(), threshold as int, i as int),
            decreases BIN_COUNT - i,
        {
            proof {
                lemma_sum_nonneg(self.spec_bins(), i + 1);
                lemma_sum_mono(self.spec_bins(), 0, threshold as int);
                lemma_sum_nonneg(self.spec_bins(), threshold as int);
            }
            acc = acc + self.bins[i];
            i = i + 1;
        }
        acc
    }

    /// The cells at or above `threshold` that hold at least one block, in
    /// ascending order, each with its count.
    ///
    /// The gated mean weighs each of these cells' power by its count; cells
    /// below the relative gate or without blocks contribute nothing.
    pub fn occupied_cells(&self, threshold: usize) -> (r: Vec<(usize, u64)>)
        requires
            self.wf(),
            threshold <= BIN_COUNT,
        ensures
            forall|j: int|
                0 <= j < r@.len() ==> threshold <= (#[trigger] r@[j]).0 < BIN_COUNT && r@[j].1
                    == self.spec_bins()[r@[j].0 as int] && r@[j].1 > 0,
            forall|j1: int, j2: int| 0 <= j1 < j2 < r@.len() ==> r@[j1].0 < r@[j2].0,
            forall|i: int|
                threshold <= i < BIN_COUNT && self.spec_bins()[i] > 0 ==> exists|j: int|
                    0 <= j < r@.len() && (#[trigger] r@[j]).0 == i,
    {
        let mut r: Vec<(usize, u64)> = Vec::new();
        let mut i: usize = threshold;
        while i < BIN_COUNT
            invariant
                self.wf(),
                threshold <= i <= BIN_COUNT,
                forall|j: int|
                    0 <= j < r@.len() ==> threshold <= (#[trigger] r@[j]).0 < i && r@[j].1
                        == self.spec_bins()[r@[j].0 as int] && r@[j].1 > 0,
                forall|j1: int, j2: int| 0 <= j1 < j2 < r@.len() ==> r@[j1].0 < r@[j2].0,
                forall|k: int|
                    threshold <= k < i && self.spec_bins()[k] > 0 ==> exists|j: int|
                        0 <= j < r@.len() && (#[trigger] r@[j]).0 == k,
            decreases BIN_COUNT - i,
        {
            let c = self.bins[i];
            if c > 0 {
                let ghost prev = r@;
                r.push((i, c));
                proof {
                    assert(r@[prev.len() as int].0 == i);
                    assert(forall|k: int|
                        threshold <= k < i && self.spec_bins()[k] > 0 ==> exists|j: int|
                            0 <= j < prev.len() && (#[trigger] prev[j]).0 == k);
                    assert forall|k: int|
                        threshold <= k < i + 1 && self.spec_bins()[k] > 0 implies exists|j: int|
                        0 <= j < r@.len() && (#[trigger] r@[j]).0 == k by {
                        if k < i {
                            let j = choose|j: int| 0 <= j < prev.len() && (#[trigger] prev[j]).0 == k;
                            assert(r@[j].0 == k);
                        } else {
                            assert(r@[prev.len() as int].0 == k);
                        }
                    }
                }
            }
            i = i + 1;
        }
        r
    }

    /// Walk the cells from `threshold` upward and return the cell in which
    /// the running count first reaches `k`.
    ///
    /// This is the selection step of the loudness-range computation: with the
    /// gated total `n`, `k = floor(n * q)` picks the cell of the quantile `q`.
    /// `None` comes back exactly when `k` is zero or beyond the gated total,
    /// in which case the caller keeps its sentinel loudness.
    pub fn quantile_bin(&self, threshold: usize, k: u64) -> (r: Option<usize>)
        requires
            self.wf(),
            threshold <= BIN_COUNT,
        ensures
            is_quantile(self.spec_bins(), threshold as int, k, r),
    {
        if k == 0 {
            return None;
        }
        let mut i: usize = threshold;
        let mut acc: u64 = 0;
        while i < BIN_COUNT
            invariant
                self.wf(),
                threshold <= i <= BIN_COUNT,
                acc == sum_range(self.spec_bins(), threshold as int, i as int),
                acc < k,
                k >= 1,
            decreases BIN_COUNT - i,
        {
            proof {
                lemma_sum_nonneg(self.spec_bins(), i + 1);
                lemma_sum_mono(self.spec_bins(), 0, threshold as int);
                lemma_sum_nonneg(self.spec_bins(), threshold as int);
            }
            let c = self.bins[i];
            if c >= k - acc {
                proof {
                    lemma_sum_nonneg(self.spec_bins(), BIN_COUNT as int);
                    lemma_sum_mono(self.spec_bins(), threshold as int, i + 1);
                }
                return Some(i);
            }
            acc = acc + c;
            i = i + 1;
        }
        proof {
            lemma_sum_nonneg(self.spec_bins(), BIN_COUNT as int);
        }
        None
    }

    /// The loudness range between the `lower_k`-th and `upper_k`-th gated
    /// block, in hundredths of a loudness unit.
    ///
    /// A rank of zero (a quantile that falls below the first block) stands
    /// for the first gated block, so the full range — rank zero to the gated
    /// total — is the spread between the least and the greatest occupied
    /// cell (`lemma_range_spans_occupied`).  Each selected cell stands for
    /// its lower-edge loudness, `0.01 * (cell - 7000)` LU; over an empty
    /// gated set neither side selects a cell and the range is zero.
    pub fn range_centi(&self, threshold: usize, lower_k: u64, upper_k: u64) -> (r: i64)
        requires
            self.wf(),
            threshold <= BIN_COUNT,
        ensures
            exists|lo: Option<usize>, hi: Option<usize>|
                {
                    &&& is_quantile(self.spec_bins(), threshold as int, effective_rank(lower_k), lo)
                    &&& is_quantile(self.spec_bins(), threshold as int, effective_rank(upper_k), hi)
                    &&& r == centi_loudness_of(hi) - centi_loudness_of(lo)
                },
    {
        let lk: u64 = if lower_k == 0 {
            1
        } else {
            lower_k
        };
        let uk: u64 = if upper_k == 0 {
            1
        } else {
            upper_k
        };
        let lo = self.quantile_bin(threshold, lk);
        let hi = self.quantile_bin(threshold, uk);
        proof {
            assert(lk == effective_rank(lower_k));
            assert(uk == effective_rank(upper_k));
            assert(is_quantile(self.spec_bins(), threshold as int, effective_rank(lower_k), lo));
            assert(is_quantile(self.spec_bins(), threshold as int, effective_rank(upper_k), hi));
        }
        let c_lo: i64 = match lo {
            Some(i) => i as i64 - 7000,
            None => 0,
        };
        let c_hi: i64 = match hi {
            Some(i) => i as i64 - 7000,
            None => 0,
        };
        c_hi - c_lo
    }
}

/// What `quantile_bin` returns: `Some(i)` is the least cell at or above `t`
/// in which the running count reaches `k`; `None` means `k` is zero or larger
/// than the whole gated count.
pub open spec fn is_quantile(s: Seq<u64>, t: int, k: u64, r: Option<usize>) -> bool {
    match r {
        None => k == 0 || k > sum_from(s, t),
        Some(i) => {
            &&& k >= 1
            &&& t <= i < s.len()
            &&& sum_range(s, t, i + 1) >= k
            &&& sum_range(s, t, i as int) < k
        },
    }
}

/// The rank a requested quantile selects: a rank of zero stands for the
/// first gated block, so the lowest quantile reaches the least occupied
/// cell rather than nothing.
pub open spec fn effective_rank(k: u64) -> u64 {
    if k == 0 {
        1u64
    } else {
        k
    }
}

/// The loudness a quantile result stands for, in hundredths of a loudness
/// unit; an empty selection, which the range takes only over an empty gated
/// set, stands for zero.
pub open spec fn centi_loudness_of(r: Option<usize>) -> int {
    match r {
        None => 0,
        Some(i) => i - 7000,
    }
}

/// The quantile characterization pins its result: for one histogram,
/// threshold and rank there is exactly one answer.
pub proof fn lemma_quantile_unique(s: Seq<u64>, t: int, k: u64, r1: Option<usize>, r2: Option<usize>)
    requires
        0 <= t,
        is_quantile(s, t, k, r1),
        is_quantile(s, t, k, r2),
    ensures
        r1 == r2,
{
    lemma_sum_nonneg(s, t);
    if r1 is Some && r2 is Some {
        let i1 = r1->Some_0;
        let i2 = r2->Some_0;
        if i1 < i2 {
            lemma_sum_mono(s, i1 + 1, i2 as int);
        }
        if i2 < i1 {
            lemma_sum_mono(s, i2 + 1, i1 as int);
        }
    } else if r1 is Some && r2 is None {
        let i1 = r1->Some_0;
        lemma_sum_mono(s, i1 + 1, s.len() as int);
        lemma_sum_nonneg(s, i1 + 1);
    } else if r1 is None && r2 is Some {
        let i2 = r2->Some_0;
        lemma_sum_mono(s, i2 + 1, s.len() as int);
        lemma_sum_nonneg(s, i2 + 1);
    }
}

/// A table of pointwise sums has the sums of the tail sums.
proof fn lemma_sum_pointwise_add(a: Seq<u64>, b: Seq<u64>, c: Seq<u64>, i: int)
    requires
        a.len() == b.len(),
        c.len() == a.len(),
        forall|k: int| 0 <= k < c.len() ==> c[k] == a[k] + b[k],
    ensures
        sum_from(c, i) == sum_from(a, i) + sum_from(b, i),
    decreases c.len() - i,
{
    if 0 <= i < c.len() {
        lemma_sum_pointwise_add(a, b, c, i + 1);
    }
}

/// Above any threshold, a merged histogram holds exactly the blocks its two
/// sources held there, so the mean over a merged source draws on both
/// sources' blocks.
pub proof fn lemma_merge_gated_count(pre: Stats, other: Stats, post: Stats, t: int)
    requires
        pre.spec_bins().len() == other.spec_bins().len(),
        post.spec_bins().len() == pre.spec_bins().len(),
        forall|k: int|
            0 <= k < post.spec_bins().len() ==> post.spec_bins()[k] == pre.spec_bins()[k]
                + other.spec_bins()[k],
    ensures
        sum_from(post.spec_bins(), t) == sum_from(pre.spec_bins(), t) + sum_from(
            other.spec_bins(),
            t,
        ),
{
    lemma_sum_pointwise_add(pre.spec_bins(), other.spec_bins(), post.spec_bins(), t);
}

/// A source with no gated blocks selects nothing: in an empty histogram the
/// gated count above any threshold is zero and every quantile is empty, so
/// the caller reports its minimum loudness for the mean and a zero range.
pub proof fn lemma_empty_histogram(s: &Stats, t: int, k: u64, r: Option<usize>)
    requires
        s.wf(),
        s.spec_count() == 0,
        0 <= t,
        is_quantile(s.spec_bins(), t, k, r),
    ensures
        sum_from(s.spec_bins(), t) == 0,
        r is None,
{
    lemma_sum_nonneg(s.spec_bins(), t);
    lemma_sum_mono(s.spec_bins(), 0, t);
    if r is Some {
        let i = r->Some_0;
        lemma_sum_nonneg(s.spec_bins(), i + 1);
    }
}

/// A zero range sum means every cell in the range is empty.
proof fn lemma_sum_zero_range(s: Seq<u64>, i: int, j: int)
    requires
        0 <= i <= j <= s.len(),
        sum_range(s, i, j) == 0,
    ensures
        forall|k: int| i <= k < j ==> s[k] == 0,
    decreases j - i,
{
    if i < j {
        lemma_sum_nonneg(s, i + 1);
        lemma_sum_mono(s, i + 1, j);
        lemma_sum_nonneg(s, j);
        assert(sum_range(s, i + 1, j) == 0);
        lemma_sum_zero_range(s, i + 1, j);
    }
}

/// The first gated block sits in the lowest occupied cell: rank one selects a
/// nonempty cell below which every gated cell is empty.
pub proof fn lemma_quantile_first(s: Seq<u64>, t: int, i: usize)
    requires
        0 <= t,
        is_quantile(s, t, 1u64, Some(i)),
    ensures
        s[i as int] > 0,
        forall|k: int| t <= k < i ==> s[k] == 0,
{
    lemma_sum_mono(s, t, i as int);
    lemma_sum_nonneg(s, i as int);
    lemma_sum_nonneg(s, t);
    lemma_sum_zero_range(s, t, i as int);
}

/// The last gated block sits in the highest occupied cell: the full rank
/// selects a nonempty cell above which every cell is empty.
pub proof fn lemma_quantile_last(s: Seq<u64>, t: int, i: usize)
    requires
        0 <= t,
        0 < sum_from(s, t) <= u64::MAX,
        is_quantile(s, t, sum_from(s, t) as u64, Some(i)),
    ensures
        s[i as int] > 0,
        forall|k: int| i < k < s.len() ==> s[k] == 0,
{
    lemma_sum_nonneg(s, i + 1);
    assert(sum_from(s, i + 1) == 0);
    assert(sum_range(s, i + 1, s.len() as int) == 0);
    lemma_sum_zero_range(s, i + 1, s.len() as int);
    lemma_sum_mono(s, t, i as int);
    lemma_sum_nonneg(s, t);
    if s[i as int] == 0 {
        assert(sum_range(s, t, i + 1) == sum_range(s, t, i as int));
    }
}

/// The full range is the loudness spread present: over a source with at
/// least one gated block, the lowest rank and the gated total select the
/// least and the greatest occupied cells, so their difference is the spread
/// between the greatest and the least loudness that the source recorded.
pub proof fn lemma_range_spans_occupied(s: Seq<u64>, t: int, lo: Option<usize>, hi: Option<usize>)
    requires
        0 <= t,
        0 < sum_from(s, t) <= u64::MAX,
        is_quantile(s, t, 1u64, lo),
        is_quantile(s, t, sum_from(s, t) as u64, hi),
    ensures
        lo is Some,
        hi is Some,
        lo matches Some(i) ==> s[i as int] > 0 && (forall|k: int| t <= k < i ==> s[k] == 0),
        hi matches Some(j) ==> s[j as int] > 0 && (forall|k: int| j < k < s.len() ==> s[k] == 0),
{
    if lo is Some {
        lemma_quantile_first(s, t, lo->Some_0);
    }
    if hi is Some {
        lemma_quantile_last(s, t, hi->Some_0);
    }
}

} // verus!
