//! Schedule of the sliding block aggregator.
//!
//! A measurement block spans `partition * overlap_size` frames, and
//! `partition` blocks are in flight at once, staggered by `overlap_size`
//! frames.  The caller keeps the partial block sums (they are means of
//! floating-point frame energies); this clock decides, frame by frame, how
//! many partials are live, when a sub-window boundary is reached, which slot
//! then holds a finished block, and which slot to clear for the next one.

use vstd::arithmetic::div_mod::lemma_fundamental_div_mod;
use vstd::arithmetic::div_mod::lemma_fundamental_div_mod_converse;
use vstd::arithmetic::div_mod::lemma_mod_bound;
use vstd::prelude::*;

verus! {

pub struct BlockClock {
    overlap_size: usize,
    ring_size: usize,
    ring_used: usize,
    ring_count: usize,
    ring_offs: usize,
}

impl BlockClock {
    pub closed spec fn wf(&self) -> bool {
        &&& 1 <= self.overlap_size
        &&& 1 <= self.ring_size
        &&& 1 <= self.ring_used <= self.ring_size
        &&& self.ring_count < self.overlap_size
        &&& self.ring_offs < self.ring_size
    }

    /// Frames per sub-window.
    pub closed spec fn spec_overlap(&self) -> int {
        self.overlap_size as int
    }

    /// Number of ring slots, i.e. of overlapping blocks in flight.
    pub closed spec fn spec_partition(&self) -> int {
        self.ring_size as int
    }

    /// Number of slots currently accumulating.
    pub closed spec fn spec_used(&self) -> int {
        self.ring_used as int
    }

    /// Frames accumulated in the current sub-window.
    pub closed spec fn spec_count(&self) -> int {
        self.ring_count as int
    }

    /// The front slot.
    pub closed spec fn spec_offs(&self) -> int {
        self.ring_offs as int
    }

    pub fn new(overlap_size: usize, partition: usize) -> (c: BlockClock)
        requires
            1 <= overlap_size,
            1 <= partition,
        ensures
            c.wf(),
            c.spec_overlap() == overlap_size,
            c.spec_partition() == partition,
            c.spec_used() == 1,
            c.spec_count() == 0,
            c.spec_offs() == 0,
    {
        BlockClock { overlap_size, ring_size: partition, ring_used: 1, ring_count: 0, ring_offs: 0 }
    }

    /// Number of partial sums the caller must add the incoming frame energy
    /// to: the first `active_slots()` slots of its ring.
    pub fn active_slots(&self) -> (n: usize)
        requires
            self.wf(),
        ensures
            n == self.spec_used(),
    {
        self.ring_used
    }

    /// Advance the clock by one frame.
    ///
    /// `None`: the sub-window is still filling.  `Some((slot, finished))`:
    /// the sub-window closed; `slot` is the ring slot that rotates to the
    /// front, `finished` says whether that slot holds a completed block —
    /// the caller then reads it, gates it, and clears it.
    pub fn tick(&mut self) -> (r: Option<(usize, bool)>)
        requires
            old(self).wf(),
        ensures
            final(self).wf(),
            spec_tick_rel(*old(self), *final(self), r),
    {
        self.ring_count = self.ring_count + 1;
        if self.ring_count == self.overlap_size {
            let next_offs = if self.ring_offs + 1 < self.ring_size {
                self.ring_offs + 1
            } else {
                0
            };
            let finished = self.ring_used == self.ring_size;
            self.ring_count = 0;
            self.ring_offs = next_offs;
            if self.ring_used < self.ring_size {
                self.ring_used = self.ring_used + 1;
            }
            Some((next_offs, finished))
        } else {
            None
        }
    }
}

/// How one frame advances the clock.
///
/// Below the sub-window boundary only the frame count moves.  At the
/// boundary the ring rotates: the next slot comes to the front, is reported
/// (as a finished block when every slot was live), and one more slot goes
/// live until all are.
pub open spec fn spec_tick_rel(pre: BlockClock, post: BlockClock, r: Option<(usize, bool)>) -> bool {
    &&& post.spec_overlap() == pre.spec_overlap()
    &&& post.spec_partition() == pre.spec_partition()
    &&& (pre.spec_count() + 1 < pre.spec_overlap()) ==> ({
        &&& r is None
        &&& post.spec_count() == pre.spec_count() + 1
        &&& post.spec_used() == pre.spec_used()
        &&& post.spec_offs() == pre.spec_offs()
    })
    &&& (pre.spec_count() + 1 == pre.spec_overlap()) ==> ({
        let next = if pre.spec_offs() + 1 < pre.spec_partition() {
            pre.spec_offs() + 1
        } else {
            0
        };
        &&& r == Some((next as usize, pre.spec_used() == pre.spec_partition()))
        &&& post.spec_count() == 0
        &&& post.spec_offs() == next
        &&& post.spec_used() == if pre.spec_used() < pre.spec_partition() {
            pre.spec_used() + 1
        } else {
            pre.spec_used()
        }
    })
}

/// The clock state after `j` completed sub-windows, in closed form: the
/// front slot has rotated `j` times, and one more slot is live per
/// sub-window until all `p` are.
pub open spec fn schedule_state(c: BlockClock, o: int, p: int, j: int) -> bool {
    &&& c.wf()
    &&& c.spec_overlap() == o
    &&& c.spec_partition() == p
    &&& c.spec_offs() == j % p
    &&& c.spec_used() == if j + 1 < p {
        j + 1
    } else {
        p
    }
}

/// A fresh clock is the schedule at zero sub-windows.
pub proof fn lemma_clock_start(c: BlockClock, o: int, p: int)
    requires
        1 <= o,
        1 <= p,
        c.wf(),
        c.spec_overlap() == o,
        c.spec_partition() == p,
        c.spec_used() == 1,
        c.spec_count() == 0,
        c.spec_offs() == 0,
    ensures
        schedule_state(c, o, p, 0),
{
    lemma_fundamental_div_mod_converse(0, p, 0, 0);
}

/// Block alignment: ticking from the state after `j` sub-windows either
/// stays inside the current sub-window, or closes it as the `j + 1`-th.
/// A closing sub-window reports a finished block exactly when at least
/// `p` sub-windows have closed — the first finished block emerges at frame
/// `p * o`, and later ones every `o` frames, each in the slot that rotates
/// to the front.
pub proof fn lemma_clock_schedule(
    pre: BlockClock,
    post: BlockClock,
    r: Option<(usize, bool)>,
    o: int,
    p: int,
    j: int,
)
    requires
        1 <= o,
        1 <= p,
        0 <= j,
        schedule_state(pre, o, p, j),
        spec_tick_rel(pre, post, r),
        post.wf(),
    ensures
        pre.spec_count() + 1 < o ==> schedule_state(post, o, p, j) && r is None,
        pre.spec_count() + 1 == o ==> schedule_state(post, o, p, j + 1) && r == Some(
            (((j + 1) % p) as usize, j + 1 >= p),
        ),
{
    lemma_mod_bound(j, p);
    lemma_fundamental_div_mod(j, p);
    if pre.spec_count() + 1 == o {
        let q = j / p;
        let m = j % p;
        assert(j == p * q + m);
        if m + 1 == p {
            assert(p * q + p == (q + 1) * p) by (nonlinear_arith);
            assert(j + 1 == (q + 1) * p + 0);
            lemma_fundamental_div_mod_converse(j + 1, p, q + 1, 0);
        } else {
            assert(p * q == q * p) by (nonlinear_arith);
            assert(j + 1 == q * p + (m + 1));
            lemma_fundamental_div_mod_converse(j + 1, p, q, m + 1);
        }
    }
}

/// The clock state after `n` frames, in closed form.
pub open spec fn run_state(c: BlockClock, o: int, p: int, n: int) -> bool {
    &&& c.wf()
    &&& c.spec_overlap() == o
    &&& c.spec_partition() == p
    &&& c.spec_count() == n % o
    &&& c.spec_offs() == (n / o) % p
    &&& c.spec_used() == if n / o + 1 < p {
        n / o + 1
    } else {
        p
    }
}

/// A fresh clock is the run at zero frames.
pub proof fn lemma_clock_run_start(c: BlockClock, o: int, p: int)
    requires
        1 <= o,
        1 <= p,
        c.wf(),
        c.spec_overlap() == o,
        c.spec_partition() == p,
        c.spec_used() == 1,
        c.spec_count() == 0,
        c.spec_offs() == 0,
    ensures
        run_state(c, o, p, 0),
{
    lemma_fundamental_div_mod_converse(0, o, 0, 0);
    lemma_fundamental_div_mod_converse(0, p, 0, 0);
}

/// Block alignment over a whole run: ticking the clock at frame `n + 1`
/// closes a sub-window exactly when `n + 1` is a multiple of `o`, and the
/// closing sub-window carries a finished block exactly when at least
/// `p * o` frames have passed — the first finished block at frame `p * o`,
/// then one every `o` frames.
pub proof fn lemma_clock_run_step(
    pre: BlockClock,
    post: BlockClock,
    r: Option<(usize, bool)>,
    o: int,
    p: int,
    n: int,
)
    requires
        1 <= o,
        1 <= p,
        0 <= n,
        run_state(pre, o, p, n),
        spec_tick_rel(pre, post, r),
        post.wf(),
    ensures
        run_state(post, o, p, n + 1),
        (r is Some) <==> (n + 1) % o == 0,
        r matches Some(b) ==> b.1 == (n + 1 >= p * o) && b.0 == ((n + 1) / o) % p,
{
    lemma_mod_bound(n, o);
    lemma_fundamental_div_mod(n, o);
    let j = n / o;
    lemma_mod_bound(j, p);
    assert(0 <= j) by (nonlinear_arith)
        requires
            n == o * j + n % o,
            0 <= n % o < o,
            1 <= o,
            0 <= n,
    ;
    if pre.spec_count() + 1 < o {
        assert(n + 1 == o * j + (n % o + 1));
        assert(o * j == j * o) by (nonlinear_arith);
        lemma_fundamental_div_mod_converse(n + 1, o, j, n % o + 1);
        lemma_clock_schedule(pre, post, r, o, p, j);
    } else {
        assert(n + 1 == o * j + o);
        assert(o * j + o == (j + 1) * o) by (nonlinear_arith);
        lemma_fundamental_div_mod_converse(n + 1, o, j + 1, 0);
        lemma_clock_schedule(pre, post, r, o, p, j);
        assert((j + 1 >= p) == (n + 1 >= p * o)) by (nonlinear_arith)
            requires
                1 <= o,
                n + 1 == (j + 1) * o,
        ;
    }
}

} // verus!
