//! Index arithmetic of the pre-filter's sample rings.
//!
//! Per channel the pre-filter keeps its recent history in one nine-slot
//! ring: the last inputs at the cursor, the first filter stage's outputs
//! six slots behind it, the second stage's three slots behind it.  The
//! recurrences themselves are floating point and live with the caller; the
//! wrap-around slot arithmetic is here.

use vstd::arithmetic::div_mod::lemma_fundamental_div_mod_converse;
use vstd::prelude::*;

verus! {

/// Slots in one channel's ring: three sample kinds, three slots each.
pub const FILTER_BUF_SIZE: usize = 9;

/// The slot `back` steps behind the cursor `offs`, wrapping around.
pub fn ring_slot(offs: usize, back: usize) -> (r: usize)
    requires
        offs < FILTER_BUF_SIZE,
        back < FILTER_BUF_SIZE,
    ensures
        r < FILTER_BUF_SIZE,
        r == (offs - back) % (FILTER_BUF_SIZE as int),
{
    let r = if back > offs {
        offs + FILTER_BUF_SIZE - back
    } else {
        offs - back
    };
    proof {
        if back > offs {
            lemma_fundamental_div_mod_converse(
                offs - back,
                FILTER_BUF_SIZE as int,
                -1,
                r as int,
            );
        } else {
            lemma_fundamental_div_mod_converse(offs - back, FILTER_BUF_SIZE as int, 0, r as int);
        }
    }
    r
}

/// The cursor one frame later.
pub fn advance(offs: usize) -> (r: usize)
    requires
        offs < FILTER_BUF_SIZE,
    ensures
        r < FILTER_BUF_SIZE,
        r == (offs + 1) % (FILTER_BUF_SIZE as int),
{
    let r = if offs + 1 == FILTER_BUF_SIZE {
        0
    } else {
        offs + 1
    };
    proof {
        if offs + 1 == FILTER_BUF_SIZE {
            lemma_fundamental_div_mod_converse(offs + 1, FILTER_BUF_SIZE as int, 1, 0);
        } else {
            lemma_fundamental_div_mod_converse(offs + 1, FILTER_BUF_SIZE as int, 0, r as int);
        }
    }
    r
}

} // verus!
