//! Ring buffers of `Copy` values and the iterators that walk them.
use vstd::prelude::*;

pub mod copy_ring;
pub mod iter;

verus! {

/// A value written as `len * k + i` with `0 <= i < len` leaves `i` modulo `len`.
pub proof fn lemma_mod_decompose(x: int, k: int, i: int, len: int)
    requires
        0 <= i < len,
        x == len * k + i,
    ensures
        x % len == i,
{
    vstd::arithmetic::div_mod::lemma_mod_multiples_vanish(k, i, len);
    vstd::arithmetic::div_mod::lemma_small_mod(i as nat, len as nat);
}

/// The index reached from `cur` after moving `n` places to the left
/// (towards the end) of a ring of `period` places.
pub fn new_idx_left(cur: usize, n: usize, period: usize) -> (r: usize)
    requires
        period > 0,
        cur + n <= usize::MAX,
    ensures
        r == (cur + n) % (period as int),
        r < period,
{
    (cur + n) % period
}

/// The index reached from `cur` after moving `n` places to the right
/// (towards the start) of a ring of `period` places, wrapping around.
pub fn new_idx_right(cur: usize, n: usize, period: usize) -> (r: usize)
    requires
        period > 0,
        cur <= isize::MAX,
        n <= isize::MAX,
        period <= isize::MAX,
    ensures
        r == (cur - n) % (period as int),
        r < period,
{
    let c = cur % period;
    let m = n % period;
    proof {
        vstd::arithmetic::div_mod::lemma_fundamental_div_mod(cur as int, period as int);
        vstd::arithmetic::div_mod::lemma_fundamental_div_mod(n as int, period as int);
        let q1 = cur as int / period as int;
        let q2 = n as int / period as int;
        assert((cur - n) == (c - m) + (q1 - q2) * period) by (nonlinear_arith)
            requires
                cur as int == period * q1 + c,
                n as int == period * q2 + m;
        if c >= m {
            vstd::arithmetic::div_mod::lemma_mod_multiples_vanish(q1 - q2, c - m, period as int);
            vstd::arithmetic::div_mod::lemma_small_mod((c - m) as nat, period as nat);
        } else {
            assert((cur - n) == (c + period - m) + (q1 - q2 - 1) * period) by (nonlinear_arith)
                requires (cur - n) == (c - m) + (q1 - q2) * period;
            vstd::arithmetic::div_mod::lemma_mod_multiples_vanish(q1 - q2 - 1, c + period - m, period as int);
            vstd::arithmetic::div_mod::lemma_small_mod((c + period - m) as nat, period as nat);
        }
    }
    if c >= m {
        c - m
    } else {
        c + (period - m)
    }
}

} // verus!
