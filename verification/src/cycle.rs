//! Index arithmetic for cycling through the sorted list of configurations.

use vstd::arithmetic::div_mod::{
    lemma_add_mod_noop_right, lemma_fundamental_div_mod, lemma_fundamental_div_mod_converse_mod,
};
use vstd::prelude::*;

verus! {

/// The position reached from `current` by moving `direction` places through
/// `count` positions arranged in a ring.
///
/// The remainder is the mathematical one: it lies in `0..count` for every
/// sign of `current + direction`.
pub open spec fn wrapped_index(current: int, direction: int, count: int) -> int {
    (current + direction) % count
}

/// The position reached from `start` after `times` moves of `direction`
/// places each.
pub open spec fn wrapped_index_after(start: int, direction: int, count: int, times: nat) -> int
    decreases times,
{
    if times == 0 {
        start
    } else {
        wrapped_index(
            wrapped_index_after(start, direction, count, (times - 1) as nat),
            direction,
            count,
        )
    }
}

proof fn lemma_split_remainder(x: int, q: int, r: int, m: int)
    requires
        m > 0,
        0 <= r < m,
        x == q * m + r,
    ensures
        x % m == r,
{
    lemma_fundamental_div_mod_converse_mod(x, m, q, r);
}

/// Computes [`wrapped_index`] without leaving the range of `usize`.
pub fn next_index(current: usize, direction: i32, count: usize) -> (next: usize)
    requires
        count > 0,
    ensures
        next == wrapped_index(current as int, direction as int, count as int),
        next < count,
{
    let base: usize = current % count;
    let forward: bool = direction >= 0;
    let magnitude: u32 = if forward {
        direction as u32
    } else {
        (-(direction as i64)) as u32
    };
    let shift: usize = (magnitude as usize) % count;
    proof {
        let m = count as int;
        let qc = (current as int) / m;
        let qs = (magnitude as int) / m;
        lemma_fundamental_div_mod(current as int, m);
        lemma_fundamental_div_mod(magnitude as int, m);
        assert(current as int == m * qc + base as int);
        assert(magnitude as int == m * qs + shift as int);
        if forward {
            assert(direction as int == magnitude as int);
            if (base as int) + (shift as int) >= m {
                assert(current + direction == (qc + qs + 1) * m + (base + shift - m))
                    by (nonlinear_arith)
                    requires
                        current as int == m * qc + base as int,
                        direction as int == m * qs + shift as int,
                ;
                lemma_split_remainder(current + direction, qc + qs + 1, base + shift - m, m);
            } else {
                assert(current + direction == (qc + qs) * m + (base + shift)) by (nonlinear_arith)
                    requires
                        current as int == m * qc + base as int,
                        direction as int == m * qs + shift as int,
                ;
                lemma_split_remainder(current + direction, qc + qs, base + shift, m);
            }
        } else {
            assert(direction as int == -(magnitude as int));
            if base >= shift {
                assert(current + direction == (qc - qs) * m + (base - shift)) by (nonlinear_arith)
                    requires
                        current as int == m * qc + base as int,
                        direction as int == -(m * qs + shift as int),
                ;
                lemma_split_remainder(current + direction, qc - qs, base - shift, m);
            } else {
                assert(current + direction == (qc - qs - 1) * m + (base + m - shift))
                    by (nonlinear_arith)
                    requires
                        current as int == m * qc + base as int,
                        direction as int == -(m * qs + shift as int),
                ;
                lemma_split_remainder(current + direction, qc - qs - 1, base + m - shift, m);
            }
        }
    }
    if forward {
        if base >= count - shift {
            base - (count - shift)
        } else {
            base + shift
        }
    } else {
        if base >= shift {
            base - shift
        } else {
            base + (count - shift)
        }
    }
}

/// After `times` moves the position is the one that a single move of
/// `times * direction` places reaches.
pub proof fn lemma_wrapped_index_after(start: int, direction: int, count: int, times: nat)
    requires
        count > 0,
    ensures
        times > 0 ==> wrapped_index_after(start, direction, count, times) == wrapped_index(
            start,
            times * direction,
            count,
        ),
        times == 0 ==> wrapped_index_after(start, direction, count, times) == start,
    decreases times,
{
    if times > 1 {
        let before = (times - 1) as nat;
        lemma_wrapped_index_after(start, direction, count, before);
        let travelled = start + before * direction;
        assert(wrapped_index_after(start, direction, count, before) == travelled % count);
        lemma_add_mod_noop_right(direction, travelled, count);
        assert(travelled + direction == start + times * direction) by (nonlinear_arith)
            requires
                travelled == start + before * direction,
                before == times - 1,
        ;
        assert(direction + travelled % count == travelled % count + direction);
    } else if times == 1 {
        assert(wrapped_index_after(start, direction, count, 0) == start);
        assert(1 * direction == direction) by (nonlinear_arith);
    }
}

/// Cycling forward visits every position once and then comes back: among
/// `count` positions, `count` forward moves from any position end on that
/// position again, and fewer moves (but at least one) end elsewhere.
pub proof fn lemma_forward_cycle_is_full(start: int, count: int, times: nat)
    requires
        count >= 1,
        0 <= start < count,
    ensures
        wrapped_index_after(start, 1, count, count as nat) == start,
        0 < times < count ==> wrapped_index_after(start, 1, count, times) != start,
        0 <= wrapped_index_after(start, 1, count, times) < count,
{
    lemma_wrapped_index_after(start, 1, count, count as nat);
    assert(count * 1 == count) by (nonlinear_arith);
    assert(start + count == 1 * count + start) by (nonlinear_arith);
    lemma_split_remainder(start + count, 1, start, count);
    lemma_wrapped_index_after(start, 1, count, times);
    if times > 0 {
        assert(times * 1 == times) by (nonlinear_arith);
        lemma_fundamental_div_mod(start + times, count);
        vstd::arithmetic::div_mod::lemma_mod_bound(start + times, count);
        if times < count {
            if start + times < count {
                assert(start + times == 0 * count + (start + times)) by (nonlinear_arith);
                lemma_split_remainder(start + times, 0, start + times, count);
            } else {
                assert(start + times == 1 * count + (start + times - count)) by (nonlinear_arith);
                lemma_split_remainder(start + times, 1, start + times - count, count);
            }
        }
    }
}

/// Cycling backward is a full cycle too: `count` backward moves from any
/// position end on that position again.
pub proof fn lemma_backward_cycle_returns(start: int, count: int)
    requires
        count >= 1,
        0 <= start < count,
    ensures
        wrapped_index_after(start, -1, count, count as nat) == start,
{
    lemma_wrapped_index_after(start, -1, count, count as nat);
    assert(count * (-1) == -count) by (nonlinear_arith);
    assert(start - count == (-1) * count + start) by (nonlinear_arith);
    lemma_split_remainder(start - count, -1, start, count);
}

/// Both ends of the list wrap around: one place back from the first position
/// is the last position, and one place forward from the last is the first.
pub proof fn lemma_wrap_around(count: int)
    requires
        count >= 1,
    ensures
        wrapped_index(0, -1, count) == count - 1,
        wrapped_index(count - 1, 1, count) == 0,
{
    assert(0 - 1 == (-1) * count + (count - 1)) by (nonlinear_arith);
    lemma_split_remainder(0 + (-1), -1, count - 1, count);
    assert(count - 1 + 1 == 1 * count + 0) by (nonlinear_arith);
    lemma_split_remainder(count - 1 + 1, 1, 0, count);
}

} // verus!
