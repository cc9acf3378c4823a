//! Lifetime properties of a walk action, stated over the same model
//! functions that `WalkState::advance` promises in its contract: what
//! happens over an arbitrary sequence of ticks, however the elapsed time is
//! chunked across them.

use vstd::arithmetic::mul::{lemma_mul_is_distributive_add_other_way, lemma_mul_nonnegative};
use vstd::prelude::*;

use crate::action::{clamped_advance, emitted_component, lemma_component_le_len,
    lemma_emitted_bounds, norm_sq};
use crate::math::is_isqrt;

verus! {

/// Every tick time in the sequence is non-negative.
pub open spec fn all_nonneg(dts: Seq<int>) -> bool {
    forall|i: int| 0 <= i < dts.len() ==> dts[i] >= 0
}

/// The total of a sequence of tick times.
pub open spec fn seq_sum(dts: Seq<int>) -> int
    decreases dts.len(),
{
    if dts.len() == 0 {
        0
    } else {
        seq_sum(dts.drop_last()) + dts.last()
    }
}

/// The path covered after feeding the ticks `dts` one by one to an action
/// of the given speed and path length, starting from no progress.
pub open spec fn travelled_after(dts: Seq<int>, speed: int, len: int) -> int
    decreases dts.len(),
{
    if dts.len() == 0 {
        0
    } else {
        clamped_advance(travelled_after(dts.drop_last(), speed, len), dts.last() * speed, len)
    }
}

/// The sum of the per-tick effects along one displacement component `c`
/// over the ticks `dts`: each tick contributes the difference of the
/// cumulative emitted amounts before and after it.
pub open spec fn effect_sum_component(c: int, dts: Seq<int>, speed: int, len: int) -> int
    decreases dts.len(),
{
    if dts.len() == 0 {
        0
    } else {
        effect_sum_component(c, dts.drop_last(), speed, len) + emitted_component(
            c,
            travelled_after(dts, speed, len),
            len,
        ) - emitted_component(c, travelled_after(dts.drop_last(), speed, len), len)
    }
}

/// Progress monotonicity: over any sequence of non-negative ticks the path
/// covered stays between zero and the path's length, and feeding one more
/// tick never moves it backwards.
pub proof fn lemma_progress_monotone(dts: Seq<int>, dt: int, speed: int, len: int)
    requires
        all_nonneg(dts),
        dt >= 0,
        speed >= 0,
        len >= 0,
    ensures
        0 <= travelled_after(dts, speed, len) <= len,
        travelled_after(dts, speed, len) <= travelled_after(dts.push(dt), speed, len),
    decreases dts.len(),
{
    if dts.len() > 0 {
        assert(all_nonneg(dts.drop_last())) by {
            assert(forall|i: int|
                0 <= i < dts.drop_last().len() ==> dts.drop_last()[i] == dts[i]);
        }
        lemma_progress_monotone(dts.drop_last(), dt, speed, len);
        lemma_mul_nonnegative(dts.last(), speed);
    }
    assert(dts.push(dt).drop_last() =~= dts);
    assert(dts.push(dt).last() == dt);
    lemma_mul_nonnegative(dt, speed);
}

/// The path covered is exactly the distance the ticks afford, clamped to
/// the path's length.
pub proof fn lemma_travelled_is_total(dts: Seq<int>, speed: int, len: int)
    requires
        all_nonneg(dts),
        speed >= 0,
        len >= 0,
    ensures
        travelled_after(dts, speed, len) == if seq_sum(dts) * speed >= len {
            len
        } else {
            seq_sum(dts) * speed
        },
    decreases dts.len(),
{
    if dts.len() == 0 {
        assert(0 * speed == 0);
    } else {
        let prefix = dts.drop_last();
        let d = dts.last();
        assert(all_nonneg(prefix)) by {
            assert(forall|i: int| 0 <= i < prefix.len() ==> prefix[i] == dts[i]);
        }
        lemma_travelled_is_total(prefix, speed, len);
        lemma_mul_nonnegative(d, speed);
        lemma_seq_sum_nonneg(prefix);
        lemma_mul_nonnegative(seq_sum(prefix), speed);
        lemma_mul_is_distributive_add_other_way(speed, seq_sum(prefix), d);
        assert(seq_sum(dts) * speed == seq_sum(prefix) * speed + d * speed);
    }
}

/// The total of non-negative ticks is non-negative.
pub proof fn lemma_seq_sum_nonneg(dts: Seq<int>)
    requires
        all_nonneg(dts),
    ensures
        seq_sum(dts) >= 0,
    decreases dts.len(),
{
    if dts.len() > 0 {
        assert(all_nonneg(dts.drop_last())) by {
            assert(forall|i: int|
                0 <= i < dts.drop_last().len() ==> dts.drop_last()[i] == dts[i]);
        }
        lemma_seq_sum_nonneg(dts.drop_last());
    }
}

/// The per-tick effects telescope: their sum is the cumulative emitted
/// amount at the final progress.
proof fn lemma_effect_sum_telescopes(c: int, dts: Seq<int>, speed: int, len: int)
    requires
        all_nonneg(dts),
        speed >= 0,
        len >= 0,
        -len <= c <= len,
    ensures
        effect_sum_component(c, dts, speed, len) == emitted_component(
            c,
            travelled_after(dts, speed, len),
            len,
        ),
    decreases dts.len(),
{
    if dts.len() == 0 {
        lemma_emitted_bounds(c, 0, 0, len);
    } else {
        assert(all_nonneg(dts.drop_last())) by {
            assert(forall|i: int|
                0 <= i < dts.drop_last().len() ==> dts.drop_last()[i] == dts[i]);
        }
        lemma_effect_sum_telescopes(c, dts.drop_last(), speed, len);
    }
}

/// Displacement conservation: over the whole lifetime of one walk — any
/// number of non-negative ticks whose total elapsed time at the action's
/// speed suffices to cover the path — the returned effects sum to exactly
/// the requested displacement, however the time was chunked across ticks.
pub proof fn lemma_displacement_conservation(
    dx: int,
    dy: int,
    len: int,
    speed: int,
    dts: Seq<int>,
)
    requires
        is_isqrt(norm_sq(dx, dy), len),
        speed >= 0,
        all_nonneg(dts),
        seq_sum(dts) * speed >= len,
    ensures
        effect_sum_component(dx, dts, speed, len) == dx,
        effect_sum_component(dy, dts, speed, len) == dy,
{
    lemma_component_le_len(dx, dy, len);
    lemma_travelled_is_total(dts, speed, len);
    lemma_effect_sum_telescopes(dx, dts, speed, len);
    lemma_effect_sum_telescopes(dy, dts, speed, len);
    lemma_emitted_bounds(dx, 0, len, len);
    lemma_emitted_bounds(dy, 0, len, len);
}

/// Degenerate displacement: a walk whose displacement has zero length is
/// complete after its very first tick, whatever `dt >= 0` that tick
/// carries, and every effect along the way is zero.
pub proof fn lemma_degenerate_completes_immediately(c: int, dt: int, speed: int)
    requires
        dt >= 0,
        speed >= 0,
    ensures
        is_isqrt(norm_sq(0, 0), 0),
        clamped_advance(0, dt * speed, 0) == 0,
        emitted_component(c, 0, 0) == 0,
{
    lemma_mul_nonnegative(dt, speed);
}

} // verus!
