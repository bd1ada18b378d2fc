//! The periodic base functions a sinusoid can apply to its phase.
//!
//! Phases are measured in billionths of one full turn, and kernel values in
//! billionths of one amplitude unit.  The sine kernel is the classical
//! rational half-turn approximation `16u(1-u) / (5 - 4u(1-u))`, extended to a
//! full turn by odd symmetry; it is exact at every quarter turn and stays
//! within one amplitude unit everywhere.  The cosine kernel is the sine
//! kernel advanced by a quarter turn.

use vstd::prelude::*;

use crate::rational::{lemma_round_div_bound, lemma_round_div_exact, lemma_round_div_nonneg,
    round_div, spec_round_div, ROUND_BOUND};

verus! {

/// Billionths in one full turn, and in one amplitude unit.
pub const SCALE: i128 = 1_000_000_000;

/// Half a turn, in billionths.
pub const HALF_TURN: i128 = 500_000_000;

/// A quarter turn, in billionths.
pub const QUARTER_TURN: i128 = 250_000_000;

/// The periodic base function of a sinusoid, chosen at construction time.
#[derive(Clone, Copy, Debug, PartialEq, Eq, Structural)]
pub enum Kernel {
    Sine,
    Cosine,
}

/// Value of the half-turn sine arc at `a` billionths of a turn,
/// `0 <= a <= HALF_TURN`, in billionths of an amplitude unit.
pub open spec fn spec_bhaskara(a: int) -> int
    recommends
        0 <= a <= HALF_TURN,
{
    spec_round_div(
        16 * a * (HALF_TURN - a) * SCALE,
        5 * HALF_TURN * HALF_TURN - 4 * a * (HALF_TURN - a),
    )
}

/// Sine of `q` billionths of a turn, `0 <= q <= SCALE`.
pub open spec fn spec_sine(q: int) -> int
    recommends
        0 <= q <= SCALE,
{
    if q <= HALF_TURN {
        spec_bhaskara(q)
    } else {
        -spec_bhaskara(q - HALF_TURN)
    }
}

/// Cosine of `q` billionths of a turn: the sine a quarter turn later.
pub open spec fn spec_cosine(q: int) -> int
    recommends
        0 <= q <= SCALE,
{
    if q + QUARTER_TURN >= SCALE {
        spec_sine(q + QUARTER_TURN - SCALE)
    } else {
        spec_sine(q + QUARTER_TURN)
    }
}

/// The chosen kernel at `q` billionths of a turn.
pub open spec fn spec_kernel(k: Kernel, q: int) -> int
    recommends
        0 <= q <= SCALE,
{
    match k {
        Kernel::Sine => spec_sine(q),
        Kernel::Cosine => spec_cosine(q),
    }
}

/// The half-turn arc stays within `[0, SCALE]`.
pub proof fn lemma_bhaskara_range(a: int)
    requires
        0 <= a <= HALF_TURN,
    ensures
        0 <= spec_bhaskara(a) <= SCALE,
{
    let num = 16 * a * (HALF_TURN - a) * SCALE;
    let den = 5 * HALF_TURN * HALF_TURN - 4 * a * (HALF_TURN - a);
    assert(num >= 0 && den >= 1 && num <= SCALE * den) by (nonlinear_arith)
        requires
            0 <= a <= HALF_TURN,
            num == 16 * a * (HALF_TURN - a) * SCALE,
            den == 5 * HALF_TURN * HALF_TURN - 4 * a * (HALF_TURN - a),
    ;
    lemma_round_div_bound(num, den, SCALE as int);
    lemma_round_div_nonneg(num, den);
}

/// The sine kernel stays within one amplitude unit.
pub proof fn lemma_sine_range(q: int)
    requires
        0 <= q <= SCALE,
    ensures
        -SCALE <= spec_sine(q) <= SCALE,
{
    if q <= HALF_TURN {
        lemma_bhaskara_range(q);
    } else {
        lemma_bhaskara_range(q - HALF_TURN);
    }
}

/// Either kernel stays within one amplitude unit.
pub proof fn lemma_kernel_range(k: Kernel, q: int)
    requires
        0 <= q <= SCALE,
    ensures
        -SCALE <= spec_kernel(k, q) <= SCALE,
{
    match k {
        Kernel::Sine => lemma_sine_range(q),
        Kernel::Cosine => {
            if q + QUARTER_TURN >= SCALE {
                lemma_sine_range(q + QUARTER_TURN - SCALE);
            } else {
                lemma_sine_range(q + QUARTER_TURN);
            }
        },
    }
}

/// The sine kernel is exact at every quarter turn.
pub proof fn lemma_sine_quarter_turns()
    ensures
        spec_sine(0) == 0,
        spec_sine(QUARTER_TURN as int) == SCALE,
        spec_sine(HALF_TURN as int) == 0,
        spec_sine(3 * QUARTER_TURN) == -SCALE,
        spec_sine(SCALE as int) == 0,
{
    let d0 = 5 * HALF_TURN * HALF_TURN - 4 * 0 * (HALF_TURN - 0);
    lemma_round_div_exact(0, d0 as int);
    assert(spec_bhaskara(0) == 0);

    let pq = QUARTER_TURN * (HALF_TURN - QUARTER_TURN);
    let dq = 5 * HALF_TURN * HALF_TURN - 4 * pq;
    assert(16 * QUARTER_TURN * (HALF_TURN - QUARTER_TURN) * SCALE == SCALE * dq);
    lemma_round_div_exact(SCALE as int, dq as int);
    assert(spec_bhaskara(QUARTER_TURN as int) == SCALE);

    let dh = 5 * HALF_TURN * HALF_TURN - 4 * HALF_TURN * (HALF_TURN - HALF_TURN);
    lemma_round_div_exact(0, dh as int);
    assert(spec_bhaskara(HALF_TURN as int) == 0);

    assert(spec_sine(3 * QUARTER_TURN) == -spec_bhaskara(QUARTER_TURN as int));
    assert(spec_sine(SCALE as int) == -spec_bhaskara(HALF_TURN as int));
}

/// The cosine kernel is exact at every quarter turn.
pub proof fn lemma_cosine_quarter_turns()
    ensures
        spec_cosine(0) == SCALE,
        spec_cosine(QUARTER_TURN as int) == 0,
        spec_cosine(HALF_TURN as int) == -SCALE,
        spec_cosine(3 * QUARTER_TURN) == 0,
        spec_cosine(SCALE as int) == SCALE,
{
    lemma_sine_quarter_turns();
}

/// Odd symmetry: running the turn backwards negates the sine kernel.
pub proof fn lemma_sine_odd(q: int)
    requires
        0 <= q <= SCALE,
    ensures
        spec_sine(SCALE - q) == -spec_sine(q),
{
    if q == 0 || q == HALF_TURN || q == SCALE {
        lemma_sine_quarter_turns();
        let dz = 5 * HALF_TURN * HALF_TURN - 4 * 0 * (HALF_TURN - 0);
        lemma_round_div_exact(0, dz as int);
        let dh = 5 * HALF_TURN * HALF_TURN - 4 * HALF_TURN * (HALF_TURN - HALF_TURN);
        lemma_round_div_exact(0, dh as int);
    } else if q < HALF_TURN {
        let b = HALF_TURN - q;
        assert(16 * b * (HALF_TURN - b) * SCALE == 16 * q * (HALF_TURN - q) * SCALE
            && 4 * b * (HALF_TURN - b) == 4 * q * (HALF_TURN - q)) by (nonlinear_arith)
            requires
                b == HALF_TURN - q,
        ;
        assert(spec_bhaskara(b) == spec_bhaskara(q));
        assert(spec_sine(SCALE - q) == -spec_bhaskara(b));
    } else {
        let a = q - HALF_TURN;
        let b = HALF_TURN - a;
        assert(16 * b * (HALF_TURN - b) * SCALE == 16 * a * (HALF_TURN - a) * SCALE
            && 4 * b * (HALF_TURN - b) == 4 * a * (HALF_TURN - a)) by (nonlinear_arith)
            requires
                b == HALF_TURN - a,
        ;
        assert(spec_bhaskara(b) == spec_bhaskara(a));
        assert(spec_sine(SCALE - q) == spec_bhaskara(b));
        assert(spec_sine(q) == -spec_bhaskara(a));
    }
}

/// Executable half-turn arc.
fn bhaskara(a: i128) -> (r: i128)
    requires
        0 <= a <= HALF_TURN,
    ensures
        r == spec_bhaskara(a as int),
        0 <= r <= SCALE,
{
    proof {
        let ai = a as int;
        assert(0 <= 16 * ai * (HALF_TURN - ai) * SCALE <= ROUND_BOUND
            && 0 <= 16 * ai * (HALF_TURN - ai) <= ROUND_BOUND
            && 1 <= 5 * HALF_TURN * HALF_TURN - 4 * ai * (HALF_TURN - ai) <= ROUND_BOUND
            && 0 <= 4 * ai * (HALF_TURN - ai) <= ROUND_BOUND) by (nonlinear_arith)
            requires
                0 <= ai <= HALF_TURN,
        ;
        lemma_bhaskara_range(a as int);
    }
    let num = 16 * a * (HALF_TURN - a) * SCALE;
    let den = 5 * HALF_TURN * HALF_TURN - 4 * a * (HALF_TURN - a);
    round_div(num, den)
}

/// Executable kernel value at `q` billionths of a turn.
pub fn kernel_at(k: Kernel, q: i128) -> (r: i128)
    requires
        0 <= q <= SCALE,
    ensures
        r == spec_kernel(k, q as int),
        -SCALE <= r <= SCALE,
{
    match k {
        Kernel::Sine => {
            if q <= HALF_TURN {
                bhaskara(q)
            } else {
                -bhaskara(q - HALF_TURN)
            }
        },
        Kernel::Cosine => {
            let shifted = if q + QUARTER_TURN >= SCALE {
                q + QUARTER_TURN - SCALE
            } else {
                q + QUARTER_TURN
            };
            if shifted <= HALF_TURN {
                bhaskara(shifted)
            } else {
                -bhaskara(shifted - HALF_TURN)
            }
        },
    }
}

} // verus!
