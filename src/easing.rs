use vstd::prelude::*;

verus! {

/// Fixed-point unit of animation progress: `PROGRESS_ONE` stands for 1.0.
pub const PROGRESS_ONE: i64 = 1_000_000;

/// An easing curve, mapping linear progress to eased progress.
#[derive(Clone, Copy, Debug, PartialEq, Eq, Structural)]
pub enum Easing {
    /// The identity curve.
    Linear,
    /// Quadratic ease-in: starts slowly.
    QuadIn,
    /// Quadratic ease-out: ends slowly.
    QuadOut,
}

/// Eased progress for linear progress `t`, both in units of `PROGRESS_ONE`.
pub open spec fn eased(e: Easing, t: int) -> int {
    match e {
        Easing::Linear => t,
        Easing::QuadIn => t * t / PROGRESS_ONE as int,
        Easing::QuadOut => {
            let r = PROGRESS_ONE as int - t;
            PROGRESS_ONE as int - r * r / PROGRESS_ONE as int
        },
    }
}

proof fn lemma_square_scaled(t: int)
    requires
        0 <= t <= PROGRESS_ONE,
    ensures
        0 <= t * t <= PROGRESS_ONE * PROGRESS_ONE,
        0 <= t * t / PROGRESS_ONE as int <= PROGRESS_ONE,
{
    assert(0 <= t * t <= 1_000_000 * 1_000_000) by (nonlinear_arith)
        requires
            0 <= t <= 1_000_000,
    ;
    assert(t * t / 1_000_000 <= 1_000_000) by (nonlinear_arith)
        requires
            0 <= t * t <= 1_000_000 * 1_000_000,
    ;
}

impl Easing {
    /// Applies the curve to progress `t` in `[0, PROGRESS_ONE]`.
    pub fn apply(&self, t: i64) -> (r: i64)
        requires
            0 <= t <= PROGRESS_ONE,
        ensures
            r as int == eased(*self, t as int),
            0 <= r <= PROGRESS_ONE,
    {
        match self {
            Easing::Linear => t,
            Easing::QuadIn => {
                proof {
                    lemma_square_scaled(t as int);
                }
                t * t / PROGRESS_ONE
            },
            Easing::QuadOut => {
                let r: i64 = PROGRESS_ONE - t;
                proof {
                    lemma_square_scaled(r as int);
                }
                PROGRESS_ONE - r * r / PROGRESS_ONE
            },
        }
    }
}

} // verus!
