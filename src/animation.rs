use vstd::prelude::*;

use crate::easing::PROGRESS_ONE;

verus! {

/// An animatable value. `MoveBy` is input-only: it is turned into a `MoveTo`
/// before an animation is recorded.
#[derive(Clone, Copy, Debug, PartialEq, Eq, Structural)]
pub enum AnimationType {
    MoveTo(i64, i64),
    MoveBy(i64, i64),
    Opacity(i64),
}

/// Whether two values can be blended: both positions or both opacities.
pub open spec fn variants_match(a: AnimationType, b: AnimationType) -> bool {
    match (a, b) {
        (AnimationType::MoveTo(_, _), AnimationType::MoveTo(_, _)) => true,
        (AnimationType::Opacity(_), AnimationType::Opacity(_)) => true,
        _ => false,
    }
}

/// Progress `t` limited to `[0, PROGRESS_ONE]`.
pub open spec fn clamp_progress(t: int) -> int {
    if t < 0 {
        0
    } else if t > PROGRESS_ONE {
        PROGRESS_ONE as int
    } else {
        t
    }
}

/// `to` moved toward `from` by the fraction `w / PROGRESS_ONE` of their distance,
/// rounded toward `to`.
pub open spec fn blend(from: int, to: int, w: int) -> int {
    if from >= to {
        to + (from - to) * w / PROGRESS_ONE as int
    } else {
        to - (to - from) * w / PROGRESS_ONE as int
    }
}

/// The value between `a` (at progress 0) and `b` (at progress `PROGRESS_ONE`).
pub open spec fn interpolated(a: AnimationType, b: AnimationType, t: int) -> AnimationType {
    let w = PROGRESS_ONE - clamp_progress(t);
    match (a, b) {
        (AnimationType::MoveTo(x0, y0), AnimationType::MoveTo(x1, y1)) => AnimationType::MoveTo(
            blend(x0 as int, x1 as int, w) as i64,
            blend(y0 as int, y1 as int, w) as i64,
        ),
        (AnimationType::Opacity(o0), AnimationType::Opacity(o1)) => AnimationType::Opacity(
            blend(o0 as int, o1 as int, w) as i64,
        ),
        _ => a,
    }
}

proof fn lemma_blend_between(from: int, to: int, w: int)
    requires
        0 <= w <= PROGRESS_ONE,
    ensures
        from >= to ==> to <= blend(from, to, w) <= from,
        from < to ==> from <= blend(from, to, w) <= to,
{
    let d = if from >= to { from - to } else { to - from };
    assert(0 <= d * w / 1_000_000 <= d) by (nonlinear_arith)
        requires
            0 <= w <= 1_000_000,
            d >= 0,
    ;
}

/// Exact value of `blend`, computed without overflow.
fn blend_exec(from: i64, to: i64, w: i64) -> (r: i64)
    requires
        0 <= w <= PROGRESS_ONE,
    ensures
        r as int == blend(from as int, to as int, w as int),
{
    proof {
        lemma_blend_between(from as int, to as int, w as int);
    }
    if from >= to {
        let d: u128 = (from as i128 - to as i128) as u128;
        assert(d * (w as u128) <= 0x1_0000_0000_0000_0000 * 1_000_000) by (nonlinear_arith)
            requires
                d <= 0x1_0000_0000_0000_0000,
                0 <= w <= 1_000_000,
        ;
        let q: u128 = d * (w as u128) / (PROGRESS_ONE as u128);
        (to as i128 + q as i128) as i64
    } else {
        let d: u128 = (to as i128 - from as i128) as u128;
        assert(d * (w as u128) <= 0x1_0000_0000_0000_0000 * 1_000_000) by (nonlinear_arith)
            requires
                d <= 0x1_0000_0000_0000_0000,
                0 <= w <= 1_000_000,
        ;
        let q: u128 = d * (w as u128) / (PROGRESS_ONE as u128);
        (to as i128 - q as i128) as i64
    }
}

impl AnimationType {
    /// Blends `self` (at progress 0) toward `other` (at progress `PROGRESS_ONE`);
    /// `t` is clamped to `[0, PROGRESS_ONE]` first.
    pub fn interpolate(&self, other: &AnimationType, t: i64) -> (r: AnimationType)
        requires
            variants_match(*self, *other),
        ensures
            r == interpolated(*self, *other, t as int),
            variants_match(r, *other),
    {
        let c: i64 = if t < 0 {
            0
        } else if t > PROGRESS_ONE {
            PROGRESS_ONE
        } else {
            t
        };
        let w: i64 = PROGRESS_ONE - c;
        match (self, other) {
            (AnimationType::MoveTo(x0, y0), AnimationType::MoveTo(x1, y1)) => {
                let x = blend_exec(*x0, *x1, w);
                let y = blend_exec(*y0, *y1, w);
                AnimationType::MoveTo(x, y)
            },
            (AnimationType::Opacity(o0), AnimationType::Opacity(o1)) => {
                AnimationType::Opacity(blend_exec(*o0, *o1, w))
            },
            _ => {
                *self
            },
        }
    }
}

/// Blending a value with itself gives it back, at every progress.
pub proof fn interpolate_identity(a: AnimationType, t: int)
    requires
        variants_match(a, a),
    ensures
        interpolated(a, a, t) == a,
{
    let w = PROGRESS_ONE - clamp_progress(t);
    assert(0 * w / PROGRESS_ONE as int == 0) by (nonlinear_arith);
}

} // verus!
