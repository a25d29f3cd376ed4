//! How each segment of a path outline is turned into points: which segments
//! give their end point, which are sampled, and at which curve parameters a
//! fixed sampling evaluates a curve.
use vstd::prelude::*;

verus! {

/// The kind of an outline segment.
#[derive(Clone, Copy, Debug, PartialEq, Eq, Structural)]
pub enum SegmentKind {
    MoveTo,
    LineTo,
    QuadTo,
    CubicTo,
    Close,
}

/// What is done with a segment.
#[derive(Clone, Copy, Debug, PartialEq, Eq, Structural)]
pub enum SegmentPlan {
    /// Give the segment's end point.
    EndPoint,
    /// Subdivide the curve until each piece is within the tolerance.
    Adaptive,
    /// Evaluate the curve at `i / steps` for every `i` from `0` to `steps`.
    Fixed(usize),
    /// Give no point.
    Skip,
}

/// The number of steps of a fixed sampling: the requested number, but at
/// least two.
pub open spec fn steps_for(samples: usize) -> usize {
    if samples < 2 {
        2
    } else {
        samples
    }
}

pub open spec fn plan_for(kind: SegmentKind, adaptive: bool, samples: usize) -> SegmentPlan {
    match kind {
        SegmentKind::MoveTo | SegmentKind::LineTo => SegmentPlan::EndPoint,
        SegmentKind::QuadTo | SegmentKind::CubicTo => if adaptive {
            SegmentPlan::Adaptive
        } else {
            SegmentPlan::Fixed(steps_for(samples))
        },
        SegmentKind::Close => SegmentPlan::Skip,
    }
}

/// The number of steps of a fixed sampling with `samples` requested.
pub fn sample_steps(samples: usize) -> (steps: usize)
    ensures
        steps == steps_for(samples),
        samples >= 2 ==> steps == samples,
        samples < 2 ==> steps == 2,
{
    if samples < 2 {
        2
    } else {
        samples
    }
}

/// Moves and lines give their end point, closing gives nothing, and curves
/// are subdivided adaptively when a tolerance is given (`adaptive`) or else
/// sampled at a fixed number of steps.
pub fn plan_segment(kind: SegmentKind, adaptive: bool, samples: usize) -> (plan: SegmentPlan)
    ensures
        plan == plan_for(kind, adaptive, samples),
        (kind == SegmentKind::MoveTo || kind == SegmentKind::LineTo) ==> plan
            == SegmentPlan::EndPoint,
        kind == SegmentKind::Close ==> plan == SegmentPlan::Skip,
        (kind == SegmentKind::QuadTo || kind == SegmentKind::CubicTo) && adaptive ==> plan
            == SegmentPlan::Adaptive,
        (kind == SegmentKind::QuadTo || kind == SegmentKind::CubicTo) && !adaptive && samples >= 2
            ==> plan == SegmentPlan::Fixed(samples),
        (kind == SegmentKind::QuadTo || kind == SegmentKind::CubicTo) && !adaptive && samples < 2
            ==> plan == SegmentPlan::Fixed(2),
{
    match kind {
        SegmentKind::MoveTo | SegmentKind::LineTo => SegmentPlan::EndPoint,
        SegmentKind::QuadTo | SegmentKind::CubicTo => if adaptive {
            SegmentPlan::Adaptive
        } else {
            SegmentPlan::Fixed(sample_steps(samples))
        },
        SegmentKind::Close => SegmentPlan::Skip,
    }
}

/// The curve parameters of a fixed sampling with `steps` steps, each as the
/// fraction `(i, steps)` standing for `i / steps`, for `i` from `0` to `steps`.
pub fn sample_fractions(steps: usize) -> (fractions: Vec<(usize, usize)>)
    requires
        steps < usize::MAX,
    ensures
        fractions@.len() == steps + 1,
        forall|i: int| 0 <= i <= steps ==> #[trigger] fractions@[i] == (i as usize, steps),
{
    let mut fractions: Vec<(usize, usize)> = Vec::new();
    let mut i: usize = 0;
    while i <= steps
        invariant
            i <= steps + 1,
            steps < usize::MAX,
            fractions@.len() == i,
            forall|k: int| 0 <= k < i ==> #[trigger] fractions@[k] == (k as usize, steps),
        decreases steps + 1 - i,
    {
        fractions.push((i, steps));
        i = i + 1;
    }
    fractions
}

/// A fixed sampling uses exactly the number of steps requested, except that
/// fewer than two are raised to two: no request is capped.
pub proof fn lemma_steps_follow_request(samples: usize)
    ensures
        samples >= 2 ==> steps_for(samples) == samples,
        samples < 2 ==> steps_for(samples) == 2,
        steps_for(samples) >= samples,
        steps_for(samples) >= 2,
{
}

/// What each kind of segment gives, whatever the tolerance and sample count:
/// moves and lines always give their end point, closes give nothing, curves
/// are subdivided adaptively exactly when a tolerance is given and otherwise
/// sampled at the requested number of steps (at least two).
pub proof fn lemma_segment_plans(adaptive: bool, samples: usize)
    ensures
        plan_for(SegmentKind::MoveTo, adaptive, samples) == SegmentPlan::EndPoint,
        plan_for(SegmentKind::LineTo, adaptive, samples) == SegmentPlan::EndPoint,
        plan_for(SegmentKind::Close, adaptive, samples) == SegmentPlan::Skip,
        adaptive ==> plan_for(SegmentKind::QuadTo, adaptive, samples) == SegmentPlan::Adaptive,
        adaptive ==> plan_for(SegmentKind::CubicTo, adaptive, samples) == SegmentPlan::Adaptive,
        !adaptive && samples >= 2 ==> plan_for(SegmentKind::QuadTo, adaptive, samples)
            == SegmentPlan::Fixed(samples),
        !adaptive && samples >= 2 ==> plan_for(SegmentKind::CubicTo, adaptive, samples)
            == SegmentPlan::Fixed(samples),
        !adaptive && samples < 2 ==> plan_for(SegmentKind::QuadTo, adaptive, samples)
            == SegmentPlan::Fixed(2),
        !adaptive && samples < 2 ==> plan_for(SegmentKind::CubicTo, adaptive, samples)
            == SegmentPlan::Fixed(2),
{
}

/// A fixed sampling starts at the curve's start (`0 / steps`), ends at its
/// end (`steps / steps`), and its parameters strictly increase.
pub proof fn lemma_fixed_sampling_covers_curve(samples: usize, fractions: Seq<(usize, usize)>)
    requires
        fractions.len() == steps_for(samples) + 1,
        forall|i: int|
            0 <= i <= steps_for(samples) ==> #[trigger] fractions[i] == (
                i as usize,
                steps_for(samples),
            ),
    ensures
        fractions.len() >= 3,
        fractions[0].0 == 0,
        fractions.last().0 == fractions.last().1,
        forall|i: int, j: int|
            0 <= i < j < fractions.len() ==> #[trigger] fractions[i].0 < #[trigger] fractions[j].0
                && fractions[i].1 == fractions[j].1 > 0,
{
    assert(fractions[0] == (0usize, steps_for(samples)));
    assert(fractions[fractions.len() - 1] == (steps_for(samples), steps_for(samples)));
}

} // verus!
