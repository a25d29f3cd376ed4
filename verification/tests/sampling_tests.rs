use penplotter::sampling::{plan_segment, sample_fractions, sample_steps, SegmentKind, SegmentPlan};

#[test]
fn steps_are_at_least_two() {
    assert_eq!(sample_steps(0), 2);
    assert_eq!(sample_steps(1), 2);
    assert_eq!(sample_steps(2), 2);
    assert_eq!(sample_steps(10), 10);
}

#[test]
fn plans_follow_segment_kind() {
    assert_eq!(plan_segment(SegmentKind::MoveTo, false, 10), SegmentPlan::EndPoint);
    assert_eq!(plan_segment(SegmentKind::LineTo, true, 10), SegmentPlan::EndPoint);
    assert_eq!(plan_segment(SegmentKind::CubicTo, false, 10), SegmentPlan::Fixed(10));
    assert_eq!(plan_segment(SegmentKind::QuadTo, false, 1), SegmentPlan::Fixed(2));
    assert_eq!(plan_segment(SegmentKind::QuadTo, true, 1), SegmentPlan::Adaptive);
    assert_eq!(plan_segment(SegmentKind::CubicTo, true, 50), SegmentPlan::Adaptive);
    assert_eq!(plan_segment(SegmentKind::Close, false, 10), SegmentPlan::Skip);
}

#[test]
fn fractions_run_from_start_to_end() {
    assert_eq!(sample_fractions(2), vec![(0, 2), (1, 2), (2, 2)]);
    let f = sample_fractions(sample_steps(10));
    assert_eq!(f.len(), 11);
    assert_eq!(f[0], (0, 10));
    assert_eq!(f[10], (10, 10));
}
