use penplotter::flatten::{flatten_points, FlatElement};

#[test]
fn close_returns_to_subpath_start() {
    let els = vec![
        FlatElement::MoveTo((0.0, 0.0)),
        FlatElement::LineTo((1.0, 0.0)),
        FlatElement::LineTo((1.0, 1.0)),
        FlatElement::ClosePath,
    ];
    assert_eq!(flatten_points(&els, (0.0, 0.0)), vec![(0.0, 0.0), (1.0, 0.0), (1.0, 1.0), (0.0, 0.0)]);
}

#[test]
fn each_close_returns_to_its_own_subpath() {
    let els = vec![
        FlatElement::MoveTo((1, 2)),
        FlatElement::LineTo((3, 4)),
        FlatElement::ClosePath,
        FlatElement::MoveTo((5, 5)),
        FlatElement::LineTo((6, 5)),
        FlatElement::ClosePath,
        FlatElement::LineTo((7, 7)),
    ];
    assert_eq!(
        flatten_points(&els, (0, 0)),
        vec![(1, 2), (3, 4), (1, 2), (5, 5), (6, 5), (5, 5), (7, 7)]
    );
}

#[test]
fn close_before_any_point_gives_origin() {
    let els: Vec<FlatElement<(i32, i32)>> = vec![FlatElement::ClosePath, FlatElement::MoveTo((5, 5))];
    assert_eq!(flatten_points(&els, (0, 0)), vec![(0, 0), (5, 5)]);
}

#[test]
fn curves_add_nothing() {
    let els = vec![
        FlatElement::MoveTo(1),
        FlatElement::QuadTo(2, 3),
        FlatElement::CurveTo(4, 5, 6),
        FlatElement::ClosePath,
    ];
    // the close returns to the subpath start, not to the curve's end
    assert_eq!(flatten_points(&els, 0), vec![1, 1]);
}

#[test]
fn empty_outline_gives_no_points() {
    let els: Vec<FlatElement<u8>> = vec![];
    assert!(flatten_points(&els, 0).is_empty());
}
