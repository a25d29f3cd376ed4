//! Turning the elements of a flattened outline into the point list that the
//! G-code output draws.
//!
//! The point type is left open: the elements carry whatever stands for a
//! point, and the result lists those same values.
use vstd::prelude::*;

verus! {

/// One element of a flattened outline.
#[derive(Debug)]
pub enum FlatElement<P> {
    MoveTo(P),
    LineTo(P),
    QuadTo(P, P),
    CurveTo(P, P, P),
    ClosePath,
}

/// The points drawn for a list of elements, and the start of the subpath
/// reached after them, beginning from `origin`: a move adds its point and
/// starts a new subpath there; a line adds its point; closing the path
/// returns to the start of the subpath and adds that point; curves add
/// nothing.
pub open spec fn flattened<P>(elements: Seq<FlatElement<P>>, origin: P) -> (Seq<P>, P)
    decreases elements.len(),
{
    if elements.len() == 0 {
        (Seq::empty(), origin)
    } else {
        let (points, start) = flattened(elements.drop_last(), origin);
        match elements.last() {
            FlatElement::MoveTo(p) => (points.push(p), p),
            FlatElement::LineTo(p) => (points.push(p), start),
            FlatElement::ClosePath => (points.push(start), start),
            _ => (points, start),
        }
    }
}

/// Whether an element adds a point.
pub open spec fn adds_point<P>(e: FlatElement<P>) -> bool {
    match e {
        FlatElement::MoveTo(_) | FlatElement::LineTo(_) | FlatElement::ClosePath => true,
        _ => false,
    }
}

/// The points of a flattened outline, in order: the end point of every move
/// and line, and for every close the start of its subpath, so that the
/// closing edge is drawn (`origin` before any move). Curve elements are
/// skipped.
pub fn flatten_points<P: Copy>(elements: &[FlatElement<P>], origin: P) -> (points: Vec<P>)
    ensures
        points@ == flattened(elements@, origin).0,
{
    let mut points: Vec<P> = Vec::new();
    let mut start = origin;
    let mut i: usize = 0;
    while i < elements.len()
        invariant
            i <= elements.len(),
            (points@, start) == flattened(elements@.take(i as int), origin),
        decreases elements.len() - i,
    {
        assert(elements@.take(i + 1).drop_last() =~= elements@.take(i as int));
        assert(elements@.take(i + 1).last() == elements@[i as int]);
        match &elements[i] {
            FlatElement::MoveTo(p) => {
                points.push(*p);
                start = *p;
            },
            FlatElement::LineTo(p) => {
                points.push(*p);
            },
            FlatElement::ClosePath => {
                points.push(start);
            },
            _ => {},
        }
        i = i + 1;
    }
    assert(elements@.take(elements.len() as int) =~= elements@);
    points
}

/// One point is drawn for every move, line and close, and none for curves.
pub proof fn lemma_flattened_len<P>(elements: Seq<FlatElement<P>>, origin: P)
    ensures
        flattened(elements, origin).0.len() == elements.filter(|e: FlatElement<P>| adds_point(e)).len(),
    decreases elements.len(),
{
    reveal_with_fuel(Seq::<_>::filter, 1);
    if elements.len() > 0 {
        lemma_flattened_len(elements.drop_last(), origin);
    }
}

/// Every drawn point is the origin or the end point of some move or line.
pub proof fn lemma_flattened_points_come_from_elements<P>(
    elements: Seq<FlatElement<P>>,
    origin: P,
    k: int,
)
    requires
        0 <= k < flattened(elements, origin).0.len(),
    ensures
        ({
            let q = flattened(elements, origin).0[k];
            q == origin || exists|i: int|
                0 <= i < elements.len() && (#[trigger] elements[i] == FlatElement::MoveTo(q)
                    || elements[i] == FlatElement::LineTo(q))
        }),
    decreases elements.len(),
{
    let rest = elements.drop_last();
    let (pts, start) = flattened(rest, origin);
    let q = flattened(elements, origin).0[k];
    if k < pts.len() {
        lemma_flattened_points_come_from_elements(rest, origin, k);
        if q != origin {
            let i = choose|i: int|
                0 <= i < rest.len() && (#[trigger] rest[i] == FlatElement::MoveTo(q) || rest[i]
                    == FlatElement::LineTo(q));
            assert(elements[i] == rest[i]);
        }
    } else {
        lemma_subpath_start_comes_from_moves(rest, origin);
        if q != origin {
            match elements.last() {
                FlatElement::MoveTo(p) => {
                    assert(elements[elements.len() - 1] == FlatElement::MoveTo(q));
                },
                FlatElement::LineTo(p) => {
                    assert(elements[elements.len() - 1] == FlatElement::LineTo(q));
                },
                _ => {
                    let i = choose|i: int|
                        0 <= i < rest.len() && #[trigger] rest[i] == FlatElement::MoveTo(q);
                    assert(elements[i] == rest[i]);
                },
            }
        }
    }
}

/// The start of the current subpath is the origin or the point of the last
/// move; a close adds exactly that point.
pub proof fn lemma_subpath_start_comes_from_moves<P>(elements: Seq<FlatElement<P>>, origin: P)
    ensures
        ({
            let start = flattened(elements, origin).1;
            start == origin || exists|i: int|
                0 <= i < elements.len() && #[trigger] elements[i] == FlatElement::MoveTo(start)
        }),
    decreases elements.len(),
{
    if elements.len() > 0 {
        let rest = elements.drop_last();
        lemma_subpath_start_comes_from_moves(rest, origin);
        let start = flattened(elements, origin).1;
        match elements.last() {
            FlatElement::MoveTo(p) => {
                assert(elements[elements.len() - 1] == FlatElement::MoveTo(start));
            },
            _ => {
                if start != origin {
                    let i = choose|i: int|
                        0 <= i < rest.len() && #[trigger] rest[i] == FlatElement::MoveTo(start);
                    assert(elements[i] == rest[i]);
                }
            },
        }
    }
}

/// A closed subpath ends where it began: after `MoveTo(a)`, any lines, and a
/// close, the last point drawn is `a` again.
pub proof fn lemma_close_returns_to_subpath_start<P>(
    before: Seq<FlatElement<P>>,
    a: P,
    lines: Seq<P>,
    origin: P,
)
    ensures
        ({
            let elements = before.push(FlatElement::MoveTo(a)) + lines.map_values(
                |p: P| FlatElement::LineTo(p),
            ) + seq![FlatElement::ClosePath];
            let points = flattened(elements, origin).0;
            &&& points.len() > 0
            &&& points.last() == a
        }),
{
    lemma_lines_keep_start(before.push(FlatElement::MoveTo(a)), lines, origin);
    let elements = before.push(FlatElement::MoveTo(a)) + lines.map_values(
        |p: P| FlatElement::LineTo(p),
    ) + seq![FlatElement::ClosePath];
    assert(elements.drop_last() =~= before.push(FlatElement::MoveTo(a)) + lines.map_values(
        |p: P| FlatElement::LineTo(p),
    ));
    let prefix = before.push(FlatElement::MoveTo(a));
    assert(prefix.drop_last() =~= before);
}

proof fn lemma_lines_keep_start<P>(prefix: Seq<FlatElement<P>>, lines: Seq<P>, origin: P)
    ensures
        flattened(prefix + lines.map_values(|p: P| FlatElement::LineTo(p)), origin).1 == flattened(
            prefix,
            origin,
        ).1,
    decreases lines.len(),
{
    let mapped = lines.map_values(|p: P| FlatElement::LineTo(p));
    if lines.len() == 0 {
        assert(prefix + mapped =~= prefix);
    } else {
        lemma_lines_keep_start(prefix, lines.drop_last(), origin);
        assert((prefix + mapped).drop_last() =~= prefix + lines.drop_last().map_values(
            |p: P| FlatElement::LineTo(p),
        ));
        assert((prefix + mapped).last() == FlatElement::<P>::LineTo(lines.last()));
    }
}

} // verus!
