//! The G-code program of a whole scene: its paths in traversal order, each
//! drawn through the points listed for it.
use vstd::prelude::*;

use crate::output::{generate_full_gcode, join_lines, path_view, program_lines};
use crate::scene::{collect_paths, group_paths, PathRef, SceneGroup};

verus! {

/// Whether every path of `order` names one of `count` point lists.
pub open spec fn ids_below(order: Seq<PathRef>, count: nat) -> bool {
    forall|i: int| 0 <= i < order.len() ==> (#[trigger] order[i]).id < count
}

/// The point lists of the paths of `order`, looked up by their ids.
pub open spec fn ordered_points(
    order: Seq<PathRef>,
    points: Seq<Vec<(String, String)>>,
) -> Seq<Seq<(Seq<char>, Seq<char>)>> {
    order.map_values(|p: PathRef| path_view(points[p.id as int]@))
}

fn copy_points(points: &[(String, String)]) -> (copy: Vec<(String, String)>)
    ensures
        path_view(copy@) == path_view(points@),
{
    let mut copy: Vec<(String, String)> = Vec::new();
    let mut i: usize = 0;
    while i < points.len()
        invariant
            i <= points.len(),
            copy@.len() == i,
            path_view(copy@) == path_view(points@).take(i as int),
        decreases points.len() - i,
    {
        let x = String::from_str(points[i].0.as_str());
        let y = String::from_str(points[i].1.as_str());
        let ghost c0 = copy@;
        assert(x@ == points@[i as int].0@ && y@ == points@[i as int].1@);
        copy.push((x, y));
        assert(copy@ == c0.push(copy@[i as int]));
        assert(path_view(copy@) =~= path_view(c0).push((points@[i as int].0@, points@[i as int].1@)));
        assert(path_view(copy@) =~= path_view(points@).take(i + 1));
        i = i + 1;
    }
    assert(path_view(points@).take(points.len() as int) =~= path_view(points@));
    copy
}

/// The program for the scene under `root`: every path in traversal order,
/// drawn through `path_points[id]` for its id, with the header and end
/// command of `generate_full_gcode`. `None` when a path names no point list.
pub fn scene_to_gcode(
    root: &SceneGroup,
    path_points: &[Vec<(String, String)>],
    feedrate_summary: &str,
    feedrate: &str,
    pen_down: &str,
    pen_up: &str,
) -> (program: Option<String>)
    ensures
        program is Some <==> ids_below(group_paths(*root), path_points@.len()),
        program matches Some(text) ==> text@ == join_lines(
            program_lines(
                ordered_points(group_paths(*root), path_points@),
                feedrate_summary@,
                feedrate@,
                pen_down@,
                pen_up@,
            ),
        ),
{
    let order = collect_paths(root);
    let mut paths: Vec<Vec<(String, String)>> = Vec::new();
    let mut i: usize = 0;
    while i < order.len()
        invariant
            i <= order.len(),
            order@ == group_paths(*root),
            ids_below(order@.take(i as int), path_points@.len()),
            paths@.len() == i,
            crate::output::paths_view(paths@) == ordered_points(order@.take(i as int), path_points@),
        decreases order.len() - i,
    {
        let id = order[i].id;
        if id >= path_points.len() {
            assert(!ids_below(order@, path_points@.len()));
            return None;
        }
        let copy = copy_points(path_points[id].as_slice());
        let ghost p0 = paths@;
        paths.push(copy);
        assert(paths@ == p0.push(paths@[i as int]));
        assert(crate::output::paths_view(paths@) =~= crate::output::paths_view(p0).push(
            path_view(path_points@[id as int]@),
        ));
        assert(order@.take(i + 1) =~= order@.take(i as int).push(order@[i as int]));
        assert(crate::output::paths_view(paths@) =~= ordered_points(
            order@.take(i + 1),
            path_points@,
        ));
        i = i + 1;
    }
    assert(order@.take(order.len() as int) =~= order@);
    Some(generate_full_gcode(paths.as_slice(), feedrate_summary, feedrate, pen_down, pen_up))
}

} // verus!
