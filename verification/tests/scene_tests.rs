use penplotter::scene::{collect_paths, extract_paths, NodeKind, PathRef, SceneGroup, SceneNode};
use penplotter::program::scene_to_gcode;

fn path(id: usize, segments: usize) -> SceneNode {
    SceneNode { kind: NodeKind::Path(PathRef { id, drawing_segments: segments }), subroots: vec![] }
}

fn group(children: Vec<SceneNode>) -> SceneGroup {
    SceneGroup { children }
}

fn ids(paths: &[PathRef]) -> Vec<usize> {
    paths.iter().map(|p| p.id).collect()
}

fn sample_scene() -> SceneGroup {
    // root: path 1, group(path 2 with a pattern subroot holding path 3, path 4), other node with a clip subroot holding path 5, path 6 (no segments)
    let with_pattern = SceneNode { kind: NodeKind::Path(PathRef { id: 2, drawing_segments: 3 }), subroots: vec![group(vec![path(3, 1)])] };
    let nested = SceneNode { kind: NodeKind::Group(group(vec![with_pattern, path(4, 2)])), subroots: vec![] };
    let other = SceneNode { kind: NodeKind::Other, subroots: vec![group(vec![path(5, 1)])] };
    group(vec![path(1, 4), nested, other, path(6, 0)])
}

#[test]
fn traversal_order_visits_subroots_after_their_node() {
    assert_eq!(ids(&collect_paths(&sample_scene())), vec![1, 2, 3, 4, 5, 6]);
}

#[test]
fn group_subroots_come_after_group_contents() {
    let g = SceneNode { kind: NodeKind::Group(group(vec![path(1, 1)])), subroots: vec![group(vec![path(2, 1)]), group(vec![path(3, 1)])] };
    let root = group(vec![g, path(4, 1)]);
    assert_eq!(ids(&collect_paths(&root)), vec![1, 2, 3, 4]);
}

#[test]
fn extract_keeps_paths_with_outline() {
    let kept = extract_paths(&sample_scene()).unwrap();
    assert_eq!(ids(&kept), vec![1, 2, 3, 4, 5]);
}

#[test]
fn outline_of_moves_and_closes_only_is_skipped() {
    // a path such as "M 0 0 Z" has a move and a close but nothing drawn
    let root = group(vec![path(0, 0), path(1, 1)]);
    assert_eq!(ids(&collect_paths(&root)), vec![0, 1]);
    assert_eq!(ids(&extract_paths(&root).unwrap()), vec![1]);
}

#[test]
fn extract_refuses_empty_root() {
    let err = extract_paths(&group(vec![])).unwrap_err();
    assert_eq!(err, "SVG tree is empty or has no root children");
}

#[test]
fn root_with_only_other_nodes_has_no_paths() {
    let root = group(vec![SceneNode { kind: NodeKind::Other, subroots: vec![] }]);
    assert!(collect_paths(&root).is_empty());
    assert_eq!(extract_paths(&root), Ok(vec![]));
}

#[test]
fn scene_program_follows_traversal_order() {
    let other = SceneNode { kind: NodeKind::Other, subroots: vec![group(vec![path(0, 1)])] };
    let root = group(vec![path(1, 1), other, path(2, 0)]);
    let points = vec![
        vec![("0".to_string(), "0".to_string())],
        vec![("1".to_string(), "1".to_string())],
        vec![],
    ];
    let text = scene_to_gcode(&root, &points, "1.00", "1", "D", "U").unwrap();
    assert_eq!(
        text,
        "G21 ; units = mm\nG90 ; absolute positioning\n; feedrate default: 1.00\n\
; --- path start ---\nG0 X1 Y1\nU ; pen up\nD ; pen down\nU ; pen up\n; --- path end ---\n\
; --- path start ---\nG0 X0 Y0\nU ; pen up\nD ; pen down\nU ; pen up\n; --- path end ---\nM2 ; end"
    );
}

#[test]
fn scene_program_needs_points_for_every_path() {
    let root = group(vec![path(3, 1)]);
    assert_eq!(scene_to_gcode(&root, &[vec![]], "1.00", "1", "D", "U"), None);
}
