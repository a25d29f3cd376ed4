//! The scene tree of a parsed SVG document, reduced to what the traversal
//! reads: groups hold nodes in document order, every node may own subroot
//! groups (clip paths, masks, patterns), and a path node carries the number it
//! is known by and how many line and curve segments its outline has.
use vstd::prelude::*;

verus! {

/// A path node: `id` names the path, `drawing_segments` counts the line and
/// curve segments of its outline (moves and closes are not counted).
#[derive(Clone, Copy, Debug, PartialEq, Eq, Structural)]
pub struct PathRef {
    pub id: usize,
    pub drawing_segments: usize,
}

/// A group of nodes, in document order.
pub struct SceneGroup {
    pub children: Vec<SceneNode>,
}

/// A node of the scene together with the subroot groups it owns.
pub struct SceneNode {
    pub kind: NodeKind,
    pub subroots: Vec<SceneGroup>,
}

/// What a node is: a nested group, a path, or anything else (image, text).
pub enum NodeKind {
    Group(SceneGroup),
    Path(PathRef),
    Other,
}

/// The paths of a group in traversal order: for each child in turn, the
/// paths of the child itself, then those of each of its subroot groups.
pub open spec fn group_paths(group: SceneGroup) -> Seq<PathRef>
    decreases group, 2int,
{
    nodes_paths(group.children@)
}

/// The paths of a list of nodes, one node after the other.
pub open spec fn nodes_paths(nodes: Seq<SceneNode>) -> Seq<PathRef>
    decreases nodes, 1int,
{
    if nodes.len() == 0 {
        Seq::empty()
    } else {
        nodes_paths(nodes.subrange(0, nodes.len() - 1)) + node_paths(nodes[nodes.len() - 1])
    }
}

/// The paths of a node: its own (for a path or a group), then those of its
/// subroot groups in order.
pub open spec fn node_paths(node: SceneNode) -> Seq<PathRef>
    decreases node, 0int,
{
    let own = match node.kind {
        NodeKind::Group(g) => group_paths(g),
        NodeKind::Path(p) => seq![p],
        NodeKind::Other => Seq::empty(),
    };
    own + groups_paths(node.subroots@)
}

/// The paths of a list of groups, one group after the other.
pub open spec fn groups_paths(groups: Seq<SceneGroup>) -> Seq<PathRef>
    decreases groups, 1int,
{
    if groups.len() == 0 {
        Seq::empty()
    } else {
        groups_paths(groups.subrange(0, groups.len() - 1)) + group_paths(groups[groups.len() - 1])
    }
}

/// A path whose outline draws something: it has at least one line or curve
/// segment. An outline made of moves and closes only is empty.
pub open spec fn has_outline(p: PathRef) -> bool {
    p.drawing_segments > 0
}

proof fn lemma_nodes_paths_step(nodes: Seq<SceneNode>, i: int)
    requires
        0 <= i < nodes.len(),
    ensures
        nodes_paths(nodes.subrange(0, i + 1)) == nodes_paths(nodes.subrange(0, i)) + node_paths(
            nodes[i],
        ),
{
    let s = nodes.subrange(0, i + 1);
    assert(s.subrange(0, s.len() - 1) =~= nodes.subrange(0, i));
}

proof fn lemma_groups_paths_step(groups: Seq<SceneGroup>, i: int)
    requires
        0 <= i < groups.len(),
    ensures
        groups_paths(groups.subrange(0, i + 1)) == groups_paths(groups.subrange(0, i))
            + group_paths(groups[i]),
{
    let s = groups.subrange(0, i + 1);
    assert(s.subrange(0, s.len() - 1) =~= groups.subrange(0, i));
}

fn collect_group(group: &SceneGroup, out: &mut Vec<PathRef>)
    ensures
        final(out)@ == old(out)@ + group_paths(*group),
    decreases group, 2int,
{
    let ghost start = out@;
    let mut i: usize = 0;
    while i < group.children.len()
        invariant
            i <= group.children.len(),
            out@ == start + nodes_paths(group.children@.subrange(0, i as int)),
        decreases group.children.len() - i,
    {
        proof {
            lemma_nodes_paths_step(group.children@, i as int);
        }
        collect_node(&group.children[i], out);
        i = i + 1;
        assert(out@ =~= start + nodes_paths(group.children@.subrange(0, i as int)));
    }
    assert(group.children@.subrange(0, i as int) =~= group.children@);
}

fn collect_node(node: &SceneNode, out: &mut Vec<PathRef>)
    ensures
        final(out)@ == old(out)@ + node_paths(*node),
    decreases node, 1int,
{
    let ghost start = out@;
    match &node.kind {
        NodeKind::Group(g) => collect_group(g, out),
        NodeKind::Path(p) => out.push(*p),
        NodeKind::Other => {},
    }
    let ghost own = out@;
    let mut j: usize = 0;
    while j < node.subroots.len()
        invariant
            j <= node.subroots.len(),
            out@ == own + groups_paths(node.subroots@.subrange(0, j as int)),
        decreases node.subroots.len() - j,
    {
        proof {
            lemma_groups_paths_step(node.subroots@, j as int);
        }
        collect_group(&node.subroots[j], out);
        j = j + 1;
        assert(out@ =~= own + groups_paths(node.subroots@.subrange(0, j as int)));
    }
    assert(node.subroots@.subrange(0, j as int) =~= node.subroots@);
    assert(out@ =~= start + node_paths(*node));
}

/// Every path of the scene under `root`, in traversal order: the children of
/// a group one after the other, each followed by the paths of its subroot
/// groups, nested groups visited where they stand.
pub fn collect_paths(root: &SceneGroup) -> (paths: Vec<PathRef>)
    ensures
        paths@ == group_paths(*root),
{
    let mut paths: Vec<PathRef> = Vec::new();
    collect_group(root, &mut paths);
    assert(paths@ =~= group_paths(*root));
    paths
}

/// The paths whose outline draws something (see `has_outline`), in
/// traversal order. A root group without
/// children is refused.
pub fn extract_paths(root: &SceneGroup) -> (result: Result<Vec<PathRef>, String>)
    ensures
        root.children@.len() == 0 <==> result is Err,
        result matches Err(e) ==> e@ == "SVG tree is empty or has no root children"@,
        result matches Ok(paths) ==> paths@ == group_paths(*root).filter(
            |p: PathRef| has_outline(p),
        ),
        result matches Ok(paths) ==> forall|p: PathRef|
            #![trigger paths@.contains(p)]
            paths@.contains(p) <==> group_paths(*root).contains(p) && p.drawing_segments > 0,
{
    if root.children.len() == 0 {
        return Err(String::from_str("SVG tree is empty or has no root children"));
    }
    let all = collect_paths(root);
    let mut kept: Vec<PathRef> = Vec::new();
    let mut i: usize = 0;
    while i < all.len()
        invariant
            i <= all.len(),
            kept@ == all@.take(i as int).filter(|p: PathRef| has_outline(p)),
        decreases all.len() - i,
    {
        reveal_with_fuel(Seq::<_>::filter, 1);
        assert(all@.take(i + 1).drop_last() =~= all@.take(i as int));
        assert(all@.take(i + 1).last() == all@[i as int]);
        if all[i].drawing_segments > 0 {
            kept.push(all[i]);
        }
        assert(kept@ =~= all@.take(i + 1).filter(|p: PathRef| has_outline(p)));
        i = i + 1;
    }
    assert(all@.take(all.len() as int) =~= all@);
    assert forall|p: PathRef|
        #![trigger kept@.contains(p)]
        kept@.contains(p) <==> group_paths(*root).contains(p) && p.drawing_segments > 0 by {
        lemma_outline_filter_members(all@, p);
    }
    Ok(kept)
}

proof fn lemma_outline_filter_members(paths: Seq<PathRef>, p: PathRef)
    ensures
        paths.filter(|q: PathRef| has_outline(q)).contains(p) <==> (paths.contains(p)
            && has_outline(p)),
    decreases paths.len(),
{
    reveal_with_fuel(Seq::<_>::filter, 1);
    let pred = |q: PathRef| has_outline(q);
    if paths.len() > 0 {
        let rest = paths.drop_last();
        lemma_outline_filter_members(rest, p);
        let f = paths.filter(pred);
        let g = rest.filter(pred);
        if has_outline(paths.last()) {
            assert(f == g.push(paths.last()));
        } else {
            assert(f == g);
        }
        if paths.contains(p) && has_outline(p) {
            let i = choose|i: int| 0 <= i < paths.len() && paths[i] == p;
            if i < paths.len() - 1 {
                assert(rest[i] == p);
                let j = choose|j: int| 0 <= j < g.len() && g[j] == p;
                assert(f[j] == p);
            } else {
                assert(f[f.len() - 1] == p);
            }
        }
        if f.contains(p) {
            let j = choose|j: int| 0 <= j < f.len() && f[j] == p;
            if j < g.len() {
                assert(g[j] == p);
                let i = choose|i: int| 0 <= i < rest.len() && rest[i] == p;
                assert(paths[i] == p);
            } else {
                assert(paths[paths.len() - 1] == p);
            }
        }
    }
}

/// A path is among those `extract_paths` keeps exactly when the traversal of
/// `collect_paths` reaches it and its outline has a line or curve segment
/// (any number of them).
pub proof fn lemma_extracted_paths_are_outlined_traversed_paths(root: SceneGroup, p: PathRef)
    ensures
        group_paths(root).filter(|q: PathRef| has_outline(q)).contains(p) <==> (group_paths(
            root,
        ).contains(p) && p.drawing_segments > 0),
{
    lemma_outline_filter_members(group_paths(root), p);
}

/// The paths of two node lists, one after the other, are the paths of the
/// two lists taken together: the traversal keeps document order.
pub proof fn lemma_nodes_paths_concat(first: Seq<SceneNode>, second: Seq<SceneNode>)
    ensures
        nodes_paths(first + second) == nodes_paths(first) + nodes_paths(second),
    decreases second.len(),
{
    if second.len() == 0 {
        assert(first + second =~= first);
        assert(nodes_paths(second) =~= Seq::<PathRef>::empty());
        assert(nodes_paths(first) + nodes_paths(second) =~= nodes_paths(first));
    } else {
        let all = first + second;
        let second_init = second.subrange(0, second.len() - 1);
        lemma_nodes_paths_concat(first, second_init);
        assert(all.subrange(0, all.len() - 1) =~= first + second_init);
        assert(all[all.len() - 1] == second[second.len() - 1]);
        assert(nodes_paths(first) + nodes_paths(second) =~= nodes_paths(first) + nodes_paths(
            second_init,
        ) + node_paths(second[second.len() - 1]));
    }
}


/// A path node contributes its own path first, then the paths of its
/// subroot groups, and nothing else.
pub proof fn lemma_path_node_paths(node: SceneNode, p: PathRef)
    requires
        node.kind == NodeKind::Path(p),
    ensures
        node_paths(node).len() == 1 + groups_paths(node.subroots@).len(),
        node_paths(node)[0] == p,
        node_paths(node).skip(1) == groups_paths(node.subroots@),
{
    assert(node_paths(node).skip(1) =~= groups_paths(node.subroots@));
}

/// Every path that stands directly among the children of a group is
/// reached by the traversal of that group.
pub proof fn lemma_child_path_reached(group: SceneGroup, i: int, p: PathRef)
    requires
        0 <= i < group.children@.len(),
        group.children@[i].kind == NodeKind::Path(p),
    ensures
        group_paths(group).contains(p),
{
    let c = group.children@;
    let before = c.subrange(0, i);
    let rest = c.subrange(i + 1, c.len() as int);
    assert(c =~= before + seq![c[i]] + rest);
    lemma_nodes_paths_concat(before + seq![c[i]], rest);
    lemma_nodes_paths_concat(before, seq![c[i]]);
    assert(seq![c[i]].subrange(0, 0) =~= Seq::<SceneNode>::empty());
    assert(nodes_paths(seq![c[i]]) == nodes_paths(Seq::<SceneNode>::empty()) + node_paths(c[i]));
    assert(nodes_paths(Seq::<SceneNode>::empty()) + node_paths(c[i]) =~= node_paths(c[i]));
    lemma_path_node_paths(c[i], p);
    let all = nodes_paths(before) + node_paths(c[i]) + nodes_paths(rest);
    assert(all[nodes_paths(before).len() as int] == p);
}

} // verus!
