//! Smoothing: every edge of a skeleton is replaced by a chain of short
//! edges along a curve.
//!
//! The curve of an edge is the quadratic curve from the child over a knee to
//! the node. The knee lies half an incoming step beyond the node, where the
//! incoming step is the step from the node's parent to the node (one unit
//! up at the root). Widths run evenly from the child's to the node's.
use crate::fixed::{clamp, clamp_wide, floor_div, Fixed, ONE_RAW};
use crate::graph::{TreeNode, TreeStructure};
use crate::vector::Vec3;
use vstd::prelude::*;

verus! {

/// The most points that can be put on an edge.
pub const SUBDIVISION_LIMIT: usize = 0x10_0000;

/// One coordinate of the point at `t / n` of the curve of an edge, in raw
/// units: `(child (n-t)^2 + (2 current + incoming) t (n-t) + current t^2) / n^2`,
/// rounded down. It is the child's at `t = 0` and the node's at `t = n`.
pub open spec fn curve_raw(child: int, current: int, incoming: int, t: int, n: int) -> int {
    (child * ((n - t) * (n - t)) + (2 * current + incoming) * (t * (n - t)) + current * (t * t)) / (
    n * n)
}

/// The width at `t / n` of the way from the child to the node, in raw
/// units: `(child (n-t) + current t) / n`, rounded down.
pub open spec fn eased_raw(child: int, current: int, t: int, n: int) -> int {
    (child * (n - t) + current * t) / n
}

/// The step that comes into a node at `current` from `parent`, in raw
/// units; one unit up where there is no parent.
pub open spec fn incoming_step(parent: Option<Vec3>, current: Vec3) -> (int, int, int) {
    match parent {
        Some(position) => (
            current.x.raw - position.x.raw,
            current.y.raw - position.y.raw,
            current.z.raw - position.z.raw,
        ),
        None => (0, ONE_RAW as int, 0),
    }
}

/// The point at `t / n` of the curve of the edge from `current` to `child`.
pub open spec fn curve_point(parent: Option<Vec3>, current: Vec3, child: Vec3, t: int, n: int) -> Vec3 {
    let step = incoming_step(parent, current);
    Vec3 {
        x: Fixed { raw: clamp(curve_raw(child.x.raw as int, current.x.raw as int, step.0, t, n)) as i64 },
        y: Fixed { raw: clamp(curve_raw(child.y.raw as int, current.y.raw as int, step.1, t, n)) as i64 },
        z: Fixed { raw: clamp(curve_raw(child.z.raw as int, current.z.raw as int, step.2, t, n)) as i64 },
    }
}

/// The width at `t / n` of the way from the child to the node.
pub open spec fn eased_width(current: Fixed, child: Fixed, t: int, n: int) -> Fixed {
    Fixed { raw: clamp(eased_raw(child.raw as int, current.raw as int, t, n)) as i64 }
}

/// The chain that replaces the edge from `current` to `child`, up to its
/// `upto`-th point from the child: the point `upto`, whose only branch is the
/// chain up to the point before, down to `below`, which stands for the child.
pub open spec fn chain(
    parent: Option<Vec3>,
    current: TreeNode,
    below: TreeNode,
    child_position: Vec3,
    child_width: Fixed,
    upto: nat,
    parts: nat,
) -> TreeNode
    decreases upto,
{
    if upto == 0 {
        below
    } else {
        TreeNode {
            global_position: curve_point(
                parent,
                current.global_position,
                child_position,
                upto as int,
                parts as int,
            ),
            width: eased_width(current.width, child_width, upto as int, parts as int),
            main_branch: Some(
                Box::new(
                    chain(
                        parent,
                        current,
                        below,
                        child_position,
                        child_width,
                        (upto - 1) as nat,
                        parts,
                    ),
                ),
            ),
            lateral_branch: None,
        }
    }
}

/// The subtree at `current`, which hangs on a node at `parent`, with
/// `count` points put on every edge.
pub open spec fn subdivided(parent: Option<Vec3>, current: TreeNode, count: nat) -> TreeNode
    decreases current,
{
    TreeNode {
        global_position: current.global_position,
        width: current.width,
        main_branch: subdivided_branch(parent, current, current.main_branch, count),
        lateral_branch: subdivided_branch(parent, current, current.lateral_branch, count),
    }
}

/// The branch `branch` of `current` with `count` points put on every edge,
/// the edge from `current` among them.
pub open spec fn subdivided_branch(
    parent: Option<Vec3>,
    current: TreeNode,
    branch: Option<Box<TreeNode>>,
    count: nat,
) -> Option<Box<TreeNode>>
    decreases branch,
{
    match branch {
        Some(child) => Some(
            Box::new(
                chain(
                    parent,
                    current,
                    subdivided(Some(current.global_position), *child, count),
                    child.global_position,
                    child.width,
                    count,
                    count + 1,
                ),
            ),
        ),
        None => None,
    }
}

/// On a straight chain of even steps, a single point put on an edge is the
/// middle of the edge: where the step into a node is the step on to its
/// child, the coordinate at one half of the curve is the mean of the node's
/// and the child's, rounded down.
pub proof fn lemma_straight_midpoint(current: int, step: int)
    ensures
        curve_raw(current + step, current, step, 1, 2) == (current + (current + step)) / 2,
{
    let double = 2 * current + step;
    assert(curve_raw(current + step, current, step, 1, 2) == (2 * double) / 4) by {
        assert((current + step) * ((2 - 1) * (2 - 1)) + (2 * current + step) * (1 * (2 - 1))
            + current * (1 * 1) == 2 * double) by (nonlinear_arith)
            requires
                double == 2 * current + step,
        ;
        assert(2 * 2 == 4) by (nonlinear_arith);
    }
}

/// Whatever the steps, a single point put on an edge lies a quarter of the
/// sum of the step into the node and the step on to the child beyond the
/// node: on the line of the chain where the two steps run along one line.
pub proof fn lemma_single_point(current: int, incoming: int, outgoing: int)
    ensures
        curve_raw(current + outgoing, current, incoming, 1, 2) == (4 * current + incoming
            + outgoing) / 4,
{
    assert((current + outgoing) * ((2 - 1) * (2 - 1)) + (2 * current + incoming) * (1 * (2 - 1))
        + current * (1 * 1) == 4 * current + incoming + outgoing) by (nonlinear_arith);
    assert(2 * 2 == 4) by (nonlinear_arith);
}

/// The number of edges of a branch, the edge that it hangs on among them.
pub open spec fn edges_on(branch: Option<Box<TreeNode>>) -> nat {
    match branch {
        Some(child) => 1 + child.edge_count(),
        None => 0,
    }
}

/// Smoothing keeps the shape of the skeleton: every edge becomes a chain of
/// `count + 1` edges, and nothing else is added.
pub proof fn lemma_subdivided_edges(parent: Option<Vec3>, current: TreeNode, count: nat)
    ensures
        subdivided(parent, current, count).edge_count() == (count + 1) * current.edge_count(),
        subdivided(parent, current, count).global_position == current.global_position,
        subdivided(parent, current, count).width == current.width,
    decreases current,
{
    lemma_subdivided_branch_edges(parent, current, current.main_branch, count);
    lemma_subdivided_branch_edges(parent, current, current.lateral_branch, count);
    let main = edges_on(current.main_branch);
    let lateral = edges_on(current.lateral_branch);
    assert(current.edge_count() == main + lateral);
    assert((count + 1) * (main + lateral) == (count + 1) * main + (count + 1) * lateral)
        by (nonlinear_arith);
}

proof fn lemma_subdivided_branch_edges(
    parent: Option<Vec3>,
    current: TreeNode,
    branch: Option<Box<TreeNode>>,
    count: nat,
)
    ensures
        edges_on(subdivided_branch(parent, current, branch, count)) == (count + 1) * edges_on(
            branch,
        ),
    decreases branch,
{
    match branch {
        Some(child) => {
            let below = subdivided(Some(current.global_position), *child, count);
            lemma_subdivided_edges(Some(current.global_position), *child, count);
            lemma_chain_edges(
                parent,
                current,
                below,
                child.global_position,
                child.width,
                count,
                count + 1,
            );
            assert((count + 1) * (1 + child.edge_count()) == (count + 1) + (count + 1)
                * child.edge_count()) by (nonlinear_arith);
        },
        None => {
            assert((count + 1) * 0 == 0) by (nonlinear_arith);
        },
    }
}

proof fn lemma_chain_edges(
    parent: Option<Vec3>,
    current: TreeNode,
    below: TreeNode,
    child_position: Vec3,
    child_width: Fixed,
    upto: nat,
    parts: nat,
)
    ensures
        chain(parent, current, below, child_position, child_width, upto, parts).edge_count()
            == upto + below.edge_count(),
    decreases upto,
{
    if upto > 0 {
        lemma_chain_edges(
            parent,
            current,
            below,
            child_position,
            child_width,
            (upto - 1) as nat,
            parts,
        );
    }
}

fn weighted(value: i128, weight: i128) -> (r: i128)
    requires
        -0x4_0000_0000_0000_0000 <= value <= 0x4_0000_0000_0000_0000,
        0 <= weight <= 0x400_0000_0000,
    ensures
        r == value * weight,
        -0x1000_0000_0000_0000_0000_0000_0000 <= r <= 0x1000_0000_0000_0000_0000_0000_0000,
{
    assert(-0x4_0000_0000_0000_0000 * 0x400_0000_0000 <= value * weight <= 0x4_0000_0000_0000_0000
        * 0x400_0000_0000) by (nonlinear_arith)
        requires
            -0x4_0000_0000_0000_0000 <= value <= 0x4_0000_0000_0000_0000,
            0 <= weight <= 0x400_0000_0000,
    ;
    value * weight
}

fn curve_coordinate(child: i64, current: i64, incoming: i128, t: usize, n: usize) -> (r: Fixed)
    requires
        0 < t < n <= SUBDIVISION_LIMIT,
        -0x1_0000_0000_0000_0000 <= incoming <= 0x1_0000_0000_0000_0000,
    ensures
        r.raw == clamp(curve_raw(child as int, current as int, incoming as int, t as int, n as int)),
{
    let whole = n as i128;
    let part = t as i128;
    let rest = whole - part;
    assert(0 <= rest * rest <= 0x10_0000 * 0x10_0000) by (nonlinear_arith)
        requires
            0 <= rest <= 0x10_0000,
    ;
    assert(0 <= part * rest <= 0x10_0000 * 0x10_0000) by (nonlinear_arith)
        requires
            0 <= rest <= 0x10_0000,
            0 <= part <= 0x10_0000,
    ;
    assert(0 <= part * part <= 0x10_0000 * 0x10_0000) by (nonlinear_arith)
        requires
            0 <= part <= 0x10_0000,
    ;
    assert(0 < whole * whole <= 0x10_0000 * 0x10_0000) by (nonlinear_arith)
        requires
            0 < whole <= 0x10_0000,
    ;
    let knee = 2 * (current as i128) + incoming;
    let sum = weighted(child as i128, rest * rest) + weighted(knee, part * rest) + weighted(
        current as i128,
        part * part,
    );
    Fixed { raw: clamp_wide(floor_div(sum, whole * whole)) }
}

fn eased(current: Fixed, child: Fixed, t: usize, n: usize) -> (r: Fixed)
    requires
        0 < t < n <= SUBDIVISION_LIMIT,
    ensures
        r == eased_width(current, child, t as int, n as int),
{
    let whole = n as i128;
    let part = t as i128;
    let sum = weighted(child.raw as i128, whole - part) + weighted(current.raw as i128, part);
    Fixed { raw: clamp_wide(floor_div(sum, whole)) }
}

fn point_on_curve(parent: Option<&TreeNode>, current: &TreeNode, child: Vec3, t: usize, n: usize) -> (r:
    Vec3)
    requires
        0 < t < n <= SUBDIVISION_LIMIT,
    ensures
        r == curve_point(
            match parent {
                Some(node) => Some(node.global_position),
                None => None,
            },
            current.global_position,
            child,
            t as int,
            n as int,
        ),
{
    let at = current.global_position;
    let (dx, dy, dz): (i128, i128, i128) = match parent {
        Some(node) => (
            (at.x.raw as i128) - (node.global_position.x.raw as i128),
            (at.y.raw as i128) - (node.global_position.y.raw as i128),
            (at.z.raw as i128) - (node.global_position.z.raw as i128),
        ),
        None => (0, ONE_RAW as i128, 0),
    };
    Vec3 {
        x: curve_coordinate(child.x.raw, at.x.raw, dx, t, n),
        y: curve_coordinate(child.y.raw, at.y.raw, dy, t, n),
        z: curve_coordinate(child.z.raw, at.z.raw, dz, t, n),
    }
}

/// Replaces the edge from `current` to `child` by a chain with
/// `subdivisions_count` points on it, and returns the top of the chain.
pub fn subdivide_branch(
    parent: Option<&TreeNode>,
    current: &TreeNode,
    child: TreeNode,
    subdivisions_count: usize,
) -> (r: TreeNode)
    requires
        subdivisions_count < SUBDIVISION_LIMIT,
    ensures
        r == chain(
            match parent {
                Some(node) => Some(node.global_position),
                None => None,
            },
            *current,
            child,
            child.global_position,
            child.width,
            subdivisions_count as nat,
            (subdivisions_count + 1) as nat,
        ),
{
    let child_pos = child.global_position;
    let child_width = child.width;
    let ghost below = child;
    let ghost from = match parent {
        Some(node) => Some(node.global_position),
        None => None,
    };
    let parts = subdivisions_count + 1;
    let mut new_current = child;
    let mut t: usize = 1;
    while t <= subdivisions_count
        invariant
            1 <= t <= subdivisions_count + 1,
            parts == subdivisions_count + 1,
            subdivisions_count < SUBDIVISION_LIMIT,
            from == (match parent {
                Some(node) => Some(node.global_position),
                None => None,
            }),
            new_current == chain(
                from,
                *current,
                below,
                child_pos,
                child_width,
                (t - 1) as nat,
                parts as nat,
            ),
        decreases subdivisions_count + 1 - t,
    {
        new_current = TreeNode {
            global_position: point_on_curve(parent, current, child_pos, t, parts),
            width: eased(current.width, child_width, t, parts),
            main_branch: Some(Box::new(new_current)),
            lateral_branch: None,
        };
        t = t + 1;
    }
    new_current
}

fn subdivide_child(
    parent: Option<&TreeNode>,
    current: &TreeNode,
    branch: &Option<Box<TreeNode>>,
    subdivisions_count: usize,
) -> (r: Option<Box<TreeNode>>)
    requires
        subdivisions_count < SUBDIVISION_LIMIT,
    ensures
        r == subdivided_branch(
            match parent {
                Some(node) => Some(node.global_position),
                None => None,
            },
            *current,
            *branch,
            subdivisions_count as nat,
        ),
    decreases *branch,
{
    match branch {
        Some(child) => {
            let below = subdivide_recursive(Some(current), child, subdivisions_count);
            Some(Box::new(subdivide_branch(parent, current, below, subdivisions_count)))
        },
        None => None,
    }
}

/// Puts `subdivisions_count` points on every edge of the subtree at
/// `current`, which hangs on `parent`.
pub fn subdivide_recursive(
    parent: Option<&TreeNode>,
    current: &TreeNode,
    subdivisions_count: usize,
) -> (r: TreeNode)
    requires
        subdivisions_count < SUBDIVISION_LIMIT,
    ensures
        r == subdivided(
            match parent {
                Some(node) => Some(node.global_position),
                None => None,
            },
            *current,
            subdivisions_count as nat,
        ),
    decreases *current,
{
    let main_branch = subdivide_child(parent, current, &current.main_branch, subdivisions_count);
    let lateral_branch = subdivide_child(
        parent,
        current,
        &current.lateral_branch,
        subdivisions_count,
    );
    TreeNode {
        global_position: current.global_position,
        width: current.width,
        main_branch,
        lateral_branch,
    }
}

/// Puts `subdivisions_count` points on every edge of `tree`. The nodes of
/// `tree` keep their places and widths, and every edge becomes a chain of
/// `subdivisions_count + 1` edges.
pub fn subdivide(tree: &TreeStructure, subdivisions_count: usize) -> (r: TreeStructure)
    requires
        subdivisions_count < SUBDIVISION_LIMIT,
    ensures
        r.root == subdivided(None, tree.root, subdivisions_count as nat),
        r.root.edge_count() == (subdivisions_count + 1) * tree.root.edge_count(),
{
    proof {
        lemma_subdivided_edges(None, tree.root, subdivisions_count as nat);
    }
    TreeStructure { root: subdivide_recursive(None, &tree.root, subdivisions_count) }
}

/// Puts `subdivisions_count` points on every edge of `tree` where that many
/// can be put on an edge; none where they are too many.
pub fn try_subdivide(tree: &TreeStructure, subdivisions_count: usize) -> (r: Option<TreeStructure>)
    ensures
        r is Some == (subdivisions_count < SUBDIVISION_LIMIT),
        r is Some ==> r.unwrap().root == subdivided(None, tree.root, subdivisions_count as nat),
        r is Some ==> r.unwrap().root.edge_count() == (subdivisions_count + 1)
            * tree.root.edge_count(),
{
    if subdivisions_count < SUBDIVISION_LIMIT {
        Some(subdivide(tree, subdivisions_count))
    } else {
        None
    }
}

} // verus!
