//! The tube mesh of a skeleton.
//!
//! Every node of the skeleton gets a ring of vertices around it, at a right
//! angle to the way the branch runs there, and every edge gets a strip of
//! triangles between the rings at its two ends.
use crate::fixed::{Fixed, ONE_RAW};
use crate::graph::{lemma_edges_counted, TreeNode, TreeStructure};
use crate::math::{sin_cos, sin_cos_spec, TWO_PI_RAW};
use crate::orthogonal::{across, at_right_angle, lemma_across};
use crate::vector::{
    lemma_normalized_length, lemma_scaled_length, square, unit_bounded, unit_length, Vec3,
};
use vstd::prelude::*;

verus! {

/// The number of segments of the ring around a node.
pub const NODE_CIRCLE_SEGMENTS: usize = 16;

/// The number of vertices of the ring around a node: one for each segment.
/// The last segment runs from the last vertex back to the first.
pub const RING_SIZE: usize = 16;

/// The number of indices of the strip along an edge: two triangles for each
/// segment of the ring.
pub const STRIP_SIZE: usize = 96;

/// A vertex of a ring and the outward normal there.
#[derive(Clone, Copy, Debug, PartialEq, Eq, Structural)]
pub struct OrientedVertex {
    pub position: Vec3,
    pub normal: Vec3,
}

/// A triangle mesh: vertex positions, a normal for each vertex, and three
/// indices into the vertices for each triangle.
#[derive(Debug, PartialEq, Eq)]
pub struct Mesh {
    pub vertices: Vec<Vec3>,
    pub normals: Vec<Vec3>,
    pub indices: Vec<u32>,
}

/// What a mesh holds.
pub struct MeshView {
    pub vertices: Seq<Vec3>,
    pub normals: Seq<Vec3>,
    pub indices: Seq<u32>,
}

/// A mesh that is being built.
#[derive(Debug, PartialEq, Eq)]
pub struct TreeMeshBuilder {
    pub vertices: Vec<Vec3>,
    pub normals: Vec<Vec3>,
    pub indices: Vec<u32>,
}

impl View for Mesh {
    type V = MeshView;

    open spec fn view(&self) -> MeshView {
        MeshView { vertices: self.vertices@, normals: self.normals@, indices: self.indices@ }
    }
}

impl View for TreeMeshBuilder {
    type V = MeshView;

    open spec fn view(&self) -> MeshView {
        MeshView { vertices: self.vertices@, normals: self.normals@, indices: self.indices@ }
    }
}

/// The angle of the `index`-th of `segments` steps around a full turn.
pub open spec fn circle_angle(index: nat, segments: nat) -> Fixed {
    if segments == 0 {
        Fixed { raw: 0 }
    } else {
        Fixed { raw: TWO_PI_RAW }.scaled(Fixed { raw: index as i64 }, Fixed { raw: segments as i64 })
    }
}

/// The `index`-th vertex of a level circle of `segments` segments around the
/// origin: its normal is `(cos a, 0, sin a)` for the angle `a` of the step,
/// its position the normal times `radius`.
pub open spec fn circle_vertex(radius: Fixed, index: nat, segments: nat) -> OrientedVertex {
    let (sine, cosine) = sin_cos_spec(circle_angle(index, segments));
    let normal = Vec3 { x: cosine, y: Fixed { raw: 0 }, z: sine };
    OrientedVertex { position: normal.scaled_by(radius), normal }
}

/// The normal of the vertex `vertex` of a level circle, turned as the up
/// axis is turned into `direction` and set across `direction`, with length
/// one.
pub open spec fn oriented_normal(vertex: OrientedVertex, direction: Vec3) -> Vec3 {
    across(vertex.normal.rotated(Vec3::up(), direction), direction)
}

/// The vertex `vertex` of a level circle of radius `radius`, turned as the
/// up axis is turned into `direction` and moved to `position`: it lies
/// `radius` along its normal from `position`.
pub open spec fn oriented(
    vertex: OrientedVertex,
    radius: Fixed,
    position: Vec3,
    direction: Vec3,
) -> OrientedVertex {
    OrientedVertex {
        position: oriented_normal(vertex, direction).scaled_by(radius).plus(position),
        normal: oriented_normal(vertex, direction),
    }
}

/// The ring of `segments` vertices around `position`, at a right angle to
/// `direction`.
pub open spec fn oriented_circle(
    radius: Fixed,
    segments: nat,
    position: Vec3,
    direction: Vec3,
) -> Seq<OrientedVertex> {
    Seq::new(
        segments,
        |i: int| oriented(circle_vertex(radius, i as nat, segments), radius, position, direction),
    )
}

/// The way the branch runs at `current`: the sum of the step from the
/// parent and of the steps to the children, with length one; the up axis
/// where the sum is zero.
pub open spec fn orientation(parent: Option<Vec3>, current: TreeNode) -> Vec3 {
    let from_parent = match parent {
        Some(position) => Vec3::zero().plus(current.global_position.minus(position)),
        None => Vec3::zero(),
    };
    let with_main = match current.main_branch {
        Some(child) => from_parent.plus(child.global_position.minus(current.global_position)),
        None => from_parent,
    };
    let with_both = match current.lateral_branch {
        Some(child) => with_main.plus(child.global_position.minus(current.global_position)),
        None => with_main,
    };
    if with_both == Vec3::zero() {
        Vec3::up()
    } else {
        with_both.normalized()
    }
}

/// The indices of a ring whose first vertex has the index `base`.
pub open spec fn ring_indices(base: nat) -> Seq<u32> {
    Seq::new(RING_SIZE as nat, |i: int| (base + i) as u32)
}

/// The number of quads between two rings: as many as the shorter ring has
/// vertices, the last one closing the ring.
pub open spec fn quad_count(current: Seq<u32>, child: Seq<u32>) -> nat {
    if current.len() < child.len() {
        current.len()
    } else {
        child.len()
    }
}

/// The place in a ring that follows `j` where the ring has `quads` places:
/// the first place follows the last.
pub open spec fn following(j: int, quads: nat) -> int {
    if j + 1 == quads {
        0
    } else {
        j + 1
    }
}

/// The `k`-th index of the strip of `quads` quads between two rings. With
/// `n` for the place that follows `j`, quad `j` is the two triangles
/// `(current[n], current[j], child[j])` and `(child[j], child[n], current[n])`.
pub open spec fn strip_index(current: Seq<u32>, child: Seq<u32>, quads: nat, k: int) -> u32 {
    let j = k / 6;
    let next = following(j, quads);
    let corner = k % 6;
    if corner == 0 || corner == 5 {
        current[next]
    } else if corner == 1 {
        current[j]
    } else if corner == 2 || corner == 3 {
        child[j]
    } else {
        child[next]
    }
}

/// The first `done` quads of the strip of `quads` quads between two rings.
pub open spec fn strip_upto(current: Seq<u32>, child: Seq<u32>, quads: nat, done: nat) -> Seq<u32> {
    Seq::new(6 * done, |k: int| strip_index(current, child, quads, k))
}

/// The strip of `quads` quads between two rings, which goes once around
/// them.
pub open spec fn strip(current: Seq<u32>, child: Seq<u32>, quads: nat) -> Seq<u32> {
    strip_upto(current, child, quads, quads)
}

/// The strip between the rings of a node and of its child is thirty-two
/// triangles, two for each segment of the ring. With `n` for the place that
/// follows `j`, the two triangles of segment `j` are
/// `(current[n], current[j], child[j])` and `(child[j], child[n], current[n])`:
/// they cover the quad between the two segments and share its diagonal from
/// `current[n]` to `child[j]`. The last segment runs back to the first
/// vertex of each ring.
pub proof fn lemma_strip_triangles(current: nat, child: nat, j: int)
    requires
        0 <= j < NODE_CIRCLE_SEGMENTS,
        current + RING_SIZE <= u32::MAX,
        child + RING_SIZE <= u32::MAX,
    ensures
        ({
            let rings = (ring_indices(current), ring_indices(child));
            let triangles = strip(rings.0, rings.1, quad_count(rings.0, rings.1));
            let next = following(j, RING_SIZE as nat);
            &&& triangles.len() == 3 * 32
            &&& triangles.subrange(6 * j, 6 * j + 3) == seq![
                (current + next) as u32,
                (current + j) as u32,
                (child + j) as u32,
            ]
            &&& triangles.subrange(6 * j + 3, 6 * j + 6) == seq![
                (child + j) as u32,
                (child + next) as u32,
                (current + next) as u32,
            ]
        }),
{
    let rings = (ring_indices(current), ring_indices(child));
    let triangles = strip(rings.0, rings.1, quad_count(rings.0, rings.1));
    let next = following(j, RING_SIZE as nat);
    assert(triangles.subrange(6 * j, 6 * j + 3) =~= seq![
        (current + next) as u32,
        (current + j) as u32,
        (child + j) as u32,
    ]);
    assert(triangles.subrange(6 * j + 3, 6 * j + 6) =~= seq![
        (child + j) as u32,
        (child + next) as u32,
        (current + next) as u32,
    ]);
}

/// `mesh` with the vertices and normals of `ring` at its end.
pub open spec fn with_ring(mesh: MeshView, ring: Seq<OrientedVertex>) -> MeshView {
    MeshView {
        vertices: mesh.vertices + Seq::new(ring.len(), |i: int| ring[i].position),
        normals: mesh.normals + Seq::new(ring.len(), |i: int| ring[i].normal),
        indices: mesh.indices,
    }
}

/// `mesh` after the subtree at `current`, which hangs on a node at `parent`,
/// has been built into it: the ring of `current`, then for each child, the
/// main one first, the subtree of the child and the strip between the two
/// rings.
pub open spec fn built(mesh: MeshView, parent: Option<Vec3>, current: TreeNode) -> MeshView
    decreases current,
{
    let ring = ring_indices(mesh.vertices.len());
    let own = with_ring(
        mesh,
        oriented_circle(
            current.width,
            NODE_CIRCLE_SEGMENTS as nat,
            current.global_position,
            orientation(parent, current),
        ),
    );
    let with_main = child_built(own, current.global_position, current.main_branch, ring);
    child_built(with_main, current.global_position, current.lateral_branch, ring)
}

/// `mesh` after the branch `branch` of a node at `position`, whose ring has
/// the indices `ring`, has been built into it.
pub open spec fn child_built(
    mesh: MeshView,
    position: Vec3,
    branch: Option<Box<TreeNode>>,
    ring: Seq<u32>,
) -> MeshView
    decreases branch,
{
    match branch {
        Some(child) => {
            let child_ring = ring_indices(mesh.vertices.len());
            let below = built(mesh, Some(position), *child);
            MeshView {
                indices: below.indices + strip(ring, child_ring, quad_count(ring, child_ring)),
                ..below
            }
        },
        None => mesh,
    }
}

/// The mesh of a skeleton.
pub open spec fn mesh_of(tree: TreeStructure) -> MeshView {
    built(
        MeshView { vertices: Seq::empty(), normals: Seq::empty(), indices: Seq::empty() },
        None,
        tree.root,
    )
}

/// The number of nodes of a branch; none where there is no branch.
pub open spec fn nodes_on(branch: Option<Box<TreeNode>>) -> nat {
    match branch {
        Some(child) => child.node_count(),
        None => 0,
    }
}

/// Every index of `mesh` points at one of its vertices.
pub open spec fn indices_valid(mesh: MeshView) -> bool {
    forall|k: int| 0 <= k < mesh.indices.len() ==> (#[trigger] mesh.indices[k]) < mesh.vertices.len()
}

/// Every normal of `mesh` has length one up to rounding.
pub open spec fn normals_unit(mesh: MeshView) -> bool {
    forall|k: int| 0 <= k < mesh.normals.len() ==> unit_length(#[trigger] mesh.normals[k])
}

/// Every normal of a ring has length one up to rounding, and a ring about
/// a direction of length one stands at a right angle to it: the cosine of
/// the angle between each normal and the direction is within sixty
/// billionths of zero, whatever the direction.
pub proof fn lemma_ring_normals(radius: Fixed, segments: nat, position: Vec3, direction: Vec3)
    ensures
        forall|k: int|
            0 <= k < segments ==> unit_length(
                (#[trigger] oriented_circle(radius, segments, position, direction)[k]).normal,
            ),
        unit_bounded(direction) && unit_length(direction) ==> forall|k: int|
            0 <= k < segments ==> at_right_angle(
                (#[trigger] oriented_circle(radius, segments, position, direction)[k]).normal,
                direction,
            ),
{
    assert forall|k: int| 0 <= k < segments implies unit_length(
        (#[trigger] oriented_circle(radius, segments, position, direction)[k]).normal,
    ) && (unit_bounded(direction) && unit_length(direction) ==> at_right_angle(
        oriented_circle(radius, segments, position, direction)[k].normal,
        direction,
    )) by {
        lemma_across(
            circle_vertex(radius, k as nat, segments).normal.rotated(Vec3::up(), direction),
            direction,
        );
    }
}

/// The way a branch runs at a node has length one.
pub proof fn lemma_orientation_unit(parent: Option<Vec3>, current: TreeNode)
    ensures
        unit_bounded(orientation(parent, current)),
        unit_length(orientation(parent, current)),
{
    let from_parent = match parent {
        Some(position) => Vec3::zero().plus(current.global_position.minus(position)),
        None => Vec3::zero(),
    };
    let with_main = match current.main_branch {
        Some(child) => from_parent.plus(child.global_position.minus(current.global_position)),
        None => from_parent,
    };
    let with_both = match current.lateral_branch {
        Some(child) => with_main.plus(child.global_position.minus(current.global_position)),
        None => with_main,
    };
    lemma_normalized_length(with_both);
    lemma_normalized_length(Vec3::zero());
}

/// Every vertex of a ring lies the radius along its normal from the middle
/// of the ring, so as far from the middle as the radius says, up to
/// rounding: in raw units, the square of that step differs from the square
/// of the radius by no more than seven billionths of it and `6 r + 3`.
pub proof fn lemma_ring_radius(
    radius: Fixed,
    segments: nat,
    position: Vec3,
    direction: Vec3,
    k: int,
)
    requires
        0 <= k < segments,
        0 <= radius.raw,
    ensures
        ({
            let vertex = oriented_circle(radius, segments, position, direction)[k];
            let step = vertex.normal.scaled_by(radius);
            &&& vertex.position == step.plus(position)
            &&& ONE_RAW * (step.squared_norm() - square(radius.raw as int)) <= 7 * square(
                radius.raw as int,
            ) + ONE_RAW * (6 * radius.raw + 3)
            &&& ONE_RAW * (square(radius.raw as int) - step.squared_norm()) <= 7 * square(
                radius.raw as int,
            ) + ONE_RAW * (6 * radius.raw)
        }),
{
    let turned = circle_vertex(radius, k as nat, segments).normal.rotated(Vec3::up(), direction);
    lemma_across(turned, direction);
    lemma_scaled_length(across(turned, direction), radius);
}

/// The vertex `at` of `mesh` belongs to the ring of `current`, which hangs
/// on a node at `parent`: its normal has length one and stands at a right
/// angle to the way the branch runs at `current`, and the vertex lies the
/// width of `current` along its normal from `current`.
pub open spec fn on_ring(mesh: MeshView, at: int, parent: Option<Vec3>, current: TreeNode) -> bool {
    &&& 0 <= at < mesh.normals.len()
    &&& at < mesh.vertices.len()
    &&& unit_length(mesh.normals[at])
    &&& at_right_angle(mesh.normals[at], orientation(parent, current))
    &&& mesh.vertices[at] == mesh.normals[at].scaled_by(current.width).plus(
        current.global_position,
    )
}

/// In `mesh`, the node `current` and every node below it has its ring, the
/// ring of `current` from the vertex `base` on, then the rings of its main
/// branch, then those of its lateral branch.
pub open spec fn rings_stand(mesh: MeshView, base: nat, parent: Option<Vec3>, current: TreeNode) -> bool
    decreases current,
{
    &&& forall|k: int| 0 <= k < RING_SIZE ==> #[trigger] on_ring(mesh, base + k, parent, current)
    &&& match current.main_branch {
        Some(child) => rings_stand(
            mesh,
            base + RING_SIZE as nat,
            Some(current.global_position),
            *child,
        ),
        None => true,
    }
    &&& match current.lateral_branch {
        Some(child) => rings_stand(
            mesh,
            base + RING_SIZE as nat + RING_SIZE as nat * nodes_on(current.main_branch),
            Some(current.global_position),
            *child,
        ),
        None => true,
    }
}

/// `first` and `second` have the same vertices and normals from `low` up
/// to, not including, `high`.
pub open spec fn same_rings(first: MeshView, second: MeshView, low: nat, high: nat) -> bool {
    &&& high <= first.vertices.len() && high <= first.normals.len()
    &&& high <= second.vertices.len() && high <= second.normals.len()
    &&& forall|k: int|
        low <= k < high ==> #[trigger] first.vertices[k] == second.vertices[k]
            && first.normals[k] == second.normals[k]
}

/// Whether the rings of a subtree stand depends on the vertices and normals
/// of those rings only.
pub proof fn lemma_rings_stand_frame(
    first: MeshView,
    second: MeshView,
    base: nat,
    parent: Option<Vec3>,
    current: TreeNode,
)
    requires
        rings_stand(first, base, parent, current),
        same_rings(first, second, base, base + RING_SIZE as nat * current.node_count()),
    ensures
        rings_stand(second, base, parent, current),
    decreases current,
{
    let main_count = nodes_on(current.main_branch);
    let lateral_count = nodes_on(current.lateral_branch);
    let main_size = RING_SIZE as nat * main_count;
    let lateral_size = RING_SIZE as nat * lateral_count;
    let size = RING_SIZE as nat * current.node_count();
    assert(current.node_count() == 1 + main_count + lateral_count);
    assert(size == RING_SIZE + main_size + lateral_size) by (nonlinear_arith)
        requires
            size == RING_SIZE as nat * current.node_count(),
            main_size == RING_SIZE as nat * main_count,
            lateral_size == RING_SIZE as nat * lateral_count,
            current.node_count() == 1 + main_count + lateral_count,
    ;
    assert forall|k: int| 0 <= k < RING_SIZE implies #[trigger] on_ring(
        second,
        base + k,
        parent,
        current,
    ) by {
        assert(on_ring(first, base + k, parent, current));
        assert(first.vertices[base + k] == second.vertices[base + k]);
    }
    match current.main_branch {
        Some(child) => {
            let low = base + RING_SIZE as nat;
            assert(same_rings(first, second, low, low + RING_SIZE as nat * child.node_count()));
            lemma_rings_stand_frame(first, second, low, Some(current.global_position), *child);
        },
        None => {},
    }
    match current.lateral_branch {
        Some(child) => {
            let low = base + RING_SIZE as nat + main_size;
            assert(same_rings(first, second, low, low + RING_SIZE as nat * child.node_count()));
            lemma_rings_stand_frame(first, second, low, Some(current.global_position), *child);
        },
        None => {},
    }
}

/// Building a subtree adds its rings behind what the mesh holds, and leaves
/// the vertices and normals that the mesh holds as they are.
pub proof fn lemma_built_keeps(mesh: MeshView, parent: Option<Vec3>, current: TreeNode)
    requires
        mesh.normals.len() == mesh.vertices.len(),
    ensures
        ({
            let grown = built(mesh, parent, current);
            &&& grown.vertices.len() == mesh.vertices.len() + RING_SIZE * current.node_count()
            &&& grown.normals.len() == grown.vertices.len()
            &&& same_rings(mesh, grown, 0, mesh.vertices.len())
        }),
    decreases current,
{
    let own = with_ring(
        mesh,
        oriented_circle(
            current.width,
            NODE_CIRCLE_SEGMENTS as nat,
            current.global_position,
            orientation(parent, current),
        ),
    );
    let ring = ring_indices(mesh.vertices.len());
    let main_count = nodes_on(current.main_branch);
    let lateral_count = nodes_on(current.lateral_branch);
    assert(current.node_count() == 1 + main_count + lateral_count);
    assert(RING_SIZE * current.node_count() == RING_SIZE + RING_SIZE * main_count + RING_SIZE
        * lateral_count) by (nonlinear_arith)
        requires
            current.node_count() == 1 + main_count + lateral_count,
    ;
    assert(same_rings(mesh, own, 0, mesh.vertices.len()));
    lemma_child_built_keeps(own, current.global_position, current.main_branch, ring);
    let with_main = child_built(own, current.global_position, current.main_branch, ring);
    lemma_child_built_keeps(with_main, current.global_position, current.lateral_branch, ring);
}

/// Building a branch adds its rings behind what the mesh holds, and leaves
/// the vertices and normals that the mesh holds as they are.
pub proof fn lemma_child_built_keeps(
    mesh: MeshView,
    position: Vec3,
    branch: Option<Box<TreeNode>>,
    ring: Seq<u32>,
)
    requires
        mesh.normals.len() == mesh.vertices.len(),
    ensures
        ({
            let grown = child_built(mesh, position, branch, ring);
            &&& grown.vertices.len() == mesh.vertices.len() + RING_SIZE * nodes_on(branch)
            &&& grown.normals.len() == grown.vertices.len()
            &&& same_rings(mesh, grown, 0, mesh.vertices.len())
        }),
    decreases branch,
{
    match branch {
        Some(child) => {
            lemma_built_keeps(mesh, Some(position), *child);
        },
        None => {
            assert(RING_SIZE * 0 == 0);
        },
    }
}

/// The ring that is added for a node is the ring of the node.
pub proof fn lemma_ring_added(mesh: MeshView, parent: Option<Vec3>, current: TreeNode)
    requires
        mesh.normals.len() == mesh.vertices.len(),
    ensures
        ({
            let own = with_ring(
                mesh,
                oriented_circle(
                    current.width,
                    NODE_CIRCLE_SEGMENTS as nat,
                    current.global_position,
                    orientation(parent, current),
                ),
            );
            forall|k: int|
                0 <= k < RING_SIZE ==> #[trigger] on_ring(
                    own,
                    mesh.vertices.len() + k,
                    parent,
                    current,
                )
        }),
{
    let base = mesh.vertices.len();
    let circle = oriented_circle(
        current.width,
        NODE_CIRCLE_SEGMENTS as nat,
        current.global_position,
        orientation(parent, current),
    );
    let own = with_ring(mesh, circle);
    lemma_ring_normals(
        current.width,
        NODE_CIRCLE_SEGMENTS as nat,
        current.global_position,
        orientation(parent, current),
    );
    lemma_orientation_unit(parent, current);
    assert forall|k: int| 0 <= k < RING_SIZE implies #[trigger] on_ring(
        own,
        base + k,
        parent,
        current,
    ) by {
        assert(own.normals[base + k] == circle[k].normal);
        assert(own.vertices[base + k] == circle[k].position);
    }
}

/// A ring stays the ring of its node where its vertices and normals stay.
proof fn lemma_ring_kept(
    first: MeshView,
    second: MeshView,
    base: nat,
    parent: Option<Vec3>,
    current: TreeNode,
)
    requires
        forall|k: int| 0 <= k < RING_SIZE ==> #[trigger] on_ring(first, base + k, parent, current),
        same_rings(first, second, 0, base + RING_SIZE as nat),
    ensures
        forall|k: int| 0 <= k < RING_SIZE ==> #[trigger] on_ring(second, base + k, parent, current),
{
    assert forall|k: int| 0 <= k < RING_SIZE implies #[trigger] on_ring(
        second,
        base + k,
        parent,
        current,
    ) by {
        assert(on_ring(first, base + k, parent, current));
        assert(first.vertices[base + k] == second.vertices[base + k]);
    }
}

/// In the mesh of a subtree every node has its ring: sixteen vertices whose
/// normals have length one and stand at a right angle to the way the branch
/// runs at the node, each vertex the width of the node along its normal
/// from the node.
pub proof fn lemma_built_rings(mesh: MeshView, parent: Option<Vec3>, current: TreeNode)
    requires
        mesh.normals.len() == mesh.vertices.len(),
    ensures
        rings_stand(built(mesh, parent, current), mesh.vertices.len(), parent, current),
    decreases current,
{
    let base = mesh.vertices.len();
    let own = with_ring(
        mesh,
        oriented_circle(
            current.width,
            NODE_CIRCLE_SEGMENTS as nat,
            current.global_position,
            orientation(parent, current),
        ),
    );
    let ring = ring_indices(base);
    let main_count = nodes_on(current.main_branch);
    let main_size = RING_SIZE as nat * main_count;
    let with_main = child_built(own, current.global_position, current.main_branch, ring);
    let grown = built(mesh, parent, current);
    assert(grown == child_built(with_main, current.global_position, current.lateral_branch, ring));
    assert(own.vertices.len() == base + RING_SIZE && own.normals.len() == base + RING_SIZE);
    lemma_ring_added(mesh, parent, current);
    lemma_child_built_keeps(own, current.global_position, current.main_branch, ring);
    lemma_child_built_keeps(with_main, current.global_position, current.lateral_branch, ring);
    lemma_ring_kept(own, with_main, base, parent, current);
    lemma_ring_kept(with_main, grown, base, parent, current);
    match current.main_branch {
        Some(child) => {
            lemma_built_rings(own, Some(current.global_position), *child);
            assert(with_main.vertices == built(own, Some(current.global_position), *child).vertices);
            assert(with_main.normals == built(own, Some(current.global_position), *child).normals);
            lemma_rings_stand_frame(
                built(own, Some(current.global_position), *child),
                with_main,
                base + RING_SIZE as nat,
                Some(current.global_position),
                *child,
            );
            lemma_rings_stand_frame(
                with_main,
                grown,
                base + RING_SIZE as nat,
                Some(current.global_position),
                *child,
            );
        },
        None => {},
    }
    match current.lateral_branch {
        Some(child) => {
            let below = built(with_main, Some(current.global_position), *child);
            lemma_built_rings(with_main, Some(current.global_position), *child);
            lemma_built_keeps(with_main, Some(current.global_position), *child);
            assert(grown.vertices == below.vertices);
            assert(grown.normals == below.normals);
            lemma_rings_stand_frame(
                below,
                grown,
                base + RING_SIZE as nat + main_size,
                Some(current.global_position),
                *child,
            );
        },
        None => {},
    }
}

/// Building a subtree adds one ring for each of its nodes and one strip for
/// each of its edges, every index of a strip points at a vertex, and every
/// normal that is added has length one.
pub proof fn lemma_built_counts(mesh: MeshView, parent: Option<Vec3>, current: TreeNode)
    requires
        mesh.vertices.len() + RING_SIZE * current.node_count() <= u32::MAX,
        mesh.normals.len() == mesh.vertices.len(),
        indices_valid(mesh),
    ensures
        ({
            let grown = built(mesh, parent, current);
            &&& grown.vertices.len() == mesh.vertices.len() + RING_SIZE * current.node_count()
            &&& grown.normals.len() == grown.vertices.len()
            &&& grown.indices.len() == mesh.indices.len() + STRIP_SIZE * current.edge_count()
            &&& indices_valid(grown)
            &&& normals_unit(mesh) ==> normals_unit(grown)
        }),
    decreases current,
{
    lemma_ring_normals(
        current.width,
        NODE_CIRCLE_SEGMENTS as nat,
        current.global_position,
        orientation(parent, current),
    );
    let ring = ring_indices(mesh.vertices.len());
    let own = with_ring(
        mesh,
        oriented_circle(
            current.width,
            NODE_CIRCLE_SEGMENTS as nat,
            current.global_position,
            orientation(parent, current),
        ),
    );
    let main_count = match current.main_branch {
        Some(child) => child.node_count(),
        None => 0,
    };
    let main_edges = match current.main_branch {
        Some(child) => 1 + child.edge_count(),
        None => 0,
    };
    let lateral_count = match current.lateral_branch {
        Some(child) => child.node_count(),
        None => 0,
    };
    assert(current.node_count() == 1 + main_count + lateral_count);
    assert(RING_SIZE * current.node_count() == RING_SIZE + RING_SIZE * main_count + RING_SIZE
        * lateral_count) by (nonlinear_arith)
        requires
            current.node_count() == 1 + main_count + lateral_count,
    ;
    lemma_child_built_counts(own, current.global_position, current.main_branch, ring);
    let with_main = child_built(own, current.global_position, current.main_branch, ring);
    lemma_child_built_counts(with_main, current.global_position, current.lateral_branch, ring);
    let lateral_edges = match current.lateral_branch {
        Some(child) => 1 + child.edge_count(),
        None => 0,
    };
    assert(STRIP_SIZE * current.edge_count() == STRIP_SIZE * main_edges + STRIP_SIZE
        * lateral_edges) by (nonlinear_arith)
        requires
            current.edge_count() == main_edges + lateral_edges,
    ;
}

/// Building a branch adds one ring for each of its nodes and one strip for
/// each of its edges and for the edge that it hangs on.
pub proof fn lemma_child_built_counts(
    mesh: MeshView,
    position: Vec3,
    branch: Option<Box<TreeNode>>,
    ring: Seq<u32>,
)
    requires
        mesh.vertices.len() + RING_SIZE * (match branch {
            Some(child) => child.node_count(),
            None => 0,
        }) <= u32::MAX,
        mesh.normals.len() == mesh.vertices.len(),
        indices_valid(mesh),
        ring.len() == RING_SIZE,
        forall|i: int| 0 <= i < ring.len() ==> (#[trigger] ring[i]) < mesh.vertices.len(),
    ensures
        ({
            let grown = child_built(mesh, position, branch, ring);
            &&& grown.vertices.len() == mesh.vertices.len() + RING_SIZE * (match branch {
                Some(child) => child.node_count(),
                None => 0,
            })
            &&& grown.normals.len() == grown.vertices.len()
            &&& grown.indices.len() == mesh.indices.len() + STRIP_SIZE * (match branch {
                Some(child) => 1 + child.edge_count(),
                None => 0,
            })
            &&& indices_valid(grown)
            &&& normals_unit(mesh) ==> normals_unit(grown)
        }),
    decreases branch,
{
    match branch {
        Some(child) => {
            lemma_built_counts(mesh, Some(position), *child);
            let below = built(mesh, Some(position), *child);
            let child_ring = ring_indices(mesh.vertices.len());
            assert(child.node_count() >= 1);
            assert(RING_SIZE * child.node_count() >= RING_SIZE) by (nonlinear_arith)
                requires
                    child.node_count() >= 1,
            ;
            assert(STRIP_SIZE * (1 + child.edge_count()) == STRIP_SIZE + STRIP_SIZE
                * child.edge_count()) by (nonlinear_arith);
            let grown = child_built(mesh, position, branch, ring);
            assert forall|k: int| 0 <= k < grown.indices.len() implies (
            #[trigger] grown.indices[k]) < grown.vertices.len() by {
                if k >= below.indices.len() {
                    let s = k - below.indices.len();
                    assert(grown.indices[k] == strip_index(ring, child_ring, 16, s));
                    let j = s / 6;
                    let next = following(j, 16);
                    assert(0 <= j < 16 && 0 <= next < 16);
                    assert(ring[j] < mesh.vertices.len());
                    assert(ring[next] < mesh.vertices.len());
                    assert(child_ring[j] == mesh.vertices.len() + j);
                    assert(child_ring[next] == mesh.vertices.len() + next);
                } else {
                    assert(grown.indices[k] == below.indices[k]);
                }
            }
        },
        None => {},
    }
}

/// The level circle of `segments` segments and radius `radius` around the
/// origin.
pub fn gen_circle(radius: Fixed, segments: usize) -> (vertices: Vec<OrientedVertex>)
    requires
        0 < segments < u32::MAX,
    ensures
        vertices@ == Seq::new(
            segments as nat,
            |i: int| circle_vertex(radius, i as nat, segments as nat),
        ),
{
    let mut vertices: Vec<OrientedVertex> = Vec::new();
    let mut i: usize = 0;
    while i < segments
        invariant
            i <= segments,
            0 < segments < u32::MAX,
            vertices@ == Seq::new(i as nat, |k: int| circle_vertex(radius, k as nat, segments as nat)),
        decreases segments - i,
    {
        let angle = Fixed { raw: TWO_PI_RAW }.scaled(
            Fixed { raw: i as i64 },
            Fixed { raw: segments as i64 },
        );
        let (sine, cosine) = sin_cos(angle);
        let normal = Vec3 { x: cosine, y: Fixed { raw: 0 }, z: sine };
        vertices.push(OrientedVertex { position: normal.scaled_by(radius), normal });
        i = i + 1;
        assert(vertices@ =~= Seq::new(
            i as nat,
            |k: int| circle_vertex(radius, k as nat, segments as nat),
        ));
    }
    vertices
}

/// The ring of `segments` segments and radius `radius` around `position`,
/// at a right angle to `direction`.
pub fn gen_oriented_circle(radius: Fixed, segments: usize, position: Vec3, direction: Vec3) -> (ring:
    Vec<OrientedVertex>)
    requires
        0 < segments < u32::MAX,
    ensures
        ring@ == oriented_circle(radius, segments as nat, position, direction),
        forall|i: int| 0 <= i < ring@.len() ==> unit_length((#[trigger] ring@[i]).normal),
        unit_bounded(direction) && unit_length(direction) ==> forall|i: int|
            0 <= i < ring@.len() ==> at_right_angle((#[trigger] ring@[i]).normal, direction),
{
    let level = gen_circle(radius, segments);
    let mut ring: Vec<OrientedVertex> = Vec::new();
    let mut i: usize = 0;
    while i < level.len()
        invariant
            i <= level.len(),
            level.len() == segments,
            level@ == Seq::new(
                segments as nat,
                |k: int| circle_vertex(radius, k as nat, segments as nat),
            ),
            ring@ == Seq::new(
                i as nat,
                |k: int| oriented(circle_vertex(radius, k as nat, segments as nat), radius, position, direction),
            ),
            forall|k: int| 0 <= k < ring@.len() ==> unit_length((#[trigger] ring@[k]).normal),
            unit_bounded(direction) && unit_length(direction) ==> forall|k: int|
                0 <= k < ring@.len() ==> at_right_angle((#[trigger] ring@[k]).normal, direction),
        decreases level.len() - i,
    {
        let vertex = level[i];
        let normal = across(vertex.normal.rotated(Vec3::up(), direction), direction);
        ring.push(OrientedVertex { position: normal.scaled_by(radius).plus(position), normal });
        i = i + 1;
        assert(ring@ =~= Seq::new(
            i as nat,
            |k: int| oriented(circle_vertex(radius, k as nat, segments as nat), radius, position, direction),
        ));
    }
    assert(ring@ =~= oriented_circle(radius, segments as nat, position, direction));
    ring
}

fn orientation_of(parent: Option<&TreeNode>, current: &TreeNode) -> (direction: Vec3)
    ensures
        direction == orientation(
            match parent {
                Some(node) => Some(node.global_position),
                None => None,
            },
            *current,
        ),
{
    let mut direction = Vec3::zero();
    if let Some(node) = parent {
        direction = direction.plus(current.global_position.minus(node.global_position));
    }
    if let Some(main_branch) = &current.main_branch {
        direction = direction.plus(main_branch.global_position.minus(current.global_position));
    }
    if let Some(lateral_branch) = &current.lateral_branch {
        direction = direction.plus(lateral_branch.global_position.minus(current.global_position));
    }
    if direction == Vec3::zero() {
        Vec3::up()
    } else {
        direction.normalized()
    }
}

impl TreeMeshBuilder {
    /// Builds the strip between the ring of a node and the ring of one of
    /// its children.
    pub fn build_branch(&mut self, current_circle_indices: &Vec<u32>, child_circle_indices: &Vec<u32>)
        ensures
            final(self)@.indices == old(self)@.indices + strip(
                current_circle_indices@,
                child_circle_indices@,
                quad_count(current_circle_indices@, child_circle_indices@),
            ),
            final(self)@.vertices == old(self)@.vertices,
            final(self)@.normals == old(self)@.normals,
    {
        let ghost before = self.indices@;
        let ghost current = current_circle_indices@;
        let ghost child = child_circle_indices@;
        let shorter = if current_circle_indices.len() < child_circle_indices.len() {
            current_circle_indices.len()
        } else {
            child_circle_indices.len()
        };
        let quads = shorter;
        let mut j: usize = 0;
        assert(self.indices@ =~= before + strip_upto(current, child, quads as nat, 0));
        while j < quads
            invariant
                j <= quads,
                quads == quad_count(current, child),
                current == current_circle_indices@,
                child == child_circle_indices@,
                self.indices@ == before + strip_upto(current, child, quads as nat, j as nat),
                self.vertices@ == old(self).vertices@,
                self.normals@ == old(self).normals@,
            decreases quads - j,
        {
            let next = if j + 1 == quads {
                0
            } else {
                j + 1
            };
            let cur_fst = current_circle_indices[j];
            let cur_snd = current_circle_indices[next];
            let child_fst = child_circle_indices[j];
            let child_snd = child_circle_indices[next];
            self.indices.push(cur_snd);
            self.indices.push(cur_fst);
            self.indices.push(child_fst);
            self.indices.push(child_fst);
            self.indices.push(child_snd);
            self.indices.push(cur_snd);
            j = j + 1;
            assert(self.indices@ =~= before + strip_upto(current, child, quads as nat, j as nat));
        }
    }

    /// Builds the subtree at `child` and the strip between it and
    /// `current`.
    pub fn build_child(
        &mut self,
        current: &TreeNode,
        child: &TreeNode,
        current_circle_indices: &Vec<u32>,
    )
        requires
            old(self).vertices.len() + RING_SIZE * child.node_count() <= u32::MAX,
        ensures
            final(self)@ == child_built(
                old(self)@,
                current.global_position,
                Some(Box::new(*child)),
                current_circle_indices@,
            ),
            final(self).vertices.len() == old(self).vertices.len() + RING_SIZE * child.node_count(),
        decreases *child, 1nat,
    {
        let child_circle_indices = self.build_recursive(Some(current), child);
        self.build_branch(current_circle_indices, &child_circle_indices);
    }

    /// Puts the vertices and normals of `circle` at the end of the mesh and
    /// returns their indices.
    pub fn push_ring(&mut self, circle: &Vec<OrientedVertex>) -> (ring: Vec<u32>)
        requires
            old(self).vertices.len() + circle.len() <= u32::MAX,
        ensures
            final(self)@ == with_ring(old(self)@, circle@),
            ring@ == Seq::new(circle.len() as nat, |k: int| (old(self).vertices.len() + k) as u32),
    {
        let ghost before = self@;
        let mut ring: Vec<u32> = Vec::new();
        let mut i: usize = 0;
        assert(self.vertices@ =~= before.vertices + Seq::new(0, |k: int| circle@[k].position));
        assert(self.normals@ =~= before.normals + Seq::new(0, |k: int| circle@[k].normal));
        while i < circle.len()
            invariant
                i <= circle.len(),
                before.vertices.len() + circle.len() <= u32::MAX,
                self.indices@ == before.indices,
                self.vertices@ == before.vertices + Seq::new(i as nat, |k: int| circle@[k].position),
                self.normals@ == before.normals + Seq::new(i as nat, |k: int| circle@[k].normal),
                ring@ == Seq::new(i as nat, |k: int| (before.vertices.len() + k) as u32),
            decreases circle.len() - i,
        {
            let vertex = circle[i];
            let idx = self.vertices.len();
            self.vertices.push(vertex.position);
            self.normals.push(vertex.normal);
            ring.push(idx as u32);
            i = i + 1;
            assert(self.vertices@ =~= before.vertices + Seq::new(
                i as nat,
                |k: int| circle@[k].position,
            ));
            assert(self.normals@ =~= before.normals + Seq::new(
                i as nat,
                |k: int| circle@[k].normal,
            ));
            assert(ring@ =~= Seq::new(i as nat, |k: int| (before.vertices.len() + k) as u32));
        }
        ring
    }

    /// Builds the subtree at `current`, which hangs on `parent`, and
    /// returns the indices of the ring of `current`.
    pub fn build_recursive(&mut self, parent: Option<&TreeNode>, current: &TreeNode) -> (ring: Vec<
        u32,
    >)
        requires
            old(self).vertices.len() + RING_SIZE * current.node_count() <= u32::MAX,
        ensures
            final(self)@ == built(
                old(self)@,
                match parent {
                    Some(node) => Some(node.global_position),
                    None => None,
                },
                *current,
            ),
            ring@ == ring_indices(old(self).vertices.len() as nat),
            final(self).vertices.len() == old(self).vertices.len() + RING_SIZE
                * current.node_count(),
        decreases *current, 0nat,
    {
        let direction = orientation_of(parent, current);
        let circle = gen_oriented_circle(
            current.width,
            NODE_CIRCLE_SEGMENTS,
            current.global_position,
            direction,
        );
        let ghost before = self@;
        let ghost main_count = nodes_on(current.main_branch);
        let ghost lateral_count = nodes_on(current.lateral_branch);
        assert(RING_SIZE * current.node_count() == RING_SIZE + RING_SIZE * main_count + RING_SIZE
            * lateral_count) by (nonlinear_arith)
            requires
                current.node_count() == 1 + main_count + lateral_count,
        ;
        let current_circle_indices = self.push_ring(&circle);
        assert(current_circle_indices@ =~= ring_indices(before.vertices.len()));
        if let Some(main_branch) = &current.main_branch {
            self.build_child(current, main_branch, &current_circle_indices);
        }
        if let Some(lateral_branch) = &current.lateral_branch {
            self.build_child(current, lateral_branch, &current_circle_indices);
        }
        current_circle_indices
    }
}

/// Builds the mesh of `tree`: a ring of sixteen vertices for every node and
/// a strip of thirty-two triangles for every edge, and no triangle besides.
/// A node with two children has one ring, which both of its strips share; a
/// tree of one node has a ring and no triangle. Every ring stands at a
/// right angle to the way the branch runs at its node, the width of the
/// node away from it.
pub fn build(tree: &TreeStructure) -> (mesh: Mesh)
    requires
        RING_SIZE * tree.root.node_count() <= u32::MAX,
    ensures
        mesh@ == mesh_of(*tree),
        mesh@.vertices.len() == RING_SIZE * tree.root.node_count(),
        mesh@.normals.len() == mesh@.vertices.len(),
        mesh@.indices.len() == STRIP_SIZE * tree.root.edge_count(),
        mesh@.indices.len() == STRIP_SIZE * (tree.root.node_count() - 1),
        indices_valid(mesh@),
        normals_unit(mesh@),
        rings_stand(mesh@, 0, None, tree.root),
{
    let mut builder = TreeMeshBuilder {
        vertices: Vec::new(),
        normals: Vec::new(),
        indices: Vec::new(),
    };
    proof {
        lemma_built_counts(builder@, None, tree.root);
        lemma_built_rings(builder@, None, tree.root);
        lemma_edges_counted(tree.root);
    }
    builder.build_recursive(None, &tree.root);
    Mesh { vertices: builder.vertices, normals: builder.normals, indices: builder.indices }
}

/// The most nodes whose rings can be indexed with 32 bits.
pub const NODE_LIMIT: usize = 268_435_455;

fn count_branch_within(branch: &Option<Box<TreeNode>>, limit: usize) -> (count: Option<usize>)
    ensures
        count == (if nodes_on(*branch) <= limit {
            Some(nodes_on(*branch) as usize)
        } else {
            None::<usize>
        }),
    decreases *branch,
{
    match branch {
        Some(child) => count_nodes_within(child, limit),
        None => Some(0),
    }
}

/// The number of nodes at `node` and below it; none where there are more
/// than `limit`.
pub fn count_nodes_within(node: &TreeNode, limit: usize) -> (count: Option<usize>)
    ensures
        count == (if node.node_count() <= limit {
            Some(node.node_count() as usize)
        } else {
            None::<usize>
        }),
    decreases *node,
{
    assert(node.node_count() == 1 + nodes_on(node.main_branch) + nodes_on(node.lateral_branch));
    if limit == 0 {
        return None;
    }
    match count_branch_within(&node.main_branch, limit - 1) {
        None => None,
        Some(main) => {
            match count_branch_within(&node.lateral_branch, limit - 1 - main) {
                None => None,
                Some(lateral) => Some(1 + main + lateral),
            }
        },
    }
}

/// Builds the mesh of `tree` where its vertices can be indexed with 32
/// bits; none where the tree has too many nodes for that.
pub fn try_build(tree: &TreeStructure) -> (mesh: Option<Mesh>)
    ensures
        mesh is Some == (RING_SIZE * tree.root.node_count() <= u32::MAX),
        mesh is Some ==> mesh.unwrap()@ == mesh_of(*tree),
        mesh is Some ==> mesh.unwrap()@.vertices.len() == RING_SIZE * tree.root.node_count(),
        mesh is Some ==> mesh.unwrap()@.normals.len() == mesh.unwrap()@.vertices.len(),
        mesh is Some ==> mesh.unwrap()@.indices.len() == STRIP_SIZE * (tree.root.node_count() - 1),
        mesh is Some ==> indices_valid(mesh.unwrap()@),
        mesh is Some ==> normals_unit(mesh.unwrap()@),
        mesh is Some ==> rings_stand(mesh.unwrap()@, 0, None, tree.root),
{
    match count_nodes_within(&tree.root, NODE_LIMIT) {
        Some(count) => {
            assert(RING_SIZE * count <= u32::MAX) by (nonlinear_arith)
                requires
                    count <= 268_435_455,
                    RING_SIZE == 16,
            ;
            Some(build(tree))
        },
        None => {
            assert(RING_SIZE * tree.root.node_count() > u32::MAX) by (nonlinear_arith)
                requires
                    tree.root.node_count() > 268_435_455,
                    RING_SIZE == 16,
            ;
            None
        },
    }
}

} // verus!
