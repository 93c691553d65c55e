//! The resource field: a cloud of points that attracts growth and is used up
//! by it, together with the counter that numbers the buds of a run.
use crate::fixed::{clamp, clamp_wide, Fixed, ONE_RAW};
use crate::graph::{Bud, BudFate, BudId, MetamerNode};
use crate::random::Generator;
use crate::vector::Vec3;
use vstd::prelude::*;

verus! {

/// The points that are left and the number of the next bud.
#[derive(Debug, PartialEq, Eq)]
pub struct Environment {
    pub points: Vec<Vec3>,
    pub bud_id_counter: BudId,
}

/// The extent `size` as a number, saturated.
pub open spec fn extent(size: u64) -> Fixed {
    Fixed { raw: clamp(size * ONE_RAW) as i64 }
}

/// The `index`-th point scattered for `seed`: its coordinates are the draws
/// `3 index`, `3 index + 1` and `3 index + 2` of the seed, taken from
/// `[-size, size]`, `[0, size]` and `[-size, size]`.
pub open spec fn scattered_point(seed: u64, size: u64, index: nat) -> Vec3 {
    let reach = extent(size);
    let first = Generator { seed, position: (3 * index) as u64 };
    Vec3 {
        x: first.number_between(reach.negated(), reach),
        y: first.advanced().number_between(Fixed { raw: 0 }, reach),
        z: first.advanced().advanced().number_between(reach.negated(), reach),
    }
}

/// Whether `point` lies in the box of half width `size` that stands on the
/// ground.
pub open spec fn in_box(point: Vec3, size: u64) -> bool {
    let reach = extent(size).raw;
    &&& -reach <= point.x.raw <= reach
    &&& 0 <= point.y.raw <= reach
    &&& -reach <= point.z.raw <= reach
}

/// Whether `point` lies in the occupancy zone of `node`: within
/// `occupancy_radius_coef * internode_length` of the node itself, or in the
/// zone of a node that has shot from one of its buds, where the internode
/// length is the distance between the two nodes.
pub open spec fn in_occupancy_zone(
    point: Vec3,
    node: MetamerNode,
    occupancy_radius_coef: Fixed,
    internode_length: Fixed,
) -> bool
    decreases node,
{
    ||| node.global_position.within_distance(point, occupancy_radius_coef.times(internode_length))
    ||| in_zone_below(point, node.global_position, node.main_bud, occupancy_radius_coef)
    ||| in_zone_below(point, node.global_position, node.axillary_bud, occupancy_radius_coef)
}

/// Whether `point` lies in the occupancy zone of the node that has shot from
/// `bud`, which sits at `position`. A bud that is dormant or dead has no
/// zone.
pub open spec fn in_zone_below(
    point: Vec3,
    position: Vec3,
    bud: Bud,
    occupancy_radius_coef: Fixed,
) -> bool
    decreases bud,
{
    match bud.branch_node {
        Some(child) => bud.fate == BudFate::Shoot && in_occupancy_zone(
            point,
            *child,
            occupancy_radius_coef,
            position.distance(child.global_position),
        ),
        None => false,
    }
}

/// The points that `clear_occupancy_zones` keeps.
pub open spec fn outside_zones(root: MetamerNode, occupancy_radius_coef: Fixed) -> spec_fn(
    Vec3,
) -> bool {
    |point: Vec3| !in_occupancy_zone(point, root, occupancy_radius_coef, Fixed { raw: 0 })
}

/// Whether `point` is within `perception_radius` of the bud and at an angle
/// of at most `perception_angle` to its direction.
pub open spec fn in_perception_volume(
    point: Vec3,
    bud_position: Vec3,
    bud_direction: Vec3,
    perception_angle: Fixed,
    perception_radius: Fixed,
) -> bool {
    point.within_distance(bud_position, perception_radius) && point.minus(
        bud_position,
    ).within_angle(bud_direction, perception_angle)
}

fn zone_below(point: &Vec3, position: &Vec3, bud: &Bud, occupancy_radius_coef: Fixed) -> (r: bool)
    ensures
        r == in_zone_below(*point, *position, *bud, occupancy_radius_coef),
    decreases *bud,
{
    match &bud.branch_node {
        Some(child) => {
            match bud.fate {
                BudFate::Shoot => is_in_occupancy_zone(
                    point,
                    child,
                    occupancy_radius_coef,
                    position.distance(child.global_position),
                ),
                _ => false,
            }
        },
        None => false,
    }
}

/// Whether `point` lies in the occupancy zone of `node`.
pub fn is_in_occupancy_zone(
    point: &Vec3,
    node: &MetamerNode,
    occupancy_radius_coef: Fixed,
    internode_length: Fixed,
) -> (r: bool)
    ensures
        r == in_occupancy_zone(*point, *node, occupancy_radius_coef, internode_length),
    decreases *node,
{
    if node.global_position.within_distance(*point, occupancy_radius_coef.times(internode_length)) {
        return true;
    }
    if zone_below(point, &node.global_position, &node.main_bud, occupancy_radius_coef) {
        return true;
    }
    zone_below(point, &node.global_position, &node.axillary_bud, occupancy_radius_coef)
}

/// Whether `point` is in the perception volume of a bud.
pub fn is_in_perception_volume(
    point: &Vec3,
    bud_position: &Vec3,
    bud_direction: &Vec3,
    perception_angle: Fixed,
    perception_radius: Fixed,
) -> (r: bool)
    ensures
        r == in_perception_volume(
            *point,
            *bud_position,
            *bud_direction,
            perception_angle,
            perception_radius,
        ),
{
    point.within_distance(*bud_position, perception_radius) && point.minus(
        *bud_position,
    ).within_angle(*bud_direction, perception_angle)
}

fn extent_of(size: u64) -> (r: Fixed)
    ensures
        r == extent(size),
{
    assert(0 <= size * ONE_RAW <= 0xffff_ffff_ffff_ffff * 1_000_000_000) by (nonlinear_arith)
        requires
            0 <= size <= 0xffff_ffff_ffff_ffff,
            ONE_RAW == 1_000_000_000,
    ;
    Fixed { raw: clamp_wide((size as i128) * (ONE_RAW as i128)) }
}

/// Scatters `environment_points_count` points for `seed` in a box of half
/// width `environment_size` that stands on the ground. No bud is numbered
/// yet.
pub fn generate_environment(seed: u64, environment_size: u64, environment_points_count: u32) -> (r:
    Environment)
    ensures
        r.bud_id_counter == BudId(0),
        r.points@ == Seq::new(
            environment_points_count as nat,
            |i: int| scattered_point(seed, environment_size, i as nat),
        ),
        forall|i: int|
            0 <= i < r.points@.len() ==> in_box(#[trigger] r.points@[i], environment_size),
{
    let reach = extent_of(environment_size);
    let low = reach.negated();
    let mut rng = Generator::new(seed);
    let mut points: Vec<Vec3> = Vec::new();
    let mut i: u32 = 0;
    while i < environment_points_count
        invariant
            i <= environment_points_count,
            reach == extent(environment_size),
            low == reach.negated(),
            rng == (Generator { seed, position: (3 * i) as u64 }),
            points@ == Seq::new(i as nat, |k: int| scattered_point(seed, environment_size, k as nat)),
            forall|k: int| 0 <= k < points@.len() ==> in_box(#[trigger] points@[k], environment_size),
        decreases environment_points_count - i,
    {
        let x = rng.between(low, reach);
        let y = rng.between(Fixed { raw: 0 }, reach);
        let z = rng.between(low, reach);
        points.push(Vec3 { x, y, z });
        i = i + 1;
        assert(points@ =~= Seq::new(
            i as nat,
            |k: int| scattered_point(seed, environment_size, k as nat),
        ));
    }
    Environment { points, bud_id_counter: BudId(0) }
}

impl Default for Environment {
    /// No points, and no bud numbered yet.
    fn default() -> (r: Self)
        ensures
            r.points@ == Seq::<Vec3>::empty(),
            r.bud_id_counter == BudId(0),
    {
        Environment { points: Vec::new(), bud_id_counter: BudId(0) }
    }
}

impl Environment {
    /// Hands out the next bud number.
    pub fn get_next_bud_id(&mut self) -> (id: BudId)
        requires
            old(self).bud_id_counter.0 < usize::MAX,
        ensures
            id == old(self).bud_id_counter,
            final(self).bud_id_counter.0 == old(self).bud_id_counter.0 + 1,
            final(self).points == old(self).points,
    {
        let id = self.bud_id_counter;
        self.bud_id_counter = BudId(id.0 + 1);
        id
    }

    /// How many bud numbers have been handed out.
    pub open spec fn spec_number_of_buds(&self) -> usize {
        self.bud_id_counter.0
    }

    /// How many bud numbers have been handed out.
    #[verifier::when_used_as_spec(spec_number_of_buds)]
    pub fn get_number_of_buds(&self) -> (n: usize)
        ensures
            n == self.bud_id_counter.0,
    {
        self.bud_id_counter.0
    }

    /// Removes every point in the occupancy zone of `root`, keeping the
    /// others in their order.
    pub fn clear_occupancy_zones(&mut self, root: &MetamerNode, occupancy_radius_coef: Fixed)
        ensures
            final(self).points@ == old(self).points@.filter(
                outside_zones(*root, occupancy_radius_coef),
            ),
            final(self).bud_id_counter == old(self).bud_id_counter,
            final(self).points@.len() <= old(self).points@.len(),
            forall|i: int|
                0 <= i < final(self).points@.len() ==> !in_occupancy_zone(
                    #[trigger] final(self).points@[i],
                    *root,
                    occupancy_radius_coef,
                    Fixed { raw: 0 },
                ) && old(self).points@.contains(final(self).points@[i]),
    {
        let ghost keep = outside_zones(*root, occupancy_radius_coef);
        let ghost before = self.points@;
        let mut kept: Vec<Vec3> = Vec::new();
        let mut i: usize = 0;
        proof {
            reveal(Seq::filter);
            assert(before.take(0) =~= Seq::<Vec3>::empty());
        }
        while i < self.points.len()
            invariant
                i <= self.points.len(),
                self.points@ == before,
                self.bud_id_counter == old(self).bud_id_counter,
                keep == outside_zones(*root, occupancy_radius_coef),
                kept@ == before.take(i as int).filter(keep),
            decreases self.points.len() - i,
        {
            let point = self.points[i];
            let inside = is_in_occupancy_zone(&point, root, occupancy_radius_coef, Fixed { raw: 0 });
            proof {
                reveal(Seq::filter);
                assert(before.take(i + 1).drop_last() =~= before.take(i as int));
                assert(before.take(i + 1).last() == point);
            }
            if !inside {
                kept.push(point);
            }
            i = i + 1;
        }
        proof {
            assert(before.take(i as int) =~= before);
            before.lemma_filter_len(keep);
            assert forall|k: int| 0 <= k < kept@.len() implies !in_occupancy_zone(
                #[trigger] kept@[k],
                *root,
                occupancy_radius_coef,
                Fixed { raw: 0 },
            ) && before.contains(kept@[k]) by {
                before.lemma_filter_pred(keep, k);
                assert(before.filter(keep).contains(kept@[k]));
                before.lemma_filter_contains_rev(keep, kept@[k]);
            }
        }
        self.points = kept;
    }
}

} // verus!
