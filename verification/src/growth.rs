//! The run: from a seed to a skeleton.
//!
//! A run scatters the environment, plants a root with one dormant bud and
//! repeats the iteration: clear what the tree occupies, work out the local
//! environment of every bud, count the subtrees, determine the fates, renew
//! the widths. What has grown is then turned into the skeleton.
use crate::branch::{
    calculate_branch_sizes, lemma_widths_updated, sizes_counted, update_branch_width,
    width_updated_below, widths_hold, widths_updated,
};
use crate::data::TreeInfo;
use crate::environment::{generate_environment, outside_zones, scattered_point, Environment};
use crate::fate::{
    bud_grown_on, buds_fate, determine_buds_fate, highest_vigor, lemma_bud_grown_on_itself,
    lemma_fates_determined, lemma_fates_only_advance, lemma_grown_on_further, node_grown_on,
};
use crate::fixed::Fixed;
use crate::graph::{
    dense, span, Bud, BudFate, BudId, BudLocalEnvironment, MetamerNode, TreeNode, TreeStructure,
};
use crate::light::{calculate_light_exposure, light_exposure};
use crate::mesh::mesh_of;
use crate::perception::{calculate_optimal_growth_direction, optimal_directions};
use crate::random::Generator;
use crate::resource::{calculate_resources, resources};
use crate::shoot::Steering;
use crate::vector::Vec3;
use vstd::prelude::*;
use vstd::std_specs::convert::FromSpecImpl;

verus! {

/// The tropism angle of every tree: an eighth of a turn downward.
pub const TROPISM_ANGLE_RAW: i64 = -785_398_163;

/// The configuration of a run. Angles are in radians, lengths in world
/// units; the rest are weights and coefficients without a unit.
#[derive(Clone, Copy, Debug, PartialEq, Eq, Structural)]
pub struct SeedStructure {
    pub seed: u64,
    pub main_branching_angle: Fixed,
    pub lateral_branching_angle: Fixed,
    pub apical_dominance: Fixed,
    pub bud_light_sensitivity: Fixed,
    pub branch_self_pruning: Fixed,
    pub maximum_shoot_length: Fixed,
    pub tropism_angle: Fixed,
    pub bud_perception_angle: Fixed,
    pub bud_perception_distance_coef: Fixed,
    pub occupancy_radius_coef: Fixed,
    pub resource_coef: Fixed,
    pub full_light_exposure: Fixed,
    pub base_branch_width: Fixed,
    pub shadow_volume_angle: Fixed,
    pub shadow_adjustment_coef: Fixed,
    pub shadow_adjustment_base: Fixed,
    pub trunk_length: Fixed,
    pub tropism_weight: Fixed,
    pub current_direction_weight: Fixed,
    pub optimal_growth_direction_weight: Fixed,
    pub environment_size: u64,
    pub environment_points_count: u32,
    pub iterations_count: u32,
}

impl SeedStructure {
    /// The configuration that every tree with the seed `seed` grows by.
    pub open spec fn for_seed(seed: u64) -> SeedStructure {
        SeedStructure {
            seed,
            main_branching_angle: Fixed { raw: 87_266_462 },
            lateral_branching_angle: Fixed { raw: 1_221_730_476 },
            apical_dominance: Fixed { raw: 500_000_000 },
            bud_light_sensitivity: Fixed { raw: 1_000_000_000 },
            branch_self_pruning: Fixed { raw: 50_000_000 },
            maximum_shoot_length: Fixed { raw: 1_000_000_000 },
            tropism_angle: Fixed { raw: TROPISM_ANGLE_RAW },
            bud_perception_angle: Fixed { raw: 785_398_163 },
            bud_perception_distance_coef: Fixed { raw: 5_000_000_000 },
            occupancy_radius_coef: Fixed { raw: 2_000_000_000 },
            resource_coef: Fixed { raw: 500_000_000 },
            full_light_exposure: Fixed { raw: 4_000_000_000 },
            base_branch_width: Fixed { raw: 100 },
            shadow_volume_angle: Fixed { raw: 785_398_163 },
            shadow_adjustment_coef: Fixed { raw: 1_000_000_000 },
            shadow_adjustment_base: Fixed { raw: 1_000_000_000 },
            trunk_length: Fixed { raw: 300_000_000 },
            tropism_weight: Fixed { raw: 100_000_000 },
            current_direction_weight: Fixed { raw: 500_000_000 },
            optimal_growth_direction_weight: Fixed { raw: 300_000_000 },
            environment_size: 40,
            environment_points_count: 100000,
            iterations_count: 20,
        }
    }

    /// What steers the shoots of a run.
    pub open spec fn steering(self) -> Steering {
        Steering {
            tropism_angle: self.tropism_angle,
            tropism_weight: self.tropism_weight,
            current_direction_weight: self.current_direction_weight,
            optimal_growth_direction_weight: self.optimal_growth_direction_weight,
            lateral_branching_angle: self.lateral_branching_angle,
        }
    }
}

impl From<TreeInfo> for SeedStructure {
    /// The configuration for a tree: its seed, and the constants of the
    /// species.
    fn from(tree_info: TreeInfo) -> (r: SeedStructure) {
        SeedStructure {
            seed: tree_info.seed,
            main_branching_angle: Fixed { raw: 87_266_462 },
            lateral_branching_angle: Fixed { raw: 1_221_730_476 },
            apical_dominance: Fixed { raw: 500_000_000 },
            bud_light_sensitivity: Fixed { raw: 1_000_000_000 },
            branch_self_pruning: Fixed { raw: 50_000_000 },
            maximum_shoot_length: Fixed { raw: 1_000_000_000 },
            tropism_angle: Fixed { raw: TROPISM_ANGLE_RAW },
            bud_perception_angle: Fixed { raw: 785_398_163 },
            bud_perception_distance_coef: Fixed { raw: 5_000_000_000 },
            occupancy_radius_coef: Fixed { raw: 2_000_000_000 },
            resource_coef: Fixed { raw: 500_000_000 },
            full_light_exposure: Fixed { raw: 4_000_000_000 },
            base_branch_width: Fixed { raw: 100 },
            shadow_volume_angle: Fixed { raw: 785_398_163 },
            shadow_adjustment_coef: Fixed { raw: 1_000_000_000 },
            shadow_adjustment_base: Fixed { raw: 1_000_000_000 },
            trunk_length: Fixed { raw: 300_000_000 },
            tropism_weight: Fixed { raw: 100_000_000 },
            current_direction_weight: Fixed { raw: 500_000_000 },
            optimal_growth_direction_weight: Fixed { raw: 300_000_000 },
            environment_size: 40,
            environment_points_count: 100000,
            iterations_count: 20,
        }
    }
}

impl FromSpecImpl<TreeInfo> for SeedStructure {
    open spec fn obeys_from_spec() -> bool {
        true
    }

    open spec fn from_spec(tree_info: TreeInfo) -> SeedStructure {
        SeedStructure::for_seed(tree_info.seed)
    }
}

/// The records and the generator after the local environment of every bud
/// has been worked out: the optimal growth directions, then the light, then
/// the resource.
pub open spec fn local_environment(
    info: Seq<BudLocalEnvironment>,
    points: Seq<Vec3>,
    root: MetamerNode,
    rng: Generator,
    perception_angle: Fixed,
    perception_distance_coef: Fixed,
    full_light_exposure: Fixed,
    shadow_volume_angle: Fixed,
    shadow_adjustment_coef: Fixed,
    shadow_adjustment_base: Fixed,
    resource_coef: Fixed,
    bud_light_sensitivity: Fixed,
    apical_dominance: Fixed,
    trunk_length: Fixed,
) -> (Seq<BudLocalEnvironment>, Generator) {
    let (directed, after) = optimal_directions(
        info,
        points,
        root,
        rng,
        perception_angle,
        perception_distance_coef,
        trunk_length,
    );
    let lit = light_exposure(
        directed,
        root,
        full_light_exposure,
        shadow_volume_angle,
        shadow_adjustment_coef,
        shadow_adjustment_base,
    );
    (resources(lit, root, resource_coef, bud_light_sensitivity, apical_dominance), after)
}

/// Works out the local environment of every bud.
pub fn calculate_local_environment(
    bud_info: &mut Vec<BudLocalEnvironment>,
    environment: &Environment,
    root: &MetamerNode,
    rng: &mut Generator,
    perception_angle: Fixed,
    perception_distance_coef: Fixed,
    full_light_exposure: Fixed,
    shadow_volume_angle: Fixed,
    shadow_adjustment_coef: Fixed,
    shadow_adjustment_base: Fixed,
    resource_coef: Fixed,
    bud_light_sensitivity: Fixed,
    apical_dominance: Fixed,
    trunk_length: Fixed,
)
    requires
        root.well_formed(old(bud_info).len() as nat),
    ensures
        (final(bud_info)@, *final(rng)) == local_environment(
            old(bud_info)@,
            environment.points@,
            *root,
            *old(rng),
            perception_angle,
            perception_distance_coef,
            full_light_exposure,
            shadow_volume_angle,
            shadow_adjustment_coef,
            shadow_adjustment_base,
            resource_coef,
            bud_light_sensitivity,
            apical_dominance,
            trunk_length,
        ),
        final(bud_info).len() == old(bud_info).len(),
{
    calculate_optimal_growth_direction(
        bud_info,
        environment,
        root,
        rng,
        perception_angle,
        perception_distance_coef,
        trunk_length,
    );
    calculate_light_exposure(
        bud_info,
        root,
        full_light_exposure,
        shadow_volume_angle,
        shadow_adjustment_coef,
        shadow_adjustment_base,
    );
    calculate_resources(bud_info, root, resource_coef, bud_light_sensitivity, apical_dominance);
}

/// A tree in the middle of a run: the graph, the points that are left, the
/// number of the next bud and the generator.
pub struct Growth {
    pub root: MetamerNode,
    pub points: Seq<Vec3>,
    pub counter: usize,
    pub rng: Generator,
}

/// The root that every run starts from: at the origin, with a dormant main
/// bud that points up and a dead axillary bud.
pub open spec fn seedling_root(base_branch_width: Fixed) -> MetamerNode {
    MetamerNode {
        global_position: Vec3::zero(),
        width: base_branch_width,
        main_bud: Bud {
            direction: Vec3::up(),
            id: BudId(0),
            branch_node: None,
            fate: BudFate::Dormant,
        },
        axillary_bud: Bud {
            direction: Vec3::zero(),
            id: BudId(1),
            branch_node: None,
            fate: BudFate::Dead,
        },
    }
}

/// The state that a run starts from.
pub open spec fn seedling(args: SeedStructure) -> Growth {
    Growth {
        root: seedling_root(args.base_branch_width),
        points: Seq::new(
            args.environment_points_count as nat,
            |i: int| scattered_point(args.seed, args.environment_size, i as nat),
        ),
        counter: 2,
        rng: Generator::new(args.seed),
    }
}

/// Blank records for `count` buds.
pub open spec fn blank_records(count: nat) -> Seq<BudLocalEnvironment> {
    Seq::new(count, |i: int| BudLocalEnvironment::blank())
}

/// The records that an iteration works out for the tree in `state`, and
/// the generator after it has done so.
pub open spec fn records(state: Growth, args: SeedStructure) -> (
    Seq<BudLocalEnvironment>,
    Generator,
) {
    let (info, rng) = local_environment(
        blank_records(state.counter as nat),
        state.points.filter(outside_zones(state.root, args.occupancy_radius_coef)),
        state.root,
        state.rng,
        args.bud_perception_angle,
        args.bud_perception_distance_coef,
        args.full_light_exposure,
        args.shadow_volume_angle,
        args.shadow_adjustment_coef,
        args.shadow_adjustment_base,
        args.resource_coef,
        args.bud_light_sensitivity,
        args.apical_dominance,
        args.trunk_length,
    );
    (sizes_counted(info, state.root).0, rng)
}

/// The state after one iteration.
#[verifier::opaque]
pub open spec fn iterated(state: Growth, args: SeedStructure) -> Growth {
    let (info, drawn) = records(state, args);
    let (root, counter, rng) = buds_fate(
        info,
        state.root,
        state.counter,
        drawn,
        args.branch_self_pruning,
        args.maximum_shoot_length,
        args.steering(),
    );
    Growth {
        root: widths_updated(root, args.base_branch_width),
        points: state.points.filter(outside_zones(state.root, args.occupancy_radius_coef)),
        counter,
        rng,
    }
}

/// The state after `iterations` iterations.
pub open spec fn grown(state: Growth, args: SeedStructure, iterations: nat) -> Growth
    decreases iterations,
{
    if iterations == 0 {
        state
    } else {
        iterated(grown(state, args, (iterations - 1) as nat), args)
    }
}

/// An iteration keeps a graph dense: it stays well formed, no number is
/// used twice, and the numbers in use are exactly those handed out.
pub proof fn lemma_iterated_dense(state: Growth, args: SeedStructure)
    requires
        dense(state.root, state.counter as nat),
    ensures
        dense(iterated(state, args).root, iterated(state, args).counter as nat),
        state.counter <= iterated(state, args).counter,
{
    reveal(iterated);
    let (info, drawn) = records(state, args);
    lemma_fates_determined(
        info,
        state.root,
        state.counter,
        drawn,
        highest_vigor(info, state.root),
        args.branch_self_pruning,
        args.maximum_shoot_length,
        args.steering(),
    );
    let fated = buds_fate(
        info,
        state.root,
        state.counter,
        drawn,
        args.branch_self_pruning,
        args.maximum_shoot_length,
        args.steering(),
    );
    lemma_widths_updated(fated.0, args.base_branch_width, fated.1 as nat);
    assert(state.root.ids().union(span(state.counter as nat, fated.1 as nat)) =~= Set::new(
        |i: nat| i < fated.1 as nat,
    ));
}

/// Every state of a run is dense.
pub proof fn lemma_grown_dense(args: SeedStructure, iterations: nat)
    ensures
        dense(
            grown(seedling(args), args, iterations).root,
            grown(seedling(args), args, iterations).counter as nat,
        ),
        2 <= grown(seedling(args), args, iterations).counter,
    decreases iterations,
{
    if iterations == 0 {
        let root = seedling(args).root;
        assert(root.main_bud.ids() =~= set![0nat]);
        assert(root.axillary_bud.ids() =~= set![1nat]);
        assert(root.ids() =~= Set::new(|i: nat| i < 2));
    } else {
        lemma_grown_dense(args, (iterations - 1) as nat);
        lemma_iterated_dense(grown(seedling(args), args, (iterations - 1) as nat), args);
    }
}

/// Renewing the widths leaves every bud in its place and in its fate.
pub proof fn lemma_widths_grown_on(node: MetamerNode, base_branch_width: Fixed)
    ensures
        node_grown_on(node, widths_updated(node, base_branch_width)),
    decreases node,
{
    lemma_width_grown_on_below(node.main_bud, base_branch_width);
    lemma_width_grown_on_below(node.axillary_bud, base_branch_width);
}

proof fn lemma_width_grown_on_below(bud: Bud, base_branch_width: Fixed)
    ensures
        bud_grown_on(bud, width_updated_below(bud, base_branch_width)),
    decreases bud,
{
    lemma_bud_grown_on_itself(bud);
    match bud.branch_node {
        Some(child) => {
            lemma_widths_grown_on(*child, base_branch_width);
        },
        None => {},
    }
}

/// An iteration takes no bud back: every bud is still in its place, a dead
/// bud is still dead, and a bud that had shot has not become dormant
/// again.
pub proof fn lemma_iterated_grown_on(state: Growth, args: SeedStructure)
    requires
        state.root.shaped(),
    ensures
        node_grown_on(state.root, iterated(state, args).root),
{
    reveal(iterated);
    let (info, drawn) = records(state, args);
    lemma_fates_only_advance(
        info,
        state.root,
        state.counter,
        drawn,
        highest_vigor(info, state.root),
        args.branch_self_pruning,
        args.maximum_shoot_length,
        args.steering(),
    );
    let fated = buds_fate(
        info,
        state.root,
        state.counter,
        drawn,
        args.branch_self_pruning,
        args.maximum_shoot_length,
        args.steering(),
    );
    lemma_widths_grown_on(fated.0, args.base_branch_width);
    lemma_grown_on_further(state.root, fated.0, iterated(state, args).root);
}

/// Fates only move on over a run: the graph after `later` iterations is the
/// graph after `earlier` iterations grown on.
pub proof fn lemma_run_only_advances(args: SeedStructure, earlier: nat, later: nat)
    requires
        earlier <= later,
    ensures
        node_grown_on(
            grown(seedling(args), args, earlier).root,
            grown(seedling(args), args, later).root,
        ),
    decreases later,
{
    if earlier == later {
        let root = grown(seedling(args), args, earlier).root;
        lemma_bud_grown_on_itself(root.main_bud);
        lemma_bud_grown_on_itself(root.axillary_bud);
    } else {
        let before = grown(seedling(args), args, (later - 1) as nat);
        lemma_run_only_advances(args, earlier, (later - 1) as nat);
        lemma_grown_dense(args, (later - 1) as nat);
        lemma_iterated_grown_on(before, args);
        lemma_grown_on_further(
            grown(seedling(args), args, earlier).root,
            before.root,
            grown(seedling(args), args, later).root,
        );
    }
}

fn blank_info(count: usize) -> (info: Vec<BudLocalEnvironment>)
    ensures
        info@ == blank_records(count as nat),
{
    let mut info: Vec<BudLocalEnvironment> = Vec::new();
    let mut i: usize = 0;
    while i < count
        invariant
            i <= count,
            info@ == blank_records(i as nat),
        decreases count - i,
    {
        info.push(BudLocalEnvironment::default());
        i = i + 1;
        assert(info@ =~= blank_records(i as nat));
    }
    info
}

/// One iteration: clears what the tree occupies, works out the local
/// environment of every bud from blank records, counts the subtrees,
/// determines the fates and renews the widths.
pub fn iterate(
    args: &SeedStructure,
    root: &mut MetamerNode,
    environment: &mut Environment,
    rng: &mut Generator,
)
    requires
        dense(*old(root), old(environment).bud_id_counter.0 as nat),
    ensures
        (Growth {
            root: *final(root),
            points: final(environment).points@,
            counter: final(environment).bud_id_counter.0,
            rng: *final(rng),
        }) == iterated(
            (Growth {
                root: *old(root),
                points: old(environment).points@,
                counter: old(environment).bud_id_counter.0,
                rng: *old(rng),
            }),
            *args,
        ),
        dense(*final(root), final(environment).bud_id_counter.0 as nat),
        node_grown_on(*old(root), *final(root)),
        widths_hold(*final(root), args.base_branch_width),
        old(environment).bud_id_counter.0 <= final(environment).bud_id_counter.0,
        final(environment).points@ == old(environment).points@.filter(
            outside_zones(*old(root), args.occupancy_radius_coef),
        ),
{
    let ghost before = Growth {
        root: *root,
        points: environment.points@,
        counter: environment.bud_id_counter.0,
        rng: *rng,
    };
    proof {
        reveal(iterated);
        lemma_iterated_dense(before, *args);
        lemma_iterated_grown_on(before, *args);
    }
    let mut bud_info = blank_info(environment.get_number_of_buds());
    environment.clear_occupancy_zones(root, args.occupancy_radius_coef);
    calculate_local_environment(
        &mut bud_info,
        environment,
        root,
        rng,
        args.bud_perception_angle,
        args.bud_perception_distance_coef,
        args.full_light_exposure,
        args.shadow_volume_angle,
        args.shadow_adjustment_coef,
        args.shadow_adjustment_base,
        args.resource_coef,
        args.bud_light_sensitivity,
        args.apical_dominance,
        args.trunk_length,
    );
    calculate_branch_sizes(&mut bud_info, root);
    assert(bud_info@ == records(before, *args).0);
    determine_buds_fate(
        &bud_info,
        environment,
        root,
        rng,
        args.tropism_angle,
        args.tropism_weight,
        args.current_direction_weight,
        args.optimal_growth_direction_weight,
        args.main_branching_angle,
        args.lateral_branching_angle,
        args.branch_self_pruning,
        args.maximum_shoot_length,
    );
    proof {
        lemma_fates_determined(
            bud_info@,
            before.root,
            before.counter,
            records(before, *args).1,
            highest_vigor(bud_info@, before.root),
            args.branch_self_pruning,
            args.maximum_shoot_length,
            args.steering(),
        );
    }
    update_branch_width(root, args.base_branch_width);
}

/// Grows the graph of a run: the environment is scattered, the root is
/// planted, and the iteration is repeated `args.iterations_count` times.
/// Returns the graph and what is left of the environment.
pub fn grow(args: &SeedStructure) -> (r: (MetamerNode, Environment))
    ensures
        r.0 == grown(seedling(*args), *args, args.iterations_count as nat).root,
        r.1.points@ == grown(seedling(*args), *args, args.iterations_count as nat).points,
        r.1.bud_id_counter.0 == grown(seedling(*args), *args, args.iterations_count as nat).counter,
        dense(r.0, r.1.bud_id_counter.0 as nat),
        node_grown_on(seedling_root(args.base_branch_width), r.0),
        args.iterations_count > 0 ==> widths_hold(r.0, args.base_branch_width),
{
    proof {
        lemma_run_only_advances(*args, 0, args.iterations_count as nat);
    }
    let mut environment = generate_environment(
        args.seed,
        args.environment_size,
        args.environment_points_count,
    );
    let mut rng = Generator::new(args.seed);
    let main_id = environment.get_next_bud_id();
    let axillary_id = environment.get_next_bud_id();
    let mut root = MetamerNode {
        global_position: Vec3::zero(),
        width: args.base_branch_width,
        main_bud: Bud {
            direction: Vec3::up(),
            id: main_id,
            branch_node: None,
            fate: BudFate::Dormant,
        },
        axillary_bud: Bud {
            direction: Vec3::zero(),
            id: axillary_id,
            branch_node: None,
            fate: BudFate::Dead,
        },
    };
    let mut done: u32 = 0;
    proof {
        lemma_grown_dense(*args, 0);
    }
    while done < args.iterations_count
        invariant
            done <= args.iterations_count,
            (Growth {
                root,
                points: environment.points@,
                counter: environment.bud_id_counter.0,
                rng,
            }) == grown(seedling(*args), *args, done as nat),
            dense(root, environment.bud_id_counter.0 as nat),
            done > 0 ==> widths_hold(root, args.base_branch_width),
        decreases args.iterations_count - done,
    {
        iterate(args, &mut root, &mut environment, &mut rng);
        done = done + 1;
    }
    (root, environment)
}

/// The skeleton of the tree that grows by `args`.
pub open spec fn generated(args: SeedStructure) -> TreeStructure {
    TreeStructure {
        root: grown(seedling(args), args, args.iterations_count as nat).root.skeleton(),
    }
}

/// A run is a function of its configuration: two runs with the same seed
/// and the same configuration end in the same graph, the same skeleton and
/// the same mesh.
pub proof fn lemma_equal_runs(first: SeedStructure, second: SeedStructure)
    requires
        first == second,
    ensures
        grown(seedling(first), first, first.iterations_count as nat) == grown(
            seedling(second),
            second,
            second.iterations_count as nat,
        ),
        generated(first) == generated(second),
        mesh_of(generated(first)) == mesh_of(generated(second)),
{
}

/// Equal seeds give equal trees and equal meshes, whatever else is known of
/// the two trees.
pub proof fn lemma_equal_seeds(first: TreeInfo, second: TreeInfo)
    requires
        first.seed == second.seed,
    ensures
        generated(SeedStructure::for_seed(first.seed)) == generated(
            SeedStructure::for_seed(second.seed),
        ),
        mesh_of(generated(SeedStructure::for_seed(first.seed))) == mesh_of(
            generated(SeedStructure::for_seed(second.seed)),
        ),
{
}

/// Grows a tree by `args` and returns its skeleton.
pub fn generate_from(args: &SeedStructure) -> (tree: TreeStructure)
    ensures
        tree == generated(*args),
{
    let (root, _) = grow(args);
    TreeStructure { root: TreeNode::from(root) }
}

/// Grows the tree that `tree_info` stands for and returns its skeleton.
pub fn generate(tree_info: TreeInfo) -> (tree: TreeStructure)
    ensures
        tree == generated(SeedStructure::for_seed(tree_info.seed)),
{
    let args = SeedStructure::from(tree_info);
    generate_from(&args)
}

} // verus!
