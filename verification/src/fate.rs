//! What becomes of each bud in an iteration.
//!
//! A dormant bud with a resource of at least one shoots; a bud that has shot
//! and whose resource per node of its subtree is under the pruning threshold
//! dies and takes its subtree out of the growth; any other bud that has shot
//! hands the question on to its child.
use crate::environment::Environment;
use crate::fixed::{floor_div, Fixed, ONE_RAW};
use crate::graph::{
    lemma_bud_ids_bounded, lemma_bud_numbered_higher, span, Bud, BudFate, BudLocalEnvironment,
    MetamerNode,
};
use crate::random::Generator;
use crate::shoot::{add_new_shoots, lemma_shoots_added, shoots_added, Steering};
use crate::vector::Vec3;
use vstd::prelude::*;

verus! {

/// The larger of two numbers; the first where they are equal.
pub open spec fn larger(a: Fixed, b: Fixed) -> Fixed {
    if b.raw > a.raw {
        b
    } else {
        a
    }
}

/// The highest resource of a dormant bud at `node` or below what has shot
/// there; zero where there is none above zero.
pub open spec fn highest_vigor(info: Seq<BudLocalEnvironment>, node: MetamerNode) -> Fixed
    decreases node,
{
    larger(
        larger(Fixed { raw: 0 }, vigor_below(info, node.main_bud)),
        vigor_below(info, node.axillary_bud),
    )
}

/// The highest resource of a dormant bud at `bud` or below it.
pub open spec fn vigor_below(info: Seq<BudLocalEnvironment>, bud: Bud) -> Fixed
    decreases bud,
{
    match bud.fate {
        BudFate::Dormant => info[bud.id.0 as int].resource,
        BudFate::Shoot => match bud.branch_node {
            Some(child) => highest_vigor(info, *child),
            None => Fixed { raw: 0 },
        },
        BudFate::Dead => Fixed { raw: 0 },
    }
}

fn vigor_of(bud_info: &Vec<BudLocalEnvironment>, bud: &Bud) -> (r: Fixed)
    requires
        bud.well_formed(bud_info.len() as nat),
    ensures
        r == vigor_below(bud_info@, *bud),
    decreases *bud,
{
    match bud.fate {
        BudFate::Dormant => bud_info[bud.id.0].resource,
        BudFate::Shoot => match &bud.branch_node {
            Some(child) => get_highest_tree_vigor(bud_info, child),
            None => Fixed { raw: 0 },
        },
        BudFate::Dead => Fixed { raw: 0 },
    }
}

/// The highest resource of a dormant bud of the tree.
pub fn get_highest_tree_vigor(bud_info: &Vec<BudLocalEnvironment>, root: &MetamerNode) -> (r: Fixed)
    requires
        root.well_formed(bud_info.len() as nat),
    ensures
        r == highest_vigor(bud_info@, *root),
    decreases *root,
{
    let mut highest_tree_vigor = Fixed { raw: 0 };
    let main = vigor_of(bud_info, &root.main_bud);
    if main.raw > highest_tree_vigor.raw {
        highest_tree_vigor = main;
    }
    let axillary = vigor_of(bud_info, &root.axillary_bud);
    if axillary.raw > highest_tree_vigor.raw {
        highest_tree_vigor = axillary;
    }
    highest_tree_vigor
}

/// Whether a bud that has shot is to die: its resource per node of its
/// subtree is under `threshold`.
pub open spec fn starved(entry: BudLocalEnvironment, threshold: Fixed) -> bool {
    entry.subtree_size > 0 && (entry.resource.raw as int) / (entry.subtree_size as int)
        < threshold.raw
}

/// How many nodes a bud with `resource` shoots:
/// `resource * maximum_shoot_length / highest_tree_vigor`, rounded down. None
/// where the vigor is not above zero.
pub open spec fn internode_count(
    resource: Fixed,
    maximum_shoot_length: Fixed,
    highest_tree_vigor: Fixed,
) -> nat {
    if highest_tree_vigor.raw <= 0 {
        0
    } else {
        let whole = resource.scaled(maximum_shoot_length, highest_tree_vigor).spec_floor();
        if whole <= 0 {
            0
        } else if whole > usize::MAX {
            usize::MAX as nat
        } else {
            whole as nat
        }
    }
}

/// How long each of `count` nodes of a shoot is: `resource / count`.
pub open spec fn internode_length(resource: Fixed, count: nat) -> Fixed {
    if count == 0 {
        Fixed { raw: 0 }
    } else {
        resource.scaled(Fixed { raw: 1 }, Fixed { raw: count as i64 })
    }
}

/// The bud, the bud counter and the generator after the fate of `bud`, which
/// sits at `position`, and of all that has shot below it has been
/// determined.
pub open spec fn bud_fate_determined(
    info: Seq<BudLocalEnvironment>,
    bud: Bud,
    position: Vec3,
    counter: usize,
    rng: Generator,
    highest_tree_vigor: Fixed,
    threshold: Fixed,
    maximum_shoot_length: Fixed,
    steering: Steering,
) -> (Bud, usize, Generator)
    decreases bud,
{
    let entry = info[bud.id.0 as int];
    match bud.fate {
        BudFate::Shoot => {
            if starved(entry, threshold) {
                (Bud { fate: BudFate::Dead, ..bud }, counter, rng)
            } else {
                match bud.branch_node {
                    Some(child) => {
                        let (node, next, after) = fates_determined(
                            info,
                            *child,
                            counter,
                            rng,
                            highest_tree_vigor,
                            threshold,
                            maximum_shoot_length,
                            steering,
                        );
                        (Bud { branch_node: Some(Box::new(node)), ..bud }, next, after)
                    },
                    None => (bud, counter, rng),
                }
            }
        },
        BudFate::Dormant => {
            if entry.resource.raw >= ONE_RAW {
                let count = internode_count(
                    entry.resource,
                    maximum_shoot_length,
                    highest_tree_vigor,
                );
                shoots_added(
                    bud,
                    counter,
                    rng,
                    entry.optimal_growth_direction,
                    count,
                    internode_length(entry.resource, count),
                    position,
                    steering,
                )
            } else {
                (bud, counter, rng)
            }
        },
        BudFate::Dead => (bud, counter, rng),
    }
}

/// The node, the bud counter and the generator after the fate of the two
/// buds of `node`, the main bud first, and of all that has shot below them
/// has been determined.
pub open spec fn fates_determined(
    info: Seq<BudLocalEnvironment>,
    node: MetamerNode,
    counter: usize,
    rng: Generator,
    highest_tree_vigor: Fixed,
    threshold: Fixed,
    maximum_shoot_length: Fixed,
    steering: Steering,
) -> (MetamerNode, usize, Generator)
    decreases node,
{
    let (main, middle, between) = bud_fate_determined(
        info,
        node.main_bud,
        node.global_position,
        counter,
        rng,
        highest_tree_vigor,
        threshold,
        maximum_shoot_length,
        steering,
    );
    let (axillary, next, after) = bud_fate_determined(
        info,
        node.axillary_bud,
        node.global_position,
        middle,
        between,
        highest_tree_vigor,
        threshold,
        maximum_shoot_length,
        steering,
    );
    (MetamerNode { main_bud: main, axillary_bud: axillary, ..node }, next, after)
}

/// The fates that may follow a fate: a dead bud stays dead, a bud that has
/// shot never goes back to being dormant.
pub open spec fn fate_advances(before: BudFate, after: BudFate) -> bool {
    match before {
        BudFate::Dormant => true,
        BudFate::Shoot => after != BudFate::Dormant,
        BudFate::Dead => after == BudFate::Dead,
    }
}

/// `after` is `before` grown on: every bud of `before` is still there, in
/// its place and under its number, with a fate that may follow the one it
/// had.
pub open spec fn bud_grown_on(before: Bud, after: Bud) -> bool
    decreases before,
{
    &&& after.id == before.id
    &&& fate_advances(before.fate, after.fate)
    &&& match before.branch_node {
        Some(child) => match after.branch_node {
            Some(grown) => node_grown_on(*child, *grown),
            None => false,
        },
        None => true,
    }
}

/// `after` is `before` grown on.
pub open spec fn node_grown_on(before: MetamerNode, after: MetamerNode) -> bool
    decreases before,
{
    &&& after.global_position == before.global_position
    &&& bud_grown_on(before.main_bud, after.main_bud)
    &&& bud_grown_on(before.axillary_bud, after.axillary_bud)
}

/// A bud is itself grown on.
pub proof fn lemma_bud_grown_on_itself(bud: Bud)
    ensures
        bud_grown_on(bud, bud),
    decreases bud,
{
    match bud.branch_node {
        Some(child) => {
            lemma_bud_grown_on_itself(child.main_bud);
            lemma_bud_grown_on_itself(child.axillary_bud);
        },
        None => {},
    }
}

/// Growing on goes on: what has grown on from a graph that has grown on
/// from a first has grown on from the first.
pub proof fn lemma_grown_on_further(first: MetamerNode, second: MetamerNode, third: MetamerNode)
    requires
        node_grown_on(first, second),
        node_grown_on(second, third),
    ensures
        node_grown_on(first, third),
    decreases first,
{
    lemma_bud_grown_on_further(first.main_bud, second.main_bud, third.main_bud);
    lemma_bud_grown_on_further(first.axillary_bud, second.axillary_bud, third.axillary_bud);
}

proof fn lemma_bud_grown_on_further(first: Bud, second: Bud, third: Bud)
    requires
        bud_grown_on(first, second),
        bud_grown_on(second, third),
    ensures
        bud_grown_on(first, third),
    decreases first,
{
    match first.branch_node {
        Some(child) => {
            lemma_grown_on_further(
                *child,
                *second.branch_node.unwrap(),
                *third.branch_node.unwrap(),
            );
        },
        None => {},
    }
}

/// No fate goes back: once the fates of a shaped graph have been
/// determined, every bud is still in its place, a dead bud is still dead,
/// and a bud that had shot has not become dormant again.
pub proof fn lemma_fates_only_advance(
    info: Seq<BudLocalEnvironment>,
    node: MetamerNode,
    counter: usize,
    rng: Generator,
    highest_tree_vigor: Fixed,
    threshold: Fixed,
    maximum_shoot_length: Fixed,
    steering: Steering,
)
    requires
        node.shaped(),
    ensures
        node_grown_on(
            node,
            fates_determined(
                info,
                node,
                counter,
                rng,
                highest_tree_vigor,
                threshold,
                maximum_shoot_length,
                steering,
            ).0,
        ),
    decreases node,
{
    lemma_bud_fate_only_advances(
        info,
        node.main_bud,
        node.global_position,
        counter,
        rng,
        highest_tree_vigor,
        threshold,
        maximum_shoot_length,
        steering,
    );
    let first = bud_fate_determined(
        info,
        node.main_bud,
        node.global_position,
        counter,
        rng,
        highest_tree_vigor,
        threshold,
        maximum_shoot_length,
        steering,
    );
    lemma_bud_fate_only_advances(
        info,
        node.axillary_bud,
        node.global_position,
        first.1,
        first.2,
        highest_tree_vigor,
        threshold,
        maximum_shoot_length,
        steering,
    );
}

proof fn lemma_bud_fate_only_advances(
    info: Seq<BudLocalEnvironment>,
    bud: Bud,
    position: Vec3,
    counter: usize,
    rng: Generator,
    highest_tree_vigor: Fixed,
    threshold: Fixed,
    maximum_shoot_length: Fixed,
    steering: Steering,
)
    requires
        bud.shaped(),
    ensures
        bud_grown_on(
            bud,
            bud_fate_determined(
                info,
                bud,
                position,
                counter,
                rng,
                highest_tree_vigor,
                threshold,
                maximum_shoot_length,
                steering,
            ).0,
        ),
    decreases bud,
{
    lemma_bud_grown_on_itself(bud);
    match bud.fate {
        BudFate::Shoot => {
            match bud.branch_node {
                Some(child) => {
                    lemma_fates_only_advance(
                        info,
                        *child,
                        counter,
                        rng,
                        highest_tree_vigor,
                        threshold,
                        maximum_shoot_length,
                        steering,
                    );
                },
                None => {},
            }
        },
        _ => {},
    }
}

/// What determining the fates keeps and what it adds, for a bud: the bud
/// stays well formed, its buds keep their places and only move on in fate,
/// and its numbers are those it had and those handed out, each once.
pub proof fn lemma_bud_fate_determined(
    info: Seq<BudLocalEnvironment>,
    bud: Bud,
    position: Vec3,
    counter: usize,
    rng: Generator,
    highest_tree_vigor: Fixed,
    threshold: Fixed,
    maximum_shoot_length: Fixed,
    steering: Steering,
)
    requires
        bud.well_formed(counter as nat),
        bud.distinct(),
    ensures
        ({
            let grown = bud_fate_determined(
                info,
                bud,
                position,
                counter,
                rng,
                highest_tree_vigor,
                threshold,
                maximum_shoot_length,
                steering,
            );
            &&& counter <= grown.1
            &&& grown.0.well_formed(grown.1 as nat)
            &&& grown.0.distinct()
            &&& bud_grown_on(bud, grown.0)
            &&& grown.0.ids() =~= bud.ids().union(span(counter as nat, grown.1 as nat))
        }),
    decreases bud,
{
    let entry = info[bud.id.0 as int];
    let grown = bud_fate_determined(
        info,
        bud,
        position,
        counter,
        rng,
        highest_tree_vigor,
        threshold,
        maximum_shoot_length,
        steering,
    );
    lemma_bud_grown_on_itself(bud);
    match bud.fate {
        BudFate::Shoot => {
            if starved(entry, threshold) {
                assert(grown.0.ids() =~= bud.ids());
            } else {
                match bud.branch_node {
                    Some(child) => {
                        lemma_fates_determined(
                            info,
                            *child,
                            counter,
                            rng,
                            highest_tree_vigor,
                            threshold,
                            maximum_shoot_length,
                            steering,
                        );
                        let inner = fates_determined(
                            info,
                            *child,
                            counter,
                            rng,
                            highest_tree_vigor,
                            threshold,
                            maximum_shoot_length,
                            steering,
                        );
                        assert(grown.0.branch_node == Some(Box::new(inner.0)));
                        assert(grown.0.ids() == inner.0.ids().insert(bud.id.0 as nat));
                    },
                    None => {},
                }
            }
        },
        BudFate::Dormant => {
            if entry.resource.raw >= ONE_RAW {
                let count = internode_count(
                    entry.resource,
                    maximum_shoot_length,
                    highest_tree_vigor,
                );
                lemma_shoots_added(
                    bud,
                    counter,
                    rng,
                    entry.optimal_growth_direction,
                    count,
                    internode_length(entry.resource, count),
                    position,
                    steering,
                );
                assert(bud.ids() =~= set![bud.id.0 as nat]);
            }
        },
        BudFate::Dead => {},
    }
}

/// What determining the fates keeps and what it adds, for a node.
pub proof fn lemma_fates_determined(
    info: Seq<BudLocalEnvironment>,
    node: MetamerNode,
    counter: usize,
    rng: Generator,
    highest_tree_vigor: Fixed,
    threshold: Fixed,
    maximum_shoot_length: Fixed,
    steering: Steering,
)
    requires
        node.well_formed(counter as nat),
        node.distinct(),
    ensures
        ({
            let grown = fates_determined(
                info,
                node,
                counter,
                rng,
                highest_tree_vigor,
                threshold,
                maximum_shoot_length,
                steering,
            );
            &&& counter <= grown.1
            &&& grown.0.well_formed(grown.1 as nat)
            &&& grown.0.distinct()
            &&& node_grown_on(node, grown.0)
            &&& grown.0.ids() =~= node.ids().union(span(counter as nat, grown.1 as nat))
        }),
    decreases node,
{
    lemma_bud_fate_determined(
        info,
        node.main_bud,
        node.global_position,
        counter,
        rng,
        highest_tree_vigor,
        threshold,
        maximum_shoot_length,
        steering,
    );
    let first = bud_fate_determined(
        info,
        node.main_bud,
        node.global_position,
        counter,
        rng,
        highest_tree_vigor,
        threshold,
        maximum_shoot_length,
        steering,
    );
    lemma_bud_numbered_higher(node.axillary_bud, counter as nat, first.1 as nat);
    lemma_bud_fate_determined(
        info,
        node.axillary_bud,
        node.global_position,
        first.1,
        first.2,
        highest_tree_vigor,
        threshold,
        maximum_shoot_length,
        steering,
    );
    let second = bud_fate_determined(
        info,
        node.axillary_bud,
        node.global_position,
        first.1,
        first.2,
        highest_tree_vigor,
        threshold,
        maximum_shoot_length,
        steering,
    );
    lemma_bud_numbered_higher(first.0, first.1 as nat, second.1 as nat);
    lemma_bud_ids_bounded(node.main_bud, counter as nat);
    lemma_bud_ids_bounded(node.axillary_bud, counter as nat);
    let grown = fates_determined(
        info,
        node,
        counter,
        rng,
        highest_tree_vigor,
        threshold,
        maximum_shoot_length,
        steering,
    );
    assert(grown.0.main_bud == first.0);
    assert(grown.0.axillary_bud == second.0);
    assert(first.0.ids().disjoint(second.0.ids()));
    assert(grown.0.ids() =~= node.ids().union(span(counter as nat, grown.1 as nat)));
}

fn is_starved(entry: &BudLocalEnvironment, threshold: Fixed) -> (r: bool)
    ensures
        r == starved(*entry, threshold),
{
    entry.subtree_size > 0 && floor_div(entry.resource.raw as i128, entry.subtree_size as i128)
        < threshold.raw as i128
}

fn count_internodes(resource: Fixed, maximum_shoot_length: Fixed, highest_tree_vigor: Fixed) -> (r:
    usize)
    ensures
        r == internode_count(resource, maximum_shoot_length, highest_tree_vigor),
        r <= i64::MAX,
{
    if highest_tree_vigor.raw <= 0 {
        return 0;
    }
    let whole: i64 = resource.scaled(maximum_shoot_length, highest_tree_vigor).floor();
    if whole <= 0 {
        0
    } else if whole as u64 > usize::MAX as u64 {
        usize::MAX
    } else {
        whole as usize
    }
}

fn fate_for_bud(
    bud_info: &Vec<BudLocalEnvironment>,
    environment: &mut Environment,
    bud: &mut Bud,
    position: Vec3,
    rng: &mut Generator,
    highest_tree_vigor: Fixed,
    tropism_angle: Fixed,
    tropism_weight: Fixed,
    current_direction_weight: Fixed,
    optimal_growth_direction_weight: Fixed,
    main_branching_angle: Fixed,
    lateral_branching_angle: Fixed,
    prunning_threshold: Fixed,
    maximum_shoot_length: Fixed,
)
    requires
        old(bud).well_formed(bud_info.len() as nat),
    ensures
        (*final(bud), final(environment).bud_id_counter.0, *final(rng)) == bud_fate_determined(
            bud_info@,
            *old(bud),
            position,
            old(environment).bud_id_counter.0,
            *old(rng),
            highest_tree_vigor,
            prunning_threshold,
            maximum_shoot_length,
            (Steering {
                tropism_angle,
                tropism_weight,
                current_direction_weight,
                optimal_growth_direction_weight,
                lateral_branching_angle,
            }),
        ),
        final(environment).points == old(environment).points,
    decreases *old(bud),
{
    let entry = bud_info[bud.id.0];
    match bud.fate {
        BudFate::Shoot => {
            if is_starved(&entry, prunning_threshold) {
                bud.fate = BudFate::Dead;
                return ;
            }
            match bud.branch_node.take() {
                Some(mut child) => {
                    determine_fate_for_each_bud(
                        bud_info,
                        environment,
                        &mut *child,
                        rng,
                        highest_tree_vigor,
                        tropism_angle,
                        tropism_weight,
                        current_direction_weight,
                        optimal_growth_direction_weight,
                        main_branching_angle,
                        lateral_branching_angle,
                        prunning_threshold,
                        maximum_shoot_length,
                    );
                    bud.branch_node = Some(child);
                },
                None => {},
            }
        },
        BudFate::Dormant => {
            if entry.resource.raw >= ONE_RAW {
                let number_of_internodes = count_internodes(
                    entry.resource,
                    maximum_shoot_length,
                    highest_tree_vigor,
                );
                let length_of_internodes = if number_of_internodes == 0 {
                    Fixed { raw: 0 }
                } else {
                    entry.resource.scaled(
                        Fixed { raw: 1 },
                        Fixed { raw: number_of_internodes as i64 },
                    )
                };
                add_new_shoots(
                    bud,
                    environment,
                    rng,
                    entry.optimal_growth_direction,
                    tropism_angle,
                    number_of_internodes,
                    length_of_internodes,
                    position,
                    tropism_weight,
                    current_direction_weight,
                    optimal_growth_direction_weight,
                    main_branching_angle,
                    lateral_branching_angle,
                );
            }
        },
        BudFate::Dead => {},
    }
}

/// Determines the fate of the two buds of `node` and of all that has shot
/// below them.
pub fn determine_fate_for_each_bud(
    bud_info: &Vec<BudLocalEnvironment>,
    environment: &mut Environment,
    node: &mut MetamerNode,
    rng: &mut Generator,
    highest_tree_vigor: Fixed,
    tropism_angle: Fixed,
    tropism_weight: Fixed,
    current_direction_weight: Fixed,
    optimal_growth_direction_weight: Fixed,
    main_branching_angle: Fixed,
    lateral_branching_angle: Fixed,
    prunning_threshold: Fixed,
    maximum_shoot_length: Fixed,
)
    requires
        old(node).well_formed(bud_info.len() as nat),
    ensures
        (*final(node), final(environment).bud_id_counter.0, *final(rng)) == fates_determined(
            bud_info@,
            *old(node),
            old(environment).bud_id_counter.0,
            *old(rng),
            highest_tree_vigor,
            prunning_threshold,
            maximum_shoot_length,
            (Steering {
                tropism_angle,
                tropism_weight,
                current_direction_weight,
                optimal_growth_direction_weight,
                lateral_branching_angle,
            }),
        ),
        final(environment).points == old(environment).points,
        node_grown_on(*old(node), *final(node)),
    decreases *old(node),
{
    proof {
        lemma_fates_only_advance(
            bud_info@,
            *old(node),
            old(environment).bud_id_counter.0,
            *old(rng),
            highest_tree_vigor,
            prunning_threshold,
            maximum_shoot_length,
            (Steering {
                tropism_angle,
                tropism_weight,
                current_direction_weight,
                optimal_growth_direction_weight,
                lateral_branching_angle,
            }),
        );
    }
    let position = node.global_position;
    fate_for_bud(
        bud_info,
        environment,
        &mut node.main_bud,
        position,
        rng,
        highest_tree_vigor,
        tropism_angle,
        tropism_weight,
        current_direction_weight,
        optimal_growth_direction_weight,
        main_branching_angle,
        lateral_branching_angle,
        prunning_threshold,
        maximum_shoot_length,
    );
    fate_for_bud(
        bud_info,
        environment,
        &mut node.axillary_bud,
        position,
        rng,
        highest_tree_vigor,
        tropism_angle,
        tropism_weight,
        current_direction_weight,
        optimal_growth_direction_weight,
        main_branching_angle,
        lateral_branching_angle,
        prunning_threshold,
        maximum_shoot_length,
    );
}

/// The tree, the bud counter and the generator after one round of fates:
/// the highest vigor is taken over the tree as it stands, then every fate is
/// determined.
pub open spec fn buds_fate(
    info: Seq<BudLocalEnvironment>,
    root: MetamerNode,
    counter: usize,
    rng: Generator,
    threshold: Fixed,
    maximum_shoot_length: Fixed,
    steering: Steering,
) -> (MetamerNode, usize, Generator) {
    fates_determined(
        info,
        root,
        counter,
        rng,
        highest_vigor(info, root),
        threshold,
        maximum_shoot_length,
        steering,
    )
}

/// Determines the fate of every bud of the tree.
pub fn determine_buds_fate(
    bud_info: &Vec<BudLocalEnvironment>,
    environment: &mut Environment,
    root: &mut MetamerNode,
    rng: &mut Generator,
    tropism_angle: Fixed,
    tropism_weight: Fixed,
    current_direction_weight: Fixed,
    optimal_growth_direction_weight: Fixed,
    main_branching_angle: Fixed,
    lateral_branching_angle: Fixed,
    prunning_threshold: Fixed,
    maximum_shoot_length: Fixed,
)
    requires
        old(root).well_formed(bud_info.len() as nat),
    ensures
        (*final(root), final(environment).bud_id_counter.0, *final(rng)) == buds_fate(
            bud_info@,
            *old(root),
            old(environment).bud_id_counter.0,
            *old(rng),
            prunning_threshold,
            maximum_shoot_length,
            (Steering {
                tropism_angle,
                tropism_weight,
                current_direction_weight,
                optimal_growth_direction_weight,
                lateral_branching_angle,
            }),
        ),
        final(environment).points == old(environment).points,
        node_grown_on(*old(root), *final(root)),
{
    let highest_tree_vigor = get_highest_tree_vigor(bud_info, root);
    determine_fate_for_each_bud(
        bud_info,
        environment,
        root,
        rng,
        highest_tree_vigor,
        tropism_angle,
        tropism_weight,
        current_direction_weight,
        optimal_growth_direction_weight,
        main_branching_angle,
        lateral_branching_angle,
        prunning_threshold,
        maximum_shoot_length,
    );
}

} // verus!
