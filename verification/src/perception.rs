//! Which bud each point of the environment attracts, and the direction in
//! which each bud would best grow.
use crate::environment::{in_perception_volume, is_in_perception_volume, Environment};
use crate::fixed::{Fixed, MAX_RAW};
use crate::graph::{
    lemma_bud_ids_bounded, lemma_live_ids_are_ids, Bud, BudFate, BudId, BudLocalEnvironment,
    MetamerNode,
};
use crate::random::Generator;
use crate::vector::{lemma_normalized_length, unit_length, Vec3};
use vstd::prelude::*;

verus! {

/// A bud that may take a point: its number, and the place of its node.
#[derive(Clone, Copy, Debug, PartialEq, Eq, Structural)]
pub struct Candidate {
    pub id: BudId,
    pub position: Vec3,
}

/// The buds found nearest to a point so far, and their distance to it.
pub type Nearest = (Seq<Candidate>, Fixed);

/// A dormant bud that perceives a point, and its distance to the point.
pub type Perceiver = (Candidate, Fixed);

/// `state` after one more bud that perceives the point has been found: the
/// bud replaces the candidates if it is nearer than they are (or the
/// first), joins them if it is as near, and is passed over if it is
/// farther.
pub open spec fn nearer(state: Nearest, found: Perceiver) -> Nearest {
    if state.0.len() == 0 || found.1.raw < state.1.raw {
        (seq![found.0], found.1)
    } else if found.1 == state.1 {
        (state.0.push(found.0), state.1)
    } else {
        state
    }
}

/// `state` after the buds in `seen` have been found, first to last.
pub open spec fn nearest_kept(state: Nearest, seen: Seq<Perceiver>) -> Nearest
    decreases seen.len(),
{
    if seen.len() == 0 {
        state
    } else {
        nearer(nearest_kept(state, seen.drop_last()), seen.last())
    }
}

/// The dormant buds at `node` and below what has shot there that perceive
/// `point`, in the order of the search: the main bud of a node before its
/// axillary bud.
pub open spec fn perceivers(
    node: MetamerNode,
    point: Vec3,
    perception_angle: Fixed,
    perception_distance_coef: Fixed,
    internode_length: Fixed,
) -> Seq<Perceiver>
    decreases node,
{
    perceivers_below(
        node.global_position,
        node.main_bud,
        point,
        perception_angle,
        perception_distance_coef,
        internode_length,
    ) + perceivers_below(
        node.global_position,
        node.axillary_bud,
        point,
        perception_angle,
        perception_distance_coef,
        internode_length,
    )
}

/// The dormant buds at `bud`, which sits at `position`, and below it that
/// perceive `point`.
pub open spec fn perceivers_below(
    position: Vec3,
    bud: Bud,
    point: Vec3,
    perception_angle: Fixed,
    perception_distance_coef: Fixed,
    internode_length: Fixed,
) -> Seq<Perceiver>
    decreases bud,
{
    match bud.fate {
        BudFate::Dormant => {
            if in_perception_volume(
                point,
                position,
                bud.direction,
                perception_angle,
                perception_distance_coef.times(internode_length),
            ) {
                seq![(Candidate { id: bud.id, position }, position.distance(point))]
            } else {
                Seq::empty()
            }
        },
        BudFate::Shoot => match bud.branch_node {
            Some(child) => perceivers(
                *child,
                point,
                perception_angle,
                perception_distance_coef,
                position.distance(child.global_position),
            ),
            None => Seq::empty(),
        },
        BudFate::Dead => Seq::empty(),
    }
}

/// Finding the buds of two lists one after the other is finding the buds of
/// the first list and then those of the second.
pub proof fn lemma_nearest_kept_in_turn(state: Nearest, first: Seq<Perceiver>, second: Seq<Perceiver>)
    ensures
        nearest_kept(state, first + second) == nearest_kept(
            nearest_kept(state, first),
            second,
        ),
    decreases second.len(),
{
    if second.len() == 0 {
        assert(first + second =~= first);
    } else {
        assert((first + second).drop_last() =~= first + second.drop_last());
        assert((first + second).last() == second.last());
        lemma_nearest_kept_in_turn(state, first, second.drop_last());
    }
}

/// The search of a tree finds the buds that perceive the point, one after
/// the other.
pub proof fn lemma_candidates_are_kept(
    node: MetamerNode,
    state: Nearest,
    point: Vec3,
    perception_angle: Fixed,
    perception_distance_coef: Fixed,
    internode_length: Fixed,
)
    ensures
        candidates_after(
            node,
            state,
            point,
            perception_angle,
            perception_distance_coef,
            internode_length,
        ) == nearest_kept(
            state,
            perceivers(node, point, perception_angle, perception_distance_coef, internode_length),
        ),
    decreases node,
{
    let first = perceivers_below(
        node.global_position,
        node.main_bud,
        point,
        perception_angle,
        perception_distance_coef,
        internode_length,
    );
    let second = perceivers_below(
        node.global_position,
        node.axillary_bud,
        point,
        perception_angle,
        perception_distance_coef,
        internode_length,
    );
    lemma_bud_candidates_are_kept(
        node.global_position,
        node.main_bud,
        state,
        point,
        perception_angle,
        perception_distance_coef,
        internode_length,
    );
    lemma_bud_candidates_are_kept(
        node.global_position,
        node.axillary_bud,
        nearest_kept(state, first),
        point,
        perception_angle,
        perception_distance_coef,
        internode_length,
    );
    lemma_nearest_kept_in_turn(state, first, second);
}

proof fn lemma_bud_candidates_are_kept(
    position: Vec3,
    bud: Bud,
    state: Nearest,
    point: Vec3,
    perception_angle: Fixed,
    perception_distance_coef: Fixed,
    internode_length: Fixed,
)
    ensures
        candidates_after_bud(
            position,
            bud,
            state,
            point,
            perception_angle,
            perception_distance_coef,
            internode_length,
        ) == nearest_kept(
            state,
            perceivers_below(
                position,
                bud,
                point,
                perception_angle,
                perception_distance_coef,
                internode_length,
            ),
        ),
    decreases bud,
{
    match bud.fate {
        BudFate::Dormant => {
            let found = (Candidate { id: bud.id, position }, position.distance(point));
            let only = seq![found];
            assert(only.drop_last() =~= Seq::<Perceiver>::empty());
            assert(only.last() == found);
            assert(nearest_kept(state, only.drop_last()) == state);
            assert(nearest_kept(state, only) == nearer(state, found));
            assert(nearest_kept(state, Seq::<Perceiver>::empty()) == state);
        },
        BudFate::Shoot => match bud.branch_node {
            Some(child) => {
                lemma_candidates_are_kept(
                    *child,
                    state,
                    point,
                    perception_angle,
                    perception_distance_coef,
                    position.distance(child.global_position),
                );
            },
            None => {},
        },
        BudFate::Dead => {},
    }
}

/// What is kept of the buds that were found, starting from none: no bud
/// where none was found; else the least distance of all, and the buds at
/// that distance, each of them and no other.
pub proof fn lemma_nearest_kept(start: Fixed, seen: Seq<Perceiver>)
    ensures
        ({
            let kept = nearest_kept((Seq::empty(), start), seen);
            &&& (kept.0.len() == 0) == (seen.len() == 0)
            &&& kept.0.len() <= seen.len()
            &&& forall|k: int| 0 <= k < seen.len() ==> kept.1.raw <= (#[trigger] seen[k]).1.raw
            &&& forall|j: int|
                0 <= j < kept.0.len() ==> seen.contains((#[trigger] kept.0[j], kept.1))
            &&& forall|k: int|
                0 <= k < seen.len() && (#[trigger] seen[k]).1 == kept.1 ==> kept.0.contains(
                    seen[k].0,
                )
        }),
    decreases seen.len(),
{
    if seen.len() > 0 {
        let rest = seen.drop_last();
        let last = seen.last();
        let before = nearest_kept((Seq::empty(), start), rest);
        let kept = nearest_kept((Seq::empty(), start), seen);
        lemma_nearest_kept(start, rest);
        assert(kept == nearer(before, last));
        assert(seen[seen.len() - 1] == last);
        assert forall|k: int| 0 <= k < seen.len() implies kept.1.raw <= (#[trigger] seen[k]).1.raw by {
            if k < rest.len() {
                assert(rest[k] == seen[k]);
            }
        }
        assert forall|j: int| 0 <= j < kept.0.len() implies seen.contains(
            (#[trigger] kept.0[j], kept.1),
        ) by {
            if before.0.len() == 0 || last.1.raw < before.1.raw {
                assert(kept.0[j] == last.0);
            } else if last.1 == before.1 {
                if j < before.0.len() {
                    assert(kept.0[j] == before.0[j]);
                    let k = choose|k: int| 0 <= k < rest.len() && rest[k] == (before.0[j], before.1);
                    assert(seen[k] == rest[k]);
                } else {
                    assert(kept.0[j] == last.0);
                }
            } else {
                assert(kept.0[j] == before.0[j]);
                let k = choose|k: int| 0 <= k < rest.len() && rest[k] == (before.0[j], before.1);
                assert(seen[k] == rest[k]);
            }
        }
        assert forall|k: int| 0 <= k < seen.len() && (#[trigger] seen[k]).1
            == kept.1 implies kept.0.contains(seen[k].0) by {
            if k < rest.len() {
                assert(rest[k] == seen[k]);
                if before.0.len() == 0 || last.1.raw < before.1.raw {
                } else {
                    let j = choose|j: int| 0 <= j < before.0.len() && before.0[j] == rest[k].0;
                    assert(kept.0[j] == before.0[j]);
                }
            } else {
                assert(kept.0[kept.0.len() - 1] == last.0);
            }
        }
    }
}

/// `state` after the node `node`, reached over an internode of length
/// `internode_length`, has been searched for buds that perceive `point`.
pub open spec fn candidates_after(
    node: MetamerNode,
    state: Nearest,
    point: Vec3,
    perception_angle: Fixed,
    perception_distance_coef: Fixed,
    internode_length: Fixed,
) -> Nearest
    decreases node,
{
    let after_main = candidates_after_bud(
        node.global_position,
        node.main_bud,
        state,
        point,
        perception_angle,
        perception_distance_coef,
        internode_length,
    );
    candidates_after_bud(
        node.global_position,
        node.axillary_bud,
        after_main,
        point,
        perception_angle,
        perception_distance_coef,
        internode_length,
    )
}

/// `state` after the bud `bud` at `position` has been searched. A dormant
/// bud that perceives the point replaces the candidates if it is nearer than
/// they are (or the first), and joins them if it is as near. The search goes
/// on below a bud that has shot and stops at a dead one.
pub open spec fn candidates_after_bud(
    position: Vec3,
    bud: Bud,
    state: Nearest,
    point: Vec3,
    perception_angle: Fixed,
    perception_distance_coef: Fixed,
    internode_length: Fixed,
) -> Nearest
    decreases bud,
{
    match bud.fate {
        BudFate::Dormant => {
            if in_perception_volume(
                point,
                position,
                bud.direction,
                perception_angle,
                perception_distance_coef.times(internode_length),
            ) {
                nearer(state, (Candidate { id: bud.id, position }, position.distance(point)))
            } else {
                state
            }
        },
        BudFate::Shoot => match bud.branch_node {
            Some(child) => candidates_after(
                *child,
                state,
                point,
                perception_angle,
                perception_distance_coef,
                position.distance(child.global_position),
            ),
            None => state,
        },
        BudFate::Dead => state,
    }
}

/// Every number in `ids` is under `bound`.
pub open spec fn all_below(ids: Seq<Candidate>, bound: nat) -> bool {
    forall|k: int| 0 <= k < ids.len() ==> (#[trigger] ids[k]).id.0 < bound
}

/// The candidates found in a graph numbered under `bound` are numbered under
/// `bound`.
pub proof fn lemma_candidates_numbered(
    node: MetamerNode,
    state: Nearest,
    point: Vec3,
    perception_angle: Fixed,
    perception_distance_coef: Fixed,
    internode_length: Fixed,
    bound: nat,
)
    requires
        node.numbered(bound),
        all_below(state.0, bound),
    ensures
        all_below(
            candidates_after(
                node,
                state,
                point,
                perception_angle,
                perception_distance_coef,
                internode_length,
            ).0,
            bound,
        ),
    decreases node,
{
    lemma_bud_candidates_numbered(
        node.global_position,
        node.main_bud,
        state,
        point,
        perception_angle,
        perception_distance_coef,
        internode_length,
        bound,
    );
    let after_main = candidates_after_bud(
        node.global_position,
        node.main_bud,
        state,
        point,
        perception_angle,
        perception_distance_coef,
        internode_length,
    );
    lemma_bud_candidates_numbered(
        node.global_position,
        node.axillary_bud,
        after_main,
        point,
        perception_angle,
        perception_distance_coef,
        internode_length,
        bound,
    );
}

proof fn lemma_bud_candidates_numbered(
    position: Vec3,
    bud: Bud,
    state: Nearest,
    point: Vec3,
    perception_angle: Fixed,
    perception_distance_coef: Fixed,
    internode_length: Fixed,
    bound: nat,
)
    requires
        bud.numbered(bound),
        all_below(state.0, bound),
    ensures
        all_below(
            candidates_after_bud(
                position,
                bud,
                state,
                point,
                perception_angle,
                perception_distance_coef,
                internode_length,
            ).0,
            bound,
        ),
    decreases bud,
{
    match bud.fate {
        BudFate::Shoot => match bud.branch_node {
            Some(child) => {
                lemma_candidates_numbered(
                    *child,
                    state,
                    point,
                    perception_angle,
                    perception_distance_coef,
                    position.distance(child.global_position),
                    bound,
                );
            },
            None => {},
        },
        _ => {},
    }
}

fn find_candidates_for_bud(
    position: &Vec3,
    bud: &Bud,
    associated_bud_candidates: &mut Vec<Candidate>,
    current_minimal_distance: &mut Fixed,
    environment_point: &Vec3,
    perception_angle: Fixed,
    perception_distance_coef: Fixed,
    internode_length: Fixed,
)
    requires
        bud.shaped(),
    ensures
        (final(associated_bud_candidates)@, *final(current_minimal_distance))
            == candidates_after_bud(
            *position,
            *bud,
            (old(associated_bud_candidates)@, *old(current_minimal_distance)),
            *environment_point,
            perception_angle,
            perception_distance_coef,
            internode_length,
        ),
    decreases *bud,
{
    match bud.fate {
        BudFate::Dormant => {
            if is_in_perception_volume(
                environment_point,
                position,
                &bud.direction,
                perception_angle,
                perception_distance_coef.times(internode_length),
            ) {
                let distance = position.distance(*environment_point);
                if associated_bud_candidates.len() == 0 || distance.raw
                    < current_minimal_distance.raw {
                    *current_minimal_distance = distance;
                    associated_bud_candidates.clear();
                    associated_bud_candidates.push(Candidate { id: bud.id, position: *position });
                    assert(associated_bud_candidates@ =~= seq![
                        (Candidate { id: bud.id, position: *position }),
                    ]);
                } else if distance.raw == current_minimal_distance.raw {
                    associated_bud_candidates.push(Candidate { id: bud.id, position: *position });
                }
            }
        },
        BudFate::Shoot => {
            match &bud.branch_node {
                Some(child) => {
                    find_candidates_for_environment_point(
                        child,
                        associated_bud_candidates,
                        current_minimal_distance,
                        environment_point,
                        perception_angle,
                        perception_distance_coef,
                        position.distance(child.global_position),
                    );
                },
                None => {},
            }
        },
        BudFate::Dead => {},
    }
}

/// Searches `node` and what has shot below it for the dormant buds that
/// perceive `environment_point`, keeping those at the least distance.
pub fn find_candidates_for_environment_point(
    node: &MetamerNode,
    associated_bud_candidates: &mut Vec<Candidate>,
    current_minimal_distance: &mut Fixed,
    environment_point: &Vec3,
    perception_angle: Fixed,
    perception_distance_coef: Fixed,
    internode_length: Fixed,
)
    requires
        node.shaped(),
    ensures
        (final(associated_bud_candidates)@, *final(current_minimal_distance)) == candidates_after(
            *node,
            (old(associated_bud_candidates)@, *old(current_minimal_distance)),
            *environment_point,
            perception_angle,
            perception_distance_coef,
            internode_length,
        ),
        (final(associated_bud_candidates)@, *final(current_minimal_distance)) == nearest_kept(
            (old(associated_bud_candidates)@, *old(current_minimal_distance)),
            perceivers(
                *node,
                *environment_point,
                perception_angle,
                perception_distance_coef,
                internode_length,
            ),
        ),
    decreases *node,
{
    proof {
        lemma_candidates_are_kept(
            *node,
            (old(associated_bud_candidates)@, *old(current_minimal_distance)),
            *environment_point,
            perception_angle,
            perception_distance_coef,
            internode_length,
        );
    }
    find_candidates_for_bud(
        &node.global_position,
        &node.main_bud,
        associated_bud_candidates,
        current_minimal_distance,
        environment_point,
        perception_angle,
        perception_distance_coef,
        internode_length,
    );
    find_candidates_for_bud(
        &node.global_position,
        &node.axillary_bud,
        associated_bud_candidates,
        current_minimal_distance,
        environment_point,
        perception_angle,
        perception_distance_coef,
        internode_length,
    );
}

/// `info` after every bud of `node` that is dormant or has shot, and every
/// such bud below a bud that has shot, has its own direction as its optimal
/// growth direction.
pub open spec fn defaults_set(info: Seq<BudLocalEnvironment>, node: MetamerNode) -> Seq<
    BudLocalEnvironment,
>
    decreases node,
{
    defaults_set_below(defaults_set_below(info, node.main_bud), node.axillary_bud)
}

/// `info` after `bud` and what has shot below it have their defaults.
pub open spec fn defaults_set_below(info: Seq<BudLocalEnvironment>, bud: Bud) -> Seq<
    BudLocalEnvironment,
>
    decreases bud,
{
    let id = bud.id.0 as int;
    match bud.fate {
        BudFate::Dormant => info.update(id, info[id].with_direction(bud.direction)),
        BudFate::Shoot => {
            let own = info.update(id, info[id].with_direction(bud.direction));
            match bud.branch_node {
                Some(child) => defaults_set(own, *child),
                None => own,
            }
        },
        BudFate::Dead => info,
    }
}

/// At `node` and at every node that has shot below it, the optimal growth
/// direction of every live bud is the direction of the bud.
pub open spec fn defaults_hold(info: Seq<BudLocalEnvironment>, node: MetamerNode) -> bool
    decreases node,
{
    defaults_hold_below(info, node.main_bud) && defaults_hold_below(info, node.axillary_bud)
}

/// The defaults hold at `bud` and below it.
pub open spec fn defaults_hold_below(info: Seq<BudLocalEnvironment>, bud: Bud) -> bool
    decreases bud,
{
    match bud.fate {
        BudFate::Dead => true,
        BudFate::Dormant => info[bud.id.0 as int].optimal_growth_direction == bud.direction,
        BudFate::Shoot => {
            &&& info[bud.id.0 as int].optimal_growth_direction == bud.direction
            &&& match bud.branch_node {
                Some(child) => defaults_hold(info, *child),
                None => true,
            }
        },
    }
}

/// `after` is `before` but for the optimal growth direction of the records
/// in `ids`.
pub open spec fn only_directions(
    before: Seq<BudLocalEnvironment>,
    after: Seq<BudLocalEnvironment>,
    ids: Set<nat>,
) -> bool {
    &&& after.len() == before.len()
    &&& forall|i: int|
        0 <= i < before.len() ==> (#[trigger] after[i]).with_direction(
            before[i].optimal_growth_direction,
        ) == before[i]
    &&& forall|i: int|
        0 <= i < before.len() && !ids.contains(i as nat) ==> #[trigger] after[i] == before[i]
}

/// Whether the defaults hold at a bud depends on the records of the bud and
/// of the buds below it only.
pub proof fn lemma_defaults_hold_frame(
    first: Seq<BudLocalEnvironment>,
    second: Seq<BudLocalEnvironment>,
    bud: Bud,
)
    requires
        forall|i: nat| bud.ids().contains(i) ==> first[i as int] == second[i as int],
    ensures
        defaults_hold_below(first, bud) == defaults_hold_below(second, bud),
    decreases bud,
{
    assert(bud.ids().contains(bud.id.0 as nat));
    match bud.branch_node {
        Some(child) => {
            assert forall|i: nat| child.main_bud.ids().contains(i) implies first[i as int]
                == second[i as int] by {
                assert(child.ids().contains(i));
            }
            assert forall|i: nat| child.axillary_bud.ids().contains(i) implies first[i as int]
                == second[i as int] by {
                assert(child.ids().contains(i));
            }
            lemma_defaults_hold_frame(first, second, child.main_bud);
            lemma_defaults_hold_frame(first, second, child.axillary_bud);
        },
        None => {},
    }
}

/// Setting the defaults gives every live bud that the growth reaches its
/// own direction as its optimal growth direction, and changes nothing else.
pub proof fn lemma_defaults_set(info: Seq<BudLocalEnvironment>, node: MetamerNode)
    requires
        node.well_formed(info.len()),
        node.distinct(),
    ensures
        defaults_hold(defaults_set(info, node), node),
        only_directions(info, defaults_set(info, node), node.live_ids()),
    decreases node,
{
    let after_main = defaults_set_below(info, node.main_bud);
    let out = defaults_set_below(after_main, node.axillary_bud);
    lemma_defaults_set_below(info, node.main_bud);
    lemma_defaults_set_below(after_main, node.axillary_bud);
    lemma_live_ids_are_ids(node.axillary_bud);
    lemma_bud_ids_bounded(node.main_bud, info.len());
    assert forall|i: nat| node.main_bud.ids().contains(i) implies after_main[i as int]
        == out[i as int] by {
        assert(!node.axillary_bud.ids().contains(i));
        assert(!node.axillary_bud.live_ids().contains(i));
    }
    lemma_defaults_hold_frame(after_main, out, node.main_bud);
}

/// Setting the defaults below a bud.
pub proof fn lemma_defaults_set_below(info: Seq<BudLocalEnvironment>, bud: Bud)
    requires
        bud.well_formed(info.len()),
        bud.distinct(),
    ensures
        defaults_hold_below(defaults_set_below(info, bud), bud),
        only_directions(info, defaults_set_below(info, bud), bud.live_ids()),
    decreases bud,
{
    let id = bud.id.0 as int;
    match bud.fate {
        BudFate::Shoot => match bud.branch_node {
            Some(child) => {
                let own = info.update(id, info[id].with_direction(bud.direction));
                lemma_defaults_set(own, *child);
                lemma_live_ids_are_ids(child.main_bud);
                lemma_live_ids_are_ids(child.axillary_bud);
                assert(child.live_ids().subset_of(child.ids()));
            },
            None => {},
        },
        _ => {},
    }
}

fn set_default_below(bud_info: &mut Vec<BudLocalEnvironment>, bud: &Bud)
    requires
        bud.well_formed(old(bud_info).len() as nat),
    ensures
        final(bud_info)@ == defaults_set_below(old(bud_info)@, *bud),
        final(bud_info).len() == old(bud_info).len(),
    decreases *bud,
{
    match bud.fate {
        BudFate::Dormant => {
            let mut entry = bud_info[bud.id.0];
            entry.optimal_growth_direction = bud.direction;
            bud_info.set(bud.id.0, entry);
        },
        BudFate::Shoot => {
            let mut entry = bud_info[bud.id.0];
            entry.optimal_growth_direction = bud.direction;
            bud_info.set(bud.id.0, entry);
            match &bud.branch_node {
                Some(child) => {
                    set_default_optimal_growth_direction(bud_info, child);
                },
                None => {},
            }
        },
        BudFate::Dead => {},
    }
}

/// Gives every live bud its own direction as its optimal growth direction.
pub fn set_default_optimal_growth_direction(
    bud_info: &mut Vec<BudLocalEnvironment>,
    root: &MetamerNode,
)
    requires
        root.well_formed(old(bud_info).len() as nat),
    ensures
        final(bud_info)@ == defaults_set(old(bud_info)@, *root),
        final(bud_info).len() == old(bud_info).len(),
        root.distinct() ==> defaults_hold(final(bud_info)@, *root) && only_directions(
            old(bud_info)@,
            final(bud_info)@,
            root.live_ids(),
        ),
    decreases *root,
{
    proof {
        if root.distinct() {
            lemma_defaults_set(old(bud_info)@, *root);
        }
    }
    set_default_below(bud_info, &root.main_bud);
    set_default_below(bud_info, &root.axillary_bud);
}

/// The sum of the points that each bud has attracted, whether it has
/// attracted any, and the generator that breaks the ties.
pub struct Attraction {
    pub sums: Seq<Vec3>,
    pub seen: Seq<bool>,
    pub rng: Generator,
}

/// No point attracted yet, for `count` buds.
pub open spec fn no_attraction(count: nat, rng: Generator) -> Attraction {
    Attraction {
        sums: Seq::new(count, |i: int| Vec3::zero()),
        seen: Seq::new(count, |i: int| false),
        rng,
    }
}

/// The numbers of the candidates, in their order.
pub open spec fn numbers_of(found: Seq<Candidate>) -> Seq<usize> {
    Seq::new(found.len(), |i: int| found[i].id.0)
}

/// The first of the candidates from place `from` on that has the number
/// `number`; none where none has it.
pub open spec fn candidate_numbered(found: Seq<Candidate>, number: usize, from: int) -> Option<Candidate>
    decreases found.len() - from,
{
    if from < 0 || from >= found.len() {
        None
    } else if found[from].id.0 == number {
        Some(found[from])
    } else {
        candidate_numbered(found, number, from + 1)
    }
}

/// `state` after one draw that gave the point to no bud.
pub open spec fn passed_over(state: Attraction) -> Attraction {
    Attraction { sums: state.sums, seen: state.seen, rng: state.rng.advanced() }
}

/// The sums after `point` has been given to the bud `to`: the direction from
/// the node of the bud to the point is added to the sum of the bud.
pub open spec fn sums_with(sums: Seq<Vec3>, point: Vec3, to: Candidate) -> Seq<Vec3> {
    sums.update(to.id.0 as int, sums[to.id.0 as int].plus(point.minus(to.position)))
}

/// The flags after a point has been given to the bud `to`.
pub open spec fn seen_with(seen: Seq<bool>, to: Candidate) -> Seq<bool> {
    seen.update(to.id.0 as int, true)
}

/// `state` after `point` has been given to the bud `to`: the direction from
/// the node of the bud to the point is added to the sum of the bud, and one
/// draw has been made.
pub open spec fn attracted_by(state: Attraction, point: Vec3, to: Candidate) -> Attraction {
    Attraction {
        sums: sums_with(state.sums, point, to),
        seen: seen_with(state.seen, to),
        rng: state.rng.advanced(),
    }
}

/// The bud among `found` that a point goes to when `picked` has been drawn:
/// the first candidate with the number that was picked, where it has a sum
/// and a flag among `count` of them; none where nothing was picked or no
/// such candidate is there.
pub open spec fn target(found: Seq<Candidate>, picked: Option<usize>, count: nat) -> Option<
    Candidate,
> {
    match picked {
        Some(number) => match candidate_numbered(found, number, 0) {
            Some(to) => if to.id.0 < count {
                Some(to)
            } else {
                None
            },
            None => None,
        },
        None => None,
    }
}

/// `state` after `point` has been given to one of the nearest of the buds
/// that perceive it. One draw chooses among their numbers, each with the
/// same chance; where no bud perceives the point, nothing changes and nothing
/// is drawn.
pub open spec fn point_attracted(
    state: Attraction,
    root: MetamerNode,
    point: Vec3,
    perception_angle: Fixed,
    perception_distance_coef: Fixed,
    trunk_length: Fixed,
) -> Attraction {
    let found = candidates_after(
        root,
        (Seq::empty(), Fixed { raw: MAX_RAW }),
        point,
        perception_angle,
        perception_distance_coef,
        trunk_length,
    ).0;
    if found.len() == 0 {
        state
    } else {
        match state.rng.choice(numbers_of(found)) {
            Some(number) => match candidate_numbered(found, number, 0) {
                Some(to) => attracted_by(state, point, to),
                None => passed_over(state),
            },
            None => passed_over(state),
        }
    }
}

/// The `k`-th of the buds in `seen` is as near as any of them.
pub open spec fn nearest_in(seen: Seq<Perceiver>, k: int) -> bool {
    &&& 0 <= k < seen.len()
    &&& forall|j: int| 0 <= j < seen.len() ==> seen[k].1.raw <= (#[trigger] seen[j]).1.raw
}

/// A candidate found by its number is one of the candidates.
pub proof fn lemma_candidate_numbered(found: Seq<Candidate>, number: usize, from: int)
    requires
        0 <= from,
    ensures
        candidate_numbered(found, number, from) is Some ==> found.contains(
            candidate_numbered(found, number, from).unwrap(),
        ) && candidate_numbered(found, number, from).unwrap().id.0 == number,
        (exists|k: int| from <= k < found.len() && found[k].id.0 == number) ==> candidate_numbered(
            found,
            number,
            from,
        ) is Some,
    decreases found.len() - from,
{
    if from < found.len() {
        if found[from].id.0 != number {
            lemma_candidate_numbered(found, number, from + 1);
        }
    }
}

/// A point goes to one bud at most, and that bud is one of the nearest of
/// the dormant buds that perceive the point; what is added to the sum of the
/// bud is the direction from its node to the point. Where no bud perceives
/// the point, it goes to none and nothing is drawn.
pub proof fn lemma_point_attracted(
    state: Attraction,
    root: MetamerNode,
    point: Vec3,
    perception_angle: Fixed,
    perception_distance_coef: Fixed,
    trunk_length: Fixed,
)
    ensures
        ({
            let seen = perceivers(
                root,
                point,
                perception_angle,
                perception_distance_coef,
                trunk_length,
            );
            let next = point_attracted(
                state,
                root,
                point,
                perception_angle,
                perception_distance_coef,
                trunk_length,
            );
            &&& seen.len() == 0 ==> next == state
            &&& seen.len() > 0 ==> next == passed_over(state) || exists|k: int| #[trigger]
                nearest_in(seen, k) && next == attracted_by(state, point, seen[k].0)
        }),
{
    let seen = perceivers(root, point, perception_angle, perception_distance_coef, trunk_length);
    let start = Fixed { raw: MAX_RAW };
    lemma_candidates_are_kept(
        root,
        (Seq::empty(), start),
        point,
        perception_angle,
        perception_distance_coef,
        trunk_length,
    );
    lemma_nearest_kept(start, seen);
    let kept = nearest_kept((Seq::empty(), start), seen);
    let next = point_attracted(
        state,
        root,
        point,
        perception_angle,
        perception_distance_coef,
        trunk_length,
    );
    if seen.len() > 0 && next != passed_over(state) {
        let number = state.rng.choice(numbers_of(kept.0)).unwrap();
        lemma_candidate_numbered(kept.0, number, 0);
        let to = candidate_numbered(kept.0, number, 0).unwrap();
        let j = choose|j: int| 0 <= j < kept.0.len() && kept.0[j] == to;
        assert(seen.contains((kept.0[j], kept.1)));
        let k = choose|k: int| 0 <= k < seen.len() && seen[k] == (kept.0[j], kept.1);
        assert(nearest_in(seen, k));
        assert(next == attracted_by(state, point, seen[k].0));
    }
}

/// `state` after the points have been given out, first to last.
pub open spec fn points_attracted(
    state: Attraction,
    root: MetamerNode,
    points: Seq<Vec3>,
    perception_angle: Fixed,
    perception_distance_coef: Fixed,
    trunk_length: Fixed,
) -> Attraction
    decreases points.len(),
{
    if points.len() == 0 {
        state
    } else {
        point_attracted(
            points_attracted(
                state,
                root,
                points.drop_last(),
                perception_angle,
                perception_distance_coef,
                trunk_length,
            ),
            root,
            points.last(),
            perception_angle,
            perception_distance_coef,
            trunk_length,
        )
    }
}

/// `info` where each of the first `upto` buds that has attracted a point has
/// the normalized sum of its points as its optimal growth direction.
pub open spec fn directions_settled(
    info: Seq<BudLocalEnvironment>,
    sums: Seq<Vec3>,
    seen: Seq<bool>,
    upto: nat,
) -> Seq<BudLocalEnvironment> {
    Seq::new(
        info.len(),
        |i: int|
            if i < upto && seen[i] {
                info[i].with_direction(sums[i].normalized())
            } else {
                info[i]
            },
    )
}

/// A bud that got points grows in a direction of length one, up to rounding.
pub proof fn lemma_directions_settled(
    info: Seq<BudLocalEnvironment>,
    sums: Seq<Vec3>,
    seen: Seq<bool>,
    upto: nat,
)
    ensures
        directions_settled(info, sums, seen, upto).len() == info.len(),
        forall|i: int|
            0 <= i < info.len() && i < upto && seen[i] ==> unit_length(
                (#[trigger] directions_settled(info, sums, seen, upto)[i]).optimal_growth_direction,
            ),
{
    assert forall|i: int| 0 <= i < info.len() && i < upto && seen[i] implies unit_length(
        (#[trigger] directions_settled(info, sums, seen, upto)[i]).optimal_growth_direction,
    ) by {
        lemma_normalized_length(sums[i]);
    }
}

/// The records and the generator after the optimal growth directions have
/// been worked out: every live bud starts from its own direction, every point
/// goes to one of the nearest buds that perceive it, and a bud that got
/// points grows toward their normalized sum.
pub open spec fn optimal_directions(
    info: Seq<BudLocalEnvironment>,
    points: Seq<Vec3>,
    root: MetamerNode,
    rng: Generator,
    perception_angle: Fixed,
    perception_distance_coef: Fixed,
    trunk_length: Fixed,
) -> (Seq<BudLocalEnvironment>, Generator) {
    let attraction = points_attracted(
        no_attraction(info.len(), rng),
        root,
        points,
        perception_angle,
        perception_distance_coef,
        trunk_length,
    );
    (
        directions_settled(defaults_set(info, root), attraction.sums, attraction.seen, info.len()),
        attraction.rng,
    )
}

fn numbers_in(found: &Vec<Candidate>) -> (numbers: Vec<usize>)
    ensures
        numbers@ == numbers_of(found@),
{
    let mut numbers: Vec<usize> = Vec::new();
    let mut i: usize = 0;
    while i < found.len()
        invariant
            i <= found.len(),
            numbers@ == Seq::new(i as nat, |k: int| found@[k].id.0),
        decreases found.len() - i,
    {
        numbers.push(found[i].id.0);
        i = i + 1;
        assert(numbers@ =~= Seq::new(i as nat, |k: int| found@[k].id.0));
    }
    assert(numbers@ =~= numbers_of(found@));
    numbers
}

/// How many buds have both a sum and a flag.
pub open spec fn kept_for(sums: Seq<Vec3>, seen: Seq<bool>) -> nat {
    if sums.len() <= seen.len() {
        sums.len()
    } else {
        seen.len()
    }
}

/// Gives `point` to the candidate whose number was picked: the direction
/// from the node of that bud to the point is added to the sum of the bud, and
/// the bud is flagged. Where nothing was picked, or no candidate has the
/// number, or the bud has no sum or no flag, nothing changes.
pub fn give_point_to_candidate(
    sums: &mut Vec<Vec3>,
    seen: &mut Vec<bool>,
    point: &Vec3,
    found: &Vec<Candidate>,
    picked: Option<usize>,
)
    ensures
        final(sums).len() == old(sums).len(),
        final(seen).len() == old(seen).len(),
        match target(found@, picked, kept_for(old(sums)@, old(seen)@)) {
            Some(to) => final(sums)@ == sums_with(old(sums)@, *point, to) && final(seen)@
                == seen_with(old(seen)@, to),
            None => final(sums)@ == old(sums)@ && final(seen)@ == old(seen)@,
        },
{
    match picked {
        Some(number) => {
            match find_numbered(found, number) {
                Some(to) => {
                    if to.id.0 < sums.len() && to.id.0 < seen.len() {
                        let sum = sums[to.id.0].plus(point.minus(to.position));
                        sums.set(to.id.0, sum);
                        seen.set(to.id.0, true);
                    }
                },
                None => {},
            }
        },
        None => {},
    }
}

fn find_numbered(found: &Vec<Candidate>, number: usize) -> (r: Option<Candidate>)
    ensures
        r == candidate_numbered(found@, number, 0),
{
    let mut i: usize = 0;
    while i < found.len()
        invariant
            i <= found.len(),
            candidate_numbered(found@, number, 0) == candidate_numbered(found@, number, i as int),
        decreases found.len() - i,
    {
        if found[i].id.0 == number {
            return Some(found[i]);
        }
        i = i + 1;
    }
    None
}

/// Works out the optimal growth direction of every bud: every point goes to
/// one of the nearest buds that perceive it, and a bud that got points grows
/// toward the sum of the directions from its node to its points.
pub fn calculate_optimal_growth_direction(
    bud_info: &mut Vec<BudLocalEnvironment>,
    environment: &Environment,
    root: &MetamerNode,
    rng: &mut Generator,
    perception_angle: Fixed,
    perception_distance_coef: Fixed,
    trunk_length: Fixed,
)
    requires
        root.well_formed(old(bud_info).len() as nat),
    ensures
        (final(bud_info)@, *final(rng)) == optimal_directions(
            old(bud_info)@,
            environment.points@,
            *root,
            *old(rng),
            perception_angle,
            perception_distance_coef,
            trunk_length,
        ),
        final(bud_info).len() == old(bud_info).len(),
        forall|i: int|
            0 <= i < old(bud_info).len() && points_attracted(
                no_attraction(old(bud_info).len() as nat, *old(rng)),
                *root,
                environment.points@,
                perception_angle,
                perception_distance_coef,
                trunk_length,
            ).seen[i] ==> unit_length((#[trigger] final(bud_info)@[i]).optimal_growth_direction),
{
    let count = bud_info.len();
    proof {
        let attraction = points_attracted(
            no_attraction(count as nat, *rng),
            *root,
            environment.points@,
            perception_angle,
            perception_distance_coef,
            trunk_length,
        );
        lemma_directions_settled(
            defaults_set(bud_info@, *root),
            attraction.sums,
            attraction.seen,
            count as nat,
        );
    }
    set_default_optimal_growth_direction(bud_info, root);
    let ghost defaults = bud_info@;
    let mut sums: Vec<Vec3> = Vec::new();
    let mut seen: Vec<bool> = Vec::new();
    let mut i: usize = 0;
    while i < count
        invariant
            i <= count,
            sums@ == Seq::new(i as nat, |k: int| Vec3::zero()),
            seen@ == Seq::new(i as nat, |k: int| false),
        decreases count - i,
    {
        sums.push(Vec3::zero());
        seen.push(false);
        i = i + 1;
        assert(sums@ =~= Seq::new(i as nat, |k: int| Vec3::zero()));
        assert(seen@ =~= Seq::new(i as nat, |k: int| false));
    }
    let ghost start = no_attraction(count as nat, *rng);
    let ghost points = environment.points@;
    let mut p: usize = 0;
    assert(points.take(0) =~= Seq::<Vec3>::empty());
    while p < environment.points.len()
        invariant
            p <= environment.points.len(),
            points == environment.points@,
            root.well_formed(count as nat),
            sums.len() == count,
            seen.len() == count,
            (Attraction { sums: sums@, seen: seen@, rng: *rng }) == points_attracted(
                start,
                *root,
                points.take(p as int),
                perception_angle,
                perception_distance_coef,
                trunk_length,
            ),
        decreases environment.points.len() - p,
    {
        let point = environment.points[p];
        let mut found: Vec<Candidate> = Vec::new();
        let mut nearest = Fixed { raw: MAX_RAW };
        find_candidates_for_environment_point(
            root,
            &mut found,
            &mut nearest,
            &point,
            perception_angle,
            perception_distance_coef,
            trunk_length,
        );
        proof {
            lemma_candidates_numbered(
                *root,
                (Seq::empty(), Fixed { raw: MAX_RAW }),
                point,
                perception_angle,
                perception_distance_coef,
                trunk_length,
                count as nat,
            );
            assert(points.take(p + 1).drop_last() =~= points.take(p as int));
            assert(points.take(p + 1).last() == point);
        }
        if found.len() > 0 {
            let numbers = numbers_in(&found);
            let chosen = rng.pick_one(&numbers);
            proof {
                if let Some(number) = chosen {
                    lemma_candidate_numbered(found@, number, 0);
                }
            }
            give_point_to_candidate(&mut sums, &mut seen, &point, &found, chosen);
        }
        p = p + 1;
    }
    assert(points.take(p as int) =~= points);
    let mut b: usize = 0;
    assert(bud_info@ =~= directions_settled(defaults, sums@, seen@, 0));
    while b < count
        invariant
            b <= count,
            bud_info.len() == count,
            defaults.len() == count,
            sums.len() == count,
            seen.len() == count,
            bud_info@ == directions_settled(defaults, sums@, seen@, b as nat),
        decreases count - b,
    {
        if seen[b] {
            let mut entry = bud_info[b];
            entry.optimal_growth_direction = sums[b].normalized();
            bud_info.set(b, entry);
        }
        b = b + 1;
        assert(bud_info@ =~= directions_settled(defaults, sums@, seen@, b as nat));
    }
}

} // verus!
