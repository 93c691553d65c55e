//! How a bud that shoots grows a chain of new nodes.
use crate::environment::Environment;
use crate::fixed::{Fixed, ONE_RAW};
use crate::graph::{span, Bud, BudFate, BudId, MetamerNode};
use crate::math::{lemma_sin_cos_bounded, sin_cos, sin_cos_spec};
use crate::random::Generator;
use crate::orthogonal::{
    across, at_cosine, exact_dot, leaning, lemma_across, lemma_leaning, lemma_normalized_dot,
    lemma_sine_beside, sine_beside,
};
use crate::vector::{lemma_normalized_length, reach, unit_bounded, unit_length, Vec3};
use vstd::prelude::*;

verus! {

/// What steers a growing shoot.
#[derive(Clone, Copy, Debug, PartialEq, Eq, Structural)]
pub struct Steering {
    pub tropism_angle: Fixed,
    pub tropism_weight: Fixed,
    pub current_direction_weight: Fixed,
    pub optimal_growth_direction_weight: Fixed,
    pub lateral_branching_angle: Fixed,
}

/// The first axis.
pub open spec fn forward() -> Vec3 {
    Vec3 { x: Fixed { raw: ONE_RAW }, y: Fixed { raw: 0 }, z: Fixed { raw: 0 } }
}

/// The tropism vector for a shoot that grows along `growth_direction`: it
/// keeps the horizontal part of the direction and rises by the tangent of
/// `tropism_angle` times the length of that part, and has length one. Where
/// the direction has no horizontal part, or the angle has no cosine, it
/// rises by the sine of the angle.
pub open spec fn tropism_in_growth_plane(tropism_angle: Fixed, growth_direction: Vec3) -> Vec3 {
    let (sine, cosine) = sin_cos_spec(tropism_angle);
    let flat = Vec3 { x: growth_direction.x, y: Fixed { raw: 0 }, z: growth_direction.z }.length();
    let rise = if flat.raw != 0 && cosine.raw != 0 {
        sine.times(flat.over(cosine))
    } else {
        sine
    };
    Vec3 { x: growth_direction.x, y: rise, z: growth_direction.z }.normalized()
}

/// The level vector at a right angle to the upright plane through
/// `direction`: `(-z, 0, x)`.
pub open spec fn plane_normal(direction: Vec3) -> Vec3 {
    Vec3 { x: direction.z.negated(), y: Fixed { raw: 0 }, z: direction.x }
}

/// `v` lies in the upright plane through `direction`, the growth plane, up
/// to rounding: its scalar product with the normal of the plane is within
/// four billionths of zero.
pub open spec fn in_growth_plane(v: Vec3, direction: Vec3) -> bool {
    -4 * ONE_RAW <= exact_dot(v, plane_normal(direction)) <= 4 * ONE_RAW
}

/// The tropism vector lies in the growth plane of the direction that it was
/// made for, whatever the angle, and has length one.
pub proof fn lemma_tropism_in_growth_plane(tropism_angle: Fixed, growth_direction: Vec3)
    requires
        unit_bounded(growth_direction),
    ensures
        in_growth_plane(
            tropism_in_growth_plane(tropism_angle, growth_direction),
            growth_direction,
        ),
        unit_length(tropism_in_growth_plane(tropism_angle, growth_direction)),
{
    let (sine, cosine) = sin_cos_spec(tropism_angle);
    let flat = Vec3 { x: growth_direction.x, y: Fixed { raw: 0 }, z: growth_direction.z }.length();
    let rise = if flat.raw != 0 && cosine.raw != 0 {
        sine.times(flat.over(cosine))
    } else {
        sine
    };
    let bent = Vec3 { x: growth_direction.x, y: rise, z: growth_direction.z };
    let normal = plane_normal(growth_direction);
    lemma_normalized_length(bent);
    assert(exact_dot(bent, normal) == 0) by (nonlinear_arith)
        requires
            exact_dot(bent, normal) == bent.x.raw * normal.x.raw + bent.y.raw * normal.y.raw
                + bent.z.raw * normal.z.raw,
            normal.x.raw == -bent.z.raw,
            normal.y.raw == 0,
            normal.z.raw == bent.x.raw,
    ;
    if reach(bent.x.raw as int, bent.y.raw as int, bent.z.raw as int) > 0 {
        lemma_normalized_dot(bent, normal, 0);
    } else {
        assert(exact_dot(Vec3::up(), normal) == 0) by (nonlinear_arith)
            requires
                exact_dot(Vec3::up(), normal) == 0 * normal.x.raw + ONE_RAW * normal.y.raw + 0
                    * normal.z.raw,
                normal.y.raw == 0,
        ;
    }
}

/// The tropism vector for a shoot that grows along `growth_direction`.
pub fn move_tropism_vector_to_growth_plane(tropism_angle: Fixed, growth_direction: Vec3) -> (r:
    Vec3)
    ensures
        r == tropism_in_growth_plane(tropism_angle, growth_direction),
        unit_length(r),
        unit_bounded(growth_direction) ==> in_growth_plane(r, growth_direction),
{
    proof {
        if unit_bounded(growth_direction) {
            lemma_tropism_in_growth_plane(tropism_angle, growth_direction);
        }
    }
    let (sine, cosine) = sin_cos(tropism_angle);
    let flat = Vec3 { x: growth_direction.x, y: Fixed { raw: 0 }, z: growth_direction.z }.length();
    let rise = if flat.raw != 0 && cosine.raw != 0 {
        sine.times(flat.over(cosine))
    } else {
        sine
    };
    Vec3 { x: growth_direction.x, y: rise, z: growth_direction.z }.normalized()
}

/// The direction at the angle `angle` to `direction` and at the turn `turn`
/// about it. The vector `(0, cos turn, sin turn)` is turned as the first
/// axis is turned into `direction` and set across `direction`; the result
/// leans from `direction` toward that side by the cosine of `angle` and the
/// sine that goes with it, and has length one.
pub open spec fn cone_direction(direction: Vec3, angle: Fixed, turn: Fixed) -> Vec3 {
    let (sine, cosine) = sin_cos_spec(angle);
    let (turn_sine, turn_cosine) = sin_cos_spec(turn);
    let side = across(
        Vec3 { x: Fixed { raw: 0 }, y: turn_cosine, z: turn_sine }.rotated(forward(), direction),
        direction,
    );
    leaning(direction, side, cosine, sine_beside(cosine, sine))
}

/// A direction on the cone about a direction of length one has length one
/// and stands at the angle of the cone to it, whatever the turn: the cosine
/// of the angle between the two is within 470 billionths of the cosine of
/// `angle`.
pub proof fn lemma_cone_direction(direction: Vec3, angle: Fixed, turn: Fixed)
    ensures
        unit_bounded(cone_direction(direction, angle, turn)),
        unit_length(cone_direction(direction, angle, turn)),
        unit_bounded(direction) && unit_length(direction) ==> at_cosine(
            cone_direction(direction, angle, turn),
            direction,
            sin_cos_spec(angle).1,
        ),
{
    let (sine, cosine) = sin_cos_spec(angle);
    let (turn_sine, turn_cosine) = sin_cos_spec(turn);
    let side = across(
        Vec3 { x: Fixed { raw: 0 }, y: turn_cosine, z: turn_sine }.rotated(forward(), direction),
        direction,
    );
    lemma_across(
        Vec3 { x: Fixed { raw: 0 }, y: turn_cosine, z: turn_sine }.rotated(forward(), direction),
        direction,
    );
    lemma_normalized_length(
        direction.scaled_by(cosine).plus(side.scaled_by(sine_beside(cosine, sine))),
    );
    if unit_bounded(direction) && unit_length(direction) {
        lemma_sin_cos_bounded(angle);
        lemma_sine_beside(cosine, sine);
        lemma_leaning(direction, side, cosine, sine_beside(cosine, sine));
    }
}

/// The direction at the angle `angle` to `direction` and at the turn `turn`
/// about it.
pub fn direction_on_cone(direction: Vec3, angle: Fixed, turn: Fixed) -> (r: Vec3)
    ensures
        r == cone_direction(direction, angle, turn),
        unit_length(r),
        unit_bounded(direction) && unit_length(direction) ==> at_cosine(
            r,
            direction,
            sin_cos_spec(angle).1,
        ),
{
    proof {
        lemma_cone_direction(direction, angle, turn);
    }
    let (sine, cosine) = sin_cos(angle);
    let (turn_sine, turn_cosine) = sin_cos(turn);
    let first = Vec3 { x: Fixed { raw: ONE_RAW }, y: Fixed { raw: 0 }, z: Fixed { raw: 0 } };
    let side = across(
        Vec3 { x: Fixed { raw: 0 }, y: turn_cosine, z: turn_sine }.rotated(first, direction),
        direction,
    );
    leaning(direction, side, cosine, sine_beside(cosine, sine))
}

/// The direction at the angle `angle` to `direction` that the next draw of
/// `rng` picks: the one at the turn that is drawn.
#[verifier::opaque]
pub open spec fn direction_in_cone(direction: Vec3, angle: Fixed, rng: Generator) -> Vec3 {
    cone_direction(direction, angle, rng.turn())
}

/// Draws a direction at the angle `angle` to `direction`: draws the turn
/// about `direction` and takes the direction at that turn.
pub fn get_random_direction_in_cone(direction: Vec3, angle: Fixed, rng: &mut Generator) -> (r: Vec3)
    ensures
        r == direction_in_cone(direction, angle, *old(rng)),
        r == cone_direction(direction, angle, old(rng).turn()),
        *final(rng) == old(rng).advanced(),
        unit_length(r),
        unit_bounded(direction) && unit_length(direction) ==> at_cosine(
            r,
            direction,
            sin_cos_spec(angle).1,
        ),
{
    reveal(direction_in_cone);
    let turn = rng.angle();
    direction_on_cone(direction, angle, turn)
}

/// The direction in which a bud with direction `current` shoots: the
/// weighted sum of `current`, of `optimal` and of the tropism vector for that
/// sum, with length one.
#[verifier::opaque]
pub open spec fn grown_direction(current: Vec3, optimal: Vec3, steering: Steering) -> Vec3 {
    let blend = current.scaled_by(steering.current_direction_weight).plus(
        optimal.scaled_by(steering.optimal_growth_direction_weight),
    );
    let tropism = tropism_in_growth_plane(steering.tropism_angle, blend.normalized());
    blend.plus(tropism.scaled_by(steering.tropism_weight)).normalized()
}

/// The bud, the bud counter and the generator after `bud`, which sits at
/// `position`, has grown a chain of `number_of_internodes` nodes, each
/// `length_of_internodes` from the one before. Every new node has a dormant
/// main bud along the direction of growth and a dormant axillary bud at
/// the lateral branching angle to it; the two take the next two numbers,
/// the main bud first. Nothing grows where no node is asked for or fewer
/// than two numbers are left.
pub open spec fn shoots_added(
    bud: Bud,
    counter: usize,
    rng: Generator,
    optimal_growth_direction: Vec3,
    number_of_internodes: nat,
    length_of_internodes: Fixed,
    position: Vec3,
    steering: Steering,
) -> (Bud, usize, Generator)
    decreases number_of_internodes,
{
    if number_of_internodes == 0 || counter > usize::MAX - 2 {
        (bud, counter, rng)
    } else {
        let direction = grown_direction(bud.direction, optimal_growth_direction, steering);
        let place = position.plus(direction.scaled_by(length_of_internodes));
        let axillary = Bud::fresh(
            direction_in_cone(direction, steering.lateral_branching_angle, rng),
            BudId((counter + 1) as usize),
        );
        let (main, next, after) = shoots_added(
            Bud::fresh(direction, BudId(counter)),
            (counter + 2) as usize,
            rng.advanced(),
            optimal_growth_direction,
            (number_of_internodes - 1) as nat,
            length_of_internodes,
            place,
            steering,
        );
        (
            Bud {
                direction,
                id: bud.id,
                branch_node: Some(
                    Box::new(
                        MetamerNode {
                            global_position: place,
                            width: Fixed { raw: 0 },
                            main_bud: main,
                            axillary_bud: axillary,
                        },
                    ),
                ),
                fate: BudFate::Shoot,
            },
            next,
            after,
        )
    }
}

/// A shoot grows in a direction of length one, up to rounding, whatever the
/// weights and however short the blend of the directions is.
pub proof fn lemma_grown_direction_unit(current: Vec3, optimal: Vec3, steering: Steering)
    ensures
        unit_length(grown_direction(current, optimal, steering)),
        unit_bounded(grown_direction(current, optimal, steering)),
{
    reveal(grown_direction);
    let blend = current.scaled_by(steering.current_direction_weight).plus(
        optimal.scaled_by(steering.optimal_growth_direction_weight),
    );
    let tropism = tropism_in_growth_plane(steering.tropism_angle, blend.normalized());
    lemma_normalized_length(blend.plus(tropism.scaled_by(steering.tropism_weight)));
}

/// A shoot of `number_of_internodes` nodes takes two numbers for each node,
/// where that many are left; and where it grows at all, the bud has shot,
/// owns a child and points in a direction of length one, and the axillary
/// bud of the child points in a direction of length one at the lateral
/// branching angle to it.
pub proof fn lemma_shoots_counted(
    bud: Bud,
    counter: usize,
    rng: Generator,
    optimal_growth_direction: Vec3,
    number_of_internodes: nat,
    length_of_internodes: Fixed,
    position: Vec3,
    steering: Steering,
)
    ensures
        ({
            let grown = shoots_added(
                bud,
                counter,
                rng,
                optimal_growth_direction,
                number_of_internodes,
                length_of_internodes,
                position,
                steering,
            );
            &&& counter + 2 * number_of_internodes <= usize::MAX ==> grown.1 == counter + 2
                * number_of_internodes
            &&& number_of_internodes > 0 && counter <= usize::MAX - 2 ==> {
                &&& grown.0.fate == BudFate::Shoot
                &&& grown.0.branch_node is Some
                &&& unit_length(grown.0.direction)
                &&& grown.0.branch_node.unwrap().global_position == position.plus(
                    grown.0.direction.scaled_by(length_of_internodes),
                )
                &&& unit_length(grown.0.branch_node.unwrap().axillary_bud.direction)
                &&& at_cosine(
                    grown.0.branch_node.unwrap().axillary_bud.direction,
                    grown.0.direction,
                    sin_cos_spec(steering.lateral_branching_angle).1,
                )
            }
        }),
    decreases number_of_internodes,
{
    if number_of_internodes == 0 || counter > usize::MAX - 2 {
    } else {
        let direction = grown_direction(bud.direction, optimal_growth_direction, steering);
        lemma_grown_direction_unit(bud.direction, optimal_growth_direction, steering);
        reveal(direction_in_cone);
        lemma_cone_direction(direction, steering.lateral_branching_angle, rng.turn());
        lemma_shoots_counted(
            Bud::fresh(direction, BudId(counter)),
            (counter + 2) as usize,
            rng.advanced(),
            optimal_growth_direction,
            (number_of_internodes - 1) as nat,
            length_of_internodes,
            position.plus(direction.scaled_by(length_of_internodes)),
            steering,
        );
    }
}

/// A dormant bud without a child that shoots becomes a well-formed bud
/// whose numbers are its own and the ones handed out, each once.
pub proof fn lemma_shoots_added(
    bud: Bud,
    counter: usize,
    rng: Generator,
    optimal_growth_direction: Vec3,
    number_of_internodes: nat,
    length_of_internodes: Fixed,
    position: Vec3,
    steering: Steering,
)
    requires
        bud.fate == BudFate::Dormant,
        bud.branch_node is None,
        bud.id.0 < counter,
    ensures
        ({
            let grown = shoots_added(
                bud,
                counter,
                rng,
                optimal_growth_direction,
                number_of_internodes,
                length_of_internodes,
                position,
                steering,
            );
            &&& counter <= grown.1
            &&& grown.0.id == bud.id
            &&& grown.0.fate != BudFate::Dead
            &&& grown.0.well_formed(grown.1 as nat)
            &&& grown.0.distinct()
            &&& grown.0.ids() =~= span(counter as nat, grown.1 as nat).insert(bud.id.0 as nat)
        }),
    decreases number_of_internodes,
{
    if number_of_internodes == 0 || counter > usize::MAX - 2 {
    } else {
        let direction = grown_direction(bud.direction, optimal_growth_direction, steering);
        let place = position.plus(direction.scaled_by(length_of_internodes));
        let first = Bud::fresh(direction, BudId(counter));
        lemma_shoots_added(
            first,
            (counter + 2) as usize,
            rng.advanced(),
            optimal_growth_direction,
            (number_of_internodes - 1) as nat,
            length_of_internodes,
            place,
            steering,
        );
        let inner = shoots_added(
            first,
            (counter + 2) as usize,
            rng.advanced(),
            optimal_growth_direction,
            (number_of_internodes - 1) as nat,
            length_of_internodes,
            place,
            steering,
        );
        let grown = shoots_added(
            bud,
            counter,
            rng,
            optimal_growth_direction,
            number_of_internodes,
            length_of_internodes,
            position,
            steering,
        );
        let axillary = Bud::fresh(
            direction_in_cone(direction, steering.lateral_branching_angle, rng),
            BudId((counter + 1) as usize),
        );
        let child = MetamerNode {
            global_position: place,
            width: Fixed { raw: 0 },
            main_bud: inner.0,
            axillary_bud: axillary,
        };
        assert(grown.0.branch_node == Some(Box::new(child)));
        assert(grown.1 == inner.1);
        let top = grown.1 as nat;
        assert(axillary.shaped() && axillary.numbered(top) && axillary.distinct());
        assert(axillary.ids() =~= set![(counter + 1) as nat]);
        assert(inner.0.ids() =~= span((counter + 2) as nat, top).insert(counter as nat));
        assert(child.ids() =~= span(counter as nat, top)) by {
            assert(child.ids() == inner.0.ids().union(axillary.ids()));
        }
        assert(inner.0.ids().disjoint(axillary.ids()));
        assert(child.distinct());
        assert(child.shaped() && child.numbered(top));
        assert(grown.0.shaped());
        assert(grown.0.numbered(top));
        assert(grown.0.distinct());
        assert(grown.0.ids() == child.ids().insert(bud.id.0 as nat));
    }
}

/// The numbers of a shoot: a dormant bud without a child that grows a chain
/// of `number_of_internodes` nodes, with numbers left for all of them, keeps
/// its own number, and the new buds take exactly the next
/// `2 * number_of_internodes` numbers, each once. The buds of the first node
/// take the two lowest, the main bud first, and all nodes beyond it take
/// higher ones.
pub proof fn lemma_shoot_numbers(
    bud: Bud,
    counter: usize,
    rng: Generator,
    optimal_growth_direction: Vec3,
    number_of_internodes: nat,
    length_of_internodes: Fixed,
    position: Vec3,
    steering: Steering,
)
    requires
        bud.fate == BudFate::Dormant,
        bud.branch_node is None,
        number_of_internodes >= 1,
        counter + 2 * number_of_internodes <= usize::MAX,
    ensures
        ({
            let grown = shoots_added(
                bud,
                counter,
                rng,
                optimal_growth_direction,
                number_of_internodes,
                length_of_internodes,
                position,
                steering,
            );
            let child = grown.0.branch_node.unwrap();
            let top = (counter + 2 * number_of_internodes) as nat;
            &&& grown.0.id == bud.id
            &&& grown.0.fate == BudFate::Shoot
            &&& grown.0.branch_node is Some
            &&& grown.1 == top
            &&& child.main_bud.id.0 == counter
            &&& child.axillary_bud.id.0 == counter + 1
            &&& child.axillary_bud.branch_node is None
            &&& child.well_formed(top)
            &&& child.distinct()
            &&& child.ids() =~= span(counter as nat, top)
            &&& number_of_internodes >= 2 ==> child.main_bud.branch_node is Some
                && child.main_bud.branch_node.unwrap().ids() =~= span((counter + 2) as nat, top)
        }),
    decreases number_of_internodes,
{
    let direction = grown_direction(bud.direction, optimal_growth_direction, steering);
    let place = position.plus(direction.scaled_by(length_of_internodes));
    let first = Bud::fresh(direction, BudId(counter));
    let rest = (number_of_internodes - 1) as nat;
    let top = (counter + 2 * number_of_internodes) as nat;
    lemma_shoots_added(
        first,
        (counter + 2) as usize,
        rng.advanced(),
        optimal_growth_direction,
        rest,
        length_of_internodes,
        place,
        steering,
    );
    lemma_shoots_counted(
        first,
        (counter + 2) as usize,
        rng.advanced(),
        optimal_growth_direction,
        rest,
        length_of_internodes,
        place,
        steering,
    );
    let inner = shoots_added(
        first,
        (counter + 2) as usize,
        rng.advanced(),
        optimal_growth_direction,
        rest,
        length_of_internodes,
        place,
        steering,
    );
    let grown = shoots_added(
        bud,
        counter,
        rng,
        optimal_growth_direction,
        number_of_internodes,
        length_of_internodes,
        position,
        steering,
    );
    let axillary = Bud::fresh(
        direction_in_cone(direction, steering.lateral_branching_angle, rng),
        BudId((counter + 1) as usize),
    );
    let child = MetamerNode {
        global_position: place,
        width: Fixed { raw: 0 },
        main_bud: inner.0,
        axillary_bud: axillary,
    };
    assert(grown.0.branch_node == Some(Box::new(child)));
    assert(grown.1 == inner.1);
    assert(inner.1 == top);
    assert(axillary.shaped() && axillary.numbered(top) && axillary.distinct());
    assert(axillary.ids() =~= set![(counter + 1) as nat]);
    assert(inner.0.ids() =~= span((counter + 2) as nat, top).insert(counter as nat));
    assert(child.ids() =~= span(counter as nat, top)) by {
        assert(child.ids() == inner.0.ids().union(axillary.ids()));
    }
    assert(inner.0.ids().disjoint(axillary.ids()));
    if number_of_internodes >= 2 {
        lemma_shoot_numbers(
            first,
            (counter + 2) as usize,
            rng.advanced(),
            optimal_growth_direction,
            rest,
            length_of_internodes,
            place,
            steering,
        );
    }
}

/// Lets `bud`, which sits at `global_position`, shoot a chain of
/// `number_of_internodes` new nodes. The new buds take the next numbers of
/// `environment`, two for each node, the nodes nearer to `bud` the lower
/// ones; `bud` keeps its number and the points stay.
pub fn add_new_shoots(
    bud: &mut Bud,
    environment: &mut Environment,
    rng: &mut Generator,
    optimal_growth_direction: Vec3,
    tropism_angle: Fixed,
    number_of_internodes: usize,
    length_of_internodes: Fixed,
    global_position: Vec3,
    tropism_weight: Fixed,
    current_direction_weight: Fixed,
    optimal_growth_direction_weight: Fixed,
    main_branching_angle: Fixed,
    lateral_branching_angle: Fixed,
)
    ensures
        (*final(bud), final(environment).bud_id_counter.0, *final(rng)) == shoots_added(
            *old(bud),
            old(environment).bud_id_counter.0,
            *old(rng),
            optimal_growth_direction,
            number_of_internodes as nat,
            length_of_internodes,
            global_position,
            (Steering {
                tropism_angle,
                tropism_weight,
                current_direction_weight,
                optimal_growth_direction_weight,
                lateral_branching_angle,
            }),
        ),
        final(environment).points == old(environment).points,
        old(environment).bud_id_counter.0 + 2 * number_of_internodes <= usize::MAX
            ==> final(environment).bud_id_counter.0 == old(environment).bud_id_counter.0 + 2
            * number_of_internodes,
        number_of_internodes > 0 && old(environment).bud_id_counter.0 <= usize::MAX - 2
            ==> final(bud).fate == BudFate::Shoot && final(bud).branch_node is Some
            && unit_length(final(bud).direction) && unit_length(
            final(bud).branch_node.unwrap().axillary_bud.direction,
        ) && at_cosine(
            final(bud).branch_node.unwrap().axillary_bud.direction,
            final(bud).direction,
            sin_cos_spec(lateral_branching_angle).1,
        ),
        old(bud).fate == BudFate::Dormant && old(bud).branch_node is None && number_of_internodes
            >= 1 && old(environment).bud_id_counter.0 + 2 * number_of_internodes <= usize::MAX ==> {
            let first = old(environment).bud_id_counter.0 as nat;
            let child = final(bud).branch_node.unwrap();
            &&& final(bud).id == old(bud).id
            &&& child.main_bud.id.0 == first
            &&& child.axillary_bud.id.0 == first + 1
            &&& child.distinct()
            &&& child.ids() =~= span(first, (first + 2 * number_of_internodes) as nat)
            &&& number_of_internodes >= 2 ==> child.main_bud.branch_node is Some
                && child.main_bud.branch_node.unwrap().ids() =~= span(
                first + 2,
                (first + 2 * number_of_internodes) as nat,
            )
        },
    decreases number_of_internodes,
{
    proof {
        if old(bud).fate == BudFate::Dormant && old(bud).branch_node is None && number_of_internodes
            >= 1 && old(environment).bud_id_counter.0 + 2 * number_of_internodes <= usize::MAX {
            lemma_shoot_numbers(
                *old(bud),
                old(environment).bud_id_counter.0,
                *old(rng),
                optimal_growth_direction,
                number_of_internodes as nat,
                length_of_internodes,
                global_position,
                (Steering {
                    tropism_angle,
                    tropism_weight,
                    current_direction_weight,
                    optimal_growth_direction_weight,
                    lateral_branching_angle,
                }),
            );
        }
        lemma_shoots_counted(
            *old(bud),
            old(environment).bud_id_counter.0,
            *old(rng),
            optimal_growth_direction,
            number_of_internodes as nat,
            length_of_internodes,
            global_position,
            (Steering {
                tropism_angle,
                tropism_weight,
                current_direction_weight,
                optimal_growth_direction_weight,
                lateral_branching_angle,
            }),
        );
    }
    if number_of_internodes == 0 || environment.bud_id_counter.0 > usize::MAX - 2 {
        return ;
    }
    reveal(grown_direction);
    bud.fate = BudFate::Shoot;
    let blend = bud.direction.scaled_by(current_direction_weight).plus(
        optimal_growth_direction.scaled_by(optimal_growth_direction_weight),
    );
    let tropism_vector = move_tropism_vector_to_growth_plane(tropism_angle, blend.normalized());
    let growth_direction = blend.plus(tropism_vector.scaled_by(tropism_weight)).normalized();
    bud.direction = growth_direction;
    let new_node_position = global_position.plus(growth_direction.scaled_by(length_of_internodes));
    let main_id = environment.get_next_bud_id();
    let mut main_bud = Bud {
        direction: growth_direction,
        id: main_id,
        branch_node: None,
        fate: BudFate::Dormant,
    };
    let lateral = get_random_direction_in_cone(growth_direction, lateral_branching_angle, rng);
    let axillary_id = environment.get_next_bud_id();
    let axillary_bud = Bud {
        direction: lateral,
        id: axillary_id,
        branch_node: None,
        fate: BudFate::Dormant,
    };
    add_new_shoots(
        &mut main_bud,
        environment,
        rng,
        optimal_growth_direction,
        tropism_angle,
        number_of_internodes - 1,
        length_of_internodes,
        new_node_position,
        tropism_weight,
        current_direction_weight,
        optimal_growth_direction_weight,
        main_branching_angle,
        lateral_branching_angle,
    );
    bud.branch_node = Some(
        Box::new(
            MetamerNode {
                global_position: new_node_position,
                width: Fixed { raw: 0 },
                main_bud,
                axillary_bud,
            },
        ),
    );
}

} // verus!
