//! The light that reaches each bud.
//!
//! Every live bud starts from full light, loses light to every node in whose
//! shadow its own node stands, and a bud that has shot is then given the sum
//! of the light of the two buds of its child. A node casts no shadow on its
//! own place.
use crate::fixed::{Fixed, ONE_RAW};
use crate::graph::{lemma_bud_ids_bounded, Bud, BudFate, BudLocalEnvironment, MetamerNode};
use crate::math::{lemma_pow_positive, pow, pow_spec};
use crate::vector::Vec3;
use vstd::arithmetic::div_mod::lemma_div_is_ordered;
use vstd::prelude::*;

verus! {

/// `info` after every bud of `node` that is dormant or has shot, and every
/// such bud below a bud that has shot, has the light `full_light_exposure`.
pub open spec fn exposure_assigned(
    info: Seq<BudLocalEnvironment>,
    node: MetamerNode,
    full_light_exposure: Fixed,
) -> Seq<BudLocalEnvironment>
    decreases node,
{
    exposure_assigned_below(
        exposure_assigned_below(info, node.main_bud, full_light_exposure),
        node.axillary_bud,
        full_light_exposure,
    )
}

/// `info` after `bud` and what has shot below it have their starting light.
pub open spec fn exposure_assigned_below(
    info: Seq<BudLocalEnvironment>,
    bud: Bud,
    full_light_exposure: Fixed,
) -> Seq<BudLocalEnvironment>
    decreases bud,
{
    let id = bud.id.0 as int;
    let lit = info.update(id, info[id].with_light(full_light_exposure));
    match bud.fate {
        BudFate::Dormant => lit,
        BudFate::Shoot => match bud.branch_node {
            Some(child) => exposure_assigned(lit, *child, full_light_exposure),
            None => lit,
        },
        BudFate::Dead => info,
    }
}

/// Whether a node at `position` stands in the shadow of one at `exposure`:
/// below it, at an angle of at most `shadow_volume_angle` to the downward
/// axis. No node stands in a shadow that is cast from its own place.
pub open spec fn in_shadow(exposure: Vec3, position: Vec3, shadow_volume_angle: Fixed) -> bool {
    position != exposure && Vec3::down().within_angle(
        position.minus(exposure),
        shadow_volume_angle,
    )
}

/// `light` less `shadow_adjustment_coef * shadow_adjustment_base^(-distance)`,
/// and not below zero. With a base above one the shade falls off with the
/// distance, with the base one it is the same at every distance, and with a
/// base below one it grows with the distance.
pub open spec fn shaded(
    light: Fixed,
    distance: Fixed,
    shadow_adjustment_coef: Fixed,
    shadow_adjustment_base: Fixed,
) -> Fixed {
    let left = light.minus(
        shadow_adjustment_coef.times(pow_spec(shadow_adjustment_base, distance.negated())),
    );
    if left.raw < 0 {
        Fixed { raw: 0 }
    } else {
        left
    }
}

/// `info` after the node at `exposure` has cast its shadow on `node` and on
/// what has shot below it.
pub open spec fn shadow_cast(
    info: Seq<BudLocalEnvironment>,
    exposure: Vec3,
    node: MetamerNode,
    shadow_volume_angle: Fixed,
    shadow_adjustment_coef: Fixed,
    shadow_adjustment_base: Fixed,
) -> Seq<BudLocalEnvironment>
    decreases node,
{
    let after_main = shadow_cast_below(
        info,
        exposure,
        node.global_position,
        node.main_bud,
        shadow_volume_angle,
        shadow_adjustment_coef,
        shadow_adjustment_base,
    );
    shadow_cast_below(
        after_main,
        exposure,
        node.global_position,
        node.axillary_bud,
        shadow_volume_angle,
        shadow_adjustment_coef,
        shadow_adjustment_base,
    )
}

/// `info` after the node at `exposure` has cast its shadow on `bud`, which
/// sits at `position`, and on what has shot below it.
pub open spec fn shadow_cast_below(
    info: Seq<BudLocalEnvironment>,
    exposure: Vec3,
    position: Vec3,
    bud: Bud,
    shadow_volume_angle: Fixed,
    shadow_adjustment_coef: Fixed,
    shadow_adjustment_base: Fixed,
) -> Seq<BudLocalEnvironment>
    decreases bud,
{
    let id = bud.id.0 as int;
    let own = if in_shadow(exposure, position, shadow_volume_angle) {
        info.update(
            id,
            info[id].with_light(
                shaded(
                    info[id].light_exposure,
                    position.distance(exposure),
                    shadow_adjustment_coef,
                    shadow_adjustment_base,
                ),
            ),
        )
    } else {
        info
    };
    match bud.fate {
        BudFate::Dormant => own,
        BudFate::Shoot => match bud.branch_node {
            Some(child) => shadow_cast(
                own,
                exposure,
                *child,
                shadow_volume_angle,
                shadow_adjustment_coef,
                shadow_adjustment_base,
            ),
            None => own,
        },
        BudFate::Dead => info,
    }
}

/// `info` after `node` and every node that has shot below it have cast
/// their shadows on the tree under `root`.
pub open spec fn shadows_cast(
    info: Seq<BudLocalEnvironment>,
    node: MetamerNode,
    root: MetamerNode,
    shadow_volume_angle: Fixed,
    shadow_adjustment_coef: Fixed,
    shadow_adjustment_base: Fixed,
) -> Seq<BudLocalEnvironment>
    decreases node,
{
    let own = shadow_cast(
        info,
        node.global_position,
        root,
        shadow_volume_angle,
        shadow_adjustment_coef,
        shadow_adjustment_base,
    );
    let after_main = shadows_cast_below(
        own,
        node.main_bud,
        root,
        shadow_volume_angle,
        shadow_adjustment_coef,
        shadow_adjustment_base,
    );
    shadows_cast_below(
        after_main,
        node.axillary_bud,
        root,
        shadow_volume_angle,
        shadow_adjustment_coef,
        shadow_adjustment_base,
    )
}

/// `info` after the nodes that have shot below `bud` have cast their
/// shadows.
pub open spec fn shadows_cast_below(
    info: Seq<BudLocalEnvironment>,
    bud: Bud,
    root: MetamerNode,
    shadow_volume_angle: Fixed,
    shadow_adjustment_coef: Fixed,
    shadow_adjustment_base: Fixed,
) -> Seq<BudLocalEnvironment>
    decreases bud,
{
    match bud.branch_node {
        Some(child) => if bud.fate == BudFate::Shoot {
            shadows_cast(
                info,
                *child,
                root,
                shadow_volume_angle,
                shadow_adjustment_coef,
                shadow_adjustment_base,
            )
        } else {
            info
        },
        None => info,
    }
}

/// The records after the light has been summed up into `bud`, and the light
/// of `bud`: its own where it is dormant, the sum of the light of the two
/// buds of its child where it has shot, nothing where it is dead.
pub open spec fn light_gathered(info: Seq<BudLocalEnvironment>, bud: Bud) -> (
    Seq<BudLocalEnvironment>,
    Fixed,
)
    decreases bud,
{
    let id = bud.id.0 as int;
    match bud.fate {
        BudFate::Dormant => (info, info[id].light_exposure),
        BudFate::Shoot => match bud.branch_node {
            Some(child) => {
                let (after_main, main) = light_gathered(info, child.main_bud);
                let (after_both, axillary) = light_gathered(after_main, child.axillary_bud);
                let light = main.plus(axillary);
                (after_both.update(id, after_both[id].with_light(light)), light)
            },
            None => (info, Fixed { raw: 0 }),
        },
        BudFate::Dead => (info, Fixed { raw: 0 }),
    }
}

/// The records after the light of every bud under `root` has been worked
/// out: the starting light, then the shadows, then the sums, for the main
/// bud of the root and then for its axillary bud.
pub open spec fn light_exposure(
    info: Seq<BudLocalEnvironment>,
    root: MetamerNode,
    full_light_exposure: Fixed,
    shadow_volume_angle: Fixed,
    shadow_adjustment_coef: Fixed,
    shadow_adjustment_base: Fixed,
) -> Seq<BudLocalEnvironment> {
    light_gathered(
        light_gathered(
            shadows_cast(
                exposure_assigned(info, root, full_light_exposure),
                root,
                root,
                shadow_volume_angle,
                shadow_adjustment_coef,
                shadow_adjustment_base,
            ),
            root.main_bud,
        ).0,
        root.axillary_bud,
    ).0
}

fn assign_default_below(
    bud_info: &mut Vec<BudLocalEnvironment>,
    bud: &Bud,
    full_light_exposure: Fixed,
)
    requires
        bud.well_formed(old(bud_info).len() as nat),
    ensures
        final(bud_info)@ == exposure_assigned_below(old(bud_info)@, *bud, full_light_exposure),
        final(bud_info).len() == old(bud_info).len(),
    decreases *bud,
{
    match bud.fate {
        BudFate::Dead => {},
        _ => {
            let mut entry = bud_info[bud.id.0];
            entry.light_exposure = full_light_exposure;
            bud_info.set(bud.id.0, entry);
            match &bud.branch_node {
                Some(child) => {
                    assign_default_exposure(bud_info, child, full_light_exposure);
                },
                None => {},
            }
        },
    }
}

/// `info` where the records in `ids` have the light `light` and nothing
/// else has changed.
pub open spec fn lit(info: Seq<BudLocalEnvironment>, ids: Set<nat>, light: Fixed) -> Seq<
    BudLocalEnvironment,
> {
    Seq::new(
        info.len(),
        |i: int|
            if ids.contains(i as nat) {
                info[i].with_light(light)
            } else {
                info[i]
            },
    )
}

/// Assigning the starting light gives it to the live buds that the growth
/// reaches, and changes nothing else.
pub proof fn lemma_exposure_assigned(
    info: Seq<BudLocalEnvironment>,
    node: MetamerNode,
    full_light_exposure: Fixed,
)
    requires
        node.numbered(info.len()),
    ensures
        exposure_assigned(info, node, full_light_exposure) == lit(
            info,
            node.live_ids(),
            full_light_exposure,
        ),
    decreases node,
{
    let light = full_light_exposure;
    let after_main = exposure_assigned_below(info, node.main_bud, full_light_exposure);
    lemma_exposure_assigned_below(info, node.main_bud, full_light_exposure);
    lemma_exposure_assigned_below(after_main, node.axillary_bud, full_light_exposure);
    assert(lit(after_main, node.axillary_bud.live_ids(), light) =~= lit(
        info,
        node.live_ids(),
        light,
    ));
}

proof fn lemma_exposure_assigned_below(
    info: Seq<BudLocalEnvironment>,
    bud: Bud,
    full_light_exposure: Fixed,
)
    requires
        bud.numbered(info.len()),
    ensures
        exposure_assigned_below(info, bud, full_light_exposure) == lit(
            info,
            bud.live_ids(),
            full_light_exposure,
        ),
    decreases bud,
{
    let light = full_light_exposure;
    let id = bud.id.0 as int;
    let own = info.update(id, info[id].with_light(light));
    let out = exposure_assigned_below(info, bud, full_light_exposure);
    match bud.fate {
        BudFate::Dead => {
            assert(out =~= lit(info, bud.live_ids(), light));
        },
        BudFate::Dormant => {
            assert(out =~= lit(info, bud.live_ids(), light));
        },
        BudFate::Shoot => match bud.branch_node {
            Some(child) => {
                lemma_exposure_assigned(own, *child, full_light_exposure);
                assert(lit(own, child.live_ids(), light) =~= lit(info, bud.live_ids(), light));
            },
            None => {
                assert(out =~= lit(info, bud.live_ids(), light));
            },
        },
    }
}

/// Gives every live bud the full light to start from.
pub fn assign_default_exposure(
    bud_info: &mut Vec<BudLocalEnvironment>,
    root: &MetamerNode,
    full_light_exposure: Fixed,
)
    requires
        root.well_formed(old(bud_info).len() as nat),
    ensures
        final(bud_info)@ == exposure_assigned(old(bud_info)@, *root, full_light_exposure),
        final(bud_info)@ == lit(old(bud_info)@, root.live_ids(), full_light_exposure),
        final(bud_info).len() == old(bud_info).len(),
    decreases *root,
{
    proof {
        lemma_exposure_assigned(old(bud_info)@, *root, full_light_exposure);
    }
    assign_default_below(bud_info, &root.main_bud, full_light_exposure);
    assign_default_below(bud_info, &root.axillary_bud, full_light_exposure);
}

fn is_in_shadow(exposure: &Vec3, position: &Vec3, shadow_volume_angle: Fixed) -> (r: bool)
    ensures
        r == in_shadow(*exposure, *position, shadow_volume_angle),
{
    *position != *exposure && Vec3::down().within_angle(
        position.minus(*exposure),
        shadow_volume_angle,
    )
}

fn shade(
    light: Fixed,
    distance: Fixed,
    shadow_adjustment_coef: Fixed,
    shadow_adjustment_base: Fixed,
) -> (r: Fixed)
    ensures
        r == shaded(light, distance, shadow_adjustment_coef, shadow_adjustment_base),
{
    let left = light.minus(shadow_adjustment_coef.times(pow(shadow_adjustment_base, distance.negated())));
    if left.raw < 0 {
        Fixed { raw: 0 }
    } else {
        left
    }
}

fn shadow_for_one_bud(
    bud_info: &mut Vec<BudLocalEnvironment>,
    exposure_node: &MetamerNode,
    position: &Vec3,
    bud: &Bud,
    shadow_volume_angle: Fixed,
    shadow_adjustment_coef: Fixed,
    shadow_adjustment_base: Fixed,
)
    requires
        bud.well_formed(old(bud_info).len() as nat),
    ensures
        final(bud_info)@ == shadow_cast_below(
            old(bud_info)@,
            exposure_node.global_position,
            *position,
            *bud,
            shadow_volume_angle,
            shadow_adjustment_coef,
            shadow_adjustment_base,
        ),
        final(bud_info).len() == old(bud_info).len(),
    decreases *bud,
{
    match bud.fate {
        BudFate::Dead => {},
        _ => {
            if is_in_shadow(&exposure_node.global_position, position, shadow_volume_angle) {
                let mut entry = bud_info[bud.id.0];
                entry.light_exposure = shade(
                    entry.light_exposure,
                    position.distance(exposure_node.global_position),
                    shadow_adjustment_coef,
                    shadow_adjustment_base,
                );
                bud_info.set(bud.id.0, entry);
            }
            match &bud.branch_node {
                Some(child) => {
                    calculate_shadow_exposure_for_one_node(
                        bud_info,
                        exposure_node,
                        child,
                        shadow_volume_angle,
                        shadow_adjustment_coef,
                        shadow_adjustment_base,
                    );
                },
                None => {},
            }
        },
    }
}

/// Lets `exposure_node` cast its shadow on `node` and on what has shot
/// below it. With a coefficient that is not negative no light is raised.
pub fn calculate_shadow_exposure_for_one_node(
    bud_info: &mut Vec<BudLocalEnvironment>,
    exposure_node: &MetamerNode,
    node: &MetamerNode,
    shadow_volume_angle: Fixed,
    shadow_adjustment_coef: Fixed,
    shadow_adjustment_base: Fixed,
)
    requires
        node.well_formed(old(bud_info).len() as nat),
    ensures
        final(bud_info)@ == shadow_cast(
            old(bud_info)@,
            exposure_node.global_position,
            *node,
            shadow_volume_angle,
            shadow_adjustment_coef,
            shadow_adjustment_base,
        ),
        final(bud_info).len() == old(bud_info).len(),
        0 <= shadow_adjustment_coef.raw && lights_positive(old(bud_info)@) ==> darkened(
            old(bud_info)@,
            final(bud_info)@,
        ),
    decreases *node,
{
    proof {
        if 0 <= shadow_adjustment_coef.raw && lights_positive(old(bud_info)@) {
            lemma_shadow_cast_darkens(
                old(bud_info)@,
                exposure_node.global_position,
                *node,
                shadow_volume_angle,
                shadow_adjustment_coef,
                shadow_adjustment_base,
            );
        }
    }
    shadow_for_one_bud(
        bud_info,
        exposure_node,
        &node.global_position,
        &node.main_bud,
        shadow_volume_angle,
        shadow_adjustment_coef,
        shadow_adjustment_base,
    );
    shadow_for_one_bud(
        bud_info,
        exposure_node,
        &node.global_position,
        &node.axillary_bud,
        shadow_volume_angle,
        shadow_adjustment_coef,
        shadow_adjustment_base,
    );
}

fn shadow_exposure_below(
    bud_info: &mut Vec<BudLocalEnvironment>,
    bud: &Bud,
    root: &MetamerNode,
    shadow_volume_angle: Fixed,
    shadow_adjustment_coef: Fixed,
    shadow_adjustment_base: Fixed,
)
    requires
        bud.shaped(),
        root.well_formed(old(bud_info).len() as nat),
    ensures
        final(bud_info)@ == shadows_cast_below(
            old(bud_info)@,
            *bud,
            *root,
            shadow_volume_angle,
            shadow_adjustment_coef,
            shadow_adjustment_base,
        ),
        final(bud_info).len() == old(bud_info).len(),
    decreases *bud,
{
    match &bud.branch_node {
        Some(child) => {
            match bud.fate {
                BudFate::Shoot => {
                    calculate_shadow_exposure(
                        bud_info,
                        child,
                        root,
                        shadow_volume_angle,
                        shadow_adjustment_coef,
                        shadow_adjustment_base,
                    );
                },
                _ => {},
            }
        },
        None => {},
    }
}

/// Lets `node` and every node that has shot below it cast their shadows on
/// the tree under `root`. With a coefficient that is not negative no light
/// is raised.
pub fn calculate_shadow_exposure(
    bud_info: &mut Vec<BudLocalEnvironment>,
    node: &MetamerNode,
    root: &MetamerNode,
    shadow_volume_angle: Fixed,
    shadow_adjustment_coef: Fixed,
    shadow_adjustment_base: Fixed,
)
    requires
        node.shaped(),
        root.well_formed(old(bud_info).len() as nat),
    ensures
        final(bud_info)@ == shadows_cast(
            old(bud_info)@,
            *node,
            *root,
            shadow_volume_angle,
            shadow_adjustment_coef,
            shadow_adjustment_base,
        ),
        final(bud_info).len() == old(bud_info).len(),
        0 <= shadow_adjustment_coef.raw && lights_positive(old(bud_info)@) ==> darkened(
            old(bud_info)@,
            final(bud_info)@,
        ),
    decreases *node,
{
    proof {
        if 0 <= shadow_adjustment_coef.raw && lights_positive(old(bud_info)@) {
            lemma_shadows_cast_darken(
                old(bud_info)@,
                *node,
                *root,
                shadow_volume_angle,
                shadow_adjustment_coef,
                shadow_adjustment_base,
            );
        }
    }
    calculate_shadow_exposure_for_one_node(
        bud_info,
        node,
        root,
        shadow_volume_angle,
        shadow_adjustment_coef,
        shadow_adjustment_base,
    );
    shadow_exposure_below(
        bud_info,
        &node.main_bud,
        root,
        shadow_volume_angle,
        shadow_adjustment_coef,
        shadow_adjustment_base,
    );
    shadow_exposure_below(
        bud_info,
        &node.axillary_bud,
        root,
        shadow_volume_angle,
        shadow_adjustment_coef,
        shadow_adjustment_base,
    );
}

/// A shadow never raises a light: with a coefficient that is not negative,
/// what is left of a light that is not negative lies between nothing and
/// that light.
pub proof fn lemma_shaded_bounded(
    light: Fixed,
    distance: Fixed,
    shadow_adjustment_coef: Fixed,
    shadow_adjustment_base: Fixed,
)
    requires
        0 <= light.raw,
        0 <= shadow_adjustment_coef.raw,
    ensures
        0 <= shaded(light, distance, shadow_adjustment_coef, shadow_adjustment_base).raw
            <= light.raw,
{
    let power = pow_spec(shadow_adjustment_base, distance.negated());
    lemma_pow_positive(shadow_adjustment_base, distance.negated());
    assert(shadow_adjustment_coef.raw * power.raw >= 0) by (nonlinear_arith)
        requires
            0 <= shadow_adjustment_coef.raw,
            0 <= power.raw,
    ;
    lemma_div_is_ordered(0, shadow_adjustment_coef.raw * power.raw, ONE_RAW as int);
}

/// No record of `info` holds a negative light.
pub open spec fn lights_positive(info: Seq<BudLocalEnvironment>) -> bool {
    forall|i: int| 0 <= i < info.len() ==> 0 <= (#[trigger] info[i]).light_exposure.raw
}

/// `after` is `before` with lights that are not negative and nowhere above
/// those of `before`.
pub open spec fn darkened(before: Seq<BudLocalEnvironment>, after: Seq<BudLocalEnvironment>) -> bool {
    &&& after.len() == before.len()
    &&& forall|i: int|
        0 <= i < before.len() ==> 0 <= (#[trigger] after[i]).light_exposure.raw
            <= before[i].light_exposure.raw
    &&& forall|i: int|
        0 <= i < before.len() ==> (#[trigger] after[i]).with_light(before[i].light_exposure)
            == before[i]
}

/// The shadow of one node raises no light: with a coefficient that is not
/// negative, no bud has more light after the shadow has been cast than it
/// had before, and none has less than nothing.
pub proof fn lemma_shadow_cast_darkens(
    info: Seq<BudLocalEnvironment>,
    exposure: Vec3,
    node: MetamerNode,
    shadow_volume_angle: Fixed,
    shadow_adjustment_coef: Fixed,
    shadow_adjustment_base: Fixed,
)
    requires
        node.numbered(info.len()),
        lights_positive(info),
        0 <= shadow_adjustment_coef.raw,
    ensures
        darkened(
            info,
            shadow_cast(
                info,
                exposure,
                node,
                shadow_volume_angle,
                shadow_adjustment_coef,
                shadow_adjustment_base,
            ),
        ),
    decreases node,
{
    lemma_shadow_cast_below_darkens(
        info,
        exposure,
        node.global_position,
        node.main_bud,
        shadow_volume_angle,
        shadow_adjustment_coef,
        shadow_adjustment_base,
    );
    let after_main = shadow_cast_below(
        info,
        exposure,
        node.global_position,
        node.main_bud,
        shadow_volume_angle,
        shadow_adjustment_coef,
        shadow_adjustment_base,
    );
    lemma_shadow_cast_below_darkens(
        after_main,
        exposure,
        node.global_position,
        node.axillary_bud,
        shadow_volume_angle,
        shadow_adjustment_coef,
        shadow_adjustment_base,
    );
}

proof fn lemma_shadow_cast_below_darkens(
    info: Seq<BudLocalEnvironment>,
    exposure: Vec3,
    position: Vec3,
    bud: Bud,
    shadow_volume_angle: Fixed,
    shadow_adjustment_coef: Fixed,
    shadow_adjustment_base: Fixed,
)
    requires
        bud.numbered(info.len()),
        lights_positive(info),
        0 <= shadow_adjustment_coef.raw,
    ensures
        darkened(
            info,
            shadow_cast_below(
                info,
                exposure,
                position,
                bud,
                shadow_volume_angle,
                shadow_adjustment_coef,
                shadow_adjustment_base,
            ),
        ),
    decreases bud,
{
    let id = bud.id.0 as int;
    lemma_shaded_bounded(
        info[id].light_exposure,
        position.distance(exposure),
        shadow_adjustment_coef,
        shadow_adjustment_base,
    );
    let own = if in_shadow(exposure, position, shadow_volume_angle) {
        info.update(
            id,
            info[id].with_light(
                shaded(
                    info[id].light_exposure,
                    position.distance(exposure),
                    shadow_adjustment_coef,
                    shadow_adjustment_base,
                ),
            ),
        )
    } else {
        info
    };
    assert(darkened(info, own));
    match bud.fate {
        BudFate::Shoot => match bud.branch_node {
            Some(child) => {
                lemma_shadow_cast_darkens(
                    own,
                    exposure,
                    *child,
                    shadow_volume_angle,
                    shadow_adjustment_coef,
                    shadow_adjustment_base,
                );
            },
            None => {},
        },
        _ => {},
    }
}

/// The shadows of a whole tree raise no light.
pub proof fn lemma_shadows_cast_darken(
    info: Seq<BudLocalEnvironment>,
    node: MetamerNode,
    root: MetamerNode,
    shadow_volume_angle: Fixed,
    shadow_adjustment_coef: Fixed,
    shadow_adjustment_base: Fixed,
)
    requires
        root.numbered(info.len()),
        lights_positive(info),
        0 <= shadow_adjustment_coef.raw,
    ensures
        darkened(
            info,
            shadows_cast(
                info,
                node,
                root,
                shadow_volume_angle,
                shadow_adjustment_coef,
                shadow_adjustment_base,
            ),
        ),
    decreases node,
{
    lemma_shadow_cast_darkens(
        info,
        node.global_position,
        root,
        shadow_volume_angle,
        shadow_adjustment_coef,
        shadow_adjustment_base,
    );
    let own = shadow_cast(
        info,
        node.global_position,
        root,
        shadow_volume_angle,
        shadow_adjustment_coef,
        shadow_adjustment_base,
    );
    lemma_shadows_cast_below_darken(
        own,
        node.main_bud,
        root,
        shadow_volume_angle,
        shadow_adjustment_coef,
        shadow_adjustment_base,
    );
    let after_main = shadows_cast_below(
        own,
        node.main_bud,
        root,
        shadow_volume_angle,
        shadow_adjustment_coef,
        shadow_adjustment_base,
    );
    lemma_shadows_cast_below_darken(
        after_main,
        node.axillary_bud,
        root,
        shadow_volume_angle,
        shadow_adjustment_coef,
        shadow_adjustment_base,
    );
}

proof fn lemma_shadows_cast_below_darken(
    info: Seq<BudLocalEnvironment>,
    bud: Bud,
    root: MetamerNode,
    shadow_volume_angle: Fixed,
    shadow_adjustment_coef: Fixed,
    shadow_adjustment_base: Fixed,
)
    requires
        root.numbered(info.len()),
        lights_positive(info),
        0 <= shadow_adjustment_coef.raw,
    ensures
        darkened(
            info,
            shadows_cast_below(
                info,
                bud,
                root,
                shadow_volume_angle,
                shadow_adjustment_coef,
                shadow_adjustment_base,
            ),
        ),
    decreases bud,
{
    match bud.branch_node {
        Some(child) => {
            if bud.fate == BudFate::Shoot {
                lemma_shadows_cast_darken(
                    info,
                    *child,
                    root,
                    shadow_volume_angle,
                    shadow_adjustment_coef,
                    shadow_adjustment_base,
                );
            }
        },
        None => {},
    }
}

/// The light that `bud` gives to the bud above it: what is on its record,
/// and nothing where it is dead.
pub open spec fn light_of(info: Seq<BudLocalEnvironment>, bud: Bud) -> Fixed {
    match bud.fate {
        BudFate::Dead => Fixed { raw: 0 },
        _ => info[bud.id.0 as int].light_exposure,
    }
}

/// At `bud` and at every bud that has shot below it, the light of a bud
/// that has shot is the sum of the light of the two buds of its child.
pub open spec fn light_summed(info: Seq<BudLocalEnvironment>, bud: Bud) -> bool
    decreases bud,
{
    match bud.branch_node {
        Some(child) => bud.fate == BudFate::Shoot ==> {
            &&& info[bud.id.0 as int].light_exposure == light_of(info, child.main_bud).plus(
                light_of(info, child.axillary_bud),
            )
            &&& light_summed(info, child.main_bud)
            &&& light_summed(info, child.axillary_bud)
        },
        None => true,
    }
}

/// `after` is `before` but for the light of the records in `ids`.
pub open spec fn only_lights(
    before: Seq<BudLocalEnvironment>,
    after: Seq<BudLocalEnvironment>,
    ids: Set<nat>,
) -> bool {
    &&& after.len() == before.len()
    &&& forall|i: int|
        0 <= i < before.len() ==> (#[trigger] after[i]).with_light(before[i].light_exposure)
            == before[i]
    &&& forall|i: int|
        0 <= i < before.len() && !ids.contains(i as nat) ==> #[trigger] after[i] == before[i]
}

/// Whether the light is summed at a bud depends on the records of the bud
/// and of the buds below it only.
pub proof fn lemma_light_summed_frame(
    first: Seq<BudLocalEnvironment>,
    second: Seq<BudLocalEnvironment>,
    bud: Bud,
)
    requires
        forall|i: nat| bud.ids().contains(i) ==> first[i as int] == second[i as int],
    ensures
        light_summed(first, bud) == light_summed(second, bud),
        light_of(first, bud) == light_of(second, bud),
    decreases bud,
{
    assert(bud.ids().contains(bud.id.0 as nat));
    match bud.branch_node {
        Some(child) => {
            assert forall|i: nat| child.main_bud.ids().contains(i) implies first[i as int]
                == second[i as int] by {
                assert(child.ids().contains(i));
            }
            assert forall|i: nat| child.axillary_bud.ids().contains(i) implies first[i as int]
                == second[i as int] by {
                assert(child.ids().contains(i));
            }
            lemma_light_summed_frame(first, second, child.main_bud);
            lemma_light_summed_frame(first, second, child.axillary_bud);
        },
        None => {},
    }
}

/// Summing the light up makes the light of every bud that has shot the sum
/// of the light of the two buds of its child, returns the light of the bud,
/// and changes nothing but the light of the bud and of the buds below it.
pub proof fn lemma_light_gathered(info: Seq<BudLocalEnvironment>, bud: Bud)
    requires
        bud.well_formed(info.len()),
        bud.distinct(),
    ensures
        ({
            let (out, light) = light_gathered(info, bud);
            &&& light_summed(out, bud)
            &&& light == light_of(out, bud)
            &&& only_lights(info, out, bud.ids())
        }),
    decreases bud,
{
    let id = bud.id.0 as int;
    match bud.fate {
        BudFate::Shoot => match bud.branch_node {
            Some(child) => {
                let (after_main, main) = light_gathered(info, child.main_bud);
                let (after_both, axillary) = light_gathered(after_main, child.axillary_bud);
                let light = main.plus(axillary);
                let out = after_both.update(id, after_both[id].with_light(light));
                lemma_light_gathered(info, child.main_bud);
                lemma_light_gathered(after_main, child.axillary_bud);
                lemma_bud_ids_bounded(child.main_bud, info.len());
                lemma_bud_ids_bounded(child.axillary_bud, info.len());
                assert(child.ids() == child.main_bud.ids().union(child.axillary_bud.ids()));
                assert forall|i: nat| child.main_bud.ids().contains(i) implies after_main[i as int]
                    == out[i as int] by {
                    assert(child.ids().contains(i));
                }
                assert forall|i: nat|
                    child.axillary_bud.ids().contains(i) implies after_both[i as int]
                    == out[i as int] by {
                    assert(child.ids().contains(i));
                }
                lemma_light_summed_frame(after_main, out, child.main_bud);
                lemma_light_summed_frame(after_both, out, child.axillary_bud);
            },
            None => {},
        },
        _ => {},
    }
}

/// Sums the light up into `bud` and returns the light of `bud`.
pub fn push_light_to_the_root(bud_info: &mut Vec<BudLocalEnvironment>, bud: &Bud) -> (light: Fixed)
    requires
        bud.well_formed(old(bud_info).len() as nat),
    ensures
        (final(bud_info)@, light) == light_gathered(old(bud_info)@, *bud),
        final(bud_info).len() == old(bud_info).len(),
        bud.distinct() ==> light_summed(final(bud_info)@, *bud),
    decreases *bud,
{
    proof {
        if bud.distinct() {
            lemma_light_gathered(old(bud_info)@, *bud);
        }
    }
    match bud.fate {
        BudFate::Dormant => bud_info[bud.id.0].light_exposure,
        BudFate::Shoot => {
            match &bud.branch_node {
                Some(child) => {
                    let main = push_light_to_the_root(bud_info, &child.main_bud);
                    let axillary = push_light_to_the_root(bud_info, &child.axillary_bud);
                    let light = main.plus(axillary);
                    let mut entry = bud_info[bud.id.0];
                    entry.light_exposure = light;
                    bud_info.set(bud.id.0, entry);
                    light
                },
                None => Fixed { raw: 0 },
            }
        },
        BudFate::Dead => Fixed { raw: 0 },
    }
}

/// Works out the light of every bud under `root`.
pub fn calculate_light_exposure(
    bud_info: &mut Vec<BudLocalEnvironment>,
    root: &MetamerNode,
    full_light_exposure: Fixed,
    shadow_volume_angle: Fixed,
    shadow_adjustment_coef: Fixed,
    shadow_adjustment_base: Fixed,
)
    requires
        root.well_formed(old(bud_info).len() as nat),
    ensures
        final(bud_info)@ == light_exposure(
            old(bud_info)@,
            *root,
            full_light_exposure,
            shadow_volume_angle,
            shadow_adjustment_coef,
            shadow_adjustment_base,
        ),
        final(bud_info).len() == old(bud_info).len(),
{
    assign_default_exposure(bud_info, root, full_light_exposure);
    calculate_shadow_exposure(
        bud_info,
        root,
        root,
        shadow_volume_angle,
        shadow_adjustment_coef,
        shadow_adjustment_base,
    );
    push_light_to_the_root(bud_info, &root.main_bud);
    push_light_to_the_root(bud_info, &root.axillary_bud);
}

} // verus!
