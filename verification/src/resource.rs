//! The resource that each bud receives.
//!
//! The root bud receives `resource_coef * light^sensitivity`. Every node
//! hands the resource that reaches it on to its two buds, in the ratio of
//! their light weighted by the apical dominance. A dead bud counts with no
//! light. The main bud takes its share rounded down and the axillary bud
//! the rest, so that nothing is lost.
use crate::fixed::{clamp, Fixed, MAX_RAW, MIN_RAW, ONE_RAW};
use crate::graph::{lemma_bud_ids_bounded, Bud, BudFate, BudLocalEnvironment, MetamerNode};
use crate::light::light_of;
use crate::math::{pow, pow_spec};
use vstd::arithmetic::div_mod::{lemma_div_is_ordered, lemma_div_multiples_vanish};
use vstd::prelude::*;

verus! {

/// `weight` kept above zero, so that it can divide.
pub open spec fn positive(weight: Fixed) -> Fixed {
    if weight.raw <= 0 {
        Fixed { raw: 1 }
    } else {
        weight
    }
}

/// The weight of the main bud of `node`: `apical_dominance` times its light,
/// where a dead bud has no light.
pub open spec fn main_weight(
    info: Seq<BudLocalEnvironment>,
    node: MetamerNode,
    apical_dominance: Fixed,
) -> Fixed {
    apical_dominance.times(light_of(info, node.main_bud))
}

/// The weight of the axillary bud of `node`: `1 - apical_dominance` times
/// its light, where a dead bud has no light.
pub open spec fn axillary_weight(
    info: Seq<BudLocalEnvironment>,
    node: MetamerNode,
    apical_dominance: Fixed,
) -> Fixed {
    Fixed { raw: ONE_RAW }.minus(apical_dominance).times(light_of(info, node.axillary_bud))
}

/// What divides the resource of `node`: the sum of the two weights, kept
/// above zero.
pub open spec fn denominator(
    info: Seq<BudLocalEnvironment>,
    node: MetamerNode,
    apical_dominance: Fixed,
) -> Fixed {
    positive(
        main_weight(info, node, apical_dominance).plus(
            axillary_weight(info, node, apical_dominance),
        ),
    )
}

/// The share of the main bud of `node`: `resource * weight / denominator`,
/// rounded down.
pub open spec fn main_share(
    info: Seq<BudLocalEnvironment>,
    node: MetamerNode,
    resource: Fixed,
    apical_dominance: Fixed,
) -> Fixed {
    resource.scaled(
        main_weight(info, node, apical_dominance),
        denominator(info, node, apical_dominance),
    )
}

/// The share of the axillary bud of `node`: what the main bud leaves of
/// `resource`.
pub open spec fn axillary_share(
    info: Seq<BudLocalEnvironment>,
    node: MetamerNode,
    resource: Fixed,
    apical_dominance: Fixed,
) -> Fixed {
    resource.minus(main_share(info, node, resource, apical_dominance))
}

/// `info` after `resource` has been shared out at `node` and below it: the
/// main bud gets its share and the axillary bud the rest.
pub open spec fn resources_shared(
    info: Seq<BudLocalEnvironment>,
    node: MetamerNode,
    resource: Fixed,
    apical_dominance: Fixed,
) -> Seq<BudLocalEnvironment>
    decreases node,
{
    let after_main = resources_shared_below(
        info,
        node.main_bud,
        main_share(info, node, resource, apical_dominance),
        apical_dominance,
    );
    resources_shared_below(
        after_main,
        node.axillary_bud,
        axillary_share(info, node, resource, apical_dominance),
        apical_dominance,
    )
}

/// `info` after `bud` has received `share` and, where it has shot, has
/// handed it on to its child. A dead bud receives nothing.
pub open spec fn resources_shared_below(
    info: Seq<BudLocalEnvironment>,
    bud: Bud,
    share: Fixed,
    apical_dominance: Fixed,
) -> Seq<BudLocalEnvironment>
    decreases bud,
{
    let id = bud.id.0 as int;
    let own = info.update(id, info[id].with_resource(share));
    match bud.fate {
        BudFate::Dormant => own,
        BudFate::Shoot => match bud.branch_node {
            Some(child) => resources_shared(own, *child, share, apical_dominance),
            None => own,
        },
        BudFate::Dead => info,
    }
}

/// The resource of the root bud: `resource_coef * light^sensitivity`.
pub open spec fn root_resource(
    info: Seq<BudLocalEnvironment>,
    root: MetamerNode,
    resource_coef: Fixed,
    bud_light_sensitivity: Fixed,
) -> Fixed {
    resource_coef.times(
        pow_spec(info[root.main_bud.id.0 as int].light_exposure, bud_light_sensitivity),
    )
}

/// `info` after the root bud has its resource and has shared it out.
pub open spec fn resources(
    info: Seq<BudLocalEnvironment>,
    root: MetamerNode,
    resource_coef: Fixed,
    bud_light_sensitivity: Fixed,
    apical_dominance: Fixed,
) -> Seq<BudLocalEnvironment> {
    let id = root.main_bud.id.0 as int;
    let resource = root_resource(info, root, resource_coef, bud_light_sensitivity);
    resources_shared(
        info.update(id, info[id].with_resource(resource)),
        root,
        resource,
        apical_dominance,
    )
}

fn share_below(
    bud_info: &mut Vec<BudLocalEnvironment>,
    bud: &Bud,
    share: Fixed,
    apical_dominance: Fixed,
)
    requires
        bud.well_formed(old(bud_info).len() as nat),
    ensures
        final(bud_info)@ == resources_shared_below(old(bud_info)@, *bud, share, apical_dominance),
        final(bud_info).len() == old(bud_info).len(),
    decreases *bud,
{
    match bud.fate {
        BudFate::Dead => {},
        _ => {
            let mut entry = bud_info[bud.id.0];
            entry.resource = share;
            bud_info.set(bud.id.0, entry);
            match &bud.branch_node {
                Some(child) => {
                    calculate_resource_for_each_bud(bud_info, child, share, apical_dominance);
                },
                None => {},
            }
        },
    }
}

fn light_on_record(bud_info: &Vec<BudLocalEnvironment>, bud: &Bud) -> (light: Fixed)
    requires
        bud.id.0 < bud_info.len(),
    ensures
        light == light_of(bud_info@, *bud),
{
    match bud.fate {
        BudFate::Dead => Fixed { raw: 0 },
        _ => bud_info[bud.id.0].light_exposure,
    }
}

/// Shares `resource` out at `node` and below it. Where the weights split the
/// resource, the two buds together hold exactly what the node received.
pub fn calculate_resource_for_each_bud(
    bud_info: &mut Vec<BudLocalEnvironment>,
    node: &MetamerNode,
    resource: Fixed,
    apical_dominance: Fixed,
)
    requires
        node.well_formed(old(bud_info).len() as nat),
    ensures
        final(bud_info)@ == resources_shared(old(bud_info)@, *node, resource, apical_dominance),
        final(bud_info).len() == old(bud_info).len(),
        node.distinct() ==> conserved(final(bud_info)@, *node, resource, apical_dominance),
    decreases *node,
{
    proof {
        if node.distinct() {
            lemma_resources_conserved(old(bud_info)@, *node, resource, apical_dominance);
        }
    }
    let main = apical_dominance.times(light_on_record(bud_info, &node.main_bud));
    let axillary = Fixed { raw: ONE_RAW }.minus(apical_dominance).times(
        light_on_record(bud_info, &node.axillary_bud),
    );
    let sum = main.plus(axillary);
    let divisor = if sum.raw <= 0 {
        Fixed { raw: 1 }
    } else {
        sum
    };
    let first = resource.scaled(main, divisor);
    share_below(bud_info, &node.main_bud, first, apical_dominance);
    share_below(bud_info, &node.axillary_bud, resource.minus(first), apical_dominance);
}

/// Gives the root bud its resource and shares it out over the tree.
pub fn calculate_resources(
    bud_info: &mut Vec<BudLocalEnvironment>,
    root: &MetamerNode,
    resource_coef: Fixed,
    bud_light_sensitivity: Fixed,
    apical_dominance: Fixed,
)
    requires
        root.well_formed(old(bud_info).len() as nat),
    ensures
        final(bud_info)@ == resources(
            old(bud_info)@,
            *root,
            resource_coef,
            bud_light_sensitivity,
            apical_dominance,
        ),
        final(bud_info).len() == old(bud_info).len(),
        root.distinct() ==> conserved(
            final(bud_info)@,
            *root,
            root_resource(old(bud_info)@, *root, resource_coef, bud_light_sensitivity),
            apical_dominance,
        ),
{
    let mut entry = bud_info[root.main_bud.id.0];
    let current_resource = resource_coef.times(pow(entry.light_exposure, bud_light_sensitivity));
    entry.resource = current_resource;
    bud_info.set(root.main_bud.id.0, entry);
    calculate_resource_for_each_bud(bud_info, root, current_resource, apical_dominance);
}

/// The main bud's share and the rest add up to the resource, and each lies
/// between nothing and the resource: for weights that are not negative and
/// whose sum is above zero and not saturated, with
/// `first = resource * main / sum`, both `first` and `resource - first` lie
/// between 0 and `resource`, and `first + (resource - first) == resource`.
pub proof fn lemma_split_conserves(resource: Fixed, main: Fixed, axillary: Fixed)
    requires
        main.raw >= 0,
        axillary.raw >= 0,
        0 < main.raw + axillary.raw <= MAX_RAW,
        resource.raw >= MIN_RAW,
    ensures
        ({
            let first = resource.scaled(main, main.plus(axillary));
            let second = resource.minus(first);
            &&& first.raw + second.raw == resource.raw
            &&& resource.raw >= 0 ==> 0 <= first.raw <= resource.raw && 0 <= second.raw
                <= resource.raw
            &&& resource.raw < 0 ==> resource.raw <= first.raw <= 0 && resource.raw <= second.raw
                <= 0
            &&& axillary.raw == 0 ==> first == resource
            &&& main.raw == 0 ==> second == resource
        }),
{
    let r = resource.raw as int;
    let d = main.raw + axillary.raw;
    lemma_share_bounded(r, main.raw as int, d);
    if axillary.raw == 0 {
        lemma_div_multiples_vanish(r, d);
        assert(r * main.raw == d * r) by (nonlinear_arith)
            requires
                d == main.raw,
        ;
    }
    if main.raw == 0 {
        assert(r * main.raw == 0) by (nonlinear_arith)
            requires
                main.raw == 0,
        ;
    }
}

/// A share of a resource lies between nothing and the resource.
proof fn lemma_share_bounded(r: int, weight: int, d: int)
    requires
        0 <= weight <= d,
        0 < d,
    ensures
        r >= 0 ==> 0 <= (r * weight) / d <= r,
        r < 0 ==> r <= (r * weight) / d <= 0,
{
    lemma_div_multiples_vanish(r, d);
    if r >= 0 {
        assert(0 <= r * weight <= d * r) by (nonlinear_arith)
            requires
                0 <= weight <= d,
                r >= 0,
        ;
        lemma_div_is_ordered(0, r * weight, d);
        lemma_div_is_ordered(r * weight, d * r, d);
    } else {
        assert(d * r <= r * weight <= 0) by (nonlinear_arith)
            requires
                0 <= weight <= d,
                r < 0,
        ;
        lemma_div_is_ordered(d * r, r * weight, d);
        lemma_div_is_ordered(r * weight, 0, d);
    }
}

/// `after` is `before` but for the resource of the records in `ids`.
pub open spec fn only_resources(
    before: Seq<BudLocalEnvironment>,
    after: Seq<BudLocalEnvironment>,
    ids: Set<nat>,
) -> bool {
    &&& after.len() == before.len()
    &&& forall|i: int|
        0 <= i < before.len() ==> (#[trigger] after[i]).with_resource(before[i].resource)
            == before[i]
    &&& forall|i: int|
        0 <= i < before.len() && !ids.contains(i as nat) ==> #[trigger] after[i] == before[i]
}

/// Sharing a resource out at a node changes nothing but the resource of the
/// buds at the node and below it.
pub proof fn lemma_shared_frame(
    info: Seq<BudLocalEnvironment>,
    node: MetamerNode,
    resource: Fixed,
    apical_dominance: Fixed,
)
    requires
        node.numbered(info.len()),
    ensures
        only_resources(
            info,
            resources_shared(info, node, resource, apical_dominance),
            node.ids(),
        ),
    decreases node,
{
    let first = main_share(info, node, resource, apical_dominance);
    let second = axillary_share(info, node, resource, apical_dominance);
    lemma_shared_below_frame(info, node.main_bud, first, apical_dominance);
    let after_main = resources_shared_below(info, node.main_bud, first, apical_dominance);
    lemma_shared_below_frame(after_main, node.axillary_bud, second, apical_dominance);
}

/// Handing a share to a bud changes nothing but the resource of the bud and
/// of the buds below it.
pub proof fn lemma_shared_below_frame(
    info: Seq<BudLocalEnvironment>,
    bud: Bud,
    share: Fixed,
    apical_dominance: Fixed,
)
    requires
        bud.numbered(info.len()),
    ensures
        only_resources(
            info,
            resources_shared_below(info, bud, share, apical_dominance),
            bud.ids(),
        ),
    decreases bud,
{
    let id = bud.id.0 as int;
    let own = info.update(id, info[id].with_resource(share));
    match bud.fate {
        BudFate::Shoot => match bud.branch_node {
            Some(child) => {
                lemma_shared_frame(own, *child, share, apical_dominance);
            },
            None => {},
        },
        _ => {},
    }
}

/// Whether the resource of `node` is split in the ratio of the two weights:
/// neither weight is negative, and their sum is above zero and not
/// saturated.
pub open spec fn splits(
    info: Seq<BudLocalEnvironment>,
    node: MetamerNode,
    apical_dominance: Fixed,
) -> bool {
    let main = main_weight(info, node, apical_dominance);
    let axillary = axillary_weight(info, node, apical_dominance);
    main.raw >= 0 && axillary.raw >= 0 && 0 < main.raw + axillary.raw <= MAX_RAW
}

/// What `bud` holds of the resource: what is on its record, and nothing
/// where it is dead.
pub open spec fn held(info: Seq<BudLocalEnvironment>, bud: Bud) -> Fixed {
    match bud.fate {
        BudFate::Dead => Fixed { raw: 0 },
        _ => info[bud.id.0 as int].resource,
    }
}

/// At `node`, which has received `resource`, and at every node that has
/// shot below it, the two buds together hold exactly what the node
/// received, and each holds a part that lies between nothing and that
/// resource. This is said of every node whose resource is split by weights.
pub open spec fn conserved(
    info: Seq<BudLocalEnvironment>,
    node: MetamerNode,
    resource: Fixed,
    apical_dominance: Fixed,
) -> bool
    decreases node,
{
    &&& splits(info, node, apical_dominance) && resource.raw >= MIN_RAW ==> {
        &&& held(info, node.main_bud).raw + held(info, node.axillary_bud).raw == resource.raw
        &&& resource.raw >= 0 ==> 0 <= held(info, node.main_bud).raw <= resource.raw && 0 <= held(
            info,
            node.axillary_bud,
        ).raw <= resource.raw
    }
    &&& conserved_below(info, node.main_bud, apical_dominance)
    &&& conserved_below(info, node.axillary_bud, apical_dominance)
}

/// The resource is conserved at every node that has shot below `bud`.
pub open spec fn conserved_below(
    info: Seq<BudLocalEnvironment>,
    bud: Bud,
    apical_dominance: Fixed,
) -> bool
    decreases bud,
{
    match bud.branch_node {
        Some(child) => bud.fate == BudFate::Shoot ==> conserved(
            info,
            *child,
            info[bud.id.0 as int].resource,
            apical_dominance,
        ),
        None => true,
    }
}

/// Whether the resource is conserved at a node depends on the records of
/// its own buds only.
pub proof fn lemma_conserved_frame(
    first: Seq<BudLocalEnvironment>,
    second: Seq<BudLocalEnvironment>,
    node: MetamerNode,
    resource: Fixed,
    apical_dominance: Fixed,
)
    requires
        forall|i: nat| node.ids().contains(i) ==> first[i as int] == second[i as int],
    ensures
        conserved(first, node, resource, apical_dominance) == conserved(
            second,
            node,
            resource,
            apical_dominance,
        ),
    decreases node,
{
    assert(node.main_bud.ids().contains(node.main_bud.id.0 as nat));
    assert(node.axillary_bud.ids().contains(node.axillary_bud.id.0 as nat));
    lemma_conserved_below_frame(first, second, node.main_bud, apical_dominance);
    lemma_conserved_below_frame(first, second, node.axillary_bud, apical_dominance);
}

proof fn lemma_conserved_below_frame(
    first: Seq<BudLocalEnvironment>,
    second: Seq<BudLocalEnvironment>,
    bud: Bud,
    apical_dominance: Fixed,
)
    requires
        forall|i: nat| bud.ids().contains(i) ==> first[i as int] == second[i as int],
    ensures
        conserved_below(first, bud, apical_dominance) == conserved_below(
            second,
            bud,
            apical_dominance,
        ),
    decreases bud,
{
    assert(bud.ids().contains(bud.id.0 as nat));
    match bud.branch_node {
        Some(child) => {
            assert forall|i: nat| child.ids().contains(i) implies first[i as int] == second[i as int] by {
                assert(bud.ids().contains(i));
            }
            lemma_conserved_frame(
                first,
                second,
                *child,
                first[bud.id.0 as int].resource,
                apical_dominance,
            );
        },
        None => {},
    }
}

/// Sharing a resource out conserves it: at every node whose resource is
/// split by weights, what the two buds hold adds up to exactly what the node
/// received.
pub proof fn lemma_resources_conserved(
    info: Seq<BudLocalEnvironment>,
    node: MetamerNode,
    resource: Fixed,
    apical_dominance: Fixed,
)
    requires
        node.well_formed(info.len()),
        node.distinct(),
    ensures
        conserved(
            resources_shared(info, node, resource, apical_dominance),
            node,
            resource,
            apical_dominance,
        ),
    decreases node,
{
    let main = main_weight(info, node, apical_dominance);
    let axillary = axillary_weight(info, node, apical_dominance);
    let first = main_share(info, node, resource, apical_dominance);
    let second = axillary_share(info, node, resource, apical_dominance);
    let after_main = resources_shared_below(info, node.main_bud, first, apical_dominance);
    let out = resources_shared_below(after_main, node.axillary_bud, second, apical_dominance);
    assert(out == resources_shared(info, node, resource, apical_dominance));
    let m = node.main_bud.id.0 as int;
    let x = node.axillary_bud.id.0 as int;
    lemma_shared_below_frame(info, node.main_bud, first, apical_dominance);
    lemma_shared_below_frame(after_main, node.axillary_bud, second, apical_dominance);
    assert(node.main_bud.ids().contains(m as nat));
    assert(node.axillary_bud.ids().contains(x as nat));
    lemma_handed_on(info, node.main_bud, first, apical_dominance);
    lemma_handed_on(after_main, node.axillary_bud, second, apical_dominance);
    assert(main_weight(out, node, apical_dominance) == main);
    assert(axillary_weight(out, node, apical_dominance) == axillary);
    if splits(out, node, apical_dominance) && resource.raw >= MIN_RAW {
        lemma_split_conserves(resource, main, axillary);
        assert(denominator(info, node, apical_dominance) == main.plus(axillary));
        if node.main_bud.fate != BudFate::Dead {
            assert(after_main[m].resource == first);
            assert(out[m] == after_main[m]);
        } else {
            assert(main.raw == 0) by (nonlinear_arith)
                requires
                    main.raw == clamp((apical_dominance.raw * 0) / (ONE_RAW as int)),
            ;
        }
        if node.axillary_bud.fate != BudFate::Dead {
            assert(out[x].resource == second);
        } else {
            let rest = Fixed { raw: ONE_RAW }.minus(apical_dominance);
            assert(axillary.raw == 0) by (nonlinear_arith)
                requires
                    axillary.raw == clamp((rest.raw * 0) / (ONE_RAW as int)),
            ;
        }
    }
    assert forall|i: nat| node.main_bud.ids().contains(i) implies after_main[i as int] == out[i as int] by {
        lemma_bud_ids_bounded(node.main_bud, info.len());
    }
    lemma_conserved_below_frame(after_main, out, node.main_bud, apical_dominance);
}

/// A bud that is handed a share keeps it on its record, and the resource is
/// conserved at every node below it.
proof fn lemma_handed_on(
    info: Seq<BudLocalEnvironment>,
    bud: Bud,
    share: Fixed,
    apical_dominance: Fixed,
)
    requires
        bud.well_formed(info.len()),
        bud.distinct(),
    ensures
        ({
            let out = resources_shared_below(info, bud, share, apical_dominance);
            &&& bud.fate != BudFate::Dead ==> out[bud.id.0 as int].resource == share
            &&& conserved_below(out, bud, apical_dominance)
        }),
    decreases bud,
{
    let id = bud.id.0 as int;
    let own = info.update(id, info[id].with_resource(share));
    match bud.fate {
        BudFate::Shoot => match bud.branch_node {
            Some(child) => {
                lemma_shared_frame(own, *child, share, apical_dominance);
                lemma_resources_conserved(own, *child, share, apical_dominance);
            },
            None => {},
        },
        _ => {},
    }
}

} // verus!
