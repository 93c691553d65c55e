//! The size of the subtree below each bud, and the width of each node.
use crate::fixed::{is_sqrt, lemma_isqrt_exists, Fixed, MAX_RAW};
use crate::graph::{lemma_bud_ids_bounded, Bud, BudFate, BudLocalEnvironment, MetamerNode};
use crate::vector::{square, Vec3};
use vstd::prelude::*;

verus! {

/// The records after the subtree sizes at `node` and below it have been
/// counted, and the sum of the sizes of its two buds. Sums stop at the
/// largest number that fits.
pub open spec fn sizes_counted(info: Seq<BudLocalEnvironment>, node: MetamerNode) -> (
    Seq<BudLocalEnvironment>,
    usize,
)
    decreases node,
{
    let (after_main, main) = sizes_counted_below(info, node.main_bud);
    let (after_both, axillary) = sizes_counted_below(after_main, node.axillary_bud);
    (after_both, main.saturating_add(axillary))
}

/// The records after the subtree size of `bud` has been counted, and that
/// size: a bud that has shot adds one and the size of its child to the size
/// on its record; any other bud has size zero and keeps its record.
pub open spec fn sizes_counted_below(info: Seq<BudLocalEnvironment>, bud: Bud) -> (
    Seq<BudLocalEnvironment>,
    usize,
)
    decreases bud,
{
    let id = bud.id.0 as int;
    match bud.branch_node {
        Some(child) => if bud.fate == BudFate::Shoot {
            let (counted, below) = sizes_counted(info, *child);
            let size = counted[id].subtree_size.saturating_add(1usize.saturating_add(below));
            (counted.update(id, counted[id].with_size(size)), size)
        } else {
            (info, 0)
        },
        None => (info, 0),
    }
}

/// `count`, or the largest number that fits where it does not.
pub open spec fn saturated(count: nat) -> usize {
    if count > usize::MAX {
        usize::MAX
    } else {
        count as usize
    }
}

/// At `node` and at every node that has shot below it, the record of a bud
/// that has shot holds the number of nodes that have shot below the bud.
pub open spec fn sizes_hold(info: Seq<BudLocalEnvironment>, node: MetamerNode) -> bool
    decreases node,
{
    sizes_hold_below(info, node.main_bud) && sizes_hold_below(info, node.axillary_bud)
}

/// The sizes hold at `bud` and below it.
pub open spec fn sizes_hold_below(info: Seq<BudLocalEnvironment>, bud: Bud) -> bool
    decreases bud,
{
    match bud.branch_node {
        Some(child) => bud.fate == BudFate::Shoot ==> {
            &&& info[bud.id.0 as int].subtree_size == saturated(bud.shot_count())
            &&& sizes_hold(info, *child)
        },
        None => true,
    }
}

/// The records in `ids` hold no subtree size yet.
pub open spec fn blank_sizes(info: Seq<BudLocalEnvironment>, ids: Set<nat>) -> bool {
    forall|i: nat| ids.contains(i) ==> (#[trigger] info[i as int]).subtree_size == 0
}

/// `after` is `before` but for the subtree size of the records in `ids`.
pub open spec fn only_sizes(
    before: Seq<BudLocalEnvironment>,
    after: Seq<BudLocalEnvironment>,
    ids: Set<nat>,
) -> bool {
    &&& after.len() == before.len()
    &&& forall|i: int|
        0 <= i < before.len() ==> (#[trigger] after[i]).with_size(before[i].subtree_size)
            == before[i]
    &&& forall|i: int|
        0 <= i < before.len() && !ids.contains(i as nat) ==> #[trigger] after[i] == before[i]
}

/// Whether the sizes hold at a node depends on the records of its own buds
/// only.
pub proof fn lemma_sizes_hold_frame(
    first: Seq<BudLocalEnvironment>,
    second: Seq<BudLocalEnvironment>,
    node: MetamerNode,
)
    requires
        forall|i: nat| node.ids().contains(i) ==> first[i as int] == second[i as int],
    ensures
        sizes_hold(first, node) == sizes_hold(second, node),
    decreases node,
{
    lemma_sizes_hold_below_frame(first, second, node.main_bud);
    lemma_sizes_hold_below_frame(first, second, node.axillary_bud);
}

proof fn lemma_sizes_hold_below_frame(
    first: Seq<BudLocalEnvironment>,
    second: Seq<BudLocalEnvironment>,
    bud: Bud,
)
    requires
        forall|i: nat| bud.ids().contains(i) ==> first[i as int] == second[i as int],
    ensures
        sizes_hold_below(first, bud) == sizes_hold_below(second, bud),
    decreases bud,
{
    assert(bud.ids().contains(bud.id.0 as nat));
    match bud.branch_node {
        Some(child) => {
            assert forall|i: nat| child.ids().contains(i) implies first[i as int] == second[i as int] by {
                assert(bud.ids().contains(i));
            }
            lemma_sizes_hold_frame(first, second, *child);
        },
        None => {},
    }
}

/// Counted from blank records over a graph without a number twice, the
/// size of a bud is the number of nodes that have shot below it: that is
/// what the count returns and what it leaves on the record of every bud
/// that has shot, and it changes nothing else.
pub proof fn lemma_sizes_counted(info: Seq<BudLocalEnvironment>, node: MetamerNode)
    requires
        node.well_formed(info.len()),
        node.distinct(),
        forall|i: nat| node.ids().contains(i) ==> (#[trigger] info[i as int]).subtree_size == 0,
    ensures
        ({
            let (out, size) = sizes_counted(info, node);
            &&& size == saturated(node.main_bud.shot_count() + node.axillary_bud.shot_count())
            &&& sizes_hold(out, node)
            &&& only_sizes(info, out, node.ids())
        }),
    decreases node,
{
    let (after_main, main) = sizes_counted_below(info, node.main_bud);
    let (out, axillary) = sizes_counted_below(after_main, node.axillary_bud);
    lemma_bud_ids_bounded(node.main_bud, info.len());
    lemma_bud_ids_bounded(node.axillary_bud, info.len());
    lemma_sizes_counted_below(info, node.main_bud);
    assert forall|i: nat| node.axillary_bud.ids().contains(i) implies (
    #[trigger] after_main[i as int]).subtree_size == 0 by {
        assert(node.ids().contains(i));
        assert(!node.main_bud.ids().contains(i));
    }
    lemma_sizes_counted_below(after_main, node.axillary_bud);
    assert forall|i: nat| node.main_bud.ids().contains(i) implies after_main[i as int]
        == out[i as int] by {
        assert(!node.axillary_bud.ids().contains(i));
    }
    lemma_sizes_hold_below_frame(after_main, out, node.main_bud);
}

/// The size counted for a bud, from blank records.
pub proof fn lemma_sizes_counted_below(info: Seq<BudLocalEnvironment>, bud: Bud)
    requires
        bud.well_formed(info.len()),
        bud.distinct(),
        forall|i: nat| bud.ids().contains(i) ==> (#[trigger] info[i as int]).subtree_size == 0,
    ensures
        ({
            let (out, size) = sizes_counted_below(info, bud);
            &&& size == saturated(bud.shot_count())
            &&& sizes_hold_below(out, bud)
            &&& only_sizes(info, out, bud.ids())
        }),
    decreases bud,
{
    let id = bud.id.0 as int;
    assert(bud.ids().contains(id as nat));
    match bud.branch_node {
        Some(child) => {
            if bud.fate == BudFate::Shoot {
                assert forall|i: nat| child.ids().contains(i) implies (
                #[trigger] info[i as int]).subtree_size == 0 by {
                    assert(bud.ids().contains(i));
                }
                lemma_sizes_counted(info, *child);
                let (counted, below) = sizes_counted(info, *child);
                let size = counted[id].subtree_size.saturating_add(1usize.saturating_add(below));
                let out = counted.update(id, counted[id].with_size(size));
                assert(counted[id] == info[id]);
                assert(size == saturated(bud.shot_count()));
                lemma_bud_ids_bounded(child.main_bud, info.len());
                lemma_bud_ids_bounded(child.axillary_bud, info.len());
                assert forall|i: nat| child.ids().contains(i) implies counted[i as int]
                    == out[i as int] by {
                    assert(child.main_bud.ids().contains(i) || child.axillary_bud.ids().contains(i));
                }
                lemma_sizes_hold_frame(counted, out, *child);
            }
        },
        None => {},
    }
}

fn branch_size_below(bud_info: &mut Vec<BudLocalEnvironment>, bud: &Bud) -> (size: usize)
    requires
        bud.well_formed(old(bud_info).len() as nat),
    ensures
        (final(bud_info)@, size) == sizes_counted_below(old(bud_info)@, *bud),
        final(bud_info).len() == old(bud_info).len(),
    decreases *bud,
{
    match &bud.branch_node {
        Some(child) => {
            match bud.fate {
                BudFate::Shoot => {
                    let below = calculate_branch_sizes(bud_info, child);
                    let mut entry = bud_info[bud.id.0];
                    let one: usize = 1;
                    let size = entry.subtree_size.saturating_add(one.saturating_add(below));
                    entry.subtree_size = size;
                    bud_info.set(bud.id.0, entry);
                    size
                },
                _ => 0,
            }
        },
        None => 0,
    }
}

/// Counts the nodes below every bud that has shot, and returns the sum for
/// the two buds of `node`.
pub fn calculate_branch_sizes(bud_info: &mut Vec<BudLocalEnvironment>, node: &MetamerNode) -> (size:
    usize)
    requires
        node.well_formed(old(bud_info).len() as nat),
    ensures
        (final(bud_info)@, size) == sizes_counted(old(bud_info)@, *node),
        final(bud_info).len() == old(bud_info).len(),
        node.distinct() && blank_sizes(old(bud_info)@, node.ids()) ==> size == saturated(
            node.main_bud.shot_count() + node.axillary_bud.shot_count(),
        ) && sizes_hold(final(bud_info)@, *node),
    decreases *node,
{
    proof {
        if node.distinct() && blank_sizes(old(bud_info)@, node.ids()) {
            lemma_sizes_counted(old(bud_info)@, *node);
        }
    }
    let main = branch_size_below(bud_info, &node.main_bud);
    let axillary = branch_size_below(bud_info, &node.axillary_bud);
    main.saturating_add(axillary)
}

/// Whether a branch hangs on `bud`: it owns a child and is not dormant.
pub open spec fn bears(bud: Bud) -> bool {
    bud.fate != BudFate::Dormant && bud.branch_node is Some
}

/// The width of the branch on `bud`; zero where none hangs there.
pub open spec fn branch_width(bud: Bud) -> Fixed {
    if bears(bud) {
        bud.branch_node.unwrap().width
    } else {
        Fixed { raw: 0 }
    }
}

/// The width of a node whose branches have the widths `main` and
/// `axillary`: the square root of the sum of their squares.
pub open spec fn joined_width(main: Fixed, axillary: Fixed) -> Fixed {
    Vec3 { x: main, y: axillary, z: Fixed { raw: 0 } }.length()
}

/// The node with the widths at it and below it worked out anew: a node
/// without branches has the base width, any other the joined width of its
/// branches.
pub open spec fn widths_updated(node: MetamerNode, base_branch_width: Fixed) -> MetamerNode
    decreases node,
{
    let main = width_updated_below(node.main_bud, base_branch_width);
    let axillary = width_updated_below(node.axillary_bud, base_branch_width);
    MetamerNode {
        width: if bears(main) || bears(axillary) {
            joined_width(branch_width(main), branch_width(axillary))
        } else {
            base_branch_width
        },
        main_bud: main,
        axillary_bud: axillary,
        ..node
    }
}

/// The bud with the widths of the branch that hangs on it worked out anew.
pub open spec fn width_updated_below(bud: Bud, base_branch_width: Fixed) -> Bud
    decreases bud,
{
    match bud.branch_node {
        Some(child) => if bud.fate != BudFate::Dormant {
            Bud { branch_node: Some(Box::new(widths_updated(*child, base_branch_width))), ..bud }
        } else {
            bud
        },
        None => bud,
    }
}

/// Every node at `node` and below it has the width that its branches give
/// it, or the base width where it has none.
pub open spec fn widths_hold(node: MetamerNode, base_branch_width: Fixed) -> bool
    decreases node,
{
    &&& node.width == if bears(node.main_bud) || bears(node.axillary_bud) {
        joined_width(branch_width(node.main_bud), branch_width(node.axillary_bud))
    } else {
        base_branch_width
    }
    &&& widths_hold_below(node.main_bud, base_branch_width)
    &&& widths_hold_below(node.axillary_bud, base_branch_width)
}

/// The widths hold in the branch that hangs on `bud`.
pub open spec fn widths_hold_below(bud: Bud, base_branch_width: Fixed) -> bool
    decreases bud,
{
    match bud.branch_node {
        Some(child) => bud.fate != BudFate::Dormant ==> widths_hold(*child, base_branch_width),
        None => true,
    }
}

/// The square of a joined width is the sum of the squares of the two
/// widths, up to the rounding of the root: in raw units,
/// `w^2 <= main^2 + axillary^2 < (w + 1)^2`, unless the width has saturated.
pub proof fn lemma_joined_width_squares(main: Fixed, axillary: Fixed)
    ensures
        ({
            let width = joined_width(main, axillary);
            width.raw < MAX_RAW ==> is_sqrt(
                width.raw as int,
                square(main.raw as int) + square(axillary.raw as int),
            )
        }),
{
    let sum = square(main.raw as int) + square(axillary.raw as int);
    assert(square(main.raw as int) >= 0) by (nonlinear_arith);
    assert(square(axillary.raw as int) >= 0) by (nonlinear_arith);
    assert(square(0) == 0);
    lemma_isqrt_exists(sum);
}

/// For widths of less than fifty thousand units, the square of a joined
/// width differs from the sum of the squares of the two widths by less than
/// a ten-thousandth of a square unit.
pub proof fn lemma_joined_width_tolerance(main: Fixed, axillary: Fixed)
    requires
        joined_width(main, axillary).raw < 50_000_000_000_000,
    ensures
        ({
            let width = joined_width(main, axillary);
            let squares = square(main.raw as int) + square(axillary.raw as int);
            0 <= squares - square(width.raw as int) <= 100_000_000_000_000
        }),
{
    lemma_joined_width_squares(main, axillary);
    let width = joined_width(main, axillary).raw as int;
    assert((width + 1) * (width + 1) == width * width + 2 * width + 1) by (nonlinear_arith);
}

/// Whatever the widths, short of saturation: where the joined width is more
/// than twenty thousand raw units, its square differs from the sum of the
/// squares of the two widths by less than a ten-thousandth of that sum.
pub proof fn lemma_joined_width_relative(main: Fixed, axillary: Fixed)
    requires
        20_000 <= joined_width(main, axillary).raw < MAX_RAW,
    ensures
        ({
            let width = joined_width(main, axillary);
            let squares = square(main.raw as int) + square(axillary.raw as int);
            &&& 0 <= squares - square(width.raw as int)
            &&& 10_000 * (squares - square(width.raw as int)) <= squares
        }),
{
    lemma_joined_width_squares(main, axillary);
    let width = joined_width(main, axillary).raw as int;
    assert((width + 1) * (width + 1) == width * width + 2 * width + 1) by (nonlinear_arith);
    assert(20_000 * width <= width * width) by (nonlinear_arith)
        requires
            20_000 <= width,
    ;
}

/// Working the widths out anew changes no bud: shape, numbers and fates
/// stay, and afterwards the widths hold.
pub proof fn lemma_widths_updated(node: MetamerNode, base_branch_width: Fixed, bound: nat)
    ensures
        ({
            let updated = widths_updated(node, base_branch_width);
            &&& widths_hold(updated, base_branch_width)
            &&& updated.global_position == node.global_position
            &&& updated.shaped() == node.shaped()
            &&& updated.numbered(bound) == node.numbered(bound)
            &&& updated.distinct() == node.distinct()
            &&& updated.ids() == node.ids()
        }),
    decreases node,
{
    lemma_width_updated_below(node.main_bud, base_branch_width, bound);
    lemma_width_updated_below(node.axillary_bud, base_branch_width, bound);
}

/// Working the widths out anew changes no bud, for the branch on `bud`.
pub proof fn lemma_width_updated_below(bud: Bud, base_branch_width: Fixed, bound: nat)
    ensures
        ({
            let updated = width_updated_below(bud, base_branch_width);
            &&& widths_hold_below(updated, base_branch_width)
            &&& updated.id == bud.id
            &&& updated.fate == bud.fate
            &&& updated.direction == bud.direction
            &&& updated.branch_node is Some == bud.branch_node is Some
            &&& updated.shaped() == bud.shaped()
            &&& updated.numbered(bound) == bud.numbered(bound)
            &&& updated.distinct() == bud.distinct()
            &&& updated.ids() == bud.ids()
        }),
    decreases bud,
{
    match bud.branch_node {
        Some(child) => {
            if bud.fate != BudFate::Dormant {
                lemma_widths_updated(*child, base_branch_width, bound);
            }
        },
        None => {},
    }
}

fn update_width_below(bud: &mut Bud, base_branch_width: Fixed) -> (width: Option<Fixed>)
    requires
        old(bud).shaped(),
    ensures
        *final(bud) == width_updated_below(*old(bud), base_branch_width),
        width == if bears(*final(bud)) {
            Some(branch_width(*final(bud)))
        } else {
            None
        },
    decreases *old(bud),
{
    match bud.fate {
        BudFate::Dormant => None,
        _ => {
            match bud.branch_node.take() {
                Some(mut child) => {
                    update_branch_width(&mut *child, base_branch_width);
                    let width = child.width;
                    bud.branch_node = Some(child);
                    Some(width)
                },
                None => None,
            }
        },
    }
}

/// Works the width of `node` and of every node below it out anew, from the
/// leaves up.
pub fn update_branch_width(node: &mut MetamerNode, base_branch_width: Fixed)
    requires
        old(node).shaped(),
    ensures
        *final(node) == widths_updated(*old(node), base_branch_width),
        widths_hold(*final(node), base_branch_width),
    decreases *old(node),
{
    proof {
        lemma_widths_updated(*old(node), base_branch_width, 0);
    }
    let main = update_width_below(&mut node.main_bud, base_branch_width);
    let axillary = update_width_below(&mut node.axillary_bud, base_branch_width);
    let zero = Fixed { raw: 0 };
    node.width = match (main, axillary) {
        (None, None) => base_branch_width,
        (Some(m), None) => Vec3 { x: m, y: zero, z: zero }.length(),
        (None, Some(a)) => Vec3 { x: zero, y: a, z: zero }.length(),
        (Some(m), Some(a)) => Vec3 { x: m, y: a, z: zero }.length(),
    };
}

} // verus!
