use tree_growth::branch::{calculate_branch_sizes, update_branch_width};
use tree_growth::fixed::Fixed;
use tree_growth::graph::{Bud, BudFate, BudId, BudLocalEnvironment, MetamerNode};
use tree_growth::vector::Vec3;

fn bud(id: usize, fate: BudFate, child: Option<MetamerNode>) -> Bud {
    Bud { direction: Vec3::up(), id: BudId(id), branch_node: child.map(Box::new), fate }
}

fn node(main_bud: Bud, axillary_bud: Bud) -> MetamerNode {
    MetamerNode { global_position: Vec3::zero(), width: Fixed::from_raw(7), main_bud, axillary_bud }
}

fn leaf(first: usize) -> MetamerNode {
    node(bud(first, BudFate::Dormant, None), bud(first + 1, BudFate::Dormant, None))
}

/// A root whose main bud has shot a node with two leaves and whose axillary
/// bud has shot a leaf.
fn crown() -> MetamerNode {
    let fork = node(bud(2, BudFate::Shoot, Some(leaf(4))), bud(3, BudFate::Shoot, Some(leaf(6))));
    node(bud(0, BudFate::Shoot, Some(fork)), bud(1, BudFate::Shoot, Some(leaf(8))))
}

#[test]
fn subtree_sizes_count_the_nodes_below_a_bud() {
    let root = crown();
    let mut info = vec![BudLocalEnvironment::default(); 10];
    assert_eq!(calculate_branch_sizes(&mut info, &root), 4);
    let sizes: Vec<usize> = info.iter().map(|entry| entry.subtree_size).collect();
    assert_eq!(sizes, vec![3, 1, 1, 1, 0, 0, 0, 0, 0, 0]);
}

#[test]
fn subtree_sizes_add_to_what_is_on_record_and_saturate() {
    let root = crown();
    let mut info = vec![BudLocalEnvironment::default(); 10];
    info[2].subtree_size = 5;
    info[1].subtree_size = usize::MAX;
    assert_eq!(calculate_branch_sizes(&mut info, &root), usize::MAX);
    assert_eq!(info[2].subtree_size, 6);
    assert_eq!(info[0].subtree_size, 8);
    assert_eq!(info[1].subtree_size, usize::MAX);
}

#[test]
fn dead_and_dormant_buds_have_no_size() {
    let root = node(bud(0, BudFate::Dead, Some(leaf(2))), bud(1, BudFate::Dormant, None));
    let mut info = vec![BudLocalEnvironment::default(); 4];
    assert_eq!(calculate_branch_sizes(&mut info, &root), 0);
    assert!(info.iter().all(|entry| entry.subtree_size == 0));
}

#[test]
fn a_leaf_has_the_base_width() {
    let mut root = leaf(0);
    update_branch_width(&mut root, Fixed::from_raw(100));
    assert_eq!(root.width.raw, 100);
}

#[test]
fn widths_join_by_the_sum_of_squares() {
    let mut root = crown();
    update_branch_width(&mut root, Fixed::from_raw(100));
    let fork = root.main_bud.branch_node.as_ref().unwrap();
    let side = root.axillary_bud.branch_node.as_ref().unwrap();
    assert_eq!(fork.main_bud.branch_node.as_ref().unwrap().width.raw, 100);
    assert_eq!(fork.axillary_bud.branch_node.as_ref().unwrap().width.raw, 100);
    assert_eq!(fork.width.raw, 141);
    assert_eq!(side.width.raw, 100);
    assert_eq!(root.width.raw, 172);
    let squares = fork.width.raw * fork.width.raw + side.width.raw * side.width.raw;
    assert!(root.width.raw * root.width.raw <= squares);
    assert!(squares < (root.width.raw + 1) * (root.width.raw + 1));
}

#[test]
fn a_dead_branch_still_counts_and_a_missing_one_does_not() {
    let mut root = node(bud(0, BudFate::Dead, Some(leaf(2))), bud(1, BudFate::Dead, None));
    update_branch_width(&mut root, Fixed::from_raw(3_000_000_000));
    assert_eq!(root.width.raw, 3_000_000_000);
    assert_eq!(root.main_bud.fate, BudFate::Dead);
    let mut root = node(bud(0, BudFate::Shoot, Some(crown_part())), bud(1, BudFate::Dead, Some(leaf(8))));
    update_branch_width(&mut root, Fixed::from_raw(3_000_000_000));
    assert_eq!(root.main_bud.branch_node.as_ref().unwrap().width.raw, 4_242_640_687);
    assert_eq!(root.width.raw, 5_196_152_422);
}

fn crown_part() -> MetamerNode {
    node(bud(2, BudFate::Shoot, Some(leaf(4))), bud(3, BudFate::Shoot, Some(leaf(6))))
}

#[test]
fn wide_branches_join_within_a_ten_thousandth_of_their_squares() {
    let base = 70_000_123_456_789;
    let mut root = node(bud(0, BudFate::Shoot, Some(crown_part())), bud(1, BudFate::Shoot, Some(leaf(8))));
    update_branch_width(&mut root, Fixed::from_raw(base));
    let fork = root.main_bud.branch_node.as_ref().unwrap();
    let side = root.axillary_bud.branch_node.as_ref().unwrap();
    assert_eq!(side.width.raw, base);
    assert_eq!(fork.width.raw, 98_995_123_960_382);
    let squares = fork.width.raw as i128 * fork.width.raw as i128
        + side.width.raw as i128 * side.width.raw as i128;
    let square = root.width.raw as i128 * root.width.raw as i128;
    assert!(square <= squares);
    assert!(10_000 * (squares - square) <= squares);
}
