use tree_growth::fixed::Fixed;
use tree_growth::graph::{TreeNode, TreeStructure};
use tree_growth::post::{subdivide, subdivide_branch, subdivide_recursive, try_subdivide};
use tree_growth::vector::Vec3;

fn fx(value: f64) -> Fixed {
    Fixed::from_raw((value * 1e9).round() as i64)
}

fn v(x: f64, y: f64, z: f64) -> Vec3 {
    Vec3::new(fx(x), fx(y), fx(z))
}

fn tree_node(position: Vec3, width: f64, main: Option<TreeNode>, lateral: Option<TreeNode>) -> TreeNode {
    TreeNode {
        global_position: position,
        width: fx(width),
        main_branch: main.map(Box::new),
        lateral_branch: lateral.map(Box::new),
    }
}

fn straight() -> TreeStructure {
    let tip = tree_node(v(0.0, 2.0, 0.0), 0.1, None, None);
    let middle = tree_node(v(0.0, 1.0, 0.0), 0.2, Some(tip), None);
    TreeStructure { root: tree_node(Vec3::zero(), 0.4, Some(middle), None) }
}

fn main_chain(tree: &TreeStructure) -> Vec<(Vec3, Fixed)> {
    let mut chain = Vec::new();
    let mut current = Some(&tree.root);
    while let Some(node) = current {
        chain.push((node.global_position, node.width));
        assert!(node.lateral_branch.is_none());
        current = node.main_branch.as_deref();
    }
    chain
}

fn count_edges(node: &TreeNode) -> usize {
    let main = node.main_branch.as_ref().map_or(0, |child| 1 + count_edges(child));
    let lateral = node.lateral_branch.as_ref().map_or(0, |child| 1 + count_edges(child));
    main + lateral
}

#[test]
fn one_point_on_a_straight_chain_is_the_middle_of_each_edge() {
    let smooth = subdivide(&straight(), 1);
    assert_eq!(
        main_chain(&smooth),
        vec![
            (v(0.0, 0.0, 0.0), fx(0.4)),
            (v(0.0, 0.5, 0.0), fx(0.3)),
            (v(0.0, 1.0, 0.0), fx(0.2)),
            (v(0.0, 1.5, 0.0), fx(0.15)),
            (v(0.0, 2.0, 0.0), fx(0.1)),
        ]
    );
}

#[test]
fn a_slanted_straight_chain_stays_straight() {
    let tip = tree_node(v(2.0, 4.0, -6.0), 0.1, None, None);
    let middle = tree_node(v(1.0, 2.0, -3.0), 0.1, Some(tip), None);
    let root = tree_node(Vec3::zero(), 0.1, Some(middle), None);
    let lower = subdivide_recursive(Some(&tree_node(v(-1.0, -2.0, 3.0), 0.1, None, None)), &root, 1);
    let tree = TreeStructure { root: lower };
    let places: Vec<Vec3> = main_chain(&tree).into_iter().map(|(place, _)| place).collect();
    assert_eq!(
        places,
        vec![
            v(0.0, 0.0, 0.0),
            v(0.5, 1.0, -1.5),
            v(1.0, 2.0, -3.0),
            v(1.5, 3.0, -4.5),
            v(2.0, 4.0, -6.0),
        ]
    );
}

#[test]
fn no_point_leaves_the_tree_as_it_is() {
    assert_eq!(subdivide(&straight(), 0), straight());
}

#[test]
fn points_follow_the_curve_over_the_knee() {
    let child = tree_node(v(4.0, 0.0, 0.0), 0.2, None, None);
    let tree = TreeStructure { root: tree_node(Vec3::zero(), 0.6, Some(child), None) };
    let smooth = subdivide(&tree, 1);
    assert_eq!(
        main_chain(&smooth),
        vec![(v(0.0, 0.0, 0.0), fx(0.6)), (v(1.0, 0.25, 0.0), fx(0.4)), (v(4.0, 0.0, 0.0), fx(0.2))]
    );
    let smooth = subdivide(&tree, 3);
    assert_eq!(
        main_chain(&smooth),
        vec![
            (v(0.0, 0.0, 0.0), fx(0.6)),
            (v(0.25, 0.1875, 0.0), fx(0.5)),
            (v(1.0, 0.25, 0.0), fx(0.4)),
            (v(2.25, 0.1875, 0.0), fx(0.3)),
            (v(4.0, 0.0, 0.0), fx(0.2)),
        ]
    );
}

#[test]
fn every_edge_becomes_a_chain_and_forks_stay_forks() {
    let tip = tree_node(v(0.0, 2.0, 0.0), 0.1, None, None);
    let main = tree_node(v(0.0, 1.0, 0.0), 0.2, Some(tip), None);
    let lateral = tree_node(v(1.0, 1.0, 0.0), 0.1, None, None);
    let tree = TreeStructure { root: tree_node(Vec3::zero(), 0.3, Some(main), Some(lateral)) };
    let smooth = subdivide(&tree, 4);
    assert_eq!(count_edges(&tree.root), 3);
    assert_eq!(count_edges(&smooth.root), 15);
    assert_eq!(smooth.root.global_position, Vec3::zero());
    assert_eq!(smooth.root.width, fx(0.3));
    let mut side = smooth.root.lateral_branch.as_deref().unwrap();
    for _ in 0..4 {
        assert!(side.lateral_branch.is_none());
        side = side.main_branch.as_deref().unwrap();
    }
    assert_eq!(side.global_position, v(1.0, 1.0, 0.0));
    assert!(side.main_branch.is_none());
}

#[test]
fn a_branch_is_replaced_from_the_child_up() {
    let parent = tree_node(v(0.0, -1.0, 0.0), 0.5, None, None);
    let current = tree_node(Vec3::zero(), 0.4, None, None);
    let kept = tree_node(v(9.0, 9.0, 9.0), 0.7, None, None);
    let child = tree_node(v(0.0, 1.0, 0.0), 0.2, Some(kept), None);
    let top = subdivide_branch(Some(&parent), &current, child, 1);
    assert_eq!(top.global_position, v(0.0, 0.5, 0.0));
    assert_eq!(top.width, fx(0.3));
    let below = top.main_branch.as_deref().unwrap();
    assert_eq!(below.global_position, v(0.0, 1.0, 0.0));
    assert_eq!(below.main_branch.as_deref().unwrap().global_position, v(9.0, 9.0, 9.0));
}

#[test]
fn too_many_points_are_turned_down() {
    assert_eq!(try_subdivide(&straight(), 1), Some(subdivide(&straight(), 1)));
    assert_eq!(try_subdivide(&straight(), 0), Some(straight()));
    assert_eq!(try_subdivide(&straight(), 0x10_0000), None);
    assert_eq!(try_subdivide(&straight(), usize::MAX), None);
}
