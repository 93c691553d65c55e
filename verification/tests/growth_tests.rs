use tree_growth::branch::calculate_branch_sizes;
use tree_growth::data::TreeInfo;
use tree_growth::environment::Environment;
use tree_growth::fixed::Fixed;
use tree_growth::graph::{Bud, BudFate, BudId, BudLocalEnvironment, MetamerNode, TreeNode};
use tree_growth::growth::{
    calculate_local_environment, generate_from, grow, iterate, SeedStructure,
};
use tree_growth::math::HALF_PI_RAW;
use tree_growth::mesh::build;
use tree_growth::random::Generator;
use tree_growth::vector::Vec3;

fn fx(value: f64) -> Fixed {
    Fixed::from_raw((value * 1e9).round() as i64)
}

fn configuration(seed: u64, iterations: u32, points: u32) -> SeedStructure {
    let mut info = TreeInfo::default();
    info.seed = seed;
    let mut args = SeedStructure::from(info);
    args.iterations_count = iterations;
    args.environment_points_count = points;
    args
}

fn depth(node: &TreeNode) -> usize {
    let main = node.main_branch.as_ref().map_or(0, |child| 1 + depth(child));
    let lateral = node.lateral_branch.as_ref().map_or(0, |child| 1 + depth(child));
    main.max(lateral)
}

fn count_nodes(node: &TreeNode) -> usize {
    1 + node.main_branch.as_ref().map_or(0, |child| count_nodes(child))
        + node.lateral_branch.as_ref().map_or(0, |child| count_nodes(child))
}

fn collect_ids(node: &MetamerNode, ids: &mut Vec<usize>) {
    for bud in [&node.main_bud, &node.axillary_bud] {
        ids.push(bud.id.0);
        if let Some(child) = &bud.branch_node {
            collect_ids(child, ids);
        }
    }
}

fn check_shape(node: &MetamerNode) {
    for bud in [&node.main_bud, &node.axillary_bud] {
        match bud.fate {
            BudFate::Dormant => assert!(bud.branch_node.is_none()),
            BudFate::Shoot => assert!(bud.branch_node.is_some()),
            BudFate::Dead => {}
        }
        if let Some(child) = &bud.branch_node {
            check_shape(child);
        }
    }
}

fn branch_width(bud: &Bud) -> Option<i128> {
    match (&bud.fate, &bud.branch_node) {
        (BudFate::Dormant, _) | (_, None) => None,
        (_, Some(child)) => Some(child.width.raw as i128),
    }
}

fn check_widths(node: &MetamerNode, base: i64) {
    let main = branch_width(&node.main_bud);
    let axillary = branch_width(&node.axillary_bud);
    let width = node.width.raw as i128;
    if main.is_none() && axillary.is_none() {
        assert_eq!(node.width.raw, base);
    } else {
        let squares = main.unwrap_or(0).pow(2) + axillary.unwrap_or(0).pow(2);
        assert!(width * width <= squares && squares < (width + 1) * (width + 1));
    }
    for bud in [&node.main_bud, &node.axillary_bud] {
        if let (Some(child), true) = (&bud.branch_node, bud.fate != BudFate::Dormant) {
            check_widths(child, base);
        }
    }
}

fn check_grown_on(before: &Bud, after: &Bud) {
    assert_eq!(before.id, after.id);
    match before.fate {
        BudFate::Dormant => {}
        BudFate::Shoot => assert_ne!(after.fate, BudFate::Dormant),
        BudFate::Dead => assert_eq!(after.fate, BudFate::Dead),
    }
    if let Some(child) = &before.branch_node {
        let grown = after.branch_node.as_ref().unwrap();
        assert_eq!(child.global_position, grown.global_position);
        check_grown_on(&child.main_bud, &grown.main_bud);
        check_grown_on(&child.axillary_bud, &grown.axillary_bud);
    }
}

#[test]
fn typical_growth_branches_and_widens_the_root() {
    let args = configuration(0, 5, 100000);
    let tree = generate_from(&args);
    assert!(depth(&tree.root) >= 1);
    assert!(tree.root.width.raw > args.base_branch_width.raw);
}

#[test]
fn without_points_the_root_bud_still_shoots_by_its_light() {
    let args = configuration(0, 1, 0);
    let (root, environment) = grow(&args);
    assert_eq!(environment.points.len(), 0);
    assert_eq!(environment.get_number_of_buds(), 4);
    assert_eq!(root.main_bud.fate, BudFate::Shoot);
    assert_eq!(root.axillary_bud.fate, BudFate::Dead);
    let child = root.main_bud.branch_node.as_ref().unwrap();
    assert_eq!(child.global_position, Vec3::new(fx(0.0), fx(2.0), fx(0.0)));
    assert_eq!(child.main_bud.fate, BudFate::Dormant);
    assert_eq!(child.axillary_bud.fate, BudFate::Dormant);
    assert_eq!(child.width.raw, 100);
    assert_eq!(root.width.raw, 100);
}

#[test]
fn without_resource_the_root_bud_stays_dormant() {
    let mut args = configuration(0, 1, 0);
    args.resource_coef = fx(0.2);
    let (root, environment) = grow(&args);
    assert_eq!(root.main_bud.fate, BudFate::Dormant);
    assert!(root.main_bud.branch_node.is_none());
    assert_eq!(environment.get_number_of_buds(), 2);
    let tree = generate_from(&args);
    assert!(tree.root.main_branch.is_none() && tree.root.lateral_branch.is_none());
    assert_eq!(tree.root.width.raw, 100);
    args.environment_points_count = 1000;
    args.iterations_count = 3;
    assert_eq!(generate_from(&args), tree);
}

#[test]
fn the_first_record_of_a_seedling() {
    let root = MetamerNode {
        global_position: Vec3::zero(),
        width: Fixed::zero(),
        main_bud: Bud { direction: Vec3::up(), id: BudId(0), branch_node: None, fate: BudFate::Dormant },
        axillary_bud: Bud { direction: Vec3::zero(), id: BudId(1), branch_node: None, fate: BudFate::Dead },
    };
    let environment = Environment { points: vec![], bud_id_counter: BudId(2) };
    let mut info = vec![BudLocalEnvironment::default(); 2];
    let mut rng = Generator::new(0);
    let quarter = Fixed::from_raw(HALF_PI_RAW / 2);
    calculate_local_environment(
        &mut info,
        &environment,
        &root,
        &mut rng,
        quarter,
        fx(5.0),
        fx(4.0),
        quarter,
        fx(1.0),
        fx(1.0),
        fx(0.5),
        fx(1.0),
        fx(0.5),
        fx(0.3),
    );
    assert_eq!(info[0].optimal_growth_direction, Vec3::up());
    assert_eq!(info[0].light_exposure, fx(4.0));
    assert_eq!(info[0].resource, fx(2.0));
    assert_eq!(info[1], BudLocalEnvironment::default());
    assert_eq!(rng.position, 0);
}

#[test]
fn bud_numbers_are_dense() {
    let args = configuration(3, 4, 2000);
    let (root, environment) = grow(&args);
    let mut ids = Vec::new();
    collect_ids(&root, &mut ids);
    ids.sort();
    let expected: Vec<usize> = (0..environment.get_number_of_buds()).collect();
    assert_eq!(ids, expected);
    assert!(ids.len() > 2);
    check_shape(&root);
}

#[test]
fn widths_hold_all_over_a_grown_tree() {
    let args = configuration(8, 6, 3000);
    let (root, _) = grow(&args);
    check_widths(&root, 100);
    assert!(root.width.raw > 100);
}

#[test]
fn fates_only_move_on() {
    let mut earlier = grow(&configuration(5, 0, 3000)).0;
    let mut dead = 0;
    for iterations in 1..9 {
        let mut args = configuration(5, iterations, 3000);
        args.branch_self_pruning = fx(0.6);
        let later = grow(&args).0;
        check_grown_on(&earlier.main_bud, &later.main_bud);
        check_grown_on(&earlier.axillary_bud, &later.axillary_bud);
        let mut stack = vec![&later];
        dead = 0;
        while let Some(node) = stack.pop() {
            for bud in [&node.main_bud, &node.axillary_bud] {
                if bud.fate == BudFate::Dead && bud.branch_node.is_some() {
                    dead += 1;
                }
                if let Some(child) = &bud.branch_node {
                    stack.push(child);
                }
            }
        }
        earlier = later;
    }
    assert!(dead > 0);
    assert!(earlier.main_bud.branch_node.is_some());
}

#[test]
fn equal_seeds_grow_equal_trees() {
    let args = configuration(11, 3, 5000);
    assert_eq!(generate_from(&args), generate_from(&args));
    assert_eq!(grow(&args), grow(&args));
    let other = configuration(12, 3, 5000);
    assert_ne!(generate_from(&args), generate_from(&other));
}

#[test]
fn the_skeleton_keeps_what_has_shot() {
    let args = configuration(2, 4, 1000);
    let (root, _) = grow(&args);
    let tree = generate_from(&args);
    assert_eq!(tree.root, TreeNode::from(root));
    assert_eq!(tree.root.global_position, Vec3::zero());
    assert!(count_nodes(&tree.root) > 2);
    let mesh = build(&tree);
    assert_eq!(mesh.vertices.len(), 16 * count_nodes(&tree.root));
    assert_eq!(mesh.indices.len(), 96 * (count_nodes(&tree.root) - 1));
}

#[test]
fn no_iteration_leaves_the_seedling() {
    let args = configuration(0, 0, 10);
    let (root, environment) = grow(&args);
    assert_eq!(root.main_bud.fate, BudFate::Dormant);
    assert_eq!(root.axillary_bud.fate, BudFate::Dead);
    assert_eq!(root.width, Fixed::from_raw(100));
    assert_eq!(environment.points.len(), 10);
    assert_eq!(environment.get_number_of_buds(), 2);
}

#[test]
fn a_run_is_its_iterations_one_after_the_other() {
    let args = configuration(6, 3, 1500);
    let (mut root, mut environment) = grow(&configuration(6, 0, 1500));
    let mut rng = Generator::new(6);
    for _ in 0..3 {
        iterate(&args, &mut root, &mut environment, &mut rng);
    }
    assert_eq!((root, environment), grow(&args));
    assert!(rng.position > 0);
}

fn light_of(info: &Vec<BudLocalEnvironment>, bud: &Bud) -> i64 {
    match bud.fate {
        BudFate::Dead => 0,
        _ => info[bud.id.0].light_exposure.raw,
    }
}

fn shot_below(bud: &Bud) -> usize {
    match (&bud.fate, &bud.branch_node) {
        (BudFate::Shoot, Some(child)) => 1 + shot_below(&child.main_bud) + shot_below(&child.axillary_bud),
        _ => 0,
    }
}

fn check_records(info: &Vec<BudLocalEnvironment>, node: &MetamerNode, resource: i64, checked: &mut usize) {
    let main = &node.main_bud;
    let axillary = &node.axillary_bud;
    let held = |bud: &Bud| if bud.fate == BudFate::Dead { 0 } else { info[bud.id.0].resource.raw };
    if light_of(info, main) + light_of(info, axillary) > 0 {
        assert_eq!(held(main) + held(axillary), resource);
        assert!(0 <= held(main) && held(main) <= resource);
        assert!(0 <= held(axillary) && held(axillary) <= resource);
        *checked += 1;
    }
    for bud in [main, axillary] {
        if let (BudFate::Shoot, Some(child)) = (&bud.fate, &bud.branch_node) {
            let record = &info[bud.id.0];
            assert_eq!(
                record.light_exposure.raw,
                light_of(info, &child.main_bud) + light_of(info, &child.axillary_bud)
            );
            assert_eq!(record.subtree_size, shot_below(bud));
            check_records(info, child, record.resource.raw, checked);
        } else if bud.fate == BudFate::Dormant {
            assert!(info[bud.id.0].light_exposure.raw <= 5_000_000_000);
            assert_eq!(info[bud.id.0].subtree_size, 0);
        }
    }
}

#[test]
fn the_records_of_a_grown_tree_add_up() {
    let args = configuration(21, 6, 2500);
    let (root, environment) = grow(&args);
    let mut info = vec![BudLocalEnvironment::default(); environment.get_number_of_buds()];
    let mut rng = Generator::new(1);
    calculate_local_environment(
        &mut info,
        &environment,
        &root,
        &mut rng,
        args.bud_perception_angle,
        args.bud_perception_distance_coef,
        args.full_light_exposure,
        args.shadow_volume_angle,
        args.shadow_adjustment_coef,
        args.shadow_adjustment_base,
        args.resource_coef,
        args.bud_light_sensitivity,
        args.apical_dominance,
        args.trunk_length,
    );
    calculate_branch_sizes(&mut info, &root);
    let root_resource = info[0].resource.raw;
    assert_eq!(root_resource, info[0].light_exposure.raw / 2);
    let mut checked = 0;
    for bud in [&root.main_bud, &root.axillary_bud] {
        if let (BudFate::Shoot, Some(child)) = (&bud.fate, &bud.branch_node) {
            assert_eq!(
                info[bud.id.0].light_exposure.raw,
                light_of(&info, &child.main_bud) + light_of(&info, &child.axillary_bud)
            );
            check_records(&info, child, info[bud.id.0].resource.raw, &mut checked);
        }
    }
    assert!(checked > 5);
}
