use tree_growth::environment::Environment;
use tree_growth::fate::{determine_buds_fate, determine_fate_for_each_bud, get_highest_tree_vigor};
use tree_growth::fixed::Fixed;
use tree_growth::graph::{Bud, BudFate, BudId, BudLocalEnvironment, MetamerNode};
use tree_growth::random::Generator;
use tree_growth::shoot::{
    add_new_shoots, direction_on_cone, get_random_direction_in_cone,
    move_tropism_vector_to_growth_plane,
};
use tree_growth::vector::Vec3;

fn fx(value: f64) -> Fixed {
    Fixed::from_raw((value * 1e9).round() as i64)
}

fn v(x: f64, y: f64, z: f64) -> Vec3 {
    Vec3::new(fx(x), fx(y), fx(z))
}

fn bud(id: usize, fate: BudFate, child: Option<MetamerNode>) -> Bud {
    Bud { direction: Vec3::up(), id: BudId(id), branch_node: child.map(Box::new), fate }
}

fn node(position: Vec3, main_bud: Bud, axillary_bud: Bud) -> MetamerNode {
    MetamerNode { global_position: position, width: Fixed::zero(), main_bud, axillary_bud }
}

fn seedling() -> MetamerNode {
    node(Vec3::zero(), bud(0, BudFate::Dormant, None), bud(1, BudFate::Dead, None))
}

fn two_nodes() -> MetamerNode {
    let child = node(v(0.0, 2.0, 0.0), bud(2, BudFate::Dormant, None), bud(3, BudFate::Dormant, None));
    node(Vec3::zero(), bud(0, BudFate::Shoot, Some(child)), bud(1, BudFate::Dead, None))
}

fn records(resources: &[f64]) -> Vec<BudLocalEnvironment> {
    resources
        .iter()
        .map(|resource| {
            let mut entry = BudLocalEnvironment::default();
            entry.resource = fx(*resource);
            entry.optimal_growth_direction = Vec3::up();
            entry.subtree_size = 1;
            entry
        })
        .collect()
}

fn empty(counter: usize) -> Environment {
    Environment { points: vec![v(1.0, 1.0, 1.0)], bud_id_counter: BudId(counter) }
}

fn fates(info: &Vec<BudLocalEnvironment>, environment: &mut Environment, root: &mut MetamerNode, rng: &mut Generator) {
    determine_buds_fate(
        info,
        environment,
        root,
        rng,
        fx(-0.785398163),
        fx(0.1),
        fx(0.5),
        fx(0.3),
        fx(0.087266462),
        fx(1.221730476),
        fx(0.05),
        fx(1.0),
    );
}

fn shoot(target: &mut Bud, environment: &mut Environment, rng: &mut Generator, count: usize) {
    add_new_shoots(
        target,
        environment,
        rng,
        Vec3::up(),
        fx(-0.785398163),
        count,
        fx(0.5),
        v(1.0, 1.0, 1.0),
        fx(0.1),
        fx(0.5),
        fx(0.3),
        fx(0.087266462),
        fx(1.221730476),
    );
}

#[test]
fn the_highest_vigor_is_that_of_the_strongest_dormant_bud() {
    let root = two_nodes();
    assert_eq!(get_highest_tree_vigor(&records(&[9.0, 8.0, 2.0, 3.5]), &root), fx(3.5));
    assert_eq!(get_highest_tree_vigor(&records(&[9.0, 8.0, -2.0, -3.5]), &root), fx(0.0));
    assert_eq!(get_highest_tree_vigor(&records(&[1.5, 8.0]), &seedling()), fx(1.5));
}

#[test]
fn the_tropism_vector_keeps_the_heading_and_bends_down() {
    let angle = fx(-0.785398163);
    assert_eq!(move_tropism_vector_to_growth_plane(angle, Vec3::up()), Vec3::down());
    let bent = move_tropism_vector_to_growth_plane(angle, v(1.0, 0.0, 0.0));
    assert!((bent.x.raw - 707_106_781).abs() <= 10);
    assert!((bent.y.raw + 707_106_781).abs() <= 10);
    assert_eq!(bent.z.raw, 0);
    let level = move_tropism_vector_to_growth_plane(Fixed::zero(), v(0.0, 0.6, 0.8));
    assert_eq!(level, v(0.0, 0.0, 1.0));
}

#[test]
fn a_direction_in_a_cone_keeps_the_angle_of_the_cone() {
    let mut rng = Generator::new(4);
    let axis = v(1.0, 2.0, -2.0).normalized();
    let angle = fx(1.221730476);
    let mut last = Vec3::zero();
    for _ in 0..20 {
        let drawn = get_random_direction_in_cone(axis, angle, &mut rng);
        assert!((drawn.length().raw - 1_000_000_000).abs() <= 100);
        assert!((drawn.dot(axis).raw - 342_020_143).abs() <= 100);
        assert_ne!(drawn, last);
        last = drawn;
    }
    assert_eq!(rng.position, 20);
    let again = get_random_direction_in_cone(axis, angle, &mut Generator::new(4));
    let first = get_random_direction_in_cone(axis, angle, &mut Generator::new(4));
    assert_eq!(again, first);
}

#[test]
fn a_shoot_is_a_chain_of_new_nodes() {
    let mut target = bud(7, BudFate::Dormant, None);
    let mut environment = empty(10);
    let mut rng = Generator::new(3);
    shoot(&mut target, &mut environment, &mut rng, 3);
    assert_eq!(environment.get_number_of_buds(), 16);
    assert_eq!(environment.points, vec![v(1.0, 1.0, 1.0)]);
    assert_eq!(rng.position, 3);
    assert_eq!(target.id, BudId(7));
    let mut current = &target;
    for step in 0..3 {
        assert_eq!(current.fate, BudFate::Shoot);
        assert_eq!(current.direction, Vec3::up());
        let child = current.branch_node.as_ref().unwrap();
        assert_eq!(child.global_position, v(1.0, 1.5 + 0.5 * step as f64, 1.0));
        assert_eq!(child.main_bud.id, BudId(10 + 2 * step));
        assert_eq!(child.axillary_bud.id, BudId(11 + 2 * step));
        assert_eq!(child.axillary_bud.fate, BudFate::Dormant);
        assert!(child.axillary_bud.branch_node.is_none());
        assert!((child.axillary_bud.direction.y.raw - 342_020_143).abs() <= 100);
        current = &child.main_bud;
    }
    assert_eq!(current.fate, BudFate::Dormant);
    assert!(current.branch_node.is_none());
    assert_eq!(current.direction, Vec3::up());
}

#[test]
fn no_shoot_without_nodes_or_numbers() {
    let mut target = bud(7, BudFate::Dormant, None);
    let mut environment = empty(10);
    let mut rng = Generator::new(3);
    shoot(&mut target, &mut environment, &mut rng, 0);
    assert_eq!(target, bud(7, BudFate::Dormant, None));
    assert_eq!(environment.get_number_of_buds(), 10);
    let mut environment = empty(usize::MAX - 1);
    shoot(&mut target, &mut environment, &mut rng, 2);
    assert_eq!(target, bud(7, BudFate::Dormant, None));
    assert_eq!(environment.get_number_of_buds(), usize::MAX - 1);
    assert_eq!(rng.position, 0);
    let mut environment = empty(usize::MAX - 3);
    shoot(&mut target, &mut environment, &mut rng, 2);
    assert_eq!(environment.get_number_of_buds(), usize::MAX - 1);
    assert_eq!(target.fate, BudFate::Shoot);
    let child = target.branch_node.as_ref().unwrap();
    assert_eq!(child.main_bud.fate, BudFate::Dormant);
}

#[test]
fn a_bud_with_enough_resource_shoots() {
    let mut root = seedling();
    let mut environment = empty(2);
    let mut rng = Generator::new(0);
    fates(&records(&[2.0, 0.0]), &mut environment, &mut root, &mut rng);
    assert_eq!(root.main_bud.fate, BudFate::Shoot);
    assert_eq!(root.axillary_bud, bud(1, BudFate::Dead, None));
    let child = root.main_bud.branch_node.as_ref().unwrap();
    assert_eq!(child.global_position, v(0.0, 2.0, 0.0));
    assert_eq!(child.main_bud, bud(2, BudFate::Dormant, None));
    assert_eq!(child.axillary_bud.id, BudId(3));
    assert_eq!(environment.get_number_of_buds(), 4);
    assert_eq!(rng.position, 1);
}

#[test]
fn the_length_of_a_shoot_follows_the_vigor() {
    let mut root = two_nodes();
    let mut environment = empty(4);
    let mut rng = Generator::new(0);
    let mut info = records(&[6.0, 0.0, 3.0, 1.4]);
    info[0].subtree_size = 1;
    determine_fate_for_each_bud(
        &info,
        &mut environment,
        &mut root,
        &mut rng,
        fx(1.0),
        fx(-0.785398163),
        fx(0.1),
        fx(0.5),
        fx(0.3),
        fx(0.087266462),
        fx(1.221730476),
        fx(0.05),
        fx(1.0),
    );
    let child = root.main_bud.branch_node.as_ref().unwrap();
    let first = child.main_bud.branch_node.as_ref().unwrap();
    assert_eq!(first.global_position, v(0.0, 3.0, 0.0));
    let second = first.main_bud.branch_node.as_ref().unwrap();
    assert_eq!(second.global_position, v(0.0, 4.0, 0.0));
    let third = second.main_bud.branch_node.as_ref().unwrap();
    assert_eq!(third.global_position, v(0.0, 5.0, 0.0));
    assert_eq!(third.main_bud.fate, BudFate::Dormant);
    assert_eq!(child.axillary_bud.fate, BudFate::Shoot);
    let side = child.axillary_bud.branch_node.as_ref().unwrap();
    assert_eq!(side.global_position, v(0.0, 3.4, 0.0));
    assert_eq!(side.main_bud.id, BudId(10));
    assert_eq!(environment.get_number_of_buds(), 12);
    assert_eq!(rng.position, 4);
}

#[test]
fn a_bud_short_of_resource_stays_dormant() {
    let mut root = seedling();
    let mut environment = empty(2);
    let mut rng = Generator::new(0);
    fates(&records(&[0.999999999, 5.0]), &mut environment, &mut root, &mut rng);
    assert_eq!(root, seedling());
    assert_eq!(environment.get_number_of_buds(), 2);
    assert_eq!(rng.position, 0);
}

#[test]
fn a_starved_branch_dies_and_stays_in_place() {
    let mut root = two_nodes();
    let mut environment = empty(4);
    let mut rng = Generator::new(0);
    let mut info = records(&[0.09, 0.0, 5.0, 5.0]);
    info[0].subtree_size = 2;
    fates(&info, &mut environment, &mut root, &mut rng);
    assert_eq!(root.main_bud.fate, BudFate::Dead);
    let child = root.main_bud.branch_node.as_ref().unwrap();
    assert_eq!(child.main_bud, bud(2, BudFate::Dormant, None));
    assert_eq!(child.axillary_bud, bud(3, BudFate::Dormant, None));
    assert_eq!(environment.get_number_of_buds(), 4);
    fates(&records(&[9.0, 9.0, 9.0, 9.0]), &mut environment, &mut root, &mut rng);
    assert_eq!(root.main_bud.fate, BudFate::Dead);
    assert_eq!(root.axillary_bud.fate, BudFate::Dead);
    assert_eq!(environment.get_number_of_buds(), 4);
}

#[test]
fn a_branch_at_the_threshold_lives() {
    let mut root = two_nodes();
    let mut environment = empty(4);
    let mut rng = Generator::new(0);
    let mut info = records(&[0.1, 0.0, 0.5, 0.5]);
    info[0].subtree_size = 2;
    fates(&info, &mut environment, &mut root, &mut rng);
    assert_eq!(root.main_bud.fate, BudFate::Shoot);
    info[0].subtree_size = 0;
    info[0].resource = fx(-1.0);
    fates(&info, &mut environment, &mut root, &mut rng);
    assert_eq!(root.main_bud.fate, BudFate::Shoot);
}

#[test]
fn the_turn_picks_the_direction_on_the_cone() {
    let axis = v(1.0, 0.0, 0.0);
    let angle = fx(0.5);
    let ahead = direction_on_cone(axis, Fixed::zero(), fx(2.0));
    assert!((ahead.x.raw - 1_000_000_000).abs() <= 10);
    assert!(ahead.y.raw.abs() <= 10 && ahead.z.raw.abs() <= 10);
    let up = direction_on_cone(axis, angle, Fixed::zero());
    assert!((up.x.raw - 877_582_562).abs() <= 10);
    assert!((up.y.raw - 479_425_539).abs() <= 10);
    assert!(up.z.raw.abs() <= 10);
    let side = direction_on_cone(axis, angle, fx(1.570796327));
    assert!((side.x.raw - 877_582_562).abs() <= 10);
    assert!(side.y.raw.abs() <= 10);
    assert!((side.z.raw - 479_425_539).abs() <= 10);
    let mut rng = Generator::new(11);
    let turn = Generator::new(11).angle();
    let slanted = v(1.0, 2.0, -2.0).normalized();
    assert_eq!(
        get_random_direction_in_cone(slanted, angle, &mut rng),
        direction_on_cone(slanted, angle, turn)
    );
}

#[test]
fn every_direction_on_a_cone_stands_at_the_angle_of_the_cone() {
    let axes = [
        v(1.0, 0.0, 0.0),
        v(-1.0, 0.0, 0.0),
        v(0.0, 1.0, 0.0),
        v(1.0, 0.001, 0.0).normalized(),
        v(-1.0, 0.0, 0.001).normalized(),
        v(1.0, 2.0, -2.0).normalized(),
        v(-0.3, -0.2, 0.9).normalized(),
    ];
    let angles = [0.0, 0.3, 1.0471975512, 1.5707963268, 2.5, 3.1415926536, -0.7, 4.0];
    for axis in axes {
        for angle in angles {
            let cosine = ((angle as f64).cos() * 1e18) as i128;
            for step in 0..12 {
                let turn = fx(step as f64 * 0.5236);
                let drawn = direction_on_cone(axis, fx(angle), turn);
                let dot = drawn.x.raw as i128 * axis.x.raw as i128
                    + drawn.y.raw as i128 * axis.y.raw as i128
                    + drawn.z.raw as i128 * axis.z.raw as i128;
                assert!((dot - cosine).abs() <= 470_000_000_000);
                let length = drawn.x.raw as i128 * drawn.x.raw as i128
                    + drawn.y.raw as i128 * drawn.y.raw as i128
                    + drawn.z.raw as i128 * drawn.z.raw as i128
                    - 1_000_000_000_000_000_000;
                assert!(-6_000_000_003 <= length && length <= 6_000_000_000);
            }
        }
    }
}

#[test]
fn the_turn_goes_once_around_the_cone() {
    let axis = v(1.0, 2.0, -2.0).normalized();
    let angle = fx(0.6);
    let start = direction_on_cone(axis, angle, Fixed::zero());
    let quarter = direction_on_cone(axis, angle, fx(1.5707963268));
    let half = direction_on_cone(axis, angle, fx(3.1415926536));
    let back = direction_on_cone(axis, angle, fx(6.2831853));
    let sine = 0.6f64.sin();
    let cosine = 0.6f64.cos();
    let dot = |a: Vec3, b: Vec3| -> f64 {
        (a.x.raw as f64 * b.x.raw as f64 + a.y.raw as f64 * b.y.raw as f64 + a.z.raw as f64 * b.z.raw as f64)
            / 1e18
    };
    assert!((dot(start, quarter) - cosine * cosine).abs() <= 1e-6);
    assert!((dot(start, half) - (cosine * cosine - sine * sine)).abs() <= 1e-6);
    assert!((dot(start, back) - 1.0).abs() <= 1e-6);
}

#[test]
fn the_tropism_vector_lies_in_the_growth_plane() {
    let directions = [
        v(1.0, 0.0, 0.0),
        v(0.6, 0.0, -0.8),
        v(0.0, 1.0, 0.0),
        v(1.0, 2.0, -2.0).normalized(),
        v(-0.3, -0.2, 0.9).normalized(),
        v(0.000001, 1.0, 0.000002).normalized(),
    ];
    for direction in directions {
        for angle in [-0.785398163, 0.0, 0.4, 1.2, 2.0] {
            let bent = move_tropism_vector_to_growth_plane(fx(angle), direction);
            let across = bent.z.raw as i128 * direction.x.raw as i128
                - bent.x.raw as i128 * direction.z.raw as i128;
            assert!(across.abs() <= 4_000_000_000);
            let length = bent.x.raw as i128 * bent.x.raw as i128
                + bent.y.raw as i128 * bent.y.raw as i128
                + bent.z.raw as i128 * bent.z.raw as i128
                - 1_000_000_000_000_000_000;
            assert!(-6_000_000_003 <= length && length <= 6_000_000_000);
        }
    }
}
