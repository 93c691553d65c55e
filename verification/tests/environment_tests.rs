use tree_growth::environment::{
    generate_environment, is_in_occupancy_zone, is_in_perception_volume, Environment,
};
use tree_growth::fixed::Fixed;
use tree_growth::graph::{Bud, BudFate, BudId, MetamerNode};
use tree_growth::math::HALF_PI_RAW;
use tree_growth::random::Generator;
use tree_growth::vector::Vec3;

fn fx(value: f64) -> Fixed {
    Fixed::from_raw((value * 1e9).round() as i64)
}

fn v(x: f64, y: f64, z: f64) -> Vec3 {
    Vec3::new(fx(x), fx(y), fx(z))
}

fn bud(id: usize, fate: BudFate, direction: Vec3, child: Option<MetamerNode>) -> Bud {
    Bud { direction, id: BudId(id), branch_node: child.map(Box::new), fate }
}

fn node(position: Vec3, main_bud: Bud, axillary_bud: Bud) -> MetamerNode {
    MetamerNode { global_position: position, width: Fixed::zero(), main_bud, axillary_bud }
}

fn seedling() -> MetamerNode {
    node(
        Vec3::zero(),
        bud(0, BudFate::Dormant, Vec3::up(), None),
        bud(1, BudFate::Dead, Vec3::zero(), None),
    )
}

#[test]
fn points_are_scattered_in_the_box_above_the_ground() {
    let environment = generate_environment(5, 40, 200);
    assert_eq!(environment.points.len(), 200);
    assert_eq!(environment.bud_id_counter, BudId(0));
    assert_eq!(environment.get_number_of_buds(), 0);
    for point in &environment.points {
        assert!(point.x.raw >= -40_000_000_000 && point.x.raw <= 40_000_000_000);
        assert!(point.y.raw >= 0 && point.y.raw <= 40_000_000_000);
        assert!(point.z.raw >= -40_000_000_000 && point.z.raw <= 40_000_000_000);
    }
    assert!(environment.points.iter().any(|point| point.x.raw < 0));
    assert!(environment.points.iter().any(|point| point.x.raw > 0));
    assert!(environment.points.iter().any(|point| point.y.raw > 20_000_000_000));
}

#[test]
fn points_are_the_draws_of_the_seed() {
    let environment = generate_environment(9, 3, 2);
    let mut generator = Generator::new(9);
    let reach = fx(3.0);
    for point in &environment.points {
        assert_eq!(point.x, generator.between(reach.negated(), reach));
        assert_eq!(point.y, generator.between(Fixed::zero(), reach));
        assert_eq!(point.z, generator.between(reach.negated(), reach));
    }
    assert_eq!(generator.position, 6);
}

#[test]
fn cleared_points_are_a_part_of_what_was_there() {
    let root = seedling();
    let mut environment = generate_environment(4, 1, 500);
    environment.points.push(Vec3::zero());
    environment.points.insert(17, Vec3::zero());
    let before = environment.points.clone();
    environment.clear_occupancy_zones(&root, fx(2.0));
    assert_eq!(environment.points.len(), before.len() - 2);
    let kept: Vec<Vec3> = before.into_iter().filter(|point| *point != Vec3::zero()).collect();
    assert_eq!(environment.points, kept);
}

#[test]
fn scattering_depends_on_the_seed_alone() {
    assert_eq!(generate_environment(1, 40, 50), generate_environment(1, 40, 50));
    assert_ne!(generate_environment(1, 40, 50), generate_environment(2, 40, 50));
    assert_eq!(generate_environment(1, 40, 0).points.len(), 0);
    let flat = generate_environment(1, 0, 3);
    assert_eq!(flat.points, vec![Vec3::zero(), Vec3::zero(), Vec3::zero()]);
}

#[test]
fn bud_numbers_count_up_from_zero() {
    let mut environment = generate_environment(0, 1, 4);
    assert_eq!(environment.get_next_bud_id(), BudId(0));
    assert_eq!(environment.get_next_bud_id(), BudId(1));
    assert_eq!(environment.get_next_bud_id(), BudId(2));
    assert_eq!(environment.get_number_of_buds(), 3);
    assert_eq!(environment.points.len(), 4);
}

#[test]
fn the_zone_of_a_root_without_length_is_its_own_place() {
    let root = seedling();
    let mut environment = Environment {
        points: vec![Vec3::zero(), v(0.0, 1.0, 0.0), Vec3::zero(), v(0.0, 0.0, 0.000000001)],
        bud_id_counter: BudId(2),
    };
    environment.clear_occupancy_zones(&root, fx(2.0));
    assert_eq!(environment.points, vec![v(0.0, 1.0, 0.0), v(0.0, 0.0, 0.000000001)]);
    assert_eq!(environment.bud_id_counter, BudId(2));
}

#[test]
fn the_zone_reaches_around_every_node_that_has_shot() {
    let child = node(
        v(0.0, 2.0, 0.0),
        bud(2, BudFate::Dormant, Vec3::up(), None),
        bud(3, BudFate::Dormant, Vec3::up(), None),
    );
    let root = node(
        Vec3::zero(),
        bud(0, BudFate::Shoot, Vec3::up(), Some(child)),
        bud(1, BudFate::Dead, Vec3::zero(), None),
    );
    assert!(is_in_occupancy_zone(&v(0.0, 2.0, 0.0), &root, fx(2.0), Fixed::zero()));
    assert!(is_in_occupancy_zone(&v(0.0, 5.0, 0.0), &root, fx(2.0), Fixed::zero()));
    assert!(is_in_occupancy_zone(&v(0.0, 6.0, 0.0), &root, fx(2.0), Fixed::zero()));
    assert!(!is_in_occupancy_zone(&v(0.0, 6.1, 0.0), &root, fx(2.0), Fixed::zero()));
    assert!(is_in_occupancy_zone(&v(0.3, 0.0, 0.0), &seedling(), fx(2.0), fx(0.15)));
    assert!(!is_in_occupancy_zone(&v(0.31, 0.0, 0.0), &seedling(), fx(2.0), fx(0.15)));
    let mut environment = Environment {
        points: vec![v(0.0, 5.0, 0.0), v(0.0, 7.0, 0.0), v(4.0, 2.0, 0.0), v(4.1, 2.0, 0.0)],
        bud_id_counter: BudId(4),
    };
    environment.clear_occupancy_zones(&root, fx(2.0));
    assert_eq!(environment.points, vec![v(0.0, 7.0, 0.0), v(4.1, 2.0, 0.0)]);
}

#[test]
fn the_zone_stops_at_buds_that_are_dead_or_dormant() {
    let child = node(
        v(0.0, 2.0, 0.0),
        bud(2, BudFate::Dormant, Vec3::up(), None),
        bud(3, BudFate::Dormant, Vec3::up(), None),
    );
    let root = node(
        Vec3::zero(),
        bud(0, BudFate::Dead, Vec3::up(), Some(child)),
        bud(1, BudFate::Dead, Vec3::zero(), None),
    );
    assert!(!is_in_occupancy_zone(&v(0.0, 2.0, 0.0), &root, fx(2.0), Fixed::zero()));
    assert!(is_in_occupancy_zone(&Vec3::zero(), &root, fx(2.0), Fixed::zero()));
}

#[test]
fn a_bud_perceives_what_is_near_and_ahead() {
    let quarter = Fixed::from_raw(HALF_PI_RAW / 2);
    let origin = Vec3::zero();
    let up = Vec3::up();
    assert!(is_in_perception_volume(&v(0.0, 1.0, 0.0), &origin, &up, quarter, fx(1.5)));
    assert!(is_in_perception_volume(&v(0.5, 1.0, 0.0), &origin, &up, quarter, fx(1.5)));
    assert!(!is_in_perception_volume(&v(0.0, 1.0, 0.0), &origin, &up, quarter, fx(0.5)));
    assert!(!is_in_perception_volume(&v(1.0, 0.5, 0.0), &origin, &up, quarter, fx(1.5)));
    assert!(!is_in_perception_volume(&v(0.0, -1.0, 0.0), &origin, &up, quarter, fx(1.5)));
    assert!(!is_in_perception_volume(&origin, &origin, &up, quarter, fx(1.5)));
    assert!(is_in_perception_volume(&v(1.0, 3.0, 1.0), &v(1.0, 2.0, 1.0), &up, quarter, fx(1.0)));
}
