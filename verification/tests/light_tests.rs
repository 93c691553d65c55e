use tree_growth::fixed::Fixed;
use tree_growth::graph::{Bud, BudFate, BudId, BudLocalEnvironment, MetamerNode};
use tree_growth::light::{
    assign_default_exposure, calculate_light_exposure, calculate_shadow_exposure,
    calculate_shadow_exposure_for_one_node, push_light_to_the_root,
};
use tree_growth::math::HALF_PI_RAW;
use tree_growth::vector::Vec3;

fn fx(value: f64) -> Fixed {
    Fixed::from_raw((value * 1e9).round() as i64)
}

fn v(x: f64, y: f64, z: f64) -> Vec3 {
    Vec3::new(fx(x), fx(y), fx(z))
}

fn bud(id: usize, fate: BudFate, child: Option<MetamerNode>) -> Bud {
    Bud { direction: Vec3::up(), id: BudId(id), branch_node: child.map(Box::new), fate }
}

fn node(position: Vec3, main_bud: Bud, axillary_bud: Bud) -> MetamerNode {
    MetamerNode { global_position: position, width: Fixed::zero(), main_bud, axillary_bud }
}

fn quarter() -> Fixed {
    Fixed::from_raw(HALF_PI_RAW / 2)
}

fn two_nodes() -> MetamerNode {
    let child = node(v(0.0, 2.0, 0.0), bud(2, BudFate::Dormant, None), bud(3, BudFate::Dormant, None));
    node(Vec3::zero(), bud(0, BudFate::Shoot, Some(child)), bud(1, BudFate::Dead, None))
}

fn lights(info: &Vec<BudLocalEnvironment>) -> Vec<Fixed> {
    info.iter().map(|entry| entry.light_exposure).collect()
}

#[test]
fn live_buds_start_from_full_light() {
    let root = two_nodes();
    let mut info = vec![BudLocalEnvironment::default(); 4];
    assign_default_exposure(&mut info, &root, fx(4.0));
    assert_eq!(lights(&info), vec![fx(4.0), fx(0.0), fx(4.0), fx(4.0)]);
    assert_eq!(info[0].resource, Fixed::zero());
    assert_eq!(info[1], BudLocalEnvironment::default());
}

#[test]
fn a_node_shades_what_is_below_it_and_not_its_own_place() {
    let root = two_nodes();
    let child = root.main_bud.branch_node.as_ref().unwrap();
    let mut info = vec![BudLocalEnvironment::default(); 4];
    assign_default_exposure(&mut info, &root, fx(4.0));
    calculate_shadow_exposure_for_one_node(&mut info, child, &root, quarter(), fx(1.0), fx(1.0));
    assert_eq!(lights(&info), vec![fx(3.0), fx(0.0), fx(4.0), fx(4.0)]);
    calculate_shadow_exposure_for_one_node(&mut info, &root, &root, quarter(), fx(1.0), fx(1.0));
    assert_eq!(lights(&info), vec![fx(3.0), fx(0.0), fx(4.0), fx(4.0)]);
}

#[test]
fn shade_falls_off_with_the_distance() {
    let root = two_nodes();
    let child = root.main_bud.branch_node.as_ref().unwrap();
    let mut info = vec![BudLocalEnvironment::default(); 4];
    assign_default_exposure(&mut info, &root, fx(4.0));
    calculate_shadow_exposure_for_one_node(&mut info, child, &root, quarter(), fx(1.0), fx(2.0));
    let shaded = lights(&info);
    assert!((shaded[0].raw - 3_750_000_000).abs() <= 1_000);
    assert_eq!(shaded[2], fx(4.0));
    assert_eq!(shaded[3], fx(4.0));
}

#[test]
fn a_base_below_one_shades_more_with_the_distance() {
    let root = two_nodes();
    let child = root.main_bud.branch_node.as_ref().unwrap();
    let mut info = vec![BudLocalEnvironment::default(); 4];
    assign_default_exposure(&mut info, &root, fx(4.0));
    calculate_shadow_exposure_for_one_node(&mut info, child, &root, quarter(), fx(1.0), fx(0.5));
    let shaded = lights(&info);
    assert!(0 <= shaded[0].raw && shaded[0].raw <= 1_000);
    assert_eq!(shaded[2], fx(4.0));
    let mut info = vec![BudLocalEnvironment::default(); 4];
    assign_default_exposure(&mut info, &root, fx(4.0));
    calculate_shadow_exposure_for_one_node(&mut info, child, &root, quarter(), fx(0.5), fx(1.0));
    assert_eq!(lights(&info), vec![fx(3.5), fx(0.0), fx(4.0), fx(4.0)]);
    let mut info = vec![BudLocalEnvironment::default(); 4];
    assign_default_exposure(&mut info, &root, fx(4.0));
    calculate_shadow_exposure_for_one_node(&mut info, child, &root, quarter(), fx(1.0), fx(0.75));
    let shaded = lights(&info);
    assert!((shaded[0].raw - 2_222_222_222).abs() <= 1_000);
}

#[test]
fn light_does_not_go_below_zero() {
    let root = two_nodes();
    let mut info = vec![BudLocalEnvironment::default(); 4];
    assign_default_exposure(&mut info, &root, fx(0.5));
    calculate_shadow_exposure(&mut info, &root, &root, quarter(), fx(1.0), fx(1.0));
    assert_eq!(lights(&info), vec![fx(0.0), fx(0.0), fx(0.5), fx(0.5)]);
}

#[test]
fn a_node_to_the_side_stays_in_the_light() {
    let child = node(v(3.0, 1.0, 0.0), bud(2, BudFate::Dormant, None), bud(3, BudFate::Dead, None));
    let root = node(Vec3::zero(), bud(0, BudFate::Shoot, Some(child)), bud(1, BudFate::Dead, None));
    let mut info = vec![BudLocalEnvironment::default(); 4];
    assign_default_exposure(&mut info, &root, fx(4.0));
    calculate_shadow_exposure(&mut info, &root, &root, quarter(), fx(1.0), fx(1.0));
    assert_eq!(lights(&info), vec![fx(4.0), fx(0.0), fx(4.0), fx(0.0)]);
}

#[test]
fn light_is_summed_up_toward_the_root() {
    let root = two_nodes();
    let mut info = vec![BudLocalEnvironment::default(); 4];
    info[0].light_exposure = fx(9.0);
    info[2].light_exposure = fx(1.25);
    info[3].light_exposure = fx(2.5);
    assert_eq!(push_light_to_the_root(&mut info, &root.main_bud), fx(3.75));
    assert_eq!(lights(&info), vec![fx(3.75), fx(0.0), fx(1.25), fx(2.5)]);
    assert_eq!(push_light_to_the_root(&mut info, &root.axillary_bud), fx(0.0));
}

#[test]
fn the_light_of_a_small_tree() {
    let root = two_nodes();
    let mut info = vec![BudLocalEnvironment::default(); 4];
    calculate_light_exposure(&mut info, &root, fx(4.0), quarter(), fx(1.0), fx(1.0));
    assert_eq!(lights(&info), vec![fx(8.0), fx(0.0), fx(4.0), fx(4.0)]);
    let lone = node(Vec3::zero(), bud(0, BudFate::Dormant, None), bud(1, BudFate::Dead, None));
    let mut info = vec![BudLocalEnvironment::default(); 2];
    calculate_light_exposure(&mut info, &lone, fx(4.0), quarter(), fx(1.0), fx(1.0));
    assert_eq!(lights(&info), vec![fx(4.0), fx(0.0)]);
}

#[test]
fn shadows_never_raise_a_light() {
    let upper = node(v(0.2, 4.0, 0.0), bud(4, BudFate::Dormant, None), bud(5, BudFate::Dormant, None));
    let child = node(v(0.0, 2.0, 0.0), bud(2, BudFate::Shoot, Some(upper)), bud(3, BudFate::Dormant, None));
    let root = node(Vec3::zero(), bud(0, BudFate::Shoot, Some(child)), bud(1, BudFate::Dead, None));
    for base in [0.5, 1.0, 1.5, 3.0] {
        let mut info = vec![BudLocalEnvironment::default(); 6];
        assign_default_exposure(&mut info, &root, fx(4.0));
        let before = lights(&info);
        calculate_shadow_exposure(&mut info, &root, &root, quarter(), fx(0.7), fx(base));
        let after = lights(&info);
        for (dark, bright) in after.iter().zip(before.iter()) {
            assert!(0 <= dark.raw && dark.raw <= bright.raw);
        }
        assert_eq!(after[4], fx(4.0));
        assert_eq!(after[5], fx(4.0));
        assert!(after[0].raw < after[2].raw && after[2].raw < after[4].raw);
    }
}
