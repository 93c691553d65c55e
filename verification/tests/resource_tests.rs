use tree_growth::fixed::Fixed;
use tree_growth::graph::{Bud, BudFate, BudId, BudLocalEnvironment, MetamerNode};
use tree_growth::resource::{calculate_resource_for_each_bud, calculate_resources};
use tree_growth::vector::Vec3;

fn fx(value: f64) -> Fixed {
    Fixed::from_raw((value * 1e9).round() as i64)
}

fn bud(id: usize, fate: BudFate, child: Option<MetamerNode>) -> Bud {
    Bud { direction: Vec3::up(), id: BudId(id), branch_node: child.map(Box::new), fate }
}

fn node(main_bud: Bud, axillary_bud: Bud) -> MetamerNode {
    MetamerNode { global_position: Vec3::zero(), width: Fixed::zero(), main_bud, axillary_bud }
}

fn two_nodes() -> MetamerNode {
    let child = node(bud(2, BudFate::Dormant, None), bud(3, BudFate::Dormant, None));
    node(bud(0, BudFate::Shoot, Some(child)), bud(1, BudFate::Dead, None))
}

fn lit(lights: &[f64]) -> Vec<BudLocalEnvironment> {
    lights
        .iter()
        .map(|light| {
            let mut entry = BudLocalEnvironment::default();
            entry.light_exposure = fx(*light);
            entry
        })
        .collect()
}

fn shares(info: &Vec<BudLocalEnvironment>) -> Vec<Fixed> {
    info.iter().map(|entry| entry.resource).collect()
}

#[test]
fn the_root_resource_is_shared_down_the_tree() {
    let root = two_nodes();
    let mut info = lit(&[8.0, 0.0, 4.0, 4.0]);
    calculate_resources(&mut info, &root, fx(0.5), fx(1.0), fx(0.5));
    assert_eq!(shares(&info), vec![fx(4.0), fx(0.0), fx(2.0), fx(2.0)]);
}

#[test]
fn the_root_resource_rises_with_the_light_sensitivity() {
    let root = node(bud(0, BudFate::Dormant, None), bud(1, BudFate::Dead, None));
    let mut info = lit(&[4.0, 0.0]);
    calculate_resources(&mut info, &root, fx(0.5), fx(2.0), fx(0.5));
    assert!((info[0].resource.raw - 8_000_000_000).abs() <= 100);
    let mut info = lit(&[4.0, 0.0]);
    calculate_resources(&mut info, &root, fx(0.5), fx(0.5), fx(0.5));
    assert!((info[0].resource.raw - 1_000_000_000).abs() <= 100);
}

#[test]
fn shares_follow_light_and_apical_dominance() {
    let root = node(bud(0, BudFate::Dormant, None), bud(1, BudFate::Dormant, None));
    let mut info = lit(&[3.0, 5.0]);
    calculate_resource_for_each_bud(&mut info, &root, fx(1.0), fx(0.7));
    assert_eq!(shares(&info), vec![Fixed::from_raw(583_333_333), Fixed::from_raw(416_666_667)]);
    let mut info = lit(&[3.0, 5.0]);
    calculate_resource_for_each_bud(&mut info, &root, fx(7.2), fx(0.7));
    assert_eq!(shares(&info), vec![fx(4.2), fx(3.0)]);
}

#[test]
fn the_smallest_resource_is_not_lost() {
    let root = node(bud(0, BudFate::Dormant, None), bud(1, BudFate::Dormant, None));
    let mut info = lit(&[1.0, 1.0]);
    calculate_resource_for_each_bud(&mut info, &root, Fixed::from_raw(1), fx(0.5));
    assert_eq!(shares(&info), vec![Fixed::from_raw(0), Fixed::from_raw(1)]);
    let child = two_nodes();
    let mut info = lit(&[2.0, 0.0, 1.0, 1.0]);
    calculate_resource_for_each_bud(&mut info, &child, Fixed::from_raw(1), fx(0.5));
    assert_eq!(info[0].resource.raw, 1);
    assert_eq!(info[2].resource.raw + info[3].resource.raw, 1);
}

#[test]
fn shares_add_up_to_the_resource() {
    let lower = node(bud(4, BudFate::Dormant, None), bud(5, BudFate::Dormant, None));
    let child = node(bud(2, BudFate::Shoot, Some(lower)), bud(3, BudFate::Dormant, None));
    let root = node(bud(0, BudFate::Shoot, Some(child)), bud(1, BudFate::Dormant, None));
    let mut info = lit(&[2.3, 1.1, 0.7, 1.9, 3.3, 0.2]);
    let resource = fx(5.123456789);
    calculate_resource_for_each_bud(&mut info, &root, resource, fx(0.61));
    assert_eq!(info[0].resource.raw + info[1].resource.raw, resource.raw);
    assert_eq!(info[2].resource.raw + info[3].resource.raw, info[0].resource.raw);
    assert_eq!(info[4].resource.raw + info[5].resource.raw, info[2].resource.raw);
    assert!(info[4].resource.raw > info[5].resource.raw);
    assert!(info[5].resource.raw > 0);
    for entry in &info {
        assert!(entry.resource.raw >= 0 && entry.resource.raw <= resource.raw);
    }
}

#[test]
fn a_dead_bud_receives_nothing_and_counts_without_light() {
    let root = two_nodes();
    let mut info = lit(&[8.0, 6.0, 4.0, 4.0]);
    info[1].resource = fx(9.0);
    calculate_resource_for_each_bud(&mut info, &root, fx(7.0), fx(0.5));
    assert_eq!(info[1].resource, fx(9.0));
    assert_eq!(info[0].resource, fx(7.0));
    assert_eq!(info[2].resource, fx(3.5));
    assert_eq!(info[3].resource, fx(3.5));
    let other = node(bud(0, BudFate::Dead, None), bud(1, BudFate::Dormant, None));
    let mut info = lit(&[8.0, 6.0]);
    calculate_resource_for_each_bud(&mut info, &other, fx(7.0), fx(0.5));
    assert_eq!(shares(&info), vec![fx(0.0), fx(7.0)]);
}

#[test]
fn buds_without_light_have_no_weights_to_share_by() {
    let root = node(bud(0, BudFate::Dormant, None), bud(1, BudFate::Dormant, None));
    let mut info = lit(&[0.0, 0.0]);
    info[0].resource = fx(3.0);
    calculate_resource_for_each_bud(&mut info, &root, fx(2.0), fx(0.5));
    assert_eq!(shares(&info), vec![fx(0.0), fx(2.0)]);
}
