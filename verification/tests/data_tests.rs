use tree_growth::data::{Health, TreeInfo, TreeKind};
use tree_growth::environment::Environment;
use tree_growth::graph::{
    Bud, BudFate, BudId, BudLocalEnvironment, MetamerNode, TreeNode, TreeStructure,
};
use tree_growth::vector::Vec3;
use tree_growth::growth::SeedStructure;

#[test]
fn health_moves_one_step_and_stops_at_the_ends() {
    let mut health = Health::default();
    assert_eq!(health, Health::Good);
    health.increment();
    assert_eq!(health, Health::Good);
    health.decrement();
    assert_eq!(health, Health::Moderate);
    health.decrement();
    assert_eq!(health, Health::Bad);
    health.decrement();
    assert_eq!(health, Health::Bad);
    health.increment();
    assert_eq!(health, Health::Moderate);
    health.restore();
    assert_eq!(health, Health::Good);
    health.decrement();
    health.decrement();
    health.restore();
    assert_eq!(health, Health::Good);
}

#[test]
fn the_default_tree_is_a_healthy_oak() {
    let info = TreeInfo::default();
    assert_eq!(info.name, "John");
    assert_eq!(info.seed, 0);
    assert_eq!(info.health, Health::Good);
    assert_eq!(info.kind, TreeKind::Oak);
}

#[test]
fn the_configuration_takes_the_seed_and_the_constants() {
    let mut info = TreeInfo::default();
    info.seed = 77;
    info.kind = TreeKind::Birch;
    let args = SeedStructure::from(info);
    assert_eq!(args.seed, 77);
    assert_eq!(args.apical_dominance.raw, 500_000_000);
    assert_eq!(args.branch_self_pruning.raw, 50_000_000);
    assert_eq!(args.tropism_angle.raw, -785_398_163);
    assert_eq!(args.bud_perception_angle.raw, 785_398_163);
    assert_eq!(args.lateral_branching_angle.raw, 1_221_730_476);
    assert_eq!(args.main_branching_angle.raw, 87_266_462);
    assert_eq!(args.base_branch_width.raw, 100);
    assert_eq!(args.trunk_length.raw, 300_000_000);
    assert_eq!(args.full_light_exposure.raw, 4_000_000_000);
    assert_eq!(args.environment_size, 40);
    assert_eq!(args.environment_points_count, 100000);
    assert_eq!(args.iterations_count, 20);
}

#[test]
fn defaults_are_empty() {
    assert_eq!(BudFate::default(), BudFate::Dormant);
    assert_eq!(BudId::default(), BudId(0));
    let bud = Bud::default();
    assert_eq!(bud.fate, BudFate::Dormant);
    assert!(bud.branch_node.is_none());
    assert_eq!(bud.direction, Vec3::zero());
    let node = MetamerNode::default();
    assert_eq!(node.main_bud, Bud::default());
    assert_eq!(node.axillary_bud, Bud::default());
    assert_eq!(node.width.raw, 0);
    assert_eq!(TreeStructure::default().root, TreeNode::default());
    assert!(TreeNode::default().main_branch.is_none());
    let environment = Environment::default();
    assert!(environment.points.is_empty());
    assert_eq!(environment.get_number_of_buds(), 0);
    let record = BudLocalEnvironment::default();
    assert_eq!(record.subtree_size, 0);
    assert_eq!(record.resource.raw, 0);
}
