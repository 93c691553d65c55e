use tree_growth::environment::Environment;
use tree_growth::fixed::{Fixed, MAX_RAW};
use tree_growth::graph::{Bud, BudFate, BudId, BudLocalEnvironment, MetamerNode};
use tree_growth::math::HALF_PI_RAW;
use tree_growth::perception::{
    calculate_optimal_growth_direction, find_candidates_for_environment_point,
    give_point_to_candidate, set_default_optimal_growth_direction, Candidate,
};
use tree_growth::random::Generator;
use tree_growth::vector::Vec3;

fn fx(value: f64) -> Fixed {
    Fixed::from_raw((value * 1e9).round() as i64)
}

fn v(x: f64, y: f64, z: f64) -> Vec3 {
    Vec3::new(fx(x), fx(y), fx(z))
}

fn bud(id: usize, fate: BudFate, direction: Vec3, child: Option<MetamerNode>) -> Bud {
    Bud { direction, id: BudId(id), branch_node: child.map(Box::new), fate }
}

fn node(position: Vec3, main_bud: Bud, axillary_bud: Bud) -> MetamerNode {
    MetamerNode { global_position: position, width: Fixed::zero(), main_bud, axillary_bud }
}

fn quarter() -> Fixed {
    Fixed::from_raw(HALF_PI_RAW / 2)
}

/// A root that has shot a node two units up, with two dormant buds that both
/// look up, and a dead bud that has kept its branch.
fn forked() -> MetamerNode {
    let lost = node(
        v(1.0, 0.0, 0.0),
        bud(4, BudFate::Dormant, Vec3::up(), None),
        bud(5, BudFate::Dormant, Vec3::up(), None),
    );
    let child = node(
        v(0.0, 2.0, 0.0),
        bud(2, BudFate::Dormant, Vec3::up(), None),
        bud(3, BudFate::Dormant, v(0.0, 1.0, 0.0), None),
    );
    node(
        Vec3::zero(),
        bud(0, BudFate::Shoot, Vec3::up(), Some(child)),
        bud(1, BudFate::Dead, v(1.0, 0.0, 0.0), Some(lost)),
    )
}

fn search(root: &MetamerNode, point: Vec3, trunk: f64) -> (Vec<BudId>, Fixed) {
    let mut found: Vec<Candidate> = Vec::new();
    let mut nearest = Fixed::from_raw(MAX_RAW);
    find_candidates_for_environment_point(
        root,
        &mut found,
        &mut nearest,
        &point,
        quarter(),
        fx(5.0),
        fx(trunk),
    );
    (found.iter().map(|candidate| candidate.id).collect(), nearest)
}

#[test]
fn a_lone_bud_is_the_only_candidate() {
    let root = node(
        Vec3::zero(),
        bud(0, BudFate::Dormant, Vec3::up(), None),
        bud(1, BudFate::Dead, Vec3::zero(), None),
    );
    assert_eq!(search(&root, v(0.0, 1.0, 0.0), 0.3), (vec![BudId(0)], fx(1.0)));
    assert_eq!(search(&root, v(0.0, 1.6, 0.0), 0.3).0, vec![]);
    assert_eq!(search(&root, v(0.0, 1.6, 0.0), 0.4).0, vec![BudId(0)]);
    assert_eq!(search(&root, v(0.0, -1.0, 0.0), 0.3).0, vec![]);
}

#[test]
fn buds_at_the_same_distance_are_all_candidates() {
    let root = forked();
    let (found, nearest) = search(&root, v(0.0, 3.0, 0.0), 0.3);
    assert_eq!(found, vec![BudId(2), BudId(3)]);
    assert_eq!(nearest, fx(1.0));
    assert_eq!(search(&root, v(1.0, 1.0, 0.0), 0.3).0, vec![]);
}

#[test]
fn a_nearer_bud_replaces_the_candidates() {
    let upper = node(
        v(0.0, 4.0, 0.0),
        bud(4, BudFate::Dormant, Vec3::up(), None),
        bud(5, BudFate::Dead, Vec3::up(), None),
    );
    let child = node(
        v(0.0, 2.0, 0.0),
        bud(2, BudFate::Shoot, Vec3::up(), Some(upper)),
        bud(3, BudFate::Dormant, Vec3::up(), None),
    );
    let root = node(
        Vec3::zero(),
        bud(0, BudFate::Shoot, Vec3::up(), Some(child)),
        bud(1, BudFate::Dead, Vec3::zero(), None),
    );
    let (found, nearest) = search(&root, v(0.0, 5.0, 0.0), 0.3);
    assert_eq!(found, vec![BudId(4)]);
    assert_eq!(nearest, fx(1.0));
    let (found, nearest) = search(&root, v(0.0, 2.5, 0.0), 0.3);
    assert_eq!(found, vec![BudId(3)]);
    assert_eq!(nearest, fx(0.5));
    let far = Candidate { id: BudId(9), position: v(7.0, 7.0, 7.0) };
    let mut kept = vec![far];
    let mut nearest = fx(0.25);
    find_candidates_for_environment_point(
        &root,
        &mut kept,
        &mut nearest,
        &v(0.0, 2.5, 0.0),
        quarter(),
        fx(5.0),
        fx(0.3),
    );
    assert_eq!(kept, vec![far]);
    assert_eq!(nearest, fx(0.25));
    let mut found = Vec::new();
    let mut nearest = fx(9.0);
    find_candidates_for_environment_point(
        &root,
        &mut found,
        &mut nearest,
        &v(0.0, 5.0, 0.0),
        quarter(),
        fx(5.0),
        fx(0.3),
    );
    assert_eq!(found, vec![Candidate { id: BudId(4), position: v(0.0, 4.0, 0.0) }]);
}

#[test]
fn live_buds_start_from_their_own_direction() {
    let root = forked();
    let mut info = vec![BudLocalEnvironment::default(); 6];
    set_default_optimal_growth_direction(&mut info, &root);
    assert_eq!(info[0].optimal_growth_direction, Vec3::up());
    assert_eq!(info[1].optimal_growth_direction, Vec3::zero());
    assert_eq!(info[2].optimal_growth_direction, Vec3::up());
    assert_eq!(info[3].optimal_growth_direction, Vec3::up());
    assert_eq!(info[4].optimal_growth_direction, Vec3::zero());
    assert_eq!(info[0].resource, Fixed::zero());
}

#[test]
fn a_bud_grows_toward_the_sum_of_its_points() {
    let root = node(
        Vec3::zero(),
        bud(0, BudFate::Dormant, Vec3::up(), None),
        bud(1, BudFate::Dead, Vec3::zero(), None),
    );
    let environment = Environment {
        points: vec![v(0.3, 1.0, 0.0), v(0.0, 1.0, 0.4), v(5.0, 5.0, 5.0)],
        bud_id_counter: BudId(2),
    };
    let mut info = vec![BudLocalEnvironment::default(); 2];
    let mut rng = Generator::new(1);
    calculate_optimal_growth_direction(
        &mut info,
        &environment,
        &root,
        &mut rng,
        quarter(),
        fx(5.0),
        fx(0.3),
    );
    assert_eq!(info[0].optimal_growth_direction, v(0.3, 2.0, 0.4).normalized());
    assert_eq!(info[1].optimal_growth_direction, Vec3::zero());
    assert_eq!(rng.position, 2);
}

#[test]
fn a_draw_breaks_the_tie_between_candidates() {
    let root = forked();
    let point = v(0.1, 3.0, 0.0);
    let environment = Environment { points: vec![point], bud_id_counter: BudId(6) };
    let mut info = vec![BudLocalEnvironment::default(); 6];
    let mut rng = Generator::new(21);
    let picked = Generator::new(21).pick_one(&vec![2, 3]).unwrap();
    let other = 5 - picked;
    calculate_optimal_growth_direction(
        &mut info,
        &environment,
        &root,
        &mut rng,
        quarter(),
        fx(5.0),
        fx(0.3),
    );
    assert_eq!(rng.position, 1);
    assert_eq!(info[picked].optimal_growth_direction, v(0.1, 1.0, 0.0).normalized());
    assert_eq!(info[other].optimal_growth_direction, Vec3::up());
    assert_eq!(info[0].optimal_growth_direction, Vec3::up());
}

#[test]
fn ties_go_to_either_candidate() {
    let root = forked();
    let point = v(0.1, 3.0, 0.0);
    let environment = Environment { points: vec![point], bud_id_counter: BudId(6) };
    let mut second = 0;
    let mut third = 0;
    for seed in 0..200 {
        let mut info = vec![BudLocalEnvironment::default(); 6];
        let mut rng = Generator::new(seed);
        calculate_optimal_growth_direction(
            &mut info,
            &environment,
            &root,
            &mut rng,
            quarter(),
            fx(5.0),
            fx(0.3),
        );
        if info[2].optimal_growth_direction != Vec3::up() {
            second += 1;
        }
        if info[3].optimal_growth_direction != Vec3::up() {
            third += 1;
        }
    }
    assert_eq!(second + third, 200);
    assert!(second > 60 && third > 60);
}

#[test]
fn a_bud_grows_toward_its_points_as_seen_from_its_node() {
    let root = MetamerNode {
        global_position: v(3.0, 0.0, 0.0),
        width: Fixed::zero(),
        main_bud: bud(0, BudFate::Dormant, Vec3::up(), None),
        axillary_bud: bud(1, BudFate::Dead, Vec3::zero(), None),
    };
    let environment = Environment { points: vec![v(3.0, 4.0, 0.0)], bud_id_counter: BudId(2) };
    let mut info = vec![BudLocalEnvironment::default(); 2];
    let mut rng = Generator::new(1);
    calculate_optimal_growth_direction(
        &mut info,
        &environment,
        &root,
        &mut rng,
        quarter(),
        fx(5.0),
        fx(1.0),
    );
    assert_eq!(info[0].optimal_growth_direction, Vec3::up());
    let environment = Environment {
        points: vec![v(3.0, 4.0, 0.0), v(4.0, 2.0, 0.0), v(3.0, 2.0, 1.0)],
        bud_id_counter: BudId(2),
    };
    let mut info = vec![BudLocalEnvironment::default(); 2];
    calculate_optimal_growth_direction(
        &mut info,
        &environment,
        &root,
        &mut rng,
        quarter(),
        fx(5.0),
        fx(1.0),
    );
    assert_eq!(info[0].optimal_growth_direction, v(1.0, 8.0, 1.0).normalized());
}

#[test]
fn without_points_nothing_is_drawn() {
    let root = forked();
    let environment = Environment { points: vec![], bud_id_counter: BudId(6) };
    let mut info = vec![BudLocalEnvironment::default(); 6];
    let mut rng = Generator::new(21);
    calculate_optimal_growth_direction(
        &mut info,
        &environment,
        &root,
        &mut rng,
        quarter(),
        fx(5.0),
        fx(0.3),
    );
    assert_eq!(rng, Generator::new(21));
    assert_eq!(info[3].optimal_growth_direction, Vec3::up());
}

#[test]
fn a_point_goes_to_the_candidate_that_was_picked() {
    let found = vec![
        Candidate { id: BudId(2), position: v(0.0, 2.0, 0.0) },
        Candidate { id: BudId(3), position: v(1.0, 2.0, 0.0) },
    ];
    let point = v(0.5, 3.0, 0.25);
    let mut sums = vec![Vec3::zero(); 4];
    let mut seen = vec![false; 4];
    give_point_to_candidate(&mut sums, &mut seen, &point, &found, Some(3));
    assert_eq!(sums, vec![Vec3::zero(), Vec3::zero(), Vec3::zero(), v(-0.5, 1.0, 0.25)]);
    assert_eq!(seen, vec![false, false, false, true]);
    give_point_to_candidate(&mut sums, &mut seen, &point, &found, Some(3));
    give_point_to_candidate(&mut sums, &mut seen, &v(0.0, 2.5, 0.0), &found, Some(2));
    assert_eq!(sums, vec![Vec3::zero(), Vec3::zero(), v(0.0, 0.5, 0.0), v(-1.0, 2.0, 0.5)]);
    assert_eq!(seen, vec![false, false, true, true]);
}

#[test]
fn a_point_that_no_candidate_takes_changes_nothing() {
    let found = vec![Candidate { id: BudId(2), position: v(0.0, 2.0, 0.0) }];
    let point = v(0.5, 3.0, 0.25);
    let mut sums = vec![v(1.0, 1.0, 1.0); 3];
    let mut seen = vec![false, true, false];
    give_point_to_candidate(&mut sums, &mut seen, &point, &found, None);
    give_point_to_candidate(&mut sums, &mut seen, &point, &found, Some(1));
    give_point_to_candidate(&mut sums, &mut seen, &point, &Vec::new(), Some(2));
    assert_eq!(sums, vec![v(1.0, 1.0, 1.0); 3]);
    assert_eq!(seen, vec![false, true, false]);
    let far = vec![Candidate { id: BudId(7), position: Vec3::zero() }];
    give_point_to_candidate(&mut sums, &mut seen, &point, &far, Some(7));
    assert_eq!(sums, vec![v(1.0, 1.0, 1.0); 3]);
    let mut short = vec![false; 2];
    give_point_to_candidate(&mut sums, &mut short, &point, &found, Some(2));
    assert_eq!(sums, vec![v(1.0, 1.0, 1.0); 3]);
    assert_eq!(short, vec![false, false]);
}
