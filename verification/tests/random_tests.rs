use rand::rngs::StdRng;
use rand::seq::SliceRandom;
use rand::{Rng, SeedableRng};
use rand_chacha::ChaCha12Rng;
use tree_growth::fixed::Fixed;
use tree_growth::random::Generator;

fn reference(seed: u64, position: u64) -> ChaCha12Rng {
    let mut rng = ChaCha12Rng::seed_from_u64(seed);
    rng.set_stream(position);
    rng
}

#[test]
fn the_first_draw_is_that_of_the_seeded_standard_generator() {
    for seed in 0..50u64 {
        let mut standard = StdRng::seed_from_u64(seed);
        let drawn = Generator::new(seed).between(Fixed::from_raw(-40), Fixed::from_raw(1 << 40));
        assert_eq!(drawn.raw, standard.gen_range(-40i64..=1 << 40));
        let candidates = vec![3usize, 5, 8, 13, 21];
        let mut standard = StdRng::seed_from_u64(seed);
        let picked = Generator::new(seed).pick_one(&candidates);
        assert_eq!(picked, candidates.choose(&mut standard).copied());
    }
}

#[test]
fn every_draw_is_made_from_a_stream_of_its_own() {
    let mut generator = Generator::new(7);
    let low = Fixed::from_raw(-1_000);
    let high = Fixed::from_raw(5_000);
    let candidates = vec![10usize, 20, 30];
    for step in 0..300u64 {
        if step % 2 == 0 {
            let drawn = generator.between(low, high);
            assert_eq!(drawn.raw, reference(7, step).gen_range(-1_000i64..=5_000));
        } else {
            let picked = generator.pick_one(&candidates);
            assert_eq!(picked, candidates.choose(&mut reference(7, step)).copied());
        }
        assert_eq!(generator.position, step + 1);
    }
}

#[test]
fn equal_seeds_give_equal_draws() {
    let least = Fixed::from_raw(i64::MIN);
    let most = Fixed::from_raw(i64::MAX);
    let mut first = Generator::new(42);
    let mut second = Generator::new(42);
    let mut other = Generator::new(43);
    let a = first.between(least, most);
    assert_eq!(a, second.between(least, most));
    assert_ne!(a, other.between(least, most));
    assert_ne!(a, first.between(least, most));
    assert_eq!(first, Generator { seed: 42, position: 2 });
}

#[test]
fn one_of_the_candidates_is_drawn() {
    let candidates = vec![7usize, 11, 13];
    let mut generator = Generator::new(5);
    let mut counts = [0usize; 3];
    for step in 0..3000u64 {
        let mut copy = generator;
        let drawn = generator.pick_one(&candidates).unwrap();
        assert_eq!(copy.pick_one(&candidates), Some(drawn));
        let place = candidates.iter().position(|candidate| *candidate == drawn).unwrap();
        counts[place] += 1;
        assert_eq!(generator.position, step + 1);
    }
    for count in counts {
        assert!(count > 800 && count < 1200);
    }
    assert_eq!(generator.pick_one(&vec![]), None);
    assert_eq!(generator.position, 3001);
    assert_eq!(generator.pick_one(&vec![42]), Some(42));
}

#[test]
fn draws_stay_in_their_ranges() {
    let mut generator = Generator::new(99);
    let low = Fixed::from_raw(-1_000);
    let high = Fixed::from_raw(5_000);
    let mut seen_low = false;
    let mut seen_high = false;
    for _ in 0..2000 {
        let drawn = generator.between(low, high);
        assert!(low.raw <= drawn.raw && drawn.raw <= high.raw);
        seen_low |= drawn.raw < 0;
        seen_high |= drawn.raw > 4_000;
    }
    assert!(seen_low && seen_high);
    assert_eq!(generator.between(high, low), high);
    assert_eq!(generator.position, 2001);
    assert_eq!(generator.between(high, high), high);
    let mut turning = Generator::new(5);
    for _ in 0..100 {
        let angle = turning.angle();
        assert!(angle.raw >= 0 && angle.raw < 6_283_185_307);
    }
}

#[test]
fn after_the_last_position_comes_the_first() {
    let least = Fixed::from_raw(i64::MIN);
    let most = Fixed::from_raw(i64::MAX);
    let mut last = Generator { seed: 3, position: u64::MAX };
    let drawn = last.between(least, most);
    assert_eq!(last.position, 0);
    assert_eq!(last.between(least, most), Generator::new(3).between(least, most));
    assert_eq!(Generator { seed: 3, position: u64::MAX }.between(least, most), drawn);
}
