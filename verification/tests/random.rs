use fastrand::Rng;
use genetic_algorithm::scalar::UNIT_STEPS;
use genetic_algorithm::{Fixed, Prng};

#[test]
fn with_seed_keeps_the_seed() {
    assert_eq!(Prng::with_seed(0).seed(), 0);
    assert_eq!(Prng::with_seed(19).seed(), 19);
    assert_eq!(Prng::with_seed(u64::MAX).seed(), u64::MAX);
}

#[test]
fn flip_draws_what_the_generator_draws() {
    let mut rng = Prng::with_seed(41);
    let reference = Rng::with_seed(41);
    for _ in 0..1000 {
        assert_eq!(rng.flip(), reference.bool());
        assert_eq!(rng.seed(), reference.get_seed());
    }
}

#[test]
fn flip_advances_the_state() {
    let mut rng = Prng::with_seed(7);
    let before = rng.seed();
    rng.flip();
    assert_ne!(rng.seed(), before);
}

#[test]
fn flip_gives_both_sides() {
    let mut rng = Prng::with_seed(3);
    let heads = (0..1000).filter(|_| rng.flip()).count();
    assert!(heads > 400);
    assert!(heads < 600);
}

#[test]
fn unit_draws_the_top_bits_of_a_word() {
    let mut rng = Prng::with_seed(19);
    let reference = Rng::with_seed(19);
    for _ in 0..1000 {
        let drawn: Fixed = rng.unit();
        assert_eq!(drawn.steps(), (reference.u32(..) >> 9) as i64);
        assert_eq!(rng.seed(), reference.get_seed());
    }
}

#[test]
fn unit_is_the_generators_unit_float() {
    let mut rng = Prng::with_seed(4);
    let reference = Rng::with_seed(4);
    for _ in 0..1000 {
        let drawn: Fixed = rng.unit();
        assert_eq!(drawn.steps() as f32 / UNIT_STEPS as f32, reference.f32());
    }
}

#[test]
fn unit_stays_in_the_unit_interval() {
    let mut rng = Prng::with_seed(11);
    for _ in 0..1000 {
        let drawn: Fixed = rng.unit();
        assert!(drawn.steps() >= 0);
        assert!(drawn.steps() < UNIT_STEPS as i64);
    }
}

#[test]
fn unit_advances_the_state() {
    let mut rng = Prng::with_seed(7);
    let before = rng.seed();
    let _: Fixed = rng.unit();
    assert_ne!(rng.seed(), before);
}

#[test]
fn a_state_continues_its_sequence() {
    let mut first = Prng::with_seed(19);
    for _ in 0..10 {
        first.flip();
    }
    let mut second = Prng::with_seed(first.seed());
    for _ in 0..100 {
        assert_eq!(first.flip(), second.flip());
        let a: Fixed = first.unit();
        let b: Fixed = second.unit();
        assert_eq!(a, b);
    }
}
