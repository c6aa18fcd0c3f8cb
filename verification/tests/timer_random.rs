use bladefall::random::Random;
use bladefall::timer::Timer;

#[test]
fn timer_new_counts_to_threshold() {
    let mut t = Timer::new(3);
    assert_eq!(t.get(), 0);
    assert_eq!(t.delay(), 3);
    assert!(!t.is_due());
    t.tick();
    t.tick();
    assert!(!t.is_due());
    t.tick();
    assert!(t.is_due());
}

#[test]
fn timer_tick_saturates() {
    let mut t = Timer::new(10).start_at(u8::MAX - 1);
    t.tick();
    assert_eq!(t.get(), u8::MAX);
    t.tick();
    assert_eq!(t.get(), u8::MAX);
}

#[test]
fn timer_step_fires_and_resets() {
    let mut t = Timer::new(2);
    assert!(!t.step());
    assert_eq!(t.get(), 1);
    assert!(t.step());
    assert_eq!(t.get(), 0);
    assert!(!t.step());
}

#[test]
fn timer_infinite_fires_only_at_the_counter_maximum() {
    let mut t = Timer::infinite();
    for i in 0..254 {
        assert!(!t.step());
        assert_eq!(t.get(), i + 1);
    }
    assert!(t.step());
    assert_eq!(t.get(), 0);
}

#[test]
fn timer_set_due_forces_firing() {
    let mut t = Timer::infinite();
    assert!(!t.is_due());
    t.set_due();
    assert!(t.is_due());
    t.reset();
    assert!(!t.is_due());
    assert_eq!(t.get(), 0);
}

#[test]
fn random_seeded_is_deterministic() {
    let mut a = Random::from_seed(42);
    let mut b = Random::from_seed(42);
    for i in 0..16u64 {
        assert_eq!(a.squeeze_word(i), b.squeeze_word(i));
    }
}

#[test]
fn random_mixing_changes_the_state() {
    // were the permutation a no-op, the first word would still be the seed
    let mut r = Random::from_seed(0);
    let first = r.squeeze_word(0);
    assert_ne!(first, 0);

    let mut s = Random::from_seed(1);
    assert_ne!(s.squeeze_word(0), 1);
    // different seeds diverge
    assert_ne!(Random::from_seed(2).squeeze_word(0), Random::from_seed(3).squeeze_word(0));
}

#[test]
fn random_squeeze_returns_word_before_reabsorbing() {
    let mut a = Random::from_seed(9);
    let mut b = Random::from_seed(9);
    let first = a.squeeze_word(100);
    // the output does not depend on the entropy absorbed afterwards
    assert_eq!(first, b.squeeze_word(200));
    // but the following output does
    assert_ne!(a.squeeze_word(0), b.squeeze_word(0));
}

#[test]
fn random_os_entropy_paths_run() {
    let mut r = Random::new();
    let x = r.squeeze();
    let y = r.squeeze();
    // two consecutive squeezes of a reseeded sponge virtually never agree
    assert_ne!(x, y);
}
