use phantoma::decay::{Decay, DECAY_MAX};

#[test]
fn decay_starts_at_zero() {
    let d = Decay::new();
    assert!(d.is_zero());
    assert_eq!(d.ticks(), 0);
}

#[test]
fn decay_set_max_and_decrease() {
    let mut d = Decay::new();
    d.set_max();
    assert_eq!(d.ticks(), DECAY_MAX);
    assert!(!d.is_zero());
    d.decrease(250_000_000);
    assert_eq!(d.ticks(), 750_000_000);
    d.decrease(5_000_000_000);
    assert!(d.is_zero());
}

#[test]
fn decay_clamps() {
    let mut d = Decay::new();
    d.set_ticks(-5);
    assert_eq!(d.ticks(), 0);
    d.set_ticks(i64::MAX);
    assert_eq!(d.ticks(), DECAY_MAX);
    d.decrease(i64::MIN);
    assert_eq!(d.ticks(), DECAY_MAX);
    d.set_ticks(42);
    assert_eq!(d.ticks(), 42);
}
