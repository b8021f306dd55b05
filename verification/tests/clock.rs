use timesimulation::SimClock;

#[test]
fn clock_ticks_and_steps() {
    let mut clock = SimClock::default();
    clock.tick();
    assert_eq!(clock.now(), 1);

    clock.step(4);
    assert_eq!(clock.now(), 5);
}

#[test]
fn clock_advances_only_forward() {
    let mut clock = SimClock::new(10);
    clock.advance_to(5);
    assert_eq!(clock.now(), 10);

    clock.advance_to(12);
    assert_eq!(clock.now(), 12);
}

#[test]
fn clock_knows_which_steps_fit() {
    let clock = SimClock::new(u64::MAX - 2);
    assert!(clock.can_step(2));
    assert!(!clock.can_step(3));

    let mut edge = clock;
    edge.step(2);
    assert_eq!(edge.now(), u64::MAX);
    edge.step(0);
    assert_eq!(edge.now(), u64::MAX);
    assert!(edge.can_step(0));
    assert!(!edge.can_step(1));
}
