use floodgate::Mapping;

#[test]
fn state_survives_repeated_lookups() {
    let mut m = Mapping::new(100, 0);
    let w1 = m.get_or_create(7, 3, 50, 0);
    assert_eq!(w1.tokens, 3);
    assert_eq!(m.trigger(7, 3, 50, 1), None);
    // A second lookup within the same cycle sees the persisted decrement.
    let w2 = m.get_or_create(7, 3, 50, 2);
    assert_eq!(w2.tokens, 2);
}

#[test]
fn untouched_key_evicted_after_two_cycles() {
    let mut m = Mapping::new(5, 0);
    m.get_or_create(1, 3, 4, 0);
    assert_eq!(m.trigger(1, 3, 4, 0), None);
    assert!(m.cycle(5));
    assert!(m.cycle(10));
    // Both generations have turned over with no touch in between: the key
    // comes back as a brand-new window at full capacity.
    let w = m.get_or_create(1, 3, 4, 11);
    assert_eq!(w.tokens, 3);
    assert_eq!(w.last_reset, 11);
}

#[test]
fn touched_key_migrates_and_keeps_tokens() {
    let mut m = Mapping::new(5, 0);
    m.get_or_create(1, 3, 4, 0);
    assert_eq!(m.trigger(1, 3, 4, 0), None);
    assert!(m.cycle(5));
    // Touched once between the two cycles: migrated back into the active
    // generation with its token count intact.
    let w = m.get_or_create(1, 3, 4, 6);
    assert_eq!(w.tokens, 2);
    assert!(m.cycle(10));
    let w2 = m.get_or_create(1, 3, 4, 11);
    assert_eq!(w2.tokens, 2);
}

#[test]
fn cycle_too_soon_is_a_noop() {
    let mut m = Mapping::new(10, 0);
    m.get_or_create(4, 2, 8, 0);
    assert_eq!(m.trigger(4, 2, 8, 0), None);
    // Far too early: nothing happens, and the entry stays where it was.
    assert!(!m.cycle(3));
    assert!(!m.cycle(9));
    let w = m.get_or_create(4, 2, 8, 4);
    assert_eq!(w.tokens, 1);
}

#[test]
fn should_cycle_matches_the_guard() {
    let m = Mapping::new(10, 5);
    assert!(!m.should_cycle(5));
    assert!(!m.should_cycle(14));
    assert!(m.should_cycle(15));
    assert!(m.should_cycle(100));
    // A clock regression counts as no elapsed time.
    assert!(!m.should_cycle(0));
}

#[test]
fn keys_are_independent() {
    let mut m = Mapping::new(100, 0);
    assert_eq!(m.trigger(1, 1, 10, 0), None);
    assert_eq!(m.trigger(2, 1, 10, 0), None);
    // Key 1 is exhausted; key 2's exhaustion did not touch it.
    assert_eq!(m.trigger(1, 1, 10, 1), Some(9));
    assert_eq!(m.tokens(2, 1, 10, 1), 0);
    assert_eq!(m.tokens(3, 1, 10, 1), 1);
}

#[test]
fn store_operations_settle_windows() {
    let mut m = Mapping::new(100, 0);
    assert_eq!(m.trigger(9, 2, 10, 0), None);
    assert_eq!(m.next_reset(9, 2, 10, 4), 6);
    assert_eq!(m.retry_after(9, 2, 10, 4), None);
    assert_eq!(m.trigger(9, 2, 10, 4), None);
    assert_eq!(m.retry_after(9, 2, 10, 5), Some(5));
    assert!(!m.can_trigger(9, 2, 10, 5));
    m.reset(9, 2, 10, 5);
    assert!(m.can_trigger(9, 2, 10, 5));
}

#[test]
fn scenario_generational_eviction() {
    let mut m = Mapping::new(5, 0);
    // Create the key at t0: it lands in the active generation.
    let w0 = m.get_or_create(1, 3, 4, 0);
    assert_eq!(w0.tokens, 3);
    assert_eq!(m.trigger(1, 3, 4, 0), None);
    // First cycle: the key is demoted to standby, active is empty.
    assert!(m.cycle(5));
    // A lookup at t6 migrates it back, preserving its token count.
    let w1 = m.get_or_create(1, 3, 4, 6);
    assert_eq!(w1.tokens, 2);
    // Touched at t6, so it survives the next swap too.
    assert!(m.cycle(10));
    // No access between t10 and t15: the generation holding the key is
    // cleared.
    assert!(m.cycle(15));
    // The key comes back as a brand-new window with full tokens.
    let w2 = m.get_or_create(1, 3, 4, 16);
    assert_eq!(w2.tokens, 3);
    assert_eq!(w2.last_reset, 16);
}
