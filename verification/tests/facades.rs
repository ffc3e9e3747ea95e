use floodgate::{DynamicMapping, FixedMapping};

#[test]
fn fixed_mapping_rate_limits_per_key() {
    let mut f = FixedMapping::new(2, 10, 0);
    assert_eq!(f.tokens(1, 0), 2);
    assert_eq!(f.trigger(1, 0), None);
    assert_eq!(f.trigger(1, 0), None);
    assert_eq!(f.trigger(1, 0), Some(10));
    // Another key is unaffected.
    assert_eq!(f.trigger(2, 0), None);
    // One period later the first key is fresh again.
    assert_eq!(f.tokens(1, 11), 2);
}

#[test]
fn fixed_mapping_query_operations_agree() {
    let mut f = FixedMapping::new(1, 10, 0);
    assert!(f.can_trigger(5, 0));
    assert_eq!(f.retry_after(5, 0), None);
    assert_eq!(f.trigger(5, 0), None);
    assert!(!f.can_trigger(5, 3));
    assert_eq!(f.retry_after(5, 3), Some(7));
    assert_eq!(f.next_reset(5, 3), 7);
    f.reset(5, 3);
    assert_eq!(f.tokens(5, 3), 1);
    assert_eq!(f.next_reset(5, 4), 9);
}

#[test]
fn fixed_mapping_cycles_on_its_own_period() {
    let mut f = FixedMapping::new(3, 10, 0);
    assert_eq!(f.trigger(8, 0), None);
    assert!(!f.should_cycle(9));
    assert!(!f.cycle(9));
    assert!(f.should_cycle(10));
    assert!(f.cycle(10));
    assert!(f.cycle(20));
    // Two cycles with no touch in between: the key starts over.
    assert_eq!(f.tokens(8, 21), 3);
}

#[test]
fn dynamic_mapping_takes_parameters_per_call() {
    let mut d = DynamicMapping::new(100, 0);
    // Key 1: one trigger per 2 ticks; key 2: five per 30 ticks.
    assert_eq!(d.trigger(1, 1, 2, 0), None);
    assert_eq!(d.trigger(1, 1, 2, 1), Some(1));
    assert_eq!(d.trigger(2, 5, 30, 1), None);
    assert_eq!(d.tokens(2, 5, 30, 1), 4);
    // A window's parameters are fixed at creation: later calls with other
    // values only affect windows created by them.
    assert_eq!(d.tokens(1, 9, 50, 1), 0);
    assert_eq!(d.next_reset(1, 9, 50, 1), 1);
}

#[test]
fn dynamic_mapping_cycles_and_evicts() {
    let mut d = DynamicMapping::new(50, 0);
    assert_eq!(d.trigger(3, 4, 20, 0), None);
    assert_eq!(d.retry_after(3, 4, 20, 0), None);
    assert!(d.can_trigger(3, 4, 20, 0));
    d.reset(3, 4, 20, 5);
    assert_eq!(d.tokens(3, 4, 20, 5), 4);
    assert_eq!(d.trigger(3, 4, 20, 5), None);
    assert!(!d.should_cycle(40));
    assert!(!d.cycle(40));
    assert!(d.cycle(50));
    assert!(d.cycle(100));
    // Untouched across both cycles: the window that comes back is brand new,
    // not the old one carried over.
    let w = d.mapping.get_or_create(3, 4, 20, 101);
    assert_eq!(w.tokens, 4);
    assert_eq!(w.last_reset, 101);
}
