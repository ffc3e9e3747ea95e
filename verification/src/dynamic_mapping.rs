use vstd::prelude::*;

use crate::jumping_window::JumpingWindow;
use crate::mapping::{Mapping, MappingView};

verus! {

/// A keyed store of [`JumpingWindow`]s where every call may supply its own
/// `capacity` and `period`, bounded by the store's single cycle interval so
/// that eviction never outpaces a still-valid window.
pub struct DynamicMapping {
    /// The underlying two-generation store.
    pub mapping: Mapping,
    /// Minimum interval between cycles. Every window's `period` must stay
    /// at or below it.
    pub cycle_period: u64,
}

impl DynamicMapping {
    /// Well-formedness: the store is well-formed and agrees with the
    /// configured cycle interval.
    pub open spec fn wf(self) -> bool {
        &&& self.mapping.wf()
        &&& self.cycle_period > 0
        &&& self.mapping@.cycle_period == self.cycle_period
    }

    /// The window an operation on `key` at `now` with the given parameters
    /// would act on.
    pub open spec fn spec_window(self, key: u64, capacity: u64, period: u64, now: u64) -> JumpingWindow {
        self.mapping@.lookup(key, capacity, period, now)
    }

    /// Shorthand for the store state after an operation on `key` left `w`
    /// behind.
    pub open spec fn spec_touched(self, key: u64, w: JumpingWindow) -> MappingView {
        self.mapping@.after_touch(key, w)
    }

    /// Create a store that cycles no faster than every `cycle_period` ticks,
    /// anchored relative to `now`. `cycle_period` must be at least as long
    /// as the period of any window the store will hold.
    pub fn new(cycle_period: u64, now: u64) -> (s: DynamicMapping)
        requires
            cycle_period > 0,
        ensures
            s.wf(),
            s.cycle_period == cycle_period,
            s.mapping@.active == crate::mapping::no_entries(),
            s.mapping@.standby == crate::mapping::no_entries(),
            s.mapping@.last_cycle == now,
    {
        DynamicMapping { mapping: Mapping::new(cycle_period, now), cycle_period }
    }

    /// `key`'s remaining token count at `now`.
    pub fn tokens(&mut self, key: u64, capacity: u64, period: u64, now: u64) -> (t: u64)
        requires
            old(self).wf(),
            0 < period <= old(self).cycle_period,
        ensures
            final(self).wf(),
            final(self).cycle_period == old(self).cycle_period,
            t == old(self).spec_window(key, capacity, period, now).spec_tokens(now),
            final(self).mapping@ == old(self).spec_touched(
                key,
                old(self).spec_window(key, capacity, period, now).spec_settle(now),
            ),
    {
        self.mapping.tokens(key, capacity, period, now)
    }

    /// Time until `key`'s current window ends, never negative.
    pub fn next_reset(&mut self, key: u64, capacity: u64, period: u64, now: u64) -> (d: u64)
        requires
            old(self).wf(),
            0 < period <= old(self).cycle_period,
        ensures
            final(self).wf(),
            final(self).cycle_period == old(self).cycle_period,
            d == old(self).spec_window(key, capacity, period, now).spec_next_reset(now),
            final(self).mapping@ == old(self).spec_touched(
                key,
                old(self).spec_window(key, capacity, period, now),
            ),
    {
        self.mapping.next_reset(key, capacity, period, now)
    }

    /// `None` while `key` has triggers left; otherwise the wait until its
    /// window resets.
    pub fn retry_after(&mut self, key: u64, capacity: u64, period: u64, now: u64) -> (r: Option<
        u64,
    >)
        requires
            old(self).wf(),
            0 < period <= old(self).cycle_period,
        ensures
            final(self).wf(),
            final(self).cycle_period == old(self).cycle_period,
            r == ({
                let w = old(self).spec_window(key, capacity, period, now);
                if w.spec_tokens(now) == 0 {
                    Some(w.spec_settle(now).spec_next_reset(now))
                } else {
                    None::<u64>
                }
            }),
            final(self).mapping@ == old(self).spec_touched(
                key,
                old(self).spec_window(key, capacity, period, now).spec_settle(now),
            ),
    {
        self.mapping.retry_after(key, capacity, period, now)
    }

    /// Whether `key` may trigger at `now`.
    pub fn can_trigger(&mut self, key: u64, capacity: u64, period: u64, now: u64) -> (b: bool)
        requires
            old(self).wf(),
            0 < period <= old(self).cycle_period,
        ensures
            final(self).wf(),
            final(self).cycle_period == old(self).cycle_period,
            b == (old(self).spec_window(key, capacity, period, now).spec_tokens(now) != 0),
            final(self).mapping@ == old(self).spec_touched(
                key,
                old(self).spec_window(key, capacity, period, now).spec_settle(now),
            ),
    {
        self.mapping.can_trigger(key, capacity, period, now)
    }

    /// Spend one of `key`'s triggers: `None` and a decrement on success, or
    /// the wait until the window resets when no token is left.
    pub fn trigger(&mut self, key: u64, capacity: u64, period: u64, now: u64) -> (r: Option<u64>)
        requires
            old(self).wf(),
            0 < period <= old(self).cycle_period,
        ensures
            final(self).wf(),
            final(self).cycle_period == old(self).cycle_period,
            r == old(self).spec_window(key, capacity, period, now).spec_trigger_result(now),
            final(self).mapping@ == old(self).spec_touched(
                key,
                old(self).spec_window(key, capacity, period, now).spec_trigger_state(now),
            ),
    {
        self.mapping.trigger(key, capacity, period, now)
    }

    /// Unconditionally refill `key`'s window and reanchor it at `now`.
    pub fn reset(&mut self, key: u64, capacity: u64, period: u64, now: u64)
        requires
            old(self).wf(),
            0 < period <= old(self).cycle_period,
        ensures
            final(self).wf(),
            final(self).cycle_period == old(self).cycle_period,
            final(self).mapping@ == old(self).spec_touched(
                key,
                ({
                    let w = old(self).spec_window(key, capacity, period, now);
                    JumpingWindow { last_reset: now, tokens: w.capacity, ..w }
                }),
            ),
    {
        self.mapping.reset(key, capacity, period, now)
    }

    /// Whether a cycle requested at `now` would fire.
    pub fn should_cycle(&self, now: u64) -> (b: bool)
        ensures
            b == self.mapping@.should_cycle_at(now),
    {
        self.mapping.should_cycle(now)
    }

    /// Evict every key untouched since the previous cycle, unless called
    /// again too soon, in which case nothing changes. Returns whether the
    /// cycle fired.
    pub fn cycle(&mut self, now: u64) -> (cycled: bool)
        requires
            old(self).wf(),
        ensures
            final(self).wf(),
            final(self).cycle_period == old(self).cycle_period,
            cycled == old(self).mapping@.should_cycle_at(now),
            final(self).mapping@ == old(self).mapping@.after_cycle(now),
    {
        self.mapping.cycle(now)
    }
}

} // verus!
