use vstd::prelude::*;

use crate::jumping_window::JumpingWindow;
use crate::mapping::{Mapping, MappingView};

verus! {

/// A keyed store of [`JumpingWindow`]s that all share one `capacity` and one
/// `period`, with generational eviction driven by [`FixedMapping::cycle`].
pub struct FixedMapping {
    /// The underlying two-generation store. Its cycle interval equals
    /// `period`, so an idle key outlives its window before being evicted.
    pub mapping: Mapping,
    /// How many triggers every key may use per window.
    pub capacity: u64,
    /// How long every key's window lasts, in ticks. Always positive.
    pub period: u64,
}

impl FixedMapping {
    /// Well-formedness: the store is well-formed and cycles no faster than
    /// one window length.
    pub open spec fn wf(self) -> bool {
        &&& self.mapping.wf()
        &&& self.period > 0
        &&& self.mapping@.cycle_period == self.period
    }

    /// The window an operation on `key` at `now` would act on.
    pub open spec fn spec_window(self, key: u64, now: u64) -> JumpingWindow {
        self.mapping@.lookup(key, self.capacity, self.period, now)
    }

    /// Shorthand for the store state after an operation on `key` left `w`
    /// behind.
    pub open spec fn spec_touched(self, key: u64, w: JumpingWindow) -> MappingView {
        self.mapping@.after_touch(key, w)
    }

    /// Create a store whose windows allow `capacity` triggers per `period`
    /// ticks, anchored relative to `now`.
    pub fn new(capacity: u64, period: u64, now: u64) -> (s: FixedMapping)
        requires
            period > 0,
        ensures
            s.wf(),
            s.capacity == capacity,
            s.period == period,
            s.mapping@.active == crate::mapping::no_entries(),
            s.mapping@.standby == crate::mapping::no_entries(),
            s.mapping@.last_cycle == now,
    {
        FixedMapping { mapping: Mapping::new(period, now), capacity, period }
    }

    /// `key`'s remaining token count at `now`.
    pub fn tokens(&mut self, key: u64, now: u64) -> (t: u64)
        requires
            old(self).wf(),
        ensures
            final(self).wf(),
            final(self).capacity == old(self).capacity,
            final(self).period == old(self).period,
            t == old(self).spec_window(key, now).spec_tokens(now),
            final(self).mapping@ == old(self).spec_touched(
                key,
                old(self).spec_window(key, now).spec_settle(now),
            ),
    {
        self.mapping.tokens(key, self.capacity, self.period, now)
    }

    /// Time until `key`'s current window ends, never negative.
    pub fn next_reset(&mut self, key: u64, now: u64) -> (d: u64)
        requires
            old(self).wf(),
        ensures
            final(self).wf(),
            final(self).capacity == old(self).capacity,
            final(self).period == old(self).period,
            d == old(self).spec_window(key, now).spec_next_reset(now),
            final(self).mapping@ == old(self).spec_touched(key, old(self).spec_window(key, now)),
    {
        self.mapping.next_reset(key, self.capacity, self.period, now)
    }

    /// `None` while `key` has triggers left; otherwise the wait until its
    /// window resets.
    pub fn retry_after(&mut self, key: u64, now: u64) -> (r: Option<u64>)
        requires
            old(self).wf(),
        ensures
            final(self).wf(),
            final(self).capacity == old(self).capacity,
            final(self).period == old(self).period,
            r == ({
                let w = old(self).spec_window(key, now);
                if w.spec_tokens(now) == 0 {
                    Some(w.spec_settle(now).spec_next_reset(now))
                } else {
                    None::<u64>
                }
            }),
            final(self).mapping@ == old(self).spec_touched(
                key,
                old(self).spec_window(key, now).spec_settle(now),
            ),
    {
        self.mapping.retry_after(key, self.capacity, self.period, now)
    }

    /// Whether `key` may trigger at `now`.
    pub fn can_trigger(&mut self, key: u64, now: u64) -> (b: bool)
        requires
            old(self).wf(),
        ensures
            final(self).wf(),
            final(self).capacity == old(self).capacity,
            final(self).period == old(self).period,
            b == (old(self).spec_window(key, now).spec_tokens(now) != 0),
            final(self).mapping@ == old(self).spec_touched(
                key,
                old(self).spec_window(key, now).spec_settle(now),
            ),
    {
        self.mapping.can_trigger(key, self.capacity, self.period, now)
    }

    /// Spend one of `key`'s triggers: `None` and a decrement on success, or
    /// the wait until the window resets when no token is left.
    pub fn trigger(&mut self, key: u64, now: u64) -> (r: Option<u64>)
        requires
            old(self).wf(),
        ensures
            final(self).wf(),
            final(self).capacity == old(self).capacity,
            final(self).period == old(self).period,
            r == old(self).spec_window(key, now).spec_trigger_result(now),
            final(self).mapping@ == old(self).spec_touched(
                key,
                old(self).spec_window(key, now).spec_trigger_state(now),
            ),
    {
        self.mapping.trigger(key, self.capacity, self.period, now)
    }

    /// Unconditionally refill `key`'s window and reanchor it at `now`.
    pub fn reset(&mut self, key: u64, now: u64)
        requires
            old(self).wf(),
        ensures
            final(self).wf(),
            final(self).capacity == old(self).capacity,
            final(self).period == old(self).period,
            final(self).mapping@ == old(self).spec_touched(
                key,
                ({
                    let w = old(self).spec_window(key, now);
                    JumpingWindow { last_reset: now, tokens: w.capacity, ..w }
                }),
            ),
    {
        self.mapping.reset(key, self.capacity, self.period, now)
    }

    /// Whether a cycle requested at `now` would fire.
    pub fn should_cycle(&self, now: u64) -> (b: bool)
        ensures
            b == self.mapping@.should_cycle_at(now),
    {
        self.mapping.should_cycle(now)
    }

    /// Evict every key untouched since the previous cycle, unless called
    /// again too soon, in which case nothing changes. Returns whether the
    /// cycle fired.
    pub fn cycle(&mut self, now: u64) -> (cycled: bool)
        requires
            old(self).wf(),
        ensures
            final(self).wf(),
            final(self).capacity == old(self).capacity,
            final(self).period == old(self).period,
            cycled == old(self).mapping@.should_cycle_at(now),
            final(self).mapping@ == old(self).mapping@.after_cycle(now),
    {
        self.mapping.cycle(now)
    }
}

} // verus!
