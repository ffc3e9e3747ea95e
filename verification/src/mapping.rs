use vstd::prelude::*;

use crate::jumping_window::{elapsed, JumpingWindow};

verus! {

/// Declares `dashmap::DashMap`, the sharded concurrent hash map the
/// generations are kept in, as an opaque outside type.
#[verifier::external_type_specification]
#[verifier::external_body]
#[verifier::reject_recursive_types(K)]
#[verifier::reject_recursive_types(V)]
#[verifier::reject_recursive_types(S)]
pub struct ExDashMap<K, V, S>(dashmap::DashMap<K, V, S>);

/// The key-to-window association one generation currently holds.
pub uninterp spec fn gen_entries(m: dashmap::DashMap<u64, JumpingWindow>) -> Map<
    u64,
    JumpingWindow,
>;

/// The empty generation contents.
pub open spec fn no_entries() -> Map<u64, JumpingWindow> {
    Map::<u64, JumpingWindow>::empty()
}

/// Relies on `dashmap::DashMap::new`: a freshly created map holds no entries.
#[verifier::external_body]
fn gen_new() -> (m: dashmap::DashMap<u64, JumpingWindow>)
    ensures
        gen_entries(m) == no_entries(),
{
    dashmap::DashMap::new()
}

/// Relies on `dashmap::DashMap::insert`: associates `key` with `window`,
/// returning the value the key was previously associated with, if any.
#[verifier::external_body]
fn gen_insert(
    m: &mut dashmap::DashMap<u64, JumpingWindow>,
    key: u64,
    window: JumpingWindow,
) -> (prev: Option<JumpingWindow>)
    ensures
        gen_entries(*final(m)) == gen_entries(*old(m)).insert(key, window),
        prev == (if gen_entries(*old(m)).contains_key(key) {
            Some(gen_entries(*old(m))[key])
        } else {
            None::<JumpingWindow>
        }),
{
    m.insert(key, window)
}

/// Relies on `dashmap::DashMap::remove`: takes the entry for `key` out of
/// the map, returning its value if the key was present.
#[verifier::external_body]
fn gen_remove(m: &mut dashmap::DashMap<u64, JumpingWindow>, key: u64) -> (r: Option<
    JumpingWindow,
>)
    ensures
        gen_entries(*final(m)) == gen_entries(*old(m)).remove(key),
        r == (if gen_entries(*old(m)).contains_key(key) {
            Some(gen_entries(*old(m))[key])
        } else {
            None::<JumpingWindow>
        }),
{
    m.remove(&key).map(|kv| kv.1)
}

/// Relies on `dashmap::DashMap::clear`: removes every entry.
#[verifier::external_body]
fn gen_clear(m: &mut dashmap::DashMap<u64, JumpingWindow>)
    ensures
        gen_entries(*final(m)) == no_entries(),
{
    m.clear()
}

/// The mathematical state of a [`Mapping`]: which windows the active and
/// standby generations hold, plus the cycling configuration.
#[verifier::ext_equal]
pub ghost struct MappingView {
    /// Entries touched since the last cycle, plus older entries re-touched
    /// (migrated) since then.
    pub active: Map<u64, JumpingWindow>,
    /// Entries not touched since the last cycle; cleared by the next one.
    pub standby: Map<u64, JumpingWindow>,
    /// Minimum interval between two cycles, in ticks. Always positive.
    pub cycle_period: u64,
    /// The instant the last cycle fired.
    pub last_cycle: u64,
}

impl MappingView {
    /// Well-formedness: a key lives in at most one generation, every stored
    /// window is itself well-formed, and the cycle interval is positive.
    pub open spec fn wf(self) -> bool {
        &&& self.cycle_period > 0
        &&& self.active.dom().disjoint(self.standby.dom())
        &&& forall|k: u64| #[trigger]
            self.active.contains_key(k) ==> self.active[k].wf()
        &&& forall|k: u64| #[trigger]
            self.standby.contains_key(k) ==> self.standby[k].wf()
    }

    /// The window an access to `key` operates on: the one in the active
    /// generation, else the one awaiting eviction in standby, else a fresh
    /// window anchored at `now`.
    pub open spec fn lookup(self, key: u64, capacity: u64, period: u64, now: u64) -> JumpingWindow {
        if self.active.contains_key(key) {
            self.active[key]
        } else if self.standby.contains_key(key) {
            self.standby[key]
        } else {
            JumpingWindow { capacity, period, last_reset: now, tokens: capacity }
        }
    }

    /// The state after an access stored `w` back for `key`: the entry lands
    /// in the active generation and leaves standby, so a touched key always
    /// survives the next cycle.
    pub open spec fn after_touch(self, key: u64, w: JumpingWindow) -> MappingView {
        MappingView {
            active: self.active.insert(key, w),
            standby: self.standby.remove(key),
            ..self
        }
    }

    /// Whether a cycle requested at `now` fires: at least `cycle_period`
    /// ticks have passed since the last one (clock regressions count as no
    /// elapsed time).
    pub open spec fn should_cycle_at(self, now: u64) -> bool {
        elapsed(self.last_cycle, now) >= self.cycle_period
    }

    /// The state after `cycle(now)`: if it fires, the standby generation's
    /// entries are discarded, the active generation is demoted to standby,
    /// and an empty generation becomes active; otherwise nothing changes.
    pub open spec fn after_cycle(self, now: u64) -> MappingView {
        if self.should_cycle_at(now) {
            MappingView {
                active: Map::<u64, JumpingWindow>::empty(),
                standby: self.active,
                cycle_period: self.cycle_period,
                last_cycle: now,
            }
        } else {
            self
        }
    }
}

/// A keyed collection of [`JumpingWindow`]s with generational eviction: two
/// concurrent maps, of which one is designated active, hold the windows, and
/// [`Mapping::cycle`] evicts in O(1) every key that was not touched since the
/// previous cycle.
pub struct Mapping {
    right: dashmap::DashMap<u64, JumpingWindow>,
    left: dashmap::DashMap<u64, JumpingWindow>,
    is_right_current: bool,
    cycle_period: u64,
    last_cycle: u64,
}

impl View for Mapping {
    type V = MappingView;

    closed spec fn view(&self) -> MappingView {
        MappingView {
            active: if self.is_right_current {
                gen_entries(self.right)
            } else {
                gen_entries(self.left)
            },
            standby: if self.is_right_current {
                gen_entries(self.left)
            } else {
                gen_entries(self.right)
            },
            cycle_period: self.cycle_period,
            last_cycle: self.last_cycle,
        }
    }
}

impl Mapping {
    /// Well-formedness of the concrete store, in terms of its view.
    pub open spec fn wf(self) -> bool {
        self@.wf()
    }

    /// Create an empty store that will accept a cycle no sooner than
    /// `cycle_period` ticks after `now`.
    pub fn new(cycle_period: u64, now: u64) -> (s: Mapping)
        requires
            cycle_period > 0,
        ensures
            s.wf(),
            s@ == (MappingView {
                active: Map::<u64, JumpingWindow>::empty(),
                standby: Map::<u64, JumpingWindow>::empty(),
                cycle_period,
                last_cycle: now,
            }),
    {
        Mapping {
            right: gen_new(),
            left: gen_new(),
            is_right_current: true,
            cycle_period,
            last_cycle: now,
        }
    }

    /// Remove `key`'s window from whichever generation holds it, or create a
    /// fresh one anchored at `now` if neither does.
    fn take_or_create(&mut self, key: u64, capacity: u64, period: u64, now: u64) -> (w:
        JumpingWindow)
        requires
            old(self).wf(),
            period > 0,
        ensures
            w == old(self)@.lookup(key, capacity, period, now),
            w.wf(),
            final(self)@ == (MappingView {
                active: old(self)@.active.remove(key),
                standby: old(self)@.standby.remove(key),
                ..old(self)@
            }),
    {
        let ghost v0 = self@;
        let found = if self.is_right_current {
            gen_remove(&mut self.right, key)
        } else {
            gen_remove(&mut self.left, key)
        };
        match found {
            Some(w) => {
                proof {
                    assert(v0.standby.remove(key) =~= v0.standby);
                }
                w
            },
            None => {
                proof {
                    assert(v0.active.remove(key) =~= v0.active);
                }
                let found2 = if self.is_right_current {
                    gen_remove(&mut self.left, key)
                } else {
                    gen_remove(&mut self.right, key)
                };
                match found2 {
                    Some(w) => w,
                    None => {
                        proof {
                            assert(v0.standby.remove(key) =~= v0.standby);
                        }
                        JumpingWindow::new(capacity, period, now)
                    },
                }
            },
        }
    }

    /// Insert `w` for `key` into the active generation.
    fn put_active(&mut self, key: u64, w: JumpingWindow)
        requires
            old(self).wf(),
            w.wf(),
            !old(self)@.standby.contains_key(key),
        ensures
            final(self)@ == (MappingView { active: old(self)@.active.insert(key, w), ..old(self)@ }),
            final(self).wf(),
    {
        if self.is_right_current {
            gen_insert(&mut self.right, key, w);
        } else {
            gen_insert(&mut self.left, key, w);
        }
    }

    /// Fetch `key`'s window, creating it in the active generation with the
    /// given parameters if it does not yet exist in either generation, and
    /// migrating it into the active generation if it was found in standby.
    /// Returns a copy of the stored window.
    pub fn get_or_create(&mut self, key: u64, capacity: u64, period: u64, now: u64) -> (w:
        JumpingWindow)
        requires
            old(self).wf(),
            period > 0,
        ensures
            final(self).wf(),
            w == old(self)@.lookup(key, capacity, period, now),
            w.wf(),
            final(self)@ == old(self)@.after_touch(key, w),
    {
        let ghost v0 = self@;
        let w = self.take_or_create(key, capacity, period, now);
        self.put_active(key, w);
        proof {
            assert(v0.active.remove(key).insert(key, w) =~= v0.active.insert(key, w));
            assert(self@ =~= v0.after_touch(key, w));
        }
        w
    }

    /// `key`'s remaining token count at `now`, settling its window first.
    pub fn tokens(&mut self, key: u64, capacity: u64, period: u64, now: u64) -> (t: u64)
        requires
            old(self).wf(),
            period > 0,
        ensures
            final(self).wf(),
            t == old(self)@.lookup(key, capacity, period, now).spec_tokens(now),
            final(self)@ == old(self)@.after_touch(
                key,
                old(self)@.lookup(key, capacity, period, now).spec_settle(now),
            ),
    {
        let ghost v0 = self@;
        let mut w = self.take_or_create(key, capacity, period, now);
        let t = w.tokens(now);
        self.put_active(key, w);
        proof {
            let w1 = v0.lookup(key, capacity, period, now).spec_settle(now);
            assert(v0.active.remove(key).insert(key, w1) =~= v0.active.insert(key, w1));
            assert(self@ =~= v0.after_touch(key, w1));
        }
        t
    }

    /// Time until `key`'s current window ends, never negative.
    pub fn next_reset(&mut self, key: u64, capacity: u64, period: u64, now: u64) -> (d: u64)
        requires
            old(self).wf(),
            period > 0,
        ensures
            final(self).wf(),
            d == old(self)@.lookup(key, capacity, period, now).spec_next_reset(now),
            final(self)@ == old(self)@.after_touch(
                key,
                old(self)@.lookup(key, capacity, period, now),
            ),
    {
        let ghost v0 = self@;
        let w = self.take_or_create(key, capacity, period, now);
        let d = w.next_reset(now);
        self.put_active(key, w);
        proof {
            let w1 = v0.lookup(key, capacity, period, now);
            assert(v0.active.remove(key).insert(key, w1) =~= v0.active.insert(key, w1));
            assert(self@ =~= v0.after_touch(key, w1));
        }
        d
    }

    /// `None` while `key` has triggers left; otherwise the wait until its
    /// window resets.
    pub fn retry_after(&mut self, key: u64, capacity: u64, period: u64, now: u64) -> (r: Option<
        u64,
    >)
        requires
            old(self).wf(),
            period > 0,
        ensures
            final(self).wf(),
            r == ({
                let w = old(self)@.lookup(key, capacity, period, now);
                if w.spec_tokens(now) == 0 {
                    Some(w.spec_settle(now).spec_next_reset(now))
                } else {
                    None::<u64>
                }
            }),
            final(self)@ == old(self)@.after_touch(
                key,
                old(self)@.lookup(key, capacity, period, now).spec_settle(now),
            ),
    {
        let ghost v0 = self@;
        let mut w = self.take_or_create(key, capacity, period, now);
        let r = w.retry_after(now);
        self.put_active(key, w);
        proof {
            let w1 = v0.lookup(key, capacity, period, now).spec_settle(now);
            assert(v0.active.remove(key).insert(key, w1) =~= v0.active.insert(key, w1));
            assert(self@ =~= v0.after_touch(key, w1));
        }
        r
    }

    /// Whether `key` may trigger at `now`.
    pub fn can_trigger(&mut self, key: u64, capacity: u64, period: u64, now: u64) -> (b: bool)
        requires
            old(self).wf(),
            period > 0,
        ensures
            final(self).wf(),
            b == (old(self)@.lookup(key, capacity, period, now).spec_tokens(now) != 0),
            final(self)@ == old(self)@.after_touch(
                key,
                old(self)@.lookup(key, capacity, period, now).spec_settle(now),
            ),
    {
        let ghost v0 = self@;
        let mut w = self.take_or_create(key, capacity, period, now);
        let b = w.can_trigger(now);
        self.put_active(key, w);
        proof {
            let w1 = v0.lookup(key, capacity, period, now).spec_settle(now);
            assert(v0.active.remove(key).insert(key, w1) =~= v0.active.insert(key, w1));
            assert(self@ =~= v0.after_touch(key, w1));
        }
        b
    }

    /// Spend one of `key`'s triggers: `None` and a decrement on success, or
    /// the wait until the window resets when no token is left.
    pub fn trigger(&mut self, key: u64, capacity: u64, period: u64, now: u64) -> (r: Option<u64>)
        requires
            old(self).wf(),
            period > 0,
        ensures
            final(self).wf(),
            r == old(self)@.lookup(key, capacity, period, now).spec_trigger_result(now),
            final(self)@ == old(self)@.after_touch(
                key,
                old(self)@.lookup(key, capacity, period, now).spec_trigger_state(now),
            ),
    {
        let ghost v0 = self@;
        let mut w = self.take_or_create(key, capacity, period, now);
        let r = w.trigger(now);
        self.put_active(key, w);
        proof {
            let w1 = v0.lookup(key, capacity, period, now).spec_trigger_state(now);
            assert(v0.active.remove(key).insert(key, w1) =~= v0.active.insert(key, w1));
            assert(self@ =~= v0.after_touch(key, w1));
        }
        r
    }

    /// Unconditionally refill `key`'s window and reanchor it at `now`.
    pub fn reset(&mut self, key: u64, capacity: u64, period: u64, now: u64)
        requires
            old(self).wf(),
            period > 0,
        ensures
            final(self).wf(),
            final(self)@ == old(self)@.after_touch(
                key,
                ({
                    let w = old(self)@.lookup(key, capacity, period, now);
                    JumpingWindow { last_reset: now, tokens: w.capacity, ..w }
                }),
            ),
    {
        let ghost v0 = self@;
        let mut w = self.take_or_create(key, capacity, period, now);
        w.reset(now);
        self.put_active(key, w);
        proof {
            let w0 = v0.lookup(key, capacity, period, now);
            let w1 = JumpingWindow { last_reset: now, tokens: w0.capacity, ..w0 };
            assert(v0.active.remove(key).insert(key, w1) =~= v0.active.insert(key, w1));
            assert(self@ =~= v0.after_touch(key, w1));
        }
    }

    /// Whether a cycle requested at `now` would fire.
    pub fn should_cycle(&self, now: u64) -> (b: bool)
        ensures
            b == self@.should_cycle_at(now),
    {
        let since = if now >= self.last_cycle {
            now - self.last_cycle
        } else {
            0
        };
        since >= self.cycle_period
    }

    /// Swap the generations and evict every key that was not touched since
    /// the previous cycle, unless fewer than `cycle_period` ticks have
    /// passed since then, in which case nothing changes. Returns whether the
    /// cycle fired.
    pub fn cycle(&mut self, now: u64) -> (cycled: bool)
        requires
            old(self).wf(),
        ensures
            final(self).wf(),
            cycled == old(self)@.should_cycle_at(now),
            final(self)@ == old(self)@.after_cycle(now),
    {
        let ghost v0 = self@;
        if !self.should_cycle(now) {
            return false;
        }
        if self.is_right_current {
            gen_clear(&mut self.left);
        } else {
            gen_clear(&mut self.right);
        }
        self.is_right_current = !self.is_right_current;
        self.last_cycle = now;
        proof {
            assert(self@ =~= v0.after_cycle(now));
        }
        true
    }
}

/// State survives repeated lookups: with no cycle in between, a lookup after
/// an intervening `trigger` observes exactly the window the trigger
/// persisted, token count included.
pub proof fn lemma_state_survives_lookups(
    s: MappingView,
    key: u64,
    capacity: u64,
    period: u64,
    t1: u64,
    t2: u64,
    t3: u64,
)
    requires
        s.wf(),
    ensures
        ({
            let w1 = s.lookup(key, capacity, period, t1);
            let s1 = s.after_touch(key, w1);
            let s2 = s1.after_touch(key, w1.spec_trigger_state(t2));
            &&& s1.lookup(key, capacity, period, t2) == w1
            &&& s2.lookup(key, capacity, period, t3) == w1.spec_trigger_state(t2)
        }),
{
}

/// A key untouched across two consecutive fired cycles is evicted: the next
/// lookup yields a freshly initialized window at full capacity.
pub proof fn lemma_idle_key_evicted(
    s: MappingView,
    key: u64,
    capacity: u64,
    period: u64,
    t1: u64,
    t2: u64,
    t3: u64,
)
    requires
        s.wf(),
        s.should_cycle_at(t1),
        s.after_cycle(t1).should_cycle_at(t2),
    ensures
        s.after_cycle(t1).after_cycle(t2).lookup(key, capacity, period, t3) == (JumpingWindow {
            capacity,
            period,
            last_reset: t3,
            tokens: capacity,
        }),
{
}

/// A key touched between two cycles is migrated, not evicted: after both
/// cycles it still holds the very window the touch left behind, so its
/// prior token count is retained.
pub proof fn lemma_touched_key_survives(
    s: MappingView,
    key: u64,
    w: JumpingWindow,
    capacity: u64,
    period: u64,
    t1: u64,
    t2: u64,
    t3: u64,
)
    requires
        s.wf(),
    ensures
        s.after_cycle(t1).after_touch(key, w).after_cycle(t2).lookup(key, capacity, period, t3)
            == w,
{
}

} // verus!
