use vstd::prelude::*;

verus! {

/// Elapsed time between `anchor` and `now`, saturating at zero when the clock
/// has regressed (`now < anchor`).
pub open spec fn elapsed(anchor: u64, now: u64) -> int {
    if now >= anchor {
        now - anchor
    } else {
        0
    }
}

/// One key's rate-limit state: a window of `period` ticks anchored at
/// `last_reset`, with `tokens` triggers remaining out of `capacity`.
///
/// The window "jumps": it is reanchored to the querying instant the first
/// time it is observed expired, so successive windows are not aligned to any
/// fixed grid.
#[derive(Clone, Copy, Debug, PartialEq, Eq, Structural)]
pub struct JumpingWindow {
    /// How many triggers may occur per window.
    pub capacity: u64,
    /// How long a window lasts, in ticks. Always positive.
    pub period: u64,
    /// The instant the current window started.
    pub last_reset: u64,
    /// Triggers remaining in the current window. Never exceeds `capacity`.
    pub tokens: u64,
}

impl JumpingWindow {
    /// Well-formedness: the token count never exceeds the capacity and the
    /// window length is positive.
    pub open spec fn wf(self) -> bool {
        &&& self.tokens <= self.capacity
        &&& self.period > 0
    }

    /// Whether the current window has been outlived at `now`: strictly more
    /// than one `period` has elapsed since the anchor.
    pub open spec fn spec_expired(self, now: u64) -> bool {
        elapsed(self.last_reset, now) > self.period
    }

    /// The state after the lazy expiry check every observing operation
    /// performs: an expired window is reanchored at `now` with a full token
    /// allowance, an unexpired one is left alone.
    pub open spec fn spec_settle(self, now: u64) -> JumpingWindow {
        if self.spec_expired(now) {
            JumpingWindow { last_reset: now, tokens: self.capacity, ..self }
        } else {
            self
        }
    }

    /// The token count `tokens` returns at `now`.
    pub open spec fn spec_tokens(self, now: u64) -> u64 {
        self.spec_settle(now).tokens
    }

    /// The duration `next_reset` returns at `now`: time left until the
    /// current anchor's window ends, saturating at zero once it has passed.
    pub open spec fn spec_next_reset(self, now: u64) -> u64 {
        if elapsed(self.last_reset, now) > self.period {
            0
        } else {
            (self.period - elapsed(self.last_reset, now)) as u64
        }
    }

    /// The state after `trigger` at `now`: settle, then spend one token if
    /// any is left.
    pub open spec fn spec_trigger_state(self, now: u64) -> JumpingWindow {
        let settled = self.spec_settle(now);
        if settled.tokens == 0 {
            settled
        } else {
            JumpingWindow { tokens: (settled.tokens - 1) as u64, ..settled }
        }
    }

    /// What `trigger` returns at `now`: `None` on success, or the wait until
    /// the window resets when no token is left.
    pub open spec fn spec_trigger_result(self, now: u64) -> Option<u64> {
        let settled = self.spec_settle(now);
        if settled.tokens == 0 {
            Some(settled.spec_next_reset(now))
        } else {
            None
        }
    }

    /// Create a new window anchored at `now`, with its full allowance of
    /// `capacity` triggers available for the next `period` ticks.
    pub fn new(capacity: u64, period: u64, now: u64) -> (w: JumpingWindow)
        requires
            period > 0,
        ensures
            w == (JumpingWindow { capacity, period, last_reset: now, tokens: capacity }),
            w.wf(),
            w.spec_tokens(now) == capacity,
    {
        JumpingWindow { capacity, period, last_reset: now, tokens: capacity }
    }

    /// How many triggers are left in the current window, reanchoring first if
    /// the window is observed expired. This lazy check is the only mechanism
    /// by which a window resets on its own.
    pub fn tokens(&mut self, now: u64) -> (t: u64)
        requires
            old(self).wf(),
        ensures
            *final(self) == old(self).spec_settle(now),
            t == old(self).spec_tokens(now),
            final(self).wf(),
    {
        if now >= self.last_reset && now - self.last_reset > self.period {
            self.reset(now);
        }
        self.tokens
    }

    /// Time remaining until the current anchor's window ends, saturating at
    /// zero if the window has already expired without being reanchored. Never
    /// mutates: it must agree with what a reanchoring call would see.
    pub fn next_reset(&self, now: u64) -> (d: u64)
        ensures
            d == self.spec_next_reset(now),
    {
        if now >= self.last_reset {
            let since = now - self.last_reset;
            if since > self.period {
                0
            } else {
                self.period - since
            }
        } else {
            self.period
        }
    }

    /// `None` while triggers remain; otherwise the wait until the next reset.
    pub fn retry_after(&mut self, now: u64) -> (r: Option<u64>)
        requires
            old(self).wf(),
        ensures
            *final(self) == old(self).spec_settle(now),
            final(self).wf(),
            r == (if old(self).spec_tokens(now) == 0 {
                Some(old(self).spec_settle(now).spec_next_reset(now))
            } else {
                None::<u64>
            }),
    {
        if self.tokens(now) == 0 {
            Some(self.next_reset(now))
        } else {
            None
        }
    }

    /// Whether a trigger would currently be allowed.
    pub fn can_trigger(&mut self, now: u64) -> (b: bool)
        requires
            old(self).wf(),
        ensures
            *final(self) == old(self).spec_settle(now),
            final(self).wf(),
            b == (old(self).spec_tokens(now) != 0),
    {
        self.tokens(now) != 0
    }

    /// Attempt to spend one trigger. Returns `None` and decrements on
    /// success; returns the wait until the next reset, with no decrement,
    /// when no token is left.
    pub fn trigger(&mut self, now: u64) -> (r: Option<u64>)
        requires
            old(self).wf(),
        ensures
            *final(self) == old(self).spec_trigger_state(now),
            r == old(self).spec_trigger_result(now),
            final(self).wf(),
    {
        let tokens = self.tokens(now);
        if tokens == 0 {
            Some(self.next_reset(now))
        } else {
            self.tokens = self.tokens - 1;
            None
        }
    }

    /// Unconditionally refill the window and reanchor it at `now`.
    pub fn reset(&mut self, now: u64)
        requires
            old(self).wf(),
        ensures
            *final(self) == (JumpingWindow {
                last_reset: now,
                tokens: old(self).capacity,
                ..*old(self)
            }),
            final(self).wf(),
    {
        self.tokens = self.capacity;
        self.last_reset = now;
    }
}

/// The window state after `n` consecutive `trigger` calls, all made at the
/// same instant `now`.
pub open spec fn spec_after_triggers(w: JumpingWindow, now: u64, n: nat) -> JumpingWindow
    decreases n,
{
    if n == 0 {
        w
    } else {
        spec_after_triggers(w, now, (n - 1) as nat).spec_trigger_state(now)
    }
}

/// Each of the first `n <= tokens` triggers at the window's own anchor
/// instant spends exactly one token and moves nothing else.
proof fn lemma_after_triggers_counts(w: JumpingWindow, t: u64, n: nat)
    requires
        w.wf(),
        w.last_reset == t,
        n <= w.tokens,
    ensures
        spec_after_triggers(w, t, n) == (JumpingWindow { tokens: (w.tokens - n) as u64, ..w }),
    decreases n,
{
    if n > 0 {
        lemma_after_triggers_counts(w, t, (n - 1) as nat);
    }
}

/// A freshly anchored window answers "no wait" to exactly `capacity`
/// consecutive `trigger` calls at its anchor instant; the very next call is
/// rejected with a strictly positive wait of one full period.
pub proof fn lemma_trigger_burst(capacity: u64, period: u64, t: u64)
    requires
        period > 0,
    ensures
        forall|k: nat|
            k < capacity ==> (#[trigger] spec_after_triggers(
                JumpingWindow { capacity, period, last_reset: t, tokens: capacity },
                t,
                k,
            )).spec_trigger_result(t) is None,
        spec_after_triggers(
            JumpingWindow { capacity, period, last_reset: t, tokens: capacity },
            t,
            capacity as nat,
        ).spec_trigger_result(t) == Some(period),
{
    let w = JumpingWindow { capacity, period, last_reset: t, tokens: capacity };
    assert forall|k: nat|
        k < capacity implies (#[trigger] spec_after_triggers(w, t, k)).spec_trigger_result(t)
        is None by {
        lemma_after_triggers_counts(w, t, k);
    }
    lemma_after_triggers_counts(w, t, capacity as nat);
}

/// A trigger never drives the token count below zero nor above capacity:
/// every state a well-formed window can step to is well-formed again.
pub proof fn lemma_trigger_bounds(w: JumpingWindow, now: u64)
    requires
        w.wf(),
    ensures
        0 <= w.spec_trigger_state(now).tokens,
        w.spec_trigger_state(now).wf(),
        w.spec_settle(now).wf(),
{
}

/// The time until the next reset is never negative, even when the window is
/// queried strictly after expiry with no intervening reanchor, and it never
/// exceeds one period.
pub proof fn lemma_next_reset_bounds(w: JumpingWindow, now: u64)
    ensures
        0 <= w.spec_next_reset(now) <= w.period,
{
}

/// The side-effect-free wait query agrees with lazy reanchoring: a window
/// observed expired — one that the next settling call would jump — already
/// reports a remaining wait of exactly zero, and an unexpired one reports
/// exactly what is left of its period.
pub proof fn lemma_next_reset_agrees_with_expiry(w: JumpingWindow, now: u64)
    ensures
        w.spec_expired(now) ==> w.spec_next_reset(now) == 0,
        !w.spec_expired(now) ==> w.spec_next_reset(now) == w.period - elapsed(w.last_reset, now),
{
}

/// After a rejected trigger at `t`, a query strictly more than one period
/// later finds a full window again.
///
/// This holds for a clock that had not regressed by `t` (`last_reset <= t`);
/// after a regression the window keeps its newer anchor, and the fresh
/// period is measured from that anchor instead.
pub proof fn lemma_full_after_wait(w: JumpingWindow, t: u64, e: u64)
    requires
        w.wf(),
        w.last_reset <= t,
        w.spec_trigger_result(t) is Some,
        e > 0,
        t + w.period + e <= u64::MAX,
    ensures
        w.spec_trigger_state(t).spec_tokens((t + w.period + e) as u64) == w.capacity,
{
}

} // verus!
