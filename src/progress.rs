//! Per-bar counters and the redraw rate limit.

use vstd::prelude::*;

verus! {

/// The shortest time between two redraws of one bar, in nanoseconds.
pub const INTERVAL: u64 = 100_000_000;

/// `a + b`, or `u64::MAX` where the sum does not fit.
pub open spec fn sat_add(a: u64, b: u64) -> u64 {
    if a + b > u64::MAX {
        u64::MAX
    } else {
        (a + b) as u64
    }
}

/// Nanoseconds from `prev` to `now`, or `0` where `now` is not later.
pub open spec fn since(prev: u64, now: u64) -> u64 {
    if now > prev {
        (now - prev) as u64
    } else {
        0
    }
}

/// A redraw is due at `now` when more than `INTERVAL` passed since `prev`.
pub open spec fn is_ready(prev: u64, now: u64) -> bool {
    since(prev, now) > INTERVAL
}

/// The counters of one bar. Times are nanoseconds since the bar was created.
#[derive(Debug, Clone, Copy, PartialEq, Eq)]
pub struct Progress {
    /// Steps done so far.
    pub n: u64,
    /// `n` when the bar was last drawn.
    pub last: u64,
    /// When the bar was last drawn.
    pub prev: u64,
}

impl Progress {
    /// The counters after `update(delta)` at time `now`: `delta` is added, and
    /// when a redraw was due the draw is recorded.
    pub open spec fn stepped(self, delta: u64, now: u64) -> Progress {
        let n = sat_add(self.n, delta);
        if is_ready(self.prev, now) {
            Progress { n, last: n, prev: now }
        } else {
            Progress { n, ..self }
        }
    }

    /// The counters after each `(delta, now)` of `steps`, in order.
    pub open spec fn after(self, steps: Seq<(u64, u64)>) -> Progress
        decreases steps.len(),
    {
        if steps.len() == 0 {
            self
        } else {
            self.after(steps.drop_last()).stepped(steps.last().0, steps.last().1)
        }
    }

    /// Step `i` of `steps` redraws the bar.
    pub open spec fn draws_at(self, steps: Seq<(u64, u64)>, i: int) -> bool {
        is_ready(self.after(steps.take(i)).prev, steps[i].1)
    }

    /// Nothing counted and nothing drawn yet.
    pub fn new() -> (r: Progress)
        ensures
            r == (Progress { n: 0, last: 0, prev: 0 }),
    {
        Progress { n: 0, last: 0, prev: 0 }
    }

    /// Adds `delta` steps, saturating at `u64::MAX`.
    pub fn inc(&mut self, delta: u64)
        ensures
            *final(self) == (Progress { n: sat_add(old(self).n, delta), ..*old(self) }),
    {
        self.n = self.n.saturating_add(delta);
    }

    /// Nanoseconds since the last draw.
    pub fn since_last(&self, now: u64) -> (r: u64)
        ensures
            r == since(self.prev, now),
    {
        now.saturating_sub(self.prev)
    }

    /// A redraw is due.
    pub fn ready(&self, now: u64) -> (r: bool)
        ensures
            r == is_ready(self.prev, now),
    {
        self.since_last(now) > INTERVAL
    }

    /// Records a draw at `now`.
    pub fn update(&mut self, now: u64)
        ensures
            *final(self) == (Progress { n: old(self).n, last: old(self).n, prev: now }),
    {
        self.prev = now;
        self.last = self.n;
    }
}

/// The sum of the deltas of `steps`.
pub open spec fn sum_deltas(steps: Seq<(u64, u64)>) -> nat
    decreases steps.len(),
{
    if steps.len() == 0 {
        0
    } else {
        sum_deltas(steps.drop_last()) + steps.last().0 as nat
    }
}

/// No step is lost: after any run of updates the count is the start plus every
/// delta, as long as that sum fits in a `u64`.
pub proof fn lemma_counts_add_up(p: Progress, steps: Seq<(u64, u64)>)
    requires
        p.n + sum_deltas(steps) <= u64::MAX,
    ensures
        p.after(steps).n == p.n + sum_deltas(steps),
    decreases steps.len(),
{
    if steps.len() > 0 {
        lemma_counts_add_up(p, steps.drop_last());
    }
}

proof fn lemma_prev_kept(p: Progress, steps: Seq<(u64, u64)>, i: int, j: int)
    requires
        0 <= i < j <= steps.len(),
        p.draws_at(steps, i),
        forall|m: int| i < m < j ==> !p.draws_at(steps, m),
    ensures
        p.after(steps.take(j)).prev == steps[i].1,
    decreases j - i,
{
    if j == i + 1 {
        assert(steps.take(j).drop_last() =~= steps.take(i));
    } else {
        lemma_prev_kept(p, steps, i, j - 1);
        assert(steps.take(j).drop_last() =~= steps.take(j - 1));
        assert(!p.draws_at(steps, j - 1));
    }
}

/// Two successive redraws of one bar lie more than `INTERVAL` apart.
pub proof fn lemma_draws_spaced(p: Progress, steps: Seq<(u64, u64)>, i: int, j: int)
    requires
        0 <= i < j < steps.len(),
        p.draws_at(steps, i),
        p.draws_at(steps, j),
        forall|m: int| i < m < j ==> !p.draws_at(steps, m),
    ensures
        steps[j].1 > steps[i].1 + INTERVAL,
{
    lemma_prev_kept(p, steps, i, j);
}

} // verus!
