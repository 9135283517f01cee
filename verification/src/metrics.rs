//! Frame-rate window: counts frames and closes a window every `window_size` ticks.

use crate::clock::{instant_elapsed, instant_now};
use std::time::{Duration, Instant};
use vstd::prelude::*;

verus! {

/// What one tick does to a window of `window_size` frames whose counter
/// stands at `count`: the counter afterwards, and the number of frames of
/// the window that the tick closes, if it closes one.
pub open spec fn tick_step(window_size: nat, count: nat) -> (nat, Option<nat>) {
    if count + 1 < window_size {
        ((count + 1) as nat, None)
    } else {
        (0, Some((count + 1) as nat))
    }
}

/// The counter after `n` ticks from an empty window.
pub open spec fn count_after(window_size: nat, n: nat) -> nat
    decreases n,
{
    if n == 0 {
        0
    } else {
        tick_step(window_size, count_after(window_size, (n - 1) as nat)).0
    }
}

/// One tick advances a counter that stands at `k mod window_size` to
/// `(k + 1) mod window_size`, closing a full window exactly when that wraps to 0.
proof fn lemma_tick_step_mod(window_size: nat, k: nat)
    requires
        1 <= window_size,
    ensures
        tick_step(window_size, k % window_size) == (
            ((k + 1) % window_size) as nat,
            if (k + 1) % window_size == 0 { Some(window_size) } else { None::<nat> },
        ),
{
    let w = window_size as int;
    let m = k as int;
    let c = m % w;
    vstd::arithmetic::div_mod::lemma_add_mod_noop(m, 1, w);
    vstd::arithmetic::div_mod::lemma_mod_bound(m, w);
    if w == 1 {
        assert((m + 1) % w == 0) by (nonlinear_arith)
            requires
                w == 1,
        ;
        assert(c == 0) by (nonlinear_arith)
            requires
                w == 1,
                c == m % w,
        ;
    } else {
        vstd::arithmetic::div_mod::lemma_small_mod(1, window_size);
        if c + 1 < w {
            vstd::arithmetic::div_mod::lemma_small_mod((c + 1) as nat, window_size);
        } else {
            vstd::arithmetic::div_mod::lemma_mod_self_0(w);
        }
    }
}

/// Frame windows close on a fixed beat: starting from an empty window of
/// `window_size` frames, the counter after `n` ticks is `n mod window_size`,
/// and tick number `n + 1` closes a window, of exactly `window_size` frames,
/// if and only if `n + 1` is a multiple of `window_size`.
pub proof fn lemma_windows_close_on_beat(window_size: nat, n: nat)
    requires
        1 <= window_size,
    ensures
        count_after(window_size, n) == n % window_size,
        tick_step(window_size, count_after(window_size, n)).1 == (if (n + 1) % window_size == 0 {
            Some(window_size)
        } else {
            None::<nat>
        }),
    decreases n,
{
    if n == 0 {
        vstd::arithmetic::div_mod::lemma_small_mod(0, window_size);
    } else {
        lemma_windows_close_on_beat(window_size, (n - 1) as nat);
        lemma_tick_step_mod(window_size, (n - 1) as nat);
    }
    lemma_tick_step_mod(window_size, n);
}

/// `counts` and `closed` are what a sequence of ticks does to a window of
/// `window_size` frames that starts empty: `counts[j]` is its counter before
/// call `j` (from 0), and `closed[j]` what call `j` reports.
pub open spec fn ticks_follow(window_size: nat, counts: Seq<nat>, closed: Seq<Option<nat>>) -> bool {
    &&& counts.len() == closed.len() + 1
    &&& counts[0] == 0
    &&& forall|j: int|
        0 <= j < closed.len() ==> (counts[j + 1], closed[j]) == #[trigger] tick_step(
            window_size,
            counts[j],
        )
}

/// Along any sequence of ticks from a new window, the counter before call
/// `j` (from 0) is `count_after(window_size, j)`.
proof fn lemma_ticks_follow_count(window_size: nat, counts: Seq<nat>, closed: Seq<Option<nat>>, j: int)
    requires
        ticks_follow(window_size, counts, closed),
        0 <= j < counts.len(),
    ensures
        counts[j] == count_after(window_size, j as nat),
    decreases j,
{
    if j > 0 {
        lemma_ticks_follow_count(window_size, counts, closed, j - 1);
        assert((counts[j], closed[j - 1]) == tick_step(window_size, counts[j - 1]));
    }
}

/// Reports come on a fixed beat, call after call: from a new window of
/// `window_size` frames, call number `j + 1` reports a window if and only if
/// `j + 1` is a multiple of `window_size`, and then reports exactly
/// `window_size` frames; so of any `window_size` consecutive calls exactly
/// one reports.
pub proof fn lemma_tick_calls_close_on_beat(
    window_size: nat,
    counts: Seq<nat>,
    closed: Seq<Option<nat>>,
)
    requires
        1 <= window_size,
        ticks_follow(window_size, counts, closed),
    ensures
        forall|j: int|
            0 <= j < closed.len() ==> #[trigger] closed[j] == (if (j + 1) % (window_size as int)
                == 0 {
                Some(window_size)
            } else {
                None::<nat>
            }),
{
    assert forall|j: int| 0 <= j < closed.len() implies #[trigger] closed[j] == (if (j + 1) % (
    window_size as int) == 0 {
        Some(window_size)
    } else {
        None::<nat>
    }) by {
        lemma_ticks_follow_count(window_size, counts, closed, j);
        lemma_windows_close_on_beat(window_size, j as nat);
        assert((counts[j + 1], closed[j]) == tick_step(window_size, counts[j]));
    }
}

/// Counts frames and reports, every `window_size` frames, the number of
/// frames counted and the time they took.
pub struct FpsWindow {
    window_size: u64,
    count: u64,
    started_at: Instant,
}

impl FpsWindow {
    #[verifier::type_invariant]
    spec fn inv(self) -> bool {
        &&& 1 <= self.window_size
        &&& self.count < self.window_size
    }

    /// The number of frames in a window.
    pub closed spec fn window_size(&self) -> nat {
        self.window_size as nat
    }

    /// The number of frames counted in the current window.
    pub closed spec fn pending(&self) -> nat {
        self.count as nat
    }

    /// When the current window started.
    pub closed spec fn window_start(&self) -> Instant {
        self.started_at
    }

    /// A window of `window_size` frames (at least one), empty, started at `now`.
    pub fn new_at(window_size: u64, now: Instant) -> (r: Self)
        ensures
            r.window_size() == (if window_size < 1 { 1 } else { window_size as nat }),
            r.pending() == 0,
            r.window_start() == now,
            r.pending() < r.window_size() <= u64::MAX,
    {
        let w = if window_size < 1 { 1 } else { window_size };
        FpsWindow { window_size: w, count: 0, started_at: now }
    }

    /// A window of `window_size` frames (at least one), empty, started at
    /// the monotonic clock's current reading.
    pub fn new(window_size: u64) -> (r: Self)
        ensures
            r.window_size() == (if window_size < 1 { 1 } else { window_size as nat }),
            r.pending() == 0,
            r.pending() < r.window_size() <= u64::MAX,
    {
        FpsWindow::new_at(window_size, instant_now())
    }

    /// Closes the current window on the frame that completes it: returns the
    /// number of frames in it and `elapsed`, the time measured since the
    /// window started, and starts a new, empty window at `now`.
    pub fn close_window(&mut self, elapsed: Duration, now: Instant) -> (r: (u64, Duration))
        requires
            old(self).pending() + 1 >= old(self).window_size(),
        ensures
            r == ((old(self).pending() + 1) as u64, elapsed),
            final(self).pending() == 0,
            final(self).window_start() == now,
            final(self).window_size() == old(self).window_size(),
            old(self).pending() + 1 == old(self).window_size(),
    {
        proof {
            use_type_invariant(&*self);
        }
        let frames = self.count + 1;
        self.count = 0;
        self.started_at = now;
        (frames, elapsed)
    }

    /// Counts one frame. When that frame completes the window, returns the
    /// number of frames in it and the time since the window started (see
    /// `close_window`), and starts a new, empty window at the monotonic
    /// clock's current reading; otherwise the window keeps its start.
    pub fn tick(&mut self) -> (r: Option<(u64, Duration)>)
        ensures
            final(self).window_size() == old(self).window_size(),
            r is None ==> final(self).window_start() == old(self).window_start(),
            final(self).pending() < final(self).window_size(),
            old(self).pending() < old(self).window_size() <= u64::MAX,
            (final(self).pending(), match r {
                Some((frames, _)) => Some(frames as nat),
                None => None::<nat>,
            }) == tick_step(old(self).window_size(), old(self).pending()),
    {
        proof {
            use_type_invariant(&*self);
        }
        let next = self.count + 1;
        if next < self.window_size {
            self.count = next;
            return None;
        }
        let elapsed = instant_elapsed(&self.started_at);
        let now = instant_now();
        Some(self.close_window(elapsed, now))
    }
}

} // verus!
