//! The debounced win timer and the level's phase machine.
use vstd::prelude::*;
use crate::flight::Player;

verus! {

/// How long the landing conditions must hold without a break, in nanoseconds.
pub const WIN_DURATION: u64 = 3_000_000_000;

/// Speed below which the lander counts as at rest.
pub const LANDING_SPEED_LIMIT: i64 = 5_000;

/// Angular speed below which the lander counts as at rest, in milliradians per second.
pub const LANDING_SPIN_LIMIT: i64 = 100;

/// Tilt below which the lander counts as upright, in milliradians: a quarter
/// turn, rounded up to a whole milliradian.
pub const LANDING_TILT_LIMIT: i64 = 1_571;

/// The four landing conditions: on the ground, slow, hardly turning, and upright.
pub open spec fn landing_ok(p: Player) -> bool {
    &&& p.grounded
    &&& p.motion.vx * p.motion.vx + p.motion.vy * p.motion.vy < LANDING_SPEED_LIMIT * LANDING_SPEED_LIMIT
    &&& -LANDING_SPIN_LIMIT < p.motion.spin < LANDING_SPIN_LIMIT
    &&& -LANDING_TILT_LIMIT < p.motion.tilt < LANDING_TILT_LIMIT
}

/// Whether the lander meets the four landing conditions.
pub fn landing_conditions_hold(p: &Player) -> (r: bool)
    ensures
        r == landing_ok(*p),
{
    let m = p.motion;
    if !p.grounded {
        return false;
    }
    if !(-LANDING_SPIN_LIMIT < m.spin && m.spin < LANDING_SPIN_LIMIT) {
        return false;
    }
    if !(-LANDING_TILT_LIMIT < m.tilt && m.tilt < LANDING_TILT_LIMIT) {
        return false;
    }
    if m.vx <= -LANDING_SPEED_LIMIT || m.vx >= LANDING_SPEED_LIMIT || m.vy <= -LANDING_SPEED_LIMIT
        || m.vy >= LANDING_SPEED_LIMIT {
        proof {
            assert(m.vx * m.vx >= 0 && m.vy * m.vy >= 0) by (nonlinear_arith);
            if m.vx <= -LANDING_SPEED_LIMIT || m.vx >= LANDING_SPEED_LIMIT {
                assert(m.vx * m.vx >= LANDING_SPEED_LIMIT * LANDING_SPEED_LIMIT) by (nonlinear_arith)
                    requires
                        m.vx <= -LANDING_SPEED_LIMIT || m.vx >= LANDING_SPEED_LIMIT,
                ;
            } else {
                assert(m.vy * m.vy >= LANDING_SPEED_LIMIT * LANDING_SPEED_LIMIT) by (nonlinear_arith)
                    requires
                        m.vy <= -LANDING_SPEED_LIMIT || m.vy >= LANDING_SPEED_LIMIT,
                ;
            }
        }
        return false;
    }
    assert(0 <= m.vx * m.vx < LANDING_SPEED_LIMIT * LANDING_SPEED_LIMIT && 0 <= m.vy * m.vy
        < LANDING_SPEED_LIMIT * LANDING_SPEED_LIMIT) by (nonlinear_arith)
        requires
            -LANDING_SPEED_LIMIT < m.vx < LANDING_SPEED_LIMIT,
            -LANDING_SPEED_LIMIT < m.vy < LANDING_SPEED_LIMIT,
    ;
    m.vx * m.vx + m.vy * m.vy < LANDING_SPEED_LIMIT * LANDING_SPEED_LIMIT
}

/// Counts how long the landing conditions have held without a break.
#[derive(Clone, Copy, Debug, PartialEq, Eq, Structural)]
pub struct WinTimer {
    /// Nanoseconds counted since the timer last started.
    pub elapsed: u64,
    pub paused: bool,
}

impl WinTimer {
    pub open spec fn wf(self) -> bool {
        self.elapsed <= WIN_DURATION
    }

    /// A running timer at zero.
    pub fn new() -> (r: Self)
        ensures
            r.wf(),
            r.elapsed == 0,
            !r.paused,
    {
        WinTimer { elapsed: 0, paused: false }
    }
}

/// The start rule: a paused timer whose conditions hold starts again from zero.
pub open spec fn started_if_ready(t: WinTimer, ok: bool) -> WinTimer {
    if t.paused && ok {
        WinTimer { elapsed: 0, paused: false }
    } else {
        t
    }
}

/// The stop rule: a running timer whose conditions fail pauses, keeping its count.
pub open spec fn paused_if_broken(t: WinTimer, ok: bool) -> WinTimer {
    if !t.paused && !ok {
        WinTimer { paused: true, ..t }
    } else {
        t
    }
}

/// The tick rule: a running timer counts `delta`, stopping at `WIN_DURATION`,
/// and reports whether it reached `WIN_DURATION` on this tick.
pub open spec fn advanced(t: WinTimer, delta: u64) -> (WinTimer, bool) {
    if !t.paused && t.elapsed < WIN_DURATION {
        if t.elapsed + delta >= WIN_DURATION {
            (WinTimer { elapsed: WIN_DURATION, ..t }, true)
        } else {
            (WinTimer { elapsed: (t.elapsed + delta) as u64, ..t }, false)
        }
    } else {
        (t, false)
    }
}

/// One tick of the timer: the start rule, then the stop rule, then the tick rule.
pub open spec fn timer_after(t: WinTimer, ok: bool, delta: u64) -> (WinTimer, bool) {
    advanced(paused_if_broken(started_if_ready(t, ok), ok), delta)
}

impl WinTimer {
    /// Applies the start rule; `ok` tells whether the landing conditions hold.
    pub fn start_if_ready(&mut self, ok: bool)
        requires
            old(self).wf(),
        ensures
            *final(self) == started_if_ready(*old(self), ok),
            final(self).wf(),
    {
        if self.paused && ok {
            self.elapsed = 0;
            self.paused = false;
        }
    }

    /// Applies the stop rule; `ok` tells whether the landing conditions hold.
    pub fn pause_if_broken(&mut self, ok: bool)
        requires
            old(self).wf(),
        ensures
            *final(self) == paused_if_broken(*old(self), ok),
            final(self).wf(),
    {
        if !self.paused && !ok {
            self.paused = true;
        }
    }

    /// Applies the tick rule for `delta` nanoseconds. Returns whether the timer
    /// reached `WIN_DURATION` on this tick.
    pub fn advance(&mut self, delta: u64) -> (won: bool)
        requires
            old(self).wf(),
        ensures
            (*final(self), won) == advanced(*old(self), delta),
            final(self).wf(),
    {
        if !self.paused && self.elapsed < WIN_DURATION {
            if delta >= WIN_DURATION - self.elapsed {
                self.elapsed = WIN_DURATION;
                true
            } else {
                self.elapsed = self.elapsed + delta;
                false
            }
        } else {
            false
        }
    }

    /// Advances the timer by one tick of `delta` nanoseconds, `ok` telling
    /// whether the landing conditions hold. Returns whether the timer reached
    /// `WIN_DURATION` on this tick.
    pub fn step(&mut self, ok: bool, delta: u64) -> (won: bool)
        requires
            old(self).wf(),
        ensures
            (*final(self), won) == timer_after(*old(self), ok, delta),
            final(self).wf(),
    {
        self.start_if_ready(ok);
        self.pause_if_broken(ok);
        self.advance(delta)
    }
}

/// Total time of the unbroken run of ticks at the end of `steps` in which the
/// landing conditions held; each step is whether they held, and its duration.
pub open spec fn trailing_ok_time(steps: Seq<(bool, u64)>) -> int
    decreases steps.len(),
{
    if steps.len() == 0 {
        0
    } else if steps.last().0 {
        trailing_ok_time(steps.drop_last()) + steps.last().1
    } else {
        0
    }
}

/// The timer after the ticks `steps` from a fresh one, and whether the last tick won.
pub open spec fn timer_run(steps: Seq<(bool, u64)>) -> (WinTimer, bool)
    decreases steps.len(),
{
    if steps.len() == 0 {
        (WinTimer { elapsed: 0, paused: false }, false)
    } else {
        timer_after(timer_run(steps.drop_last()).0, steps.last().0, steps.last().1)
    }
}

/// The win timer is a debounce: from a fresh timer, the win fires on exactly
/// the tick at which the landing conditions have held without a break for
/// `WIN_DURATION`. Any tick that breaks them pauses the timer, and the next
/// tick that meets them counts again from zero.
pub proof fn lemma_win_needs_unbroken_landing(steps: Seq<(bool, u64)>)
    ensures
        timer_run(steps).1 <==> (steps.len() > 0 && steps.last().0 && trailing_ok_time(steps) >= WIN_DURATION
            && trailing_ok_time(steps.drop_last()) < WIN_DURATION),
        steps.len() > 0 && !steps.last().0 ==> timer_run(steps).0.paused,
        steps.len() == 0 || steps.last().0 ==> !timer_run(steps).0.paused && timer_run(steps).0.elapsed == (
        if trailing_ok_time(steps) < WIN_DURATION {
            trailing_ok_time(steps)
        } else {
            WIN_DURATION as int
        }),
    decreases steps.len(),
{
    if steps.len() > 0 {
        let rest = steps.drop_last();
        lemma_win_needs_unbroken_landing(rest);
        lemma_trailing_ok_time_nonneg(rest);
    }
}

proof fn lemma_trailing_ok_time_nonneg(steps: Seq<(bool, u64)>)
    ensures
        trailing_ok_time(steps) >= 0,
    decreases steps.len(),
{
    if steps.len() > 0 {
        lemma_trailing_ok_time_nonneg(steps.drop_last());
    }
}

} // verus!
