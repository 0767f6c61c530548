//! One level of flight: the lander, the win timer and the phase, advanced a
//! tick at a time.
use vstd::prelude::*;
use crate::contact::{after_contacts, contacts_wf, is_crash, is_crash_spec, Contact};
use crate::flight::{controlled, fires, mass_for, turn_of, Controls, FlightState, Motion, Player, MAX_FUEL};
use crate::phase::{landing_conditions_hold, landing_ok, timer_after, WinTimer, WIN_DURATION};

verus! {

#[derive(Clone, Copy, Debug, PartialEq, Eq, Structural)]
pub enum Phase {
    Running,
    Win,
    Lose,
}

/// What the outside world reports for one tick.
#[derive(Clone, Debug)]
pub struct TickInput {
    pub controls: Controls,
    /// The confirm input went down this tick.
    pub confirm_pressed: bool,
    /// Contacts that began during the last physics step.
    pub started: Vec<Contact>,
    /// Contacts that ended during the last physics step.
    pub ended: Vec<Contact>,
    /// Normal impulse magnitude of each contact the lander now has, in thousandths.
    pub impulses: Vec<u64>,
    /// The lander's motion after the last physics step.
    pub motion: Motion,
    /// Length of the tick, in nanoseconds.
    pub delta: u64,
}

/// What the level asks of the outside world after one tick.
#[derive(Clone, Copy, Debug, PartialEq, Eq, Structural)]
pub struct TickOutput {
    /// Angular acceleration to apply to the lander, in milliradians per second squared.
    pub angular_acceleration: i64,
    /// Apply the main engine's thrust along the lander's up axis.
    pub thrust: bool,
    /// Stop the lander and lock all its motion.
    pub freeze: bool,
    /// Leave the level for the menu.
    pub leave: bool,
}

/// A level in progress.
#[derive(Clone, Copy, Debug, PartialEq, Eq, Structural)]
pub struct Level {
    pub player: Player,
    pub timer: WinTimer,
    pub phase: Phase,
}

/// The lander once it has crashed: stopped, locked, and marked crashed.
pub open spec fn crashed(p: Player) -> Player {
    Player {
        flight_state: FlightState::Crashed,
        motion: Motion { vx: 0, vy: 0, spin: 0, ..p.motion },
        frozen: true,
        ..p
    }
}

/// The lander after taking in the motion and contacts that the physics engine reported.
pub open spec fn sensed(p: Player, i: TickInput) -> Player {
    after_contacts(Player { motion: i.motion, ..p }, i.started@, i.ended@)
}

/// The level and the output after one tick.
///
/// Outside `Running` only the confirm input counts: it leaves the level.
/// In `Running` the lander first takes in the physics engine's report; a crash
/// ends the level at once in `Lose`. Otherwise the controls act, and the win
/// timer advances on the landing conditions, moving to `Win` when it runs out.
pub open spec fn level_after(l: Level, i: TickInput) -> (Level, TickOutput) {
    if l.phase != Phase::Running {
        (l, TickOutput { angular_acceleration: 0, thrust: false, freeze: false, leave: i.confirm_pressed })
    } else if is_crash_spec(i.started@, i.impulses@) {
        (
            Level { player: crashed(sensed(l.player, i)), phase: Phase::Lose, ..l },
            TickOutput { angular_acceleration: 0, thrust: false, freeze: true, leave: false },
        )
    } else {
        let p = sensed(l.player, i);
        let (t, won) = timer_after(l.timer, landing_ok(p), i.delta);
        (
            Level {
                player: controlled(p, i.controls),
                timer: t,
                phase: if won {
                    Phase::Win
                } else {
                    Phase::Running
                },
            },
            TickOutput {
                angular_acceleration: turn_of(i.controls) as i64,
                thrust: fires(p, i.controls),
                freeze: false,
                leave: i.controls.escape_pressed,
            },
        )
    }
}

impl Level {
    pub open spec fn wf(self) -> bool {
        self.player.wf() && self.timer.wf()
    }

    pub open spec fn new_spec() -> Level {
        Level {
            player: Player::new_spec(),
            timer: WinTimer { elapsed: 0, paused: false },
            phase: Phase::Running,
        }
    }

    /// A fresh level: a full, idle lander, a running timer at zero, phase `Running`.
    pub fn new() -> (r: Self)
        ensures
            r == Level::new_spec(),
            r.wf(),
    {
        Level { player: Player::new(), timer: WinTimer::new(), phase: Phase::Running }
    }

    /// Advances the level by one tick.
    pub fn tick(&mut self, i: &TickInput) -> (r: TickOutput)
        requires
            old(self).wf(),
            contacts_wf(i.started@),
        ensures
            (*final(self), r) == level_after(*old(self), *i),
            final(self).wf(),
            old(self).phase == Phase::Running ==> (final(self).phase == Phase::Lose <==> is_crash_spec(
                i.started@,
                i.impulses@,
            )),
            old(self).phase != Phase::Running ==> *final(self) == *old(self) && !r.thrust
                && r.angular_acceleration == 0,
    {
        if self.phase != Phase::Running {
            return TickOutput {
                angular_acceleration: 0,
                thrust: false,
                freeze: false,
                leave: i.confirm_pressed,
            };
        }
        self.player.motion = i.motion;
        self.player.record_contacts(&i.started, &i.ended);
        if is_crash(&i.started, &i.impulses) {
            self.player.flight_state = FlightState::Crashed;
            self.player.motion.vx = 0;
            self.player.motion.vy = 0;
            self.player.motion.spin = 0;
            self.player.frozen = true;
            self.phase = Phase::Lose;
            return TickOutput { angular_acceleration: 0, thrust: false, freeze: true, leave: false };
        }
        let ok = landing_conditions_hold(&self.player);
        let won = self.timer.step(ok, i.delta);
        let act = self.player.apply_controls(&i.controls);
        if won {
            self.phase = Phase::Win;
        }
        TickOutput {
            angular_acceleration: act.angular_acceleration,
            thrust: act.thrust,
            freeze: false,
            leave: act.leave,
        }
    }
}

/// The level after the ticks `inputs`, in order.
pub open spec fn level_run(l: Level, inputs: Seq<TickInput>) -> Level
    decreases inputs.len(),
{
    if inputs.len() == 0 {
        l
    } else {
        level_after(level_run(l, inputs.drop_last()), inputs.last()).0
    }
}

/// Total length of the ticks `inputs`.
pub open spec fn total_delta(inputs: Seq<TickInput>) -> int
    decreases inputs.len(),
{
    if inputs.len() == 0 {
        0
    } else {
        total_delta(inputs.drop_last()) + inputs.last().delta
    }
}

/// A steady landing wins: from a fresh level, if no tick crashes, the engine is
/// never fired, and the landing conditions hold on every tick, then once the
/// ticks add up to `WIN_DURATION` the level is won with the tank still full.
pub proof fn lemma_steady_landing_wins(inputs: Seq<TickInput>)
    requires
        forall|k: int| 0 <= k < inputs.len() ==> !is_crash_spec(#[trigger] inputs[k].started@, inputs[k].impulses@),
        forall|k: int| 0 <= k < inputs.len() ==> !(#[trigger] inputs[k].controls).fire_held,
        forall|k: int|
            0 <= k < inputs.len() ==> landing_ok(
                sensed(level_run(Level::new_spec(), inputs.take(k)).player, #[trigger] inputs[k]),
            ),
        total_delta(inputs) >= WIN_DURATION,
    ensures
        level_run(Level::new_spec(), inputs).phase == Phase::Win,
        level_run(Level::new_spec(), inputs).player.fuel == MAX_FUEL,
        level_run(Level::new_spec(), inputs).player.mass == mass_for(MAX_FUEL as int),
{
    lemma_steady_landing_prefix(inputs, inputs.len() as int);
    assert(inputs.take(inputs.len() as int) =~= inputs);
}

proof fn lemma_steady_landing_prefix(inputs: Seq<TickInput>, n: int)
    requires
        0 <= n <= inputs.len(),
        forall|k: int| 0 <= k < inputs.len() ==> !is_crash_spec(#[trigger] inputs[k].started@, inputs[k].impulses@),
        forall|k: int| 0 <= k < inputs.len() ==> !(#[trigger] inputs[k].controls).fire_held,
        forall|k: int|
            0 <= k < inputs.len() ==> landing_ok(
                sensed(level_run(Level::new_spec(), inputs.take(k)).player, #[trigger] inputs[k]),
            ),
    ensures
        ({
            let l = level_run(Level::new_spec(), inputs.take(n));
            &&& l.player.fuel == MAX_FUEL
            &&& l.player.mass == mass_for(MAX_FUEL as int)
            &&& l.phase == Phase::Win || (l.phase == Phase::Running && !l.timer.paused
                && l.timer.elapsed == total_delta(inputs.take(n)) && total_delta(inputs.take(n))
                < WIN_DURATION)
        }),
        total_delta(inputs.take(n)) >= WIN_DURATION ==> level_run(Level::new_spec(), inputs.take(n)).phase
            == Phase::Win,
    decreases n,
{
    if n > 0 {
        lemma_steady_landing_prefix(inputs, n - 1);
        let prefix = inputs.take(n);
        assert(prefix.drop_last() =~= inputs.take(n - 1));
        assert(prefix.last() == inputs[n - 1]);
        let i = inputs[n - 1];
        assert(!is_crash_spec(i.started@, i.impulses@));
        assert(!i.controls.fire_held);
        assert(landing_ok(sensed(level_run(Level::new_spec(), inputs.take(n - 1)).player, i)));
        lemma_total_delta_nonneg(inputs.take(n - 1));
    } else {
        assert(inputs.take(0) =~= Seq::<TickInput>::empty());
    }
}

proof fn lemma_total_delta_nonneg(inputs: Seq<TickInput>)
    ensures
        total_delta(inputs) >= 0,
    decreases inputs.len(),
{
    if inputs.len() > 0 {
        lemma_total_delta_nonneg(inputs.drop_last());
    }
}

} // verus!
