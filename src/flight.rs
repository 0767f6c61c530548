//! The player's engine, fuel and mass, driven by the controls of one tick.
use vstd::prelude::*;

verus! {

/// Fuel in a full tank.
pub const MAX_FUEL: u32 = 1000;

/// Fuel burnt by each tick of main-engine thrust.
pub const FUEL_CONSUMPTION_RATE: u32 = 1;

/// Mass of the lander with an empty tank.
pub const DRY_MASS: u32 = 800;

/// Mass of one unit of fuel.
pub const FUEL_MASS_FACTOR: u32 = 1;

/// Force of the main engine, along the lander's up axis.
pub const THRUST: i64 = 12_000_000;

/// Angular acceleration of each rotation input, in milliradians per second squared.
pub const ROTATION_THRUST: i64 = 3_000;

/// Horizontal speed of a freshly spawned lander.
pub const INITIAL_HORIZONTAL_SPEED: i64 = 50_000;

/// Tilt of a freshly spawned lander, in milliradians: it enters the level
/// turned a quarter turn, rounded to the nearest milliradian.
pub const INITIAL_TILT: i64 = 1_571;

/// Score multiplier away from any pad, in hundredths.
pub const BASE_SCORE_MULTIPLIER: u32 = 100;

#[derive(Clone, Copy, Debug, PartialEq, Eq, Structural)]
pub enum FlightState {
    Idle,
    Firing,
    Crashed,
}

/// The body's motion as the physics engine last reported it.
#[derive(Clone, Copy, Debug, PartialEq, Eq, Structural)]
pub struct Motion {
    /// Horizontal velocity.
    pub vx: i64,
    /// Vertical velocity.
    pub vy: i64,
    /// Angular velocity, in milliradians per second.
    pub spin: i64,
    /// Rotation away from upright, in milliradians.
    pub tilt: i64,
}

/// The lander.
#[derive(Clone, Copy, Debug, PartialEq, Eq, Structural)]
pub struct Player {
    pub fuel: u32,
    /// Always `DRY_MASS + fuel * FUEL_MASS_FACTOR`.
    pub mass: u32,
    pub flight_state: FlightState,
    /// Touching terrain.
    pub grounded: bool,
    /// In hundredths; `BASE_SCORE_MULTIPLIER` away from pads.
    pub score_multiplier: u32,
    pub motion: Motion,
    /// Locked in place after a crash: no input moves it any more.
    pub frozen: bool,
}

/// Which inputs are down, or changed, during one tick.
#[derive(Clone, Copy, Debug, PartialEq, Eq, Structural)]
pub struct Controls {
    pub rotate_left: bool,
    pub rotate_right: bool,
    /// The fire input is held down.
    pub fire_held: bool,
    /// The fire input went down this tick.
    pub fire_pressed: bool,
    /// The fire input came up this tick.
    pub fire_released: bool,
    /// The escape input went down this tick.
    pub escape_pressed: bool,
}

/// What the controls ask of the physics engine and of the level for one tick.
#[derive(Clone, Copy, Debug, PartialEq, Eq, Structural)]
pub struct Actuation {
    /// Angular acceleration to apply, in milliradians per second squared.
    pub angular_acceleration: i64,
    /// Apply `THRUST` along the lander's up axis.
    pub thrust: bool,
    /// Leave the level.
    pub leave: bool,
}

pub open spec fn mass_for(fuel: int) -> int {
    DRY_MASS + fuel * FUEL_MASS_FACTOR
}

/// Mass of the lander carrying `fuel`.
pub fn mass_of(fuel: u32) -> (r: u32)
    requires
        fuel <= MAX_FUEL,
    ensures
        r == mass_for(fuel as int),
{
    DRY_MASS + fuel * FUEL_MASS_FACTOR
}

impl Player {
    pub open spec fn new_spec() -> Player {
        Player {
            fuel: MAX_FUEL,
            mass: mass_for(MAX_FUEL as int) as u32,
            flight_state: FlightState::Idle,
            grounded: false,
            score_multiplier: BASE_SCORE_MULTIPLIER,
            motion: Motion { vx: INITIAL_HORIZONTAL_SPEED, vy: 0, spin: 0, tilt: INITIAL_TILT },
            frozen: false,
        }
    }

    pub open spec fn wf(self) -> bool {
        &&& self.fuel <= MAX_FUEL
        &&& self.mass == mass_for(self.fuel as int)
        &&& self.score_multiplier >= BASE_SCORE_MULTIPLIER
    }

    /// A lander with a full tank, idle and airborne, drifting sideways at
    /// `INITIAL_HORIZONTAL_SPEED` and turned by `INITIAL_TILT`.
    pub fn new() -> (r: Self)
        ensures
            r == Player::new_spec(),
            r.wf(),
    {
        Player {
            fuel: MAX_FUEL,
            mass: mass_of(MAX_FUEL),
            flight_state: FlightState::Idle,
            grounded: false,
            score_multiplier: BASE_SCORE_MULTIPLIER,
            motion: Motion { vx: INITIAL_HORIZONTAL_SPEED, vy: 0, spin: 0, tilt: INITIAL_TILT },
            frozen: false,
        }
    }
}

/// The engine fires this tick: fuel is left and the fire input is held.
pub open spec fn fires(p: Player, c: Controls) -> bool {
    p.fuel > 0 && c.fire_held
}

/// Fuel after one tick.
pub open spec fn fuel_after(p: Player, c: Controls) -> int {
    if fires(p, c) {
        if p.fuel >= FUEL_CONSUMPTION_RATE {
            p.fuel - FUEL_CONSUMPTION_RATE
        } else {
            0
        }
    } else {
        p.fuel as int
    }
}

/// Flight state after one tick: a press with fuel left starts firing; a release
/// while firing, or an empty tank, makes the lander idle.
pub open spec fn state_after(p: Player, c: Controls) -> FlightState {
    let pressed = if p.fuel > 0 && c.fire_pressed {
        FlightState::Firing
    } else {
        p.flight_state
    };
    if (c.fire_released && pressed == FlightState::Firing) || fuel_after(p, c) == 0 {
        FlightState::Idle
    } else {
        pressed
    }
}

/// Net angular acceleration of the two rotation inputs.
pub open spec fn turn_of(c: Controls) -> int {
    (if c.rotate_left { ROTATION_THRUST as int } else { 0 }) - (if c.rotate_right {
        ROTATION_THRUST as int
    } else {
        0
    })
}

/// The lander after one tick of controls.
pub open spec fn controlled(p: Player, c: Controls) -> Player {
    Player {
        fuel: fuel_after(p, c) as u32,
        mass: mass_for(fuel_after(p, c)) as u32,
        flight_state: state_after(p, c),
        ..p
    }
}

impl Player {
    /// Applies one tick of controls: rotation inputs turn the lander, the fire
    /// input burns fuel and pushes along the up axis while fuel is left, and
    /// the mass follows the fuel.
    pub fn apply_controls(&mut self, c: &Controls) -> (r: Actuation)
        requires
            old(self).wf(),
        ensures
            *final(self) == controlled(*old(self), *c),
            final(self).wf(),
            final(self).fuel <= old(self).fuel,
            final(self).fuel == 0 ==> final(self).flight_state == FlightState::Idle,
            r.angular_acceleration == turn_of(*c),
            r.thrust == fires(*old(self), *c),
            r.leave == c.escape_pressed,
    {
        let mut angular_acceleration: i64 = 0;
        if c.rotate_left {
            angular_acceleration = angular_acceleration + ROTATION_THRUST;
        }
        if c.rotate_right {
            angular_acceleration = angular_acceleration - ROTATION_THRUST;
        }
        let mut thrust = false;
        if self.fuel > 0 {
            if c.fire_pressed {
                self.flight_state = FlightState::Firing;
            }
            if c.fire_held {
                thrust = true;
                self.fuel = self.fuel.saturating_sub(FUEL_CONSUMPTION_RATE);
                self.mass = mass_of(self.fuel);
            }
        }
        if (c.fire_released && self.flight_state == FlightState::Firing) || self.fuel == 0 {
            self.flight_state = FlightState::Idle;
        }
        Actuation { angular_acceleration, thrust, leave: c.escape_pressed }
    }
}

/// The lander after the ticks of controls `cs`, in order.
pub open spec fn after_ticks(p: Player, cs: Seq<Controls>) -> Player
    decreases cs.len(),
{
    if cs.len() == 0 {
        p
    } else {
        controlled(after_ticks(p, cs.drop_last()), cs.last())
    }
}

/// Over any run of ticks, fuel never rises and stays within the tank, and the
/// mass always matches the fuel on board.
pub proof fn lemma_fuel_never_rises(p: Player, cs: Seq<Controls>, i: int, j: int)
    requires
        p.wf(),
        0 <= i <= j <= cs.len(),
    ensures
        after_ticks(p, cs.take(j)).wf(),
        after_ticks(p, cs.take(j)).fuel <= after_ticks(p, cs.take(i)).fuel,
        after_ticks(p, cs.take(j)).mass == DRY_MASS + after_ticks(p, cs.take(j)).fuel * FUEL_MASS_FACTOR,
    decreases j,
{
    if j > 0 {
        assert(cs.take(j).drop_last() =~= cs.take(j - 1));
        if i < j {
            lemma_fuel_never_rises(p, cs, i, j - 1);
        } else {
            lemma_fuel_never_rises(p, cs, j - 1, j - 1);
        }
    }
}

} // verus!
