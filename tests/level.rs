use moon_landr::contact::{BodyKind, Contact, SAFE_LANDING_IMPULSE};
use moon_landr::flight::{Controls, FlightState, Motion, MAX_FUEL};
use moon_landr::level::{Level, Phase, TickInput};
use moon_landr::phase::WIN_DURATION;

const FRAME: u64 = 16_666_667;

fn no_controls() -> Controls {
    Controls {
        rotate_left: false,
        rotate_right: false,
        fire_held: false,
        fire_pressed: false,
        fire_released: false,
        escape_pressed: false,
    }
}

fn quiet(motion: Motion) -> TickInput {
    TickInput {
        controls: no_controls(),
        confirm_pressed: false,
        started: vec![],
        ended: vec![],
        impulses: vec![],
        motion,
        delta: FRAME,
    }
}

fn touchdown() -> Vec<Contact> {
    vec![Contact { first: BodyKind::Lander, second: BodyKind::Terrain }]
}

#[test]
fn free_fall_onto_flat_ground_wins() {
    let mut level = Level::new();
    assert_eq!(level.player.fuel, MAX_FUEL);
    assert_eq!(level.player.mass, 1_800);
    assert_eq!((level.player.motion.vx, level.player.motion.vy), (50_000, 0));
    assert!(!level.player.grounded);
    assert_eq!(level.phase, Phase::Running);
    // Falling.
    for k in 0..60 {
        let out = level.tick(&quiet(Motion { vx: 0, vy: -100 * k, spin: 0, tilt: 0 }));
        assert!(!out.thrust);
        assert_eq!(level.phase, Phase::Running);
    }
    // Gentle touchdown.
    let mut land = quiet(Motion { vx: 100, vy: -4_000, spin: 0, tilt: 10 });
    land.started = touchdown();
    land.impulses = vec![SAFE_LANDING_IMPULSE / 3];
    level.tick(&land);
    assert!(level.player.grounded);
    assert_eq!(level.phase, Phase::Running);
    // At rest until the win duration has passed.
    let rest = quiet(Motion { vx: 0, vy: 0, spin: 0, tilt: 10 });
    let mut ticks: u64 = 1;
    while level.phase == Phase::Running {
        level.tick(&rest);
        ticks += 1;
        assert!(ticks < 1_000);
    }
    assert_eq!(level.phase, Phase::Win);
    assert!(ticks * FRAME >= WIN_DURATION);
    assert!((ticks - 1) * FRAME < WIN_DURATION);
    assert_eq!(level.player.fuel, MAX_FUEL);
}

#[test]
fn firing_until_empty_turns_idle_on_the_last_drop() {
    let mut level = Level::new();
    let mut input = quiet(Motion { vx: 0, vy: 0, spin: 0, tilt: 0 });
    input.controls = Controls { fire_held: true, fire_pressed: true, ..no_controls() };
    let out = level.tick(&input);
    assert!(out.thrust);
    assert_eq!(level.player.flight_state, FlightState::Firing);
    input.controls = Controls { fire_held: true, ..no_controls() };
    while level.player.fuel > 1 {
        level.tick(&input);
        assert_eq!(level.player.flight_state, FlightState::Firing);
    }
    let out = level.tick(&input);
    assert!(out.thrust);
    assert_eq!(level.player.fuel, 0);
    assert_eq!(level.player.flight_state, FlightState::Idle);
    assert_eq!(level.player.mass, 800);
    let out = level.tick(&input);
    assert!(!out.thrust);
    assert_eq!(level.player.flight_state, FlightState::Idle);
}

#[test]
fn hard_impact_loses_and_freezes() {
    let mut level = Level::new();
    let mut hit = quiet(Motion { vx: 20_000, vy: -40_000, spin: 500, tilt: 300 });
    hit.started = touchdown();
    hit.impulses = vec![SAFE_LANDING_IMPULSE, 1];
    hit.controls = Controls { fire_held: true, rotate_left: true, ..no_controls() };
    let out = level.tick(&hit);
    assert!(out.freeze);
    assert!(!out.thrust);
    assert_eq!(out.angular_acceleration, 0);
    assert_eq!(level.phase, Phase::Lose);
    assert_eq!(level.player.flight_state, FlightState::Crashed);
    assert_eq!((level.player.motion.vx, level.player.motion.vy, level.player.motion.spin), (0, 0, 0));
    assert!(level.player.frozen);
    // Further input moves nothing.
    let before = level;
    let mut push = quiet(Motion { vx: 1, vy: 1, spin: 1, tilt: 1 });
    push.controls = Controls { fire_held: true, fire_pressed: true, rotate_right: true, ..no_controls() };
    let out = level.tick(&push);
    assert!(!out.thrust);
    assert_eq!(out.angular_acceleration, 0);
    assert!(!out.freeze);
    assert_eq!(level, before);
    assert_eq!(level.player.fuel, MAX_FUEL);
}

#[test]
fn impact_at_the_limit_is_a_landing() {
    let mut level = Level::new();
    let mut hit = quiet(Motion { vx: 0, vy: -4_000, spin: 0, tilt: 0 });
    hit.started = touchdown();
    hit.impulses = vec![SAFE_LANDING_IMPULSE - 1];
    let out = level.tick(&hit);
    assert!(!out.freeze);
    assert_eq!(level.phase, Phase::Running);
    assert!(level.player.grounded);
}

#[test]
fn big_impulse_without_terrain_start_is_no_crash() {
    let mut level = Level::new();
    let mut input = quiet(Motion { vx: 0, vy: 0, spin: 0, tilt: 0 });
    input.impulses = vec![SAFE_LANDING_IMPULSE * 10];
    level.tick(&input);
    assert_eq!(level.phase, Phase::Running);
}

#[test]
fn confirm_leaves_after_the_end() {
    let mut level = Level::new();
    let mut hit = quiet(Motion { vx: 0, vy: 0, spin: 0, tilt: 0 });
    hit.started = touchdown();
    hit.impulses = vec![SAFE_LANDING_IMPULSE + 1];
    level.tick(&hit);
    assert_eq!(level.phase, Phase::Lose);
    let out = level.tick(&quiet(Motion { vx: 0, vy: 0, spin: 0, tilt: 0 }));
    assert!(!out.leave);
    let mut confirm = quiet(Motion { vx: 0, vy: 0, spin: 0, tilt: 0 });
    confirm.confirm_pressed = true;
    let out = level.tick(&confirm);
    assert!(out.leave);
    assert_eq!(level.phase, Phase::Lose);
}

#[test]
fn escape_leaves_while_running() {
    let mut level = Level::new();
    let mut input = quiet(Motion { vx: 0, vy: 0, spin: 0, tilt: 0 });
    input.controls = Controls { escape_pressed: true, ..no_controls() };
    let out = level.tick(&input);
    assert!(out.leave);
}

#[test]
fn leaving_the_ground_restarts_the_win_timer() {
    let mut level = Level::new();
    let mut land = quiet(Motion { vx: 0, vy: 0, spin: 0, tilt: 0 });
    land.started = touchdown();
    land.delta = 2_900_000_000;
    level.tick(&land);
    assert_eq!(level.timer.elapsed, 2_900_000_000);
    let mut hop = quiet(Motion { vx: 0, vy: 0, spin: 0, tilt: 0 });
    hop.ended = touchdown();
    hop.delta = 100_000_000;
    level.tick(&hop);
    assert!(level.timer.paused);
    assert_eq!(level.phase, Phase::Running);
    let mut back = quiet(Motion { vx: 0, vy: 0, spin: 0, tilt: 0 });
    back.started = touchdown();
    back.delta = 100_000_000;
    level.tick(&back);
    assert_eq!(level.phase, Phase::Running);
    assert_eq!(level.timer.elapsed, 100_000_000);
}
