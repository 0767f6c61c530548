use moon_landr::phase::{landing_conditions_hold, WinTimer, WIN_DURATION};
use moon_landr::flight::{Motion, Player};

const TENTH: u64 = 100_000_000;

#[test]
fn timer_wins_after_an_unbroken_span() {
    let mut t = WinTimer::new();
    for _ in 0..29 {
        assert!(!t.step(true, TENTH));
    }
    assert_eq!(t.elapsed, 29 * TENTH);
    assert!(t.step(true, TENTH));
    assert_eq!(t.elapsed, WIN_DURATION);
    assert!(!t.step(true, TENTH));
}

#[test]
fn timer_break_just_before_the_deadline_restarts_it() {
    let mut t = WinTimer::new();
    for _ in 0..29 {
        assert!(!t.step(true, TENTH));
    }
    // The conditions break 0.1 s before the duration runs out.
    assert!(!t.step(false, TENTH));
    assert!(t.paused);
    assert_eq!(t.elapsed, 29 * TENTH);
    // At the original deadline nothing fires, and the count restarts from zero.
    assert!(!t.step(true, TENTH));
    assert!(!t.paused);
    assert_eq!(t.elapsed, TENTH);
    for _ in 0..28 {
        assert!(!t.step(true, TENTH));
    }
    assert!(t.step(true, TENTH));
}

#[test]
fn timer_paused_stays_paused_while_conditions_fail() {
    let mut t = WinTimer::new();
    assert!(!t.step(false, TENTH));
    assert!(t.paused);
    assert_eq!(t.elapsed, 0);
    assert!(!t.step(false, 10 * WIN_DURATION));
    assert_eq!(t.elapsed, 0);
}

#[test]
fn timer_one_long_tick_wins() {
    let mut t = WinTimer::new();
    assert!(t.step(true, u64::MAX));
    assert_eq!(t.elapsed, WIN_DURATION);
}

#[test]
fn start_rule_restarts_a_paused_timer_from_zero() {
    let mut t = WinTimer { elapsed: 29 * TENTH, paused: true };
    t.start_if_ready(false);
    assert_eq!(t, WinTimer { elapsed: 29 * TENTH, paused: true });
    t.start_if_ready(true);
    assert_eq!(t, WinTimer { elapsed: 0, paused: false });
    let mut running = WinTimer { elapsed: 5 * TENTH, paused: false };
    running.start_if_ready(true);
    assert_eq!(running, WinTimer { elapsed: 5 * TENTH, paused: false });
}

#[test]
fn stop_rule_pauses_and_keeps_the_count() {
    let mut t = WinTimer { elapsed: 12 * TENTH, paused: false };
    t.pause_if_broken(true);
    assert_eq!(t, WinTimer { elapsed: 12 * TENTH, paused: false });
    t.pause_if_broken(false);
    assert_eq!(t, WinTimer { elapsed: 12 * TENTH, paused: true });
    t.pause_if_broken(false);
    assert_eq!(t, WinTimer { elapsed: 12 * TENTH, paused: true });
}

#[test]
fn tick_rule_counts_only_while_running() {
    let mut t = WinTimer { elapsed: 12 * TENTH, paused: true };
    assert!(!t.advance(TENTH));
    assert_eq!(t.elapsed, 12 * TENTH);
    let mut t = WinTimer { elapsed: 12 * TENTH, paused: false };
    assert!(!t.advance(TENTH));
    assert_eq!(t.elapsed, 13 * TENTH);
    assert!(t.advance(WIN_DURATION));
    assert_eq!(t.elapsed, WIN_DURATION);
    assert!(!t.advance(TENTH));
}

fn resting(m: Motion) -> Player {
    Player { grounded: true, motion: m, ..Player::new() }
}

#[test]
fn landing_conditions() {
    let still = Motion { vx: 0, vy: 0, spin: 0, tilt: 0 };
    assert!(landing_conditions_hold(&resting(still)));
    assert!(!landing_conditions_hold(&Player { grounded: false, ..resting(still) }));
    assert!(landing_conditions_hold(&resting(Motion { vx: 3_000, vy: -3_999, ..still })));
    assert!(!landing_conditions_hold(&resting(Motion { vx: 3_000, vy: 4_000, ..still })));
    assert!(!landing_conditions_hold(&resting(Motion { vx: -5_000, ..still })));
    assert!(!landing_conditions_hold(&resting(Motion { vy: i64::MIN, ..still })));
    assert!(landing_conditions_hold(&resting(Motion { spin: -99, ..still })));
    assert!(!landing_conditions_hold(&resting(Motion { spin: 100, ..still })));
    assert!(landing_conditions_hold(&resting(Motion { tilt: 1_570, ..still })));
    assert!(!landing_conditions_hold(&resting(Motion { tilt: -1_571, ..still })));
}
