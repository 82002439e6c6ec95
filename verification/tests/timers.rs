//! The timer registry: the running flag across single-shot and repeated
//! ticks, interval changes, and the exact "not found" message.

use ring_slint::timer::{TimerError, TimerRegistry};

#[test]
fn single_shot_stops_after_first_tick() {
    // timerStart(100, repeated=false, cb), then one tick: timerRunning
    // reports false immediately afterwards.
    let mut reg = TimerRegistry::new();
    assert!(reg.has_capacity());
    let id = reg.timer_start(100, false, 7, "OnTimeout".to_string());
    assert_eq!(reg.timer_running(id), Ok(true));
    let (code, vm) = reg.on_tick(id).unwrap();
    assert_eq!(code, "ontimeout()");
    assert_eq!(vm, 7);
    assert_eq!(reg.timer_running(id), Ok(false));
}

#[test]
fn repeated_timer_keeps_running() {
    let mut reg = TimerRegistry::new();
    let id = reg.timer_start(50, true, 1, "tick".to_string());
    reg.on_tick(id).unwrap();
    reg.on_tick(id).unwrap();
    assert_eq!(reg.timer_running(id), Ok(true));
}

#[test]
fn set_interval_on_unknown_id_reports_not_found() {
    let mut reg = TimerRegistry::new();
    let err = reg.timer_set_interval(42, 500).unwrap_err();
    assert_eq!(err, TimerError::NotFound { id: 42 });
    assert_eq!(err.message(), "Timer 42 not found");
}

#[test]
fn set_interval_keeps_everything_else() {
    let mut reg = TimerRegistry::new();
    let id = reg.timer_start(100, false, 3, "cb".to_string());
    reg.on_tick(id).unwrap();
    reg.timer_set_interval(id, 250).unwrap();
    // Still stopped: changing the interval does not restart a fired
    // single-shot timer.
    assert_eq!(reg.timer_running(id), Ok(false));
}

#[test]
fn restart_marks_running_again() {
    let mut reg = TimerRegistry::new();
    let id = reg.timer_start(100, false, 3, "cb".to_string());
    reg.on_tick(id).unwrap();
    assert_eq!(reg.timer_running(id), Ok(false));
    reg.timer_restart(id).unwrap();
    assert_eq!(reg.timer_running(id), Ok(true));
    assert_eq!(reg.timer_restart(99), Err(TimerError::NotFound { id: 99 }));
}

#[test]
fn stop_discards_the_timer() {
    let mut reg = TimerRegistry::new();
    let id = reg.timer_start(100, true, 3, "cb".to_string());
    assert_eq!(reg.timer_stop(id), Ok(()));
    assert_eq!(reg.timer_running(id), Err(TimerError::NotFound { id }));
    assert_eq!(reg.timer_stop(id), Err(TimerError::NotFound { id }));
    // A tick that races a stop dispatches nothing.
    assert_eq!(reg.on_tick(id), Err(TimerError::NotFound { id }));
}

#[test]
fn timer_ids_increase_and_are_not_reused() {
    let mut reg = TimerRegistry::new();
    let a = reg.timer_start(10, true, 1, "a".to_string());
    let b = reg.timer_start(10, true, 1, "b".to_string());
    assert_eq!(a, 1);
    assert_eq!(b, 2);
    reg.timer_stop(a).unwrap();
    let c = reg.timer_start(10, true, 1, "c".to_string());
    assert_ne!(c, a);
}

#[test]
fn tick_code_lowercases_unicode() {
    // The host looks functions up by their lowercase name; the folding is
    // the full Unicode one, so a non-ASCII callback name folds too.
    let mut reg = TimerRegistry::new();
    let id = reg.timer_start(10, true, 1, "Zähler".to_string());
    let (code, _) = reg.on_tick(id).unwrap();
    assert_eq!(code, "zähler()");
}
