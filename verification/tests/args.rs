use sepia::args::{AppArgs, DEFAULT_INTERVAL_SECONDS, DEFAULT_SENSITIVITY};
use sepia::control::{listener_continues, loop_continues, requests_quit};

fn args(time: Option<u64>, motion_triggered: bool, sensitivity: Option<u32>) -> AppArgs {
    AppArgs { time, verbose: false, dir: None, motion_triggered, sensitivity }
}

#[test]
fn interval_defaults_to_one_second() {
    assert_eq!(DEFAULT_INTERVAL_SECONDS, 1);
    assert_eq!(args(None, false, None).interval_seconds(), 1);
    assert_eq!(args(Some(30), false, None).interval_seconds(), 30);
    assert_eq!(args(Some(0), false, None).interval_seconds(), 0);
}

#[test]
fn threshold_is_zero_without_comparison() {
    assert_eq!(args(None, false, None).threshold(), 0);
    assert_eq!(args(None, false, Some(40)).threshold(), 0);
}

#[test]
fn threshold_with_comparison() {
    assert_eq!(DEFAULT_SENSITIVITY, 100);
    assert_eq!(args(None, true, None).threshold(), 100);
    assert_eq!(args(None, true, Some(40)).threshold(), 40);
    assert_eq!(args(None, true, Some(0)).threshold(), 0);
}

#[test]
fn only_q_requests_quit() {
    assert!(requests_quit('q'));
    assert!(!requests_quit('Q'));
    assert!(!requests_quit('x'));
    assert!(!requests_quit('\n'));
}

#[test]
fn listener_stops_on_q_or_closed_channel() {
    assert!(listener_continues('x', true));
    assert!(!listener_continues('q', true));
    assert!(!listener_continues('x', false));
    assert!(!listener_continues('q', false));
}

#[test]
fn loop_stops_only_on_pending_q() {
    assert!(loop_continues(None));
    assert!(loop_continues(Some('a')));
    assert!(!loop_continues(Some('q')));
}
