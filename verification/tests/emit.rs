use butt::cli::{Args, HighlightColor};
use butt::emit::{idle_notice, EmitState, NANOS_PER_SECOND};
use butt::pattern::LinePattern;

const MS: u64 = 1_000_000;
const SECOND: u64 = NANOS_PER_SECOND;

fn args(line_seconds: u64, idle_seconds: Option<u64>) -> Args {
    Args {
        path: None,
        line_seconds,
        idle_seconds,
        regex: None,
        color: HighlightColor::Green,
        poll_millis: 10,
        max_buffer_bytes: 1_048_576,
        max_line_bytes: 65_536,
        no_follow_symlinks: false,
        allowed_root: None,
    }
}

#[test]
fn new_sets_both_clocks_from_now() {
    let state = EmitState::new(&args(5, Some(7)), 3 * SECOND);
    assert_eq!(state.next_line_emit, 8_000_000_000);
    assert_eq!(state.next_idle_emit, Some(10_000_000_000));
    assert_eq!(state.last_output, 3_000_000_000);
    assert_eq!(state.latest_line, None);
}

#[test]
fn new_without_idle_interval_has_no_idle_clock() {
    let state = EmitState::new(&args(1, None), 0);
    assert_eq!(state.next_line_emit, 1_000_000_000);
    assert_eq!(state.next_idle_emit, None);
}

#[test]
fn deadlines_do_not_wrap_at_the_end_of_the_range() {
    let state = EmitState::new(&args(u64::MAX, Some(u64::MAX)), u64::MAX);
    let expected = u64::MAX as u128 + u64::MAX as u128 * 1_000_000_000;
    assert_eq!(state.next_line_emit, expected);
    assert_eq!(state.next_idle_emit, Some(expected));
}

#[test]
fn mark_output_emitted_restarts_the_idle_clock_only() {
    let a = args(5, Some(2));
    let mut state = EmitState::new(&a, 0);
    state.latest_line = Some("held".to_string());
    state.mark_output_emitted(4 * SECOND, &a);
    assert_eq!(state.last_output, 4 * SECOND);
    assert_eq!(state.next_idle_emit, Some(6_000_000_000));
    assert_eq!(state.next_line_emit, 5_000_000_000);
    assert_eq!(state.latest_line, Some("held".to_string()));
}

#[test]
fn throttle_shows_only_the_last_of_ten_lines() {
    let a = args(1, None);
    let mut state = EmitState::new(&a, 0);
    let mut shown: Vec<String> = Vec::new();
    let mut now = 0;
    for i in 0..10u64 {
        now = i * 50 * MS;
        shown.extend(state.maybe_emit(&a, None, false, now));
        let line = format!("throttle-msg-{}", i);
        let at_once = state.observe_input(line, &a, None, &a.color, false, now + MS);
        assert_eq!(at_once, None);
    }
    assert!(shown.is_empty());
    while now < 1_400 * MS {
        now += 10 * MS;
        shown.extend(state.maybe_emit(&a, None, false, now));
    }
    assert_eq!(shown, vec!["throttle-msg-9".to_string()]);
}

#[test]
fn throttle_shows_the_line_exactly_at_the_deadline() {
    let a = args(1, None);
    let mut state = EmitState::new(&a, 0);
    state.observe("first".to_string(), false, &a, 100 * MS);
    let early = state.tick(&a, SECOND - 1);
    assert_eq!(early.line, None);
    assert!(!early.idle);
    let due = state.tick(&a, SECOND);
    assert_eq!(due.line, Some("first".to_string()));
    assert_eq!(state.next_line_emit, 2_000_000_000);
    assert_eq!(state.last_output, SECOND);
    assert_eq!(state.latest_line, None);
}

#[test]
fn a_silent_window_still_rolls_forward() {
    let a = args(2, None);
    let mut state = EmitState::new(&a, 0);
    let due = state.tick(&a, 3 * SECOND);
    assert_eq!(due.line, None);
    assert_eq!(state.next_line_emit, 5_000_000_000);
    assert_eq!(state.last_output, 0);
    state.observe("late".to_string(), false, &a, 3 * SECOND + 1);
    assert_eq!(state.tick(&a, 4 * SECOND).line, None);
    assert_eq!(state.tick(&a, 5 * SECOND).line, Some("late".to_string()));
}

#[test]
fn a_match_is_shown_at_once_and_drops_the_held_line() {
    let a = args(1, None);
    let re = LinePattern::new("ERR").expect("regex should compile");
    let mut state = EmitState::new(&a, 0);
    let held =
        state.observe_input("regular message".to_string(), &a, Some(&re), &a.color, true, 10 * MS);
    assert_eq!(held, None);
    assert_eq!(state.latest_line, Some("regular message".to_string()));
    let shown =
        state.observe_input("an ERR first".to_string(), &a, Some(&re), &a.color, true, 20 * MS);
    assert_eq!(shown, Some("an \x1b[32mERR\x1b[0m first".to_string()));
    assert_eq!(state.latest_line, None);
    assert_eq!(state.last_output, 20 * MS);
    assert_eq!(state.next_line_emit, 1_020_000_000);
    let mut later: Vec<String> = Vec::new();
    let mut now = 20 * MS;
    while now < 5 * SECOND {
        now += 10 * MS;
        later.extend(state.maybe_emit(&a, Some(&re), true, now));
    }
    assert!(later.is_empty());
}

#[test]
fn a_match_restarts_the_throttle_window() {
    let a = args(1, None);
    let re = LinePattern::new("ERR").expect("regex should compile");
    let mut state = EmitState::new(&a, 0);
    state.observe_input("ERR".to_string(), &a, Some(&re), &a.color, false, 900 * MS);
    state.observe_input("ordinary".to_string(), &a, Some(&re), &a.color, false, 950 * MS);
    assert!(state.maybe_emit(&a, Some(&re), false, 1_000 * MS).is_empty());
    assert!(state.maybe_emit(&a, Some(&re), false, 1_899 * MS).is_empty());
    assert_eq!(state.maybe_emit(&a, Some(&re), false, 1_900 * MS), vec!["ordinary".to_string()]);
}

#[test]
fn a_match_is_shown_plain_without_colours() {
    let a = args(1, None);
    let re = LinePattern::new("ERR").expect("regex should compile");
    let mut state = EmitState::new(&a, 0);
    let shown =
        state.observe_input("ERR without color".to_string(), &a, Some(&re), &a.color, false, 0);
    assert_eq!(shown, Some("ERR without color".to_string()));
}

#[test]
fn without_a_pattern_nothing_is_shown_at_once() {
    let a = args(1, None);
    let mut state = EmitState::new(&a, 0);
    assert_eq!(state.observe_input("ERR".to_string(), &a, None, &a.color, true, 0), None);
    assert_eq!(state.latest_line, Some("ERR".to_string()));
}

#[test]
fn observe_returns_the_line_as_it_came() {
    let a = args(3, Some(4));
    let mut state = EmitState::new(&a, 0);
    state.latest_line = Some("old".to_string());
    let shown = state.observe("now".to_string(), true, &a, 2 * SECOND);
    assert_eq!(shown, Some("now".to_string()));
    assert_eq!(state.latest_line, None);
    assert_eq!(state.last_output, 2 * SECOND);
    assert_eq!(state.next_line_emit, 5_000_000_000);
    assert_eq!(state.next_idle_emit, Some(6_000_000_000));
}

#[test]
fn idle_notice_text() {
    assert_eq!(idle_notice(1), "[no output for 1 seconds]");
    assert_eq!(idle_notice(90), "[no output for 90 seconds]");
}

#[test]
fn silence_is_announced_after_the_idle_interval() {
    let a = args(1, Some(1));
    let mut state = EmitState::new(&a, 0);
    let mut shown: Vec<String> = Vec::new();
    let mut now = 0;
    while now < 1_500 * MS {
        shown.extend(state.maybe_emit(&a, None, false, now));
        now += 10 * MS;
    }
    assert_eq!(shown, vec!["[no output for 1 seconds]".to_string()]);
    assert_eq!(state.next_idle_emit, Some(2_000_000_000));
    assert_eq!(state.last_output, 0);
}

#[test]
fn silence_is_announced_once_per_idle_interval() {
    let a = args(1, Some(2));
    let mut state = EmitState::new(&a, 0);
    let mut times: Vec<u64> = Vec::new();
    let mut now = 0;
    while now <= 7 * SECOND {
        if state.tick(&a, now).idle {
            times.push(now);
        }
        now += 250 * MS;
    }
    assert_eq!(times, vec![2 * SECOND, 4 * SECOND, 6 * SECOND]);
}

#[test]
fn output_postpones_the_idle_notice() {
    let a = args(1, Some(2));
    let mut state = EmitState::new(&a, 0);
    state.observe("line".to_string(), false, &a, 500 * MS);
    let due = state.tick(&a, 1_500 * MS);
    assert_eq!(due.line, Some("line".to_string()));
    assert!(!due.idle);
    assert!(!state.tick(&a, 3_499 * MS).idle);
    assert!(state.tick(&a, 3_500 * MS).idle);
}

#[test]
fn a_line_and_the_idle_notice_do_not_come_together() {
    let a = args(2, Some(2));
    let mut state = EmitState::new(&a, 0);
    state.observe("line".to_string(), false, &a, 0);
    let shown = state.maybe_emit(&a, None, false, 2 * SECOND);
    assert_eq!(shown, vec!["line".to_string()]);
}

#[test]
fn maybe_emit_decorates_the_released_line() {
    let a = args(1, None);
    let re = LinePattern::new("o+").expect("regex should compile");
    let mut state = EmitState::new(&a, 0);
    state.latest_line = Some("foo boo".to_string());
    let shown = state.maybe_emit(&a, Some(&re), true, SECOND);
    assert_eq!(shown, vec!["f\x1b[32moo\x1b[0m b\x1b[32moo\x1b[0m".to_string()]);
}

#[test]
fn a_clock_that_runs_backwards_announces_nothing() {
    let a = args(1, Some(1));
    let mut state = EmitState::new(&a, 5 * SECOND);
    state.next_idle_emit = Some(0);
    let due = state.tick(&a, 4 * SECOND);
    assert!(!due.idle);
    assert_eq!(due.line, None);
}
