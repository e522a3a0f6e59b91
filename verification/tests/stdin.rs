use butt::cli::{Args, HighlightColor};
use butt::pattern::LinePattern;
use butt::stdin::{
    clamp_stdin_line, reader_step, trim_line_end, ReaderAction, ReaderEvent, StdinEvent,
    StdinFollower, QUEUE_CAPACITY,
};

const MS: u64 = 1_000_000;

fn args(line_seconds: u64, idle_seconds: Option<u64>) -> Args {
    Args {
        path: None,
        line_seconds,
        idle_seconds,
        regex: None,
        color: HighlightColor::Green,
        poll_millis: 10,
        max_buffer_bytes: 1_048_576,
        max_line_bytes: 65_536,
        no_follow_symlinks: false,
        allowed_root: None,
    }
}

#[test]
fn queue_capacity_is_fixed() {
    assert_eq!(QUEUE_CAPACITY, 1024);
}

#[test]
fn trim_removes_every_trailing_line_end() {
    assert_eq!(trim_line_end("line\n"), "line");
    assert_eq!(trim_line_end("line\r\n"), "line");
    assert_eq!(trim_line_end("line\n\r\n\r"), "line");
    assert_eq!(trim_line_end("line"), "line");
    assert_eq!(trim_line_end("\n"), "");
    assert_eq!(trim_line_end(""), "");
    assert_eq!(trim_line_end("a\nb\n"), "a\nb");
    assert_eq!(trim_line_end("\rx"), "\rx");
    assert_eq!(trim_line_end("caf\u{e9}\n"), "caf\u{e9}");
}

#[test]
fn trim_agrees_with_the_standard_trim() {
    for text in ["", "\n", "\r", "a\r\r", "a \n", " \n ", "é\n\n", "tab\t\n", "x\u{85}\n"] {
        assert_eq!(trim_line_end(text), text.trim_end_matches(['\n', '\r']), "text {:?}", text);
    }
}

#[test]
fn clamp_leaves_a_short_line_alone() {
    let mut line = "short\n".to_string();
    let notices = clamp_stdin_line(&mut line, 16, 32);
    assert_eq!(line, "short\n");
    assert!(notices.is_empty());
}

#[test]
fn clamp_cuts_to_the_line_cap() {
    let mut line = "abcdefgh\n".to_string();
    let notices = clamp_stdin_line(&mut line, 4, 32);
    assert_eq!(line, "abcd");
    assert_eq!(notices, vec!["[butt] line exceeded --max-line-bytes=4, truncating".to_string()]);
}

#[test]
fn clamp_cuts_to_the_buffer_cap_first() {
    let mut line = "abcdefgh\n".to_string();
    let notices = clamp_stdin_line(&mut line, 4, 6);
    assert_eq!(line, "abcd");
    assert_eq!(
        notices,
        vec![
            "[butt] stdin chunk exceeded --max-buffer-bytes=6, truncating".to_string(),
            "[butt] line exceeded --max-line-bytes=4, truncating".to_string(),
        ]
    );
}

#[test]
fn clamp_to_the_buffer_cap_alone() {
    let mut line = "abcdefgh\n".to_string();
    let notices = clamp_stdin_line(&mut line, 16, 6);
    assert_eq!(line, "abcdef");
    assert_eq!(
        notices,
        vec!["[butt] stdin chunk exceeded --max-buffer-bytes=6, truncating".to_string()]
    );
}

#[test]
fn clamp_never_splits_a_character() {
    let mut line = "ab\u{20ac}cd\n".to_string();
    let notices = clamp_stdin_line(&mut line, 4, 64);
    assert_eq!(line, "ab");
    assert_eq!(notices.len(), 1);
    let mut line = "\u{1f600}\u{1f600}".to_string();
    clamp_stdin_line(&mut line, 64, 7);
    assert_eq!(line, "\u{1f600}");
}

#[test]
fn reader_forwards_a_line_within_the_caps() {
    match reader_step(ReaderEvent::Line("0123456789\n".to_string()), 5, 100) {
        ReaderAction::Forward { line, notices } => {
            assert_eq!(line, "01234");
            assert_eq!(notices.len(), 1);
        }
        ReaderAction::Stop => panic!("a line is handed over"),
    }
}

#[test]
fn reader_stops_at_the_end_and_on_failure() {
    assert!(matches!(reader_step(ReaderEvent::EndOfInput, 5, 100), ReaderAction::Stop));
    assert!(matches!(reader_step(ReaderEvent::Failed, 5, 100), ReaderAction::Stop));
}

#[test]
fn stdin_throttles_to_one_line_per_interval() {
    let a = args(1, None);
    let mut follower = StdinFollower::new(&a, 0);
    let mut shown: Vec<String> = Vec::new();
    let mut now = 0;
    for i in 0..10u64 {
        now = i * 50 * MS;
        let line = format!("throttle-msg-{}\n", i);
        shown.extend(follower.step(StdinEvent::Line(line), &a, None, false, now));
    }
    while now < 1_400 * MS {
        now += 10 * MS;
        shown.extend(follower.step(StdinEvent::TimedOut, &a, None, false, now));
    }
    assert_eq!(shown, vec!["throttle-msg-9".to_string()]);
    assert!(!follower.is_finished());
}

#[test]
fn stdin_shows_matches_at_once_and_keeps_the_rest_throttled() {
    let a = args(10, None);
    let re = LinePattern::new("ERR").expect("regex should compile");
    let mut follower = StdinFollower::new(&a, 0);
    let mut shown: Vec<String> = Vec::new();
    shown.extend(follower.step(StdinEvent::Line("m regular message\n".to_string()), &a, Some(&re), true, 10 * MS));
    assert!(shown.is_empty());
    shown.extend(follower.step(StdinEvent::Line("m ERR first\n".to_string()), &a, Some(&re), true, 20 * MS));
    shown.extend(follower.step(StdinEvent::Line("m ERR second\r\n".to_string()), &a, Some(&re), true, 30 * MS));
    assert_eq!(
        shown,
        vec!["m \x1b[32mERR\x1b[0m first".to_string(), "m \x1b[32mERR\x1b[0m second".to_string()]
    );
    let mut now = 30 * MS;
    while now < 9_000 * MS {
        now += 150 * MS;
        shown.extend(follower.step(StdinEvent::TimedOut, &a, Some(&re), true, now));
    }
    assert_eq!(shown.len(), 2);
}

#[test]
fn stdin_shows_a_held_line_that_is_already_due() {
    let a = args(1, None);
    let mut follower = StdinFollower::new(&a, 0);
    let shown = follower.step(StdinEvent::Line("late\n".to_string()), &a, None, false, 1_200 * MS);
    assert_eq!(shown, vec!["late".to_string()]);
    assert_eq!(follower.emit.next_line_emit, 2_200_000_000);
}

#[test]
fn stdin_announces_silence() {
    let a = args(1, Some(1));
    let mut follower = StdinFollower::new(&a, 0);
    let mut shown: Vec<String> = Vec::new();
    let mut now = 0;
    while now < 1_500 * MS {
        now += 10 * MS;
        shown.extend(follower.step(StdinEvent::TimedOut, &a, None, false, now));
    }
    assert_eq!(shown, vec!["[no output for 1 seconds]".to_string()]);
}

#[test]
fn stdin_ends_when_the_reader_has_ended() {
    let a = args(1, None);
    let mut follower = StdinFollower::new(&a, 0);
    follower.step(StdinEvent::Line("held\n".to_string()), &a, None, false, 0);
    assert!(follower.step(StdinEvent::Disconnected, &a, None, false, 5_000 * MS).is_empty());
    assert!(follower.is_finished());
    assert!(follower.step(StdinEvent::TimedOut, &a, None, false, 6_000 * MS).is_empty());
    assert!(follower.step(StdinEvent::Line("more\n".to_string()), &a, None, false, 7_000 * MS).is_empty());
    assert_eq!(follower.emit.latest_line, Some("held".to_string()));
}
