use butt::cli::{Args, HighlightColor};
use butt::follow::{
    validate_follow_target, FileFollower, FileIdentity, FollowConfig, FollowEvent, Request, Stage,
    TargetFacts, READ_CHUNK_BYTES,
};
use butt::pattern::LinePattern;
use butt::report::Output;

const MS: u64 = 1_000_000;

fn args() -> Args {
    Args {
        path: None,
        line_seconds: 1,
        idle_seconds: None,
        regex: None,
        color: HighlightColor::Yellow,
        poll_millis: 10,
        max_buffer_bytes: 64,
        max_line_bytes: 16,
        no_follow_symlinks: false,
        allowed_root: None,
    }
}

fn config<'a>(args: &'a Args, regex: Option<&'a LinePattern>) -> FollowConfig<'a> {
    FollowConfig { args, regex, colors_enabled: true, target: "app.log", allowed_root: None }
}

fn plain_file() -> TargetFacts {
    TargetFacts { symlink: Ok(false), canonical: Ok("/logs/app.log".to_string()), under_root: true }
}

fn id(ino: u64) -> FileIdentity {
    FileIdentity { dev: 1, ino }
}

fn line(text: &str) -> Output {
    Output::Line(text.to_string())
}

fn notice(text: &str) -> Output {
    Output::Notice(text.to_string())
}

/// A follower with the file open and the first read asked for.
fn opened(a: &Args, c: &FollowConfig) -> FileFollower {
    let mut f = FileFollower::new(a, 0);
    assert!(f.step(FollowEvent::Probed(plain_file()), c, 0).is_empty());
    assert!(f.step(FollowEvent::Opened { identity: Some(id(7)) }, c, 0).is_empty());
    assert_eq!(f.request(), Request::Read);
    f
}

/// A follower that has just read `bytes` at `now`.
fn after_read(f: &mut FileFollower, c: &FollowConfig, bytes: &[u8], now: u64) -> Vec<Output> {
    assert_eq!(f.request(), Request::Read);
    f.step(FollowEvent::Read(bytes.to_vec()), c, now)
}

/// Takes a follower from after a read to the next read, with an unchanged file.
fn finish_poll(f: &mut FileFollower, c: &FollowConfig, now: u64) -> Vec<Output> {
    assert_eq!(f.request(), Request::Position);
    assert!(f.step(FollowEvent::Position { offset: 10, length: 10 }, c, now).is_empty());
    assert_eq!(f.request(), Request::Stat);
    assert!(f.step(FollowEvent::Stat(f.opened_id), c, now).is_empty());
    assert_eq!(f.request(), Request::Sleep);
    f.step(FollowEvent::Woke, c, now)
}

#[test]
fn reads_are_asked_for_in_chunks_of_eight_kibibytes() {
    assert_eq!(READ_CHUNK_BYTES, 8192);
}

#[test]
fn validate_allows_a_plain_file() {
    assert_eq!(validate_follow_target(&plain_file(), false, None), Ok(()));
    assert_eq!(validate_follow_target(&plain_file(), true, Some("/logs")), Ok(()));
}

#[test]
fn validate_refuses_a_symlink_when_configured() {
    let facts =
        TargetFacts { symlink: Ok(true), canonical: Ok("/logs/real.log".to_string()), under_root: true };
    assert_eq!(
        validate_follow_target(&facts, true, None),
        Err("symlink targets are not allowed by --no-follow-symlinks".to_string())
    );
    assert_eq!(validate_follow_target(&facts, false, None), Ok(()));
}

#[test]
fn validate_refuses_a_path_outside_the_allowed_root() {
    let facts = TargetFacts {
        symlink: Ok(false),
        canonical: Ok("/elsewhere/outside.log".to_string()),
        under_root: false,
    };
    assert_eq!(
        validate_follow_target(&facts, false, Some("/root-dir")),
        Err("path '/elsewhere/outside.log' is outside allowed root '/root-dir'".to_string())
    );
    assert_eq!(validate_follow_target(&facts, false, None), Ok(()));
}

#[test]
fn validate_hands_on_why_the_path_could_not_be_examined() {
    let facts = TargetFacts {
        symlink: Err("No such file or directory (os error 2)".to_string()),
        canonical: Err("cannot resolve".to_string()),
        under_root: false,
    };
    assert_eq!(
        validate_follow_target(&facts, true, Some("/logs")),
        Err("No such file or directory (os error 2)".to_string())
    );
    assert_eq!(
        validate_follow_target(&facts, false, Some("/logs")),
        Err("cannot resolve".to_string())
    );
    assert_eq!(validate_follow_target(&facts, false, None), Ok(()));
}

#[test]
fn validate_looks_at_the_symlink_before_the_root() {
    let facts =
        TargetFacts { symlink: Ok(true), canonical: Ok("/x/y".to_string()), under_root: false };
    assert_eq!(
        validate_follow_target(&facts, true, Some("/logs")),
        Err("symlink targets are not allowed by --no-follow-symlinks".to_string())
    );
}

#[test]
fn a_new_follower_examines_the_target_first() {
    let a = args();
    let f = FileFollower::new(&a, 5 * MS);
    assert_eq!(f.stage, Stage::Checking);
    assert_eq!(f.request(), Request::Probe);
    assert!(f.pending.is_empty());
    assert_eq!(f.opened_id, None);
    assert_eq!(f.emit.next_line_emit, 1_005_000_000);
}

#[test]
fn an_unsafe_target_is_waited_for() {
    let mut a = args();
    a.no_follow_symlinks = true;
    let c = config(&a, None);
    let mut f = FileFollower::new(&a, 0);
    let facts = TargetFacts { symlink: Ok(true), canonical: Ok("/r".to_string()), under_root: true };
    let out = f.step(FollowEvent::Probed(facts), &c, 0);
    assert_eq!(
        out,
        vec![notice(
            "[butt] waiting for file 'app.log' (symlink targets are not allowed by --no-follow-symlinks)"
        )]
    );
    assert_eq!(f.request(), Request::Sleep);
    assert!(f.step(FollowEvent::Woke, &c, 10 * MS).is_empty());
    assert_eq!(f.request(), Request::Probe);
}

#[test]
fn a_target_outside_the_root_is_waited_for() {
    let a = args();
    let c = FollowConfig {
        args: &a,
        regex: None,
        colors_enabled: false,
        target: "../outside.log",
        allowed_root: Some("/srv/root"),
    };
    let mut f = FileFollower::new(&a, 0);
    let facts = TargetFacts {
        symlink: Ok(false),
        canonical: Ok("/srv/outside.log".to_string()),
        under_root: false,
    };
    let out = f.step(FollowEvent::Probed(facts), &c, 0);
    assert_eq!(
        out,
        vec![notice(
            "[butt] waiting for file '../outside.log' (path '/srv/outside.log' is outside allowed root '/srv/root')"
        )]
    );
    assert_eq!(f.stage, Stage::Retrying);
}

#[test]
fn a_missing_file_is_waited_for() {
    let a = args();
    let c = config(&a, None);
    let mut f = FileFollower::new(&a, 0);
    assert!(f.step(FollowEvent::Probed(plain_file()), &c, 0).is_empty());
    assert_eq!(f.request(), Request::OpenAtEnd);
    let out = f.step(FollowEvent::OpenFailed("No such file or directory (os error 2)".to_string()), &c, 0);
    assert_eq!(
        out,
        vec![notice("[butt] waiting for file 'app.log' (No such file or directory (os error 2))")]
    );
    assert_eq!(f.request(), Request::Sleep);
    f.step(FollowEvent::Woke, &c, 10 * MS);
    assert_eq!(f.request(), Request::Probe);
    f.step(FollowEvent::Probed(plain_file()), &c, 10 * MS);
    f.step(FollowEvent::Opened { identity: Some(id(3)) }, &c, 10 * MS);
    assert_eq!(f.request(), Request::Read);
    assert_eq!(f.opened_id, Some(id(3)));
}

#[test]
fn complete_lines_are_held_and_released_by_the_clock() {
    let a = args();
    let c = config(&a, None);
    let mut f = opened(&a, &c);
    assert!(after_read(&mut f, &c, b"one\ntwo\nthr", 100 * MS).is_empty());
    assert_eq!(f.pending, b"thr".to_vec());
    assert_eq!(f.emit.latest_line, Some("two".to_string()));
    assert!(finish_poll(&mut f, &c, 110 * MS).is_empty());
    assert!(after_read(&mut f, &c, b"ee\n", 120 * MS).is_empty());
    assert!(f.pending.is_empty());
    assert_eq!(f.emit.latest_line, Some("three".to_string()));
    let out = finish_poll(&mut f, &c, 1_000 * MS);
    assert_eq!(out, vec![line("three")]);
}

#[test]
fn an_empty_read_changes_nothing() {
    let a = args();
    let c = config(&a, None);
    let mut f = opened(&a, &c);
    after_read(&mut f, &c, b"part", 0);
    assert!(after_read_is_empty(&mut f, &c));
    assert_eq!(f.pending, b"part".to_vec());
    assert_eq!(f.emit.latest_line, None);
}

fn after_read_is_empty(f: &mut FileFollower, c: &FollowConfig) -> bool {
    finish_poll(f, c, 10 * MS);
    let out = f.step(FollowEvent::Read(Vec::new()), c, 10 * MS);
    f.request() == Request::Position && out.is_empty()
}

#[test]
fn matching_lines_of_a_read_are_shown_at_once_in_order() {
    let a = args();
    let re = LinePattern::new("rotate").expect("regex should compile");
    let c = config(&a, Some(&re));
    let mut f = opened(&a, &c);
    let out = after_read(&mut f, &c, b"a rotate\nplain\nrotate b\nlast\n", 50 * MS);
    assert_eq!(
        out,
        vec![line("a \x1b[33mrotate\x1b[0m"), line("\x1b[33mrotate\x1b[0m b")]
    );
    assert_eq!(f.emit.latest_line, Some("last".to_string()));
    assert_eq!(f.emit.last_output, 50 * MS);
    assert_eq!(f.emit.next_line_emit, 1_050_000_000);
}

#[test]
fn a_match_at_the_end_of_a_read_leaves_nothing_held() {
    let a = args();
    let re = LinePattern::new("ERR").expect("regex should compile");
    let c = config(&a, Some(&re));
    let mut f = opened(&a, &c);
    let out = after_read(&mut f, &c, b"plain\nERR\n", 50 * MS);
    assert_eq!(out, vec![line("\x1b[33mERR\x1b[0m")]);
    assert_eq!(f.emit.latest_line, None);
}

#[test]
fn a_read_over_the_buffer_cap_is_noted() {
    let mut a = args();
    a.max_buffer_bytes = 8;
    a.max_line_bytes = 8;
    let c = config(&a, None);
    let mut f = opened(&a, &c);
    after_read(&mut f, &c, b"abcdef", 0);
    finish_poll(&mut f, &c, 10 * MS);
    let out = after_read(&mut f, &c, b"ghi\n", 10 * MS);
    assert_eq!(
        out,
        vec![notice("[butt] buffer exceeded --max-buffer-bytes=8, dropping buffered data")]
    );
    assert_eq!(f.emit.latest_line, Some("ghi".to_string()));
    assert!(f.pending.is_empty());
}

#[test]
fn cut_lines_and_dropped_fragments_are_noted() {
    let mut a = args();
    a.max_line_bytes = 3;
    let c = config(&a, None);
    let mut f = opened(&a, &c);
    let out = after_read(&mut f, &c, b"abcdef\nxy\nlonger", 0);
    assert_eq!(
        out,
        vec![notice("[butt] truncated/dropped 2 oversized line fragment(s) (max-line-bytes=3)")]
    );
    assert_eq!(f.emit.latest_line, Some("xy".to_string()));
    assert!(f.pending.is_empty());
}

#[test]
fn both_notices_come_before_the_lines() {
    let mut a = args();
    a.max_buffer_bytes = 8;
    a.max_line_bytes = 3;
    let re = LinePattern::new("E").expect("regex should compile");
    let c = config(&a, Some(&re));
    let mut f = opened(&a, &c);
    let out = after_read(&mut f, &c, b"0123456789\nE\n", 0);
    assert_eq!(
        out,
        vec![
            notice("[butt] buffer exceeded --max-buffer-bytes=8, dropping buffered data"),
            notice("[butt] truncated/dropped 1 oversized line fragment(s) (max-line-bytes=3)"),
            line("\x1b[33mE\x1b[0m"),
        ]
    );
}

#[test]
fn pending_bytes_stay_within_both_caps() {
    let mut a = args();
    a.max_buffer_bytes = 5;
    a.max_line_bytes = 9;
    let c = config(&a, None);
    let mut f = opened(&a, &c);
    for chunk in [&b"ab"[..], b"cdefgh", b"i", b"\n", b"0123456789abcdef", b"xy\nz"] {
        after_read(&mut f, &c, chunk, 0);
        assert!(f.pending.len() <= 5);
        finish_poll(&mut f, &c, 0);
    }
    assert_eq!(f.pending, b"z".to_vec());
}

#[test]
fn a_failed_read_is_noted_and_backed_off() {
    let a = args();
    let c = config(&a, None);
    let mut f = opened(&a, &c);
    let out = f.step(FollowEvent::ReadFailed("Input/output error (os error 5)".to_string()), &c, 0);
    assert_eq!(out, vec![notice("[butt] read error: Input/output error (os error 5)")]);
    assert_eq!(f.request(), Request::Sleep);
    assert!(f.step(FollowEvent::Woke, &c, 10 * MS).is_empty());
    assert_eq!(f.request(), Request::Position);
}

#[test]
fn a_truncated_file_is_rewound_and_the_buffer_cleared() {
    let a = args();
    let c = config(&a, None);
    let mut f = opened(&a, &c);
    after_read(&mut f, &c, b"partial", 0);
    assert_eq!(f.pending, b"partial".to_vec());
    assert!(f.step(FollowEvent::Position { offset: 100, length: 40 }, &c, 0).is_empty());
    assert_eq!(f.stage, Stage::Rewinding);
    assert_eq!(f.request(), Request::Rewind);
    assert!(f.step(FollowEvent::Rewound, &c, 0).is_empty());
    assert!(f.pending.is_empty());
    assert_eq!(f.request(), Request::Stat);
    f.step(FollowEvent::Stat(Some(id(7))), &c, 0);
    f.step(FollowEvent::Woke, &c, 10 * MS);
    assert_eq!(f.request(), Request::Read);
}

#[test]
fn a_file_that_did_not_shrink_is_not_rewound() {
    let a = args();
    let c = config(&a, None);
    let mut f = opened(&a, &c);
    after_read(&mut f, &c, b"partial", 0);
    f.step(FollowEvent::Position { offset: 40, length: 40 }, &c, 0);
    assert_eq!(f.request(), Request::Stat);
    assert_eq!(f.pending, b"partial".to_vec());
}

#[test]
fn a_failure_to_locate_or_rewind_ends_the_run() {
    let a = args();
    let c = config(&a, None);
    let mut f = opened(&a, &c);
    after_read(&mut f, &c, b"", 0);
    let out = f.step(FollowEvent::PositionFailed("Bad file descriptor (os error 9)".to_string()), &c, 0);
    assert_eq!(out, vec![notice("[butt] error: Bad file descriptor (os error 9)")]);
    assert_eq!(f.request(), Request::Stop);
    assert!(f.step(FollowEvent::Woke, &c, 0).is_empty());
    assert_eq!(f.stage, Stage::Stopped);

    let mut g = opened(&a, &c);
    after_read(&mut g, &c, b"", 0);
    g.step(FollowEvent::Position { offset: 9, length: 1 }, &c, 0);
    let out = g.step(FollowEvent::RewindFailed("Illegal seek (os error 29)".to_string()), &c, 0);
    assert_eq!(out, vec![notice("[butt] error: Illegal seek (os error 29)")]);
    assert_eq!(g.request(), Request::Stop);
}

#[test]
fn a_replaced_file_is_reopened_from_its_start() {
    let a = args();
    let re = LinePattern::new("rotate").expect("regex should compile");
    let c = config(&a, Some(&re));
    let mut f = opened(&a, &c);
    after_read(&mut f, &c, b"unfinished", 0);
    f.step(FollowEvent::Position { offset: 10, length: 10 }, &c, 0);
    assert!(f.step(FollowEvent::Stat(Some(id(8))), &c, 0).is_empty());
    assert_eq!(f.stage, Stage::Rechecking(id(8)));
    assert_eq!(f.request(), Request::Probe);
    assert!(f.step(FollowEvent::Probed(plain_file()), &c, 0).is_empty());
    assert_eq!(f.request(), Request::OpenFromStart);
    assert_eq!(f.pending, b"unfinished".to_vec());
    let out = f.step(FollowEvent::Opened { identity: None }, &c, 0);
    assert_eq!(out, vec![notice("[butt] reopened 'app.log' after rotation/replacement")]);
    assert!(f.pending.is_empty());
    assert_eq!(f.opened_id, Some(id(8)));
    assert_eq!(f.request(), Request::Sleep);
    f.step(FollowEvent::Woke, &c, 10 * MS);
    let out = after_read(&mut f, &c, b"after rotate\n", 10 * MS);
    assert_eq!(out, vec![line("after \x1b[33mrotate\x1b[0m")]);
}

#[test]
fn a_replacement_that_may_not_be_followed_is_refused() {
    let mut a = args();
    a.no_follow_symlinks = true;
    let c = config(&a, None);
    let mut f = opened(&a, &c);
    after_read(&mut f, &c, b"kept", 0);
    f.step(FollowEvent::Position { offset: 4, length: 4 }, &c, 0);
    f.step(FollowEvent::Stat(Some(id(9))), &c, 0);
    let link = TargetFacts { symlink: Ok(true), canonical: Ok("/x".to_string()), under_root: true };
    let out = f.step(FollowEvent::Probed(link), &c, 0);
    assert_eq!(
        out,
        vec![notice("[butt] reopen blocked: symlink targets are not allowed by --no-follow-symlinks")]
    );
    assert_eq!(f.request(), Request::Sleep);
    assert_eq!(f.opened_id, Some(id(7)));
    assert_eq!(f.pending, b"kept".to_vec());
}

#[test]
fn a_replacement_that_cannot_be_opened_is_tried_again() {
    let a = args();
    let c = config(&a, None);
    let mut f = opened(&a, &c);
    after_read(&mut f, &c, b"kept", 0);
    f.step(FollowEvent::Position { offset: 4, length: 4 }, &c, 0);
    f.step(FollowEvent::Stat(Some(id(9))), &c, 0);
    f.step(FollowEvent::Probed(plain_file()), &c, 0);
    let out = f.step(FollowEvent::OpenFailed("Permission denied (os error 13)".to_string()), &c, 0);
    assert_eq!(out, vec![notice("[butt] reopen failed: Permission denied (os error 13)")]);
    assert_eq!(f.opened_id, Some(id(7)));
    assert_eq!(f.pending, b"kept".to_vec());
    f.step(FollowEvent::Woke, &c, 10 * MS);
    after_read(&mut f, &c, b"", 10 * MS);
    f.step(FollowEvent::Position { offset: 4, length: 4 }, &c, 10 * MS);
    f.step(FollowEvent::Stat(Some(id(9))), &c, 10 * MS);
    assert_eq!(f.request(), Request::Probe);
}

#[test]
fn a_path_without_a_file_is_left_for_the_next_poll() {
    let a = args();
    let c = config(&a, None);
    let mut f = opened(&a, &c);
    after_read(&mut f, &c, b"kept", 0);
    f.step(FollowEvent::Position { offset: 4, length: 4 }, &c, 0);
    assert!(f.step(FollowEvent::Stat(None), &c, 0).is_empty());
    assert_eq!(f.request(), Request::Sleep);
    assert_eq!(f.pending, b"kept".to_vec());
    assert_eq!(f.opened_id, Some(id(7)));
}

#[test]
fn a_file_of_unknown_identity_counts_as_replaced() {
    let a = args();
    let c = config(&a, None);
    let mut f = FileFollower::new(&a, 0);
    f.step(FollowEvent::Probed(plain_file()), &c, 0);
    f.step(FollowEvent::Opened { identity: None }, &c, 0);
    after_read(&mut f, &c, b"", 0);
    f.step(FollowEvent::Position { offset: 0, length: 0 }, &c, 0);
    f.step(FollowEvent::Stat(Some(id(1))), &c, 0);
    assert_eq!(f.stage, Stage::Rechecking(id(1)));
}

#[test]
fn silence_is_announced_while_a_file_is_followed() {
    let mut a = args();
    a.idle_seconds = Some(1);
    let c = config(&a, None);
    let mut f = opened(&a, &c);
    let mut shown: Vec<Output> = Vec::new();
    let mut now = 0;
    while now < 1_500 * MS {
        shown.extend(after_read(&mut f, &c, b"", now));
        now += 10 * MS;
        shown.extend(finish_poll(&mut f, &c, now));
    }
    assert_eq!(shown, vec![line("[no output for 1 seconds]")]);
}

#[test]
fn nothing_is_announced_while_the_file_is_waited_for() {
    let mut a = args();
    a.idle_seconds = Some(1);
    let c = config(&a, None);
    let mut f = FileFollower::new(&a, 0);
    let mut shown: Vec<Output> = Vec::new();
    let mut now = 0;
    while now < 3_000 * MS {
        f.step(FollowEvent::Probed(plain_file()), &c, now);
        let out = f.step(FollowEvent::OpenFailed("gone".to_string()), &c, now);
        assert_eq!(out.len(), 1);
        now += 10 * MS;
        shown.extend(f.step(FollowEvent::Woke, &c, now));
    }
    assert!(shown.is_empty());
    f.step(FollowEvent::Probed(plain_file()), &c, now);
    let out = f.step(FollowEvent::Opened { identity: Some(id(1)) }, &c, now);
    assert_eq!(out, vec![line("[no output for 1 seconds]")]);
}

#[test]
fn an_event_that_was_not_asked_for_changes_nothing() {
    let a = args();
    let c = config(&a, None);
    let mut f = opened(&a, &c);
    after_read(&mut f, &c, b"held\npart", 0);
    let stage = f.stage;
    for event in [
        FollowEvent::Woke,
        FollowEvent::Rewound,
        FollowEvent::Read(b"x\n".to_vec()),
        FollowEvent::Stat(Some(id(99))),
        FollowEvent::Opened { identity: Some(id(99)) },
        FollowEvent::OpenFailed("no".to_string()),
        FollowEvent::ReadFailed("no".to_string()),
        FollowEvent::RewindFailed("no".to_string()),
        FollowEvent::Probed(plain_file()),
    ] {
        assert!(f.step(event, &c, 5_000 * MS).is_empty());
        assert_eq!(f.stage, stage);
        assert_eq!(f.pending, b"part".to_vec());
        assert_eq!(f.emit.latest_line, Some("held".to_string()));
        assert_eq!(f.opened_id, Some(id(7)));
    }
}
