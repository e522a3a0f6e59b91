use butt::pattern::LinePattern;
use butt::report::{
    buffer_overflow_notice, fatal_notice, invalid_regex_notice, oversized_notice,
    read_error_notice, reopen_blocked_notice, reopen_failed_notice, reopened_notice,
    stdin_overflow_notice, stdin_oversized_notice, waiting_notice,
};
use regex::Regex;

#[test]
fn notices_about_the_target() {
    assert_eq!(
        waiting_notice("app.log", "No such file or directory (os error 2)"),
        "[butt] waiting for file 'app.log' (No such file or directory (os error 2))"
    );
    assert_eq!(
        reopened_notice("/var/log/app.log"),
        "[butt] reopened '/var/log/app.log' after rotation/replacement"
    );
    assert_eq!(reopen_blocked_notice("not allowed"), "[butt] reopen blocked: not allowed");
    assert_eq!(reopen_failed_notice("denied"), "[butt] reopen failed: denied");
}

#[test]
fn notices_about_the_caps() {
    assert_eq!(
        buffer_overflow_notice(1_048_576),
        "[butt] buffer exceeded --max-buffer-bytes=1048576, dropping buffered data"
    );
    assert_eq!(
        oversized_notice(12, 65_536),
        "[butt] truncated/dropped 12 oversized line fragment(s) (max-line-bytes=65536)"
    );
    assert_eq!(
        stdin_overflow_notice(10),
        "[butt] stdin chunk exceeded --max-buffer-bytes=10, truncating"
    );
    assert_eq!(stdin_oversized_notice(1), "[butt] line exceeded --max-line-bytes=1, truncating");
}

#[test]
fn notices_about_faults() {
    assert_eq!(read_error_notice("broken pipe"), "[butt] read error: broken pipe");
    assert_eq!(fatal_notice("bad descriptor"), "[butt] error: bad descriptor");
    assert_eq!(
        invalid_regex_notice("foo(bar", "unclosed group"),
        "[butt] invalid regex 'foo(bar': unclosed group"
    );
}

#[test]
fn a_failed_compilation_becomes_a_pattern_error() {
    let outside = Regex::new("foo(bar").expect_err("an unclosed group is no pattern");
    let expected = outside.to_string();
    let error = LinePattern::from_compiled(Err(outside)).expect_err("the fault is handed on");
    assert_eq!(error.message, expected);
}

#[test]
fn a_compiled_pattern_is_handed_on_unchanged() {
    let compiled = LinePattern::new("a+b").expect("regex should compile");
    let pattern = LinePattern::from_compiled(Ok(compiled)).expect("a pattern stays a pattern");
    assert_eq!(pattern.source(), "a+b");
    assert!(pattern.matches("xaab"));
}

#[test]
fn the_pattern_error_is_the_compilers_own_text() {
    let expected = Regex::new("a{2,1}").expect_err("a reversed range is no pattern").to_string();
    let error = LinePattern::new("a{2,1}").expect_err("a reversed range is no pattern");
    assert_eq!(error.message, expected);
}
