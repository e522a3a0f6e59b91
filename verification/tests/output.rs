use butt::cli::HighlightColor;
use butt::output::{decorate_line, highlight_matches, highlight_spans, should_use_color};
use butt::pattern::LinePattern;
use butt::text::{decimal_string, parse_usize, str_equals};

#[test]
fn main_highlights_all_matches() {
    let re = LinePattern::new("ERR").expect("regex should compile");
    let out = highlight_matches("x ERR y ERR z", &re, &HighlightColor::Red);
    assert!(out.contains("\x1b[31mERR\x1b[0m"));
    assert_eq!(out.matches("\x1b[31mERR\x1b[0m").count(), 2);
}

#[test]
fn main_decorates_plain_when_no_regex() {
    let out = decorate_line("plain text", None, &HighlightColor::Yellow, true);
    assert_eq!(out, "plain text");
}

#[test]
fn output_highlights_all_matches() {
    let re = LinePattern::new("ERR").expect("regex should compile");
    let out = highlight_matches("x ERR y ERR z", &re, &HighlightColor::Red);
    assert!(out.contains("\x1b[31mERR\x1b[0m"));
    assert_eq!(out.matches("\x1b[31mERR\x1b[0m").count(), 2);
}

#[test]
fn output_decorates_plain_when_no_regex() {
    let out = decorate_line("plain text", None, &HighlightColor::Yellow, true);
    assert_eq!(out, "plain text");
}

#[test]
fn highlight_keeps_the_text_between_matches() {
    let re = LinePattern::new("ERR").expect("regex should compile");
    let out = highlight_matches("x ERR y ERR z", &re, &HighlightColor::Red);
    assert_eq!(out, "x \x1b[31mERR\x1b[0m y \x1b[31mERR\x1b[0m z");
}

#[test]
fn highlight_without_a_match_is_the_line() {
    let re = LinePattern::new("ERR").expect("regex should compile");
    assert_eq!(highlight_matches("all is well", &re, &HighlightColor::Red), "all is well");
    assert_eq!(highlight_matches("", &re, &HighlightColor::Red), "");
}

#[test]
fn highlight_of_a_whole_line() {
    let re = LinePattern::new(".+").expect("regex should compile");
    assert_eq!(highlight_matches("abc", &re, &HighlightColor::Blue), "\x1b[34mabc\x1b[0m");
}

#[test]
fn highlight_cuts_at_character_boundaries() {
    let re = LinePattern::new("é+").expect("regex should compile");
    let out = highlight_matches("caféé au lait, café", &re, &HighlightColor::Green);
    assert_eq!(out, "caf\x1b[32méé\x1b[0m au lait, caf\x1b[32mé\x1b[0m");
}

#[test]
fn highlight_paints_empty_matches_too() {
    let re = LinePattern::new("x*").expect("regex should compile");
    let out = highlight_matches("ab", &re, &HighlightColor::Red);
    assert_eq!(out.replace("\x1b[31m\x1b[0m", ""), "ab");
    assert_eq!(out.matches("\x1b[31m\x1b[0m").count(), 3);
}

#[test]
fn highlight_spans_paints_the_given_spans() {
    let spans = vec![(0usize, 1usize), (1, 1), (2, 4)];
    let out = highlight_spans("abcde", &spans, &HighlightColor::Cyan);
    assert_eq!(out, "\x1b[36ma\x1b[0m\x1b[36m\x1b[0mb\x1b[36mcd\x1b[0me");
    let none: Vec<(usize, usize)> = Vec::new();
    assert_eq!(highlight_spans("abcde", &none, &HighlightColor::Cyan), "abcde");
}

#[test]
fn highlight_spans_cuts_between_character_boundaries() {
    let spans = vec![(1usize, 3usize), (6, 6)];
    let out = highlight_spans("héllo", &spans, &HighlightColor::Red);
    assert_eq!(out, "h\x1b[31mé\x1b[0mllo\x1b[31m\x1b[0m");
}

#[test]
fn decorate_colours_only_when_enabled() {
    let re = LinePattern::new("ERR").expect("regex should compile");
    assert_eq!(decorate_line("an ERR", Some(&re), &HighlightColor::Yellow, false), "an ERR");
    assert_eq!(
        decorate_line("an ERR", Some(&re), &HighlightColor::Yellow, true),
        "an \x1b[33mERR\x1b[0m"
    );
    assert_eq!(decorate_line("an ERR", None, &HighlightColor::Yellow, false), "an ERR");
}

#[test]
fn pattern_keeps_its_source() {
    let re = LinePattern::new("a(b|c)+").expect("regex should compile");
    assert_eq!(re.source(), "a(b|c)+");
}

#[test]
fn pattern_matches_and_spans() {
    let re = LinePattern::new("[0-9]+").expect("regex should compile");
    assert!(re.matches("abc 123"));
    assert!(!re.matches("abc"));
    assert_eq!(re.spans("a1b22c333"), vec![(1, 2), (3, 5), (6, 9)]);
    assert_eq!(re.spans("abc"), Vec::<(usize, usize)>::new());
}

#[test]
fn pattern_is_case_sensitive_unless_it_says_otherwise() {
    let plain = LinePattern::new("err").expect("regex should compile");
    assert!(!plain.matches("ERR uppercase"));
    let relaxed = LinePattern::new("(?i)err").expect("regex should compile");
    assert!(relaxed.matches("ERR uppercase"));
}

#[test]
fn pattern_refuses_what_does_not_compile() {
    let error = LinePattern::new("foo(bar").expect_err("an unclosed group is no pattern");
    assert!(!error.message.is_empty());
    assert!(LinePattern::new("[z-a]").is_err());
}

#[test]
fn no_color_wins_over_everything() {
    assert!(!should_use_color(true, Some("1"), Some("1"), Some("xterm"), true));
    assert!(!should_use_color(true, None, None, None, true));
}

#[test]
fn clicolor_force_turns_colours_on() {
    assert!(should_use_color(false, Some("1"), Some("0"), Some("dumb"), false));
    assert!(should_use_color(false, Some(""), None, None, false));
    assert!(!should_use_color(false, Some("0"), None, None, false));
    assert!(should_use_color(false, Some("0"), None, None, true));
}

#[test]
fn clicolor_zero_turns_colours_off() {
    assert!(!should_use_color(false, None, Some("0"), Some("xterm"), true));
    assert!(should_use_color(false, None, Some("1"), Some("xterm"), true));
    assert!(!should_use_color(false, Some("0"), Some("0"), None, true));
}

#[test]
fn dumb_terminal_has_no_colours() {
    assert!(!should_use_color(false, None, None, Some("dumb"), true));
    assert!(should_use_color(false, None, None, Some("dumber"), true));
}

#[test]
fn colours_follow_the_terminal_otherwise() {
    assert!(should_use_color(false, None, None, None, true));
    assert!(!should_use_color(false, None, None, None, false));
    assert!(!should_use_color(false, None, Some("1"), Some("xterm"), false));
}

#[test]
fn decimal_string_writes_numbers() {
    assert_eq!(decimal_string(0), "0");
    assert_eq!(decimal_string(7), "7");
    assert_eq!(decimal_string(10), "10");
    assert_eq!(decimal_string(1_048_576), "1048576");
    assert_eq!(decimal_string(u64::MAX), "18446744073709551615");
}

#[test]
fn parse_usize_reads_what_decimal_string_writes() {
    for n in [0u64, 1, 9, 10, 99, 100, 65_536, 4_294_967_295] {
        assert_eq!(parse_usize(&decimal_string(n)), Some(n as usize));
    }
    assert_eq!(parse_usize(""), None);
    assert_eq!(parse_usize("+"), None);
    assert_eq!(parse_usize("4 2"), None);
}

#[test]
fn str_equals_compares_texts() {
    assert!(str_equals("", ""));
    assert!(str_equals("dumb", "dumb"));
    assert!(!str_equals("dumb", "dumB"));
    assert!(!str_equals("dumb", "dum"));
    assert!(str_equals("é", "é"));
}
