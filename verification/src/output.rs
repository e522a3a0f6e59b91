//! What a line looks like when it is shown: plain, or with its matches coloured.

use crate::cli::{painted, HighlightColor};
use crate::pattern::{regex_find_spans, spans_well_formed, LinePattern};
use crate::text::{slice_str, slice_text, str_equals};
use vstd::prelude::*;
use vstd::string::StringExecFns;
use vstd::utf8::*;

verus! {

/// The line that `bytes` spell from `from` on, with each span shown in the
/// colour `code` and the text between the spans as it is.
pub open spec fn highlighted(
    bytes: Seq<u8>,
    spans: Seq<(usize, usize)>,
    from: int,
    code: Seq<char>,
) -> Seq<char>
    decreases spans.len(),
{
    if spans.len() == 0 {
        slice_text(bytes, from, bytes.len() as int)
    } else {
        slice_text(bytes, from, spans[0].0 as int) + painted(
            code,
            slice_text(bytes, spans[0].0 as int, spans[0].1 as int),
        ) + highlighted(bytes, spans.drop_first(), spans[0].1 as int, code)
    }
}

/// The pattern's text, where there is a pattern.
pub open spec fn pattern_text(regex: Option<&LinePattern>) -> Option<Seq<char>> {
    match regex {
        Some(pattern) => Some(pattern@),
        None => None,
    }
}

/// The line as it is shown: with the pattern's matches coloured where there is
/// a pattern and colours are on, unchanged otherwise.
pub open spec fn decorated(
    line: Seq<char>,
    pattern: Option<Seq<char>>,
    code: Seq<char>,
    colors_enabled: bool,
) -> Seq<char> {
    match pattern {
        Some(p) => if colors_enabled {
            highlighted(encode_utf8(line), regex_find_spans(p, line), 0, code)
        } else {
            line
        },
        None => line,
    }
}

/// A line without a match is shown as it is.
pub proof fn lemma_no_span_no_change(line: Seq<char>, code: Seq<char>)
    ensures
        highlighted(encode_utf8(line), Seq::empty(), 0, code) == line,
{
    broadcast use group_utf8_lib;

    let bytes = encode_utf8(line);
    assert(bytes.subrange(0, bytes.len() as int) =~= bytes);
}

/// A line that one span covers as a whole is shown in colour as a whole.
pub proof fn lemma_whole_line_span(line: Seq<char>, code: Seq<char>)
    requires
        encode_utf8(line).len() <= usize::MAX,
    ensures
        highlighted(
            encode_utf8(line),
            seq![(0usize, encode_utf8(line).len() as usize)],
            0,
            code,
        ) == painted(code, line),
{
    broadcast use group_utf8_lib;

    let bytes = encode_utf8(line);
    let n = bytes.len() as int;
    let spans = seq![(0usize, n as usize)];
    assert(spans.drop_first() =~= Seq::<(usize, usize)>::empty());
    assert(bytes.subrange(0, n) =~= bytes);
    assert(bytes.subrange(0, 0) =~= Seq::<u8>::empty());
    assert(bytes.subrange(n, n) =~= Seq::<u8>::empty());
    assert(decode_utf8(Seq::<u8>::empty()) =~= Seq::<char>::empty());
    assert(highlighted(bytes, spans.drop_first(), n, code) =~= Seq::<char>::empty());
    assert(highlighted(bytes, spans, 0, code) =~= painted(code, line));
}

/// Shows each of `spans` in `color` and leaves the rest of `line` as it is.
pub fn highlight_spans(line: &str, spans: &Vec<(usize, usize)>, color: &HighlightColor) -> (out:
    String)
    requires
        spans_well_formed(encode_utf8(line@), spans@),
    ensures
        out@ == highlighted(encode_utf8(line@), spans@, 0, color.code()),
{
    broadcast use group_utf8_lib;

    let ghost bytes = encode_utf8(line@);
    let end: usize = line.as_bytes().len();
    let mut out = String::new();
    let mut last: usize = 0;
    let mut i: usize = 0;
    assert(spans@.subrange(0, spans.len() as int) =~= spans@);
    assert(out@ + highlighted(bytes, spans@, 0, color.code()) =~= highlighted(
        bytes,
        spans@,
        0,
        color.code(),
    ));
    while i < spans.len()
        invariant
            bytes == encode_utf8(line@),
            valid_utf8(bytes),
            end == bytes.len(),
            spans_well_formed(bytes, spans@),
            0 <= i <= spans.len(),
            last <= end,
            is_char_boundary(bytes, last as int),
            i < spans.len() ==> last <= spans[i as int].0,
            out@ + highlighted(
                bytes,
                spans@.subrange(i as int, spans.len() as int),
                last as int,
                color.code(),
            ) == highlighted(bytes, spans@, 0, color.code()),
        decreases spans.len() - i,
    {
        let (start, stop) = spans[i];
        let ghost rest = spans@.subrange(i as int, spans.len() as int);
        let ghost before = out@;
        assert(rest[0] == spans[i as int]);
        assert(rest.drop_first() =~= spans@.subrange(i + 1, spans.len() as int));
        out.append(slice_str(line, last, start));
        let shown = color.paint(slice_str(line, start, stop));
        out.append(shown.as_str());
        assert(out@ =~= before + (slice_text(bytes, last as int, start as int) + painted(
            color.code(),
            slice_text(bytes, start as int, stop as int),
        )));
        last = stop;
        i = i + 1;
    }
    assert(spans@.subrange(i as int, spans.len() as int).len() == 0);
    out.append(slice_str(line, last, end));
    out
}

/// Shows every match of `regex` in `line` in `color`.
pub fn highlight_matches(line: &str, regex: &LinePattern, color: &HighlightColor) -> (out: String)
    ensures
        out@ == highlighted(
            encode_utf8(line@),
            regex_find_spans(regex@, line@),
            0,
            color.code(),
        ),
{
    let spans = regex.spans(line);
    highlight_spans(line, &spans, color)
}

/// The line as it is to be shown.
pub fn decorate_line(
    line: &str,
    regex: Option<&LinePattern>,
    color: &HighlightColor,
    colors_enabled: bool,
) -> (out: String)
    ensures
        out@ == decorated(line@, pattern_text(regex), color.code(), colors_enabled),
{
    match regex {
        Some(pattern) => {
            if colors_enabled {
                highlight_matches(line, pattern, color)
            } else {
                String::from_str(line)
            }
        },
        None => String::from_str(line),
    }
}

/// Whether colours are used, as the usual environment variables say: never with
/// `NO_COLOR` set; else always with `CLICOLOR_FORCE` set to anything but `0`;
/// else never with `CLICOLOR` set to `0` or with `TERM` set to `dumb`; else where
/// standard output is a terminal.
pub open spec fn color_choice(
    no_color: bool,
    clicolor_force: Option<Seq<char>>,
    clicolor: Option<Seq<char>>,
    term: Option<Seq<char>>,
    stdout_is_terminal: bool,
) -> bool {
    if no_color {
        false
    } else if clicolor_force is Some && clicolor_force->0 != "0"@ {
        true
    } else if clicolor is Some && clicolor->0 == "0"@ {
        false
    } else if term is Some && term->0 == "dumb"@ {
        false
    } else {
        stdout_is_terminal
    }
}

/// The text of an environment variable, where it is set.
pub open spec fn variable_text(value: Option<&str>) -> Option<Seq<char>> {
    match value {
        Some(text) => Some(text@),
        None => None,
    }
}

/// Decides whether colours are used. `no_color` says whether `NO_COLOR` is set;
/// the three texts are the values of `CLICOLOR_FORCE`, `CLICOLOR` and `TERM`.
pub fn should_use_color(
    no_color: bool,
    clicolor_force: Option<&str>,
    clicolor: Option<&str>,
    term: Option<&str>,
    stdout_is_terminal: bool,
) -> (enabled: bool)
    ensures
        enabled == color_choice(
            no_color,
            variable_text(clicolor_force),
            variable_text(clicolor),
            variable_text(term),
            stdout_is_terminal,
        ),
{
    if no_color {
        return false;
    }
    if let Some(force) = clicolor_force {
        if !str_equals(force, "0") {
            return true;
        }
    }
    if let Some(value) = clicolor {
        if str_equals(value, "0") {
            return false;
        }
    }
    if let Some(name) = term {
        if str_equals(name, "dumb") {
            return false;
        }
    }
    stdout_is_terminal
}

} // verus!
