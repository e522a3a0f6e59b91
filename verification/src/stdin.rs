//! Following standard input: a reader that hands lines over within the two
//! caps, and a poll loop that feeds them to the schedule. Both are given here
//! as their decisions; reading, queueing and waiting are the caller's.

use crate::cli::Args;
use crate::emit::{line_matches, tick_output, EmitState, Schedule};
use crate::limits::{
    lemma_truncated_text, truncate_utf8_to_bytes, truncated_text, CARRIAGE_RETURN, LINE_FEED,
};
use crate::output::{decorated, pattern_text};
use crate::pattern::LinePattern;
use crate::report::{
    stdin_overflow_notice, stdin_overflow_text, stdin_oversized_notice, stdin_oversized_text,
};
use crate::text::{slice_str, slice_text, texts};
use vstd::prelude::*;
use vstd::string::StringExecFns;
use vstd::utf8::*;

verus! {

/// Lines that the queue between the reader and the poll loop holds at most.
pub const QUEUE_CAPACITY: usize = 1024;

/// A line as it is handed over: cut to the buffer cap, then to the line cap.
pub open spec fn clamped_line(
    line: Seq<char>,
    max_line_bytes: usize,
    max_buffer_bytes: usize,
) -> Seq<char> {
    truncated_text(truncated_text(line, max_buffer_bytes as int), max_line_bytes as int)
}

/// Whether a line is over the buffer cap as it was read.
pub open spec fn over_buffer_cap(line: Seq<char>, max_buffer_bytes: usize) -> bool {
    encode_utf8(line).len() > max_buffer_bytes
}

/// Whether a line is over the line cap once it is within the buffer cap.
pub open spec fn over_line_cap(
    line: Seq<char>,
    max_line_bytes: usize,
    max_buffer_bytes: usize,
) -> bool {
    encode_utf8(truncated_text(line, max_buffer_bytes as int)).len() > max_line_bytes
}

/// The notices that go with a line: one for each cap that it was cut to.
pub open spec fn clamp_notices(
    line: Seq<char>,
    max_line_bytes: usize,
    max_buffer_bytes: usize,
) -> Seq<Seq<char>> {
    let first = if over_buffer_cap(line, max_buffer_bytes) {
        seq![stdin_overflow_text(max_buffer_bytes)]
    } else {
        Seq::empty()
    };
    let second = if over_line_cap(line, max_line_bytes, max_buffer_bytes) {
        seq![stdin_oversized_text(max_line_bytes)]
    } else {
        Seq::empty()
    };
    first + second
}

/// Cuts a line that was read to the buffer cap and then to the line cap, never
/// inside a character, and returns a notice for each cut.
pub fn clamp_stdin_line(
    line: &mut String,
    max_line_bytes: usize,
    max_buffer_bytes: usize,
) -> (notices: Vec<String>)
    ensures
        final(line)@ == clamped_line(old(line)@, max_line_bytes, max_buffer_bytes),
        texts(notices@) == clamp_notices(old(line)@, max_line_bytes, max_buffer_bytes),
        encode_utf8(final(line)@).len() <= max_line_bytes,
{
    let mut notices: Vec<String> = Vec::new();
    if line.as_str().as_bytes().len() > max_buffer_bytes {
        notices.push(stdin_overflow_notice(max_buffer_bytes));
        truncate_utf8_to_bytes(line, max_buffer_bytes);
    }
    if line.as_str().as_bytes().len() > max_line_bytes {
        notices.push(stdin_oversized_notice(max_line_bytes));
        truncate_utf8_to_bytes(line, max_line_bytes);
    }
    assert(texts(notices@) =~= clamp_notices(old(line)@, max_line_bytes, max_buffer_bytes));
    notices
}

/// What a read of standard input gave.
#[derive(Debug)]
pub enum ReaderEvent {
    /// A line, with its line end if it had one.
    Line(String),
    /// The input has ended.
    EndOfInput,
    /// The read failed.
    Failed,
}

/// What the reader does with what it read.
#[derive(Debug)]
pub enum ReaderAction {
    /// Write the notices, hand the line over, and read on.
    Forward { line: String, notices: Vec<String> },
    /// Read no more.
    Stop,
}

/// Decides what the reader does after a read: a line is handed over within the
/// two caps, and the end of the input or a failed read ends the reader.
pub fn reader_step(event: ReaderEvent, max_line_bytes: usize, max_buffer_bytes: usize) -> (action:
    ReaderAction)
    ensures
        match event {
            ReaderEvent::Line(read) => action matches ReaderAction::Forward { line, notices }
                && line@ == clamped_line(read@, max_line_bytes, max_buffer_bytes) && texts(
                notices@,
            ) == clamp_notices(read@, max_line_bytes, max_buffer_bytes),
            _ => action is Stop,
        },
{
    match event {
        ReaderEvent::Line(read) => {
            let mut line = read;
            let notices = clamp_stdin_line(&mut line, max_line_bytes, max_buffer_bytes);
            ReaderAction::Forward { line, notices }
        },
        _ => ReaderAction::Stop,
    }
}

/// Whether a byte is one of the two that end a line.
pub open spec fn is_line_end(b: u8) -> bool {
    b == LINE_FEED || b == CARRIAGE_RETURN
}

/// The length of `bytes` without the line feeds and carriage returns at its end.
pub open spec fn trimmed_len(bytes: Seq<u8>) -> nat
    decreases bytes.len(),
{
    if bytes.len() > 0 && is_line_end(bytes.last()) {
        trimmed_len(bytes.drop_last())
    } else {
        bytes.len()
    }
}

/// A text without the line feeds and carriage returns at its end, however many.
pub open spec fn trimmed_line(text: Seq<char>) -> Seq<char> {
    let bytes = encode_utf8(text);
    slice_text(bytes, 0, trimmed_len(bytes) as int)
}

/// Where the trimmed part of a text ends, no line end stands before and only
/// line ends stand behind.
pub proof fn lemma_trimmed_len(bytes: Seq<u8>)
    ensures
        trimmed_len(bytes) <= bytes.len(),
        trimmed_len(bytes) > 0 ==> !is_line_end(bytes[trimmed_len(bytes) - 1]),
        forall|i: int| trimmed_len(bytes) <= i < bytes.len() ==> is_line_end(bytes[i]),
    decreases bytes.len(),
{
    if bytes.len() > 0 && is_line_end(bytes.last()) {
        let shorter = bytes.drop_last();
        lemma_trimmed_len(shorter);
        assert forall|i: int| trimmed_len(bytes) <= i < bytes.len() implies is_line_end(
            bytes[i],
        ) by {
            if i < shorter.len() {
                assert(bytes[i] == shorter[i]);
            }
        }
    }
}

/// `line` without the line feeds and carriage returns at its end.
pub fn trim_line_end(line: &str) -> (out: &str)
    ensures
        out@ == trimmed_line(line@),
        out@ == without_line_end(line@),
{
    broadcast use group_utf8_lib;

    proof {
        lemma_trimmed_line_by_chars(line@);
    }

    let bytes = line.as_bytes();
    let n: usize = bytes.len();
    let mut k: usize = n;
    assert(bytes@.subrange(0, n as int) =~= bytes@);
    while k > 0 && (bytes[k - 1] == LINE_FEED || bytes[k - 1] == CARRIAGE_RETURN)
        invariant
            0 <= k <= n,
            n == bytes@.len(),
            trimmed_len(bytes@.subrange(0, k as int)) == trimmed_len(bytes@),
        decreases k,
    {
        assert(bytes@.subrange(0, k as int).drop_last() =~= bytes@.subrange(0, k - 1));
        k = k - 1;
    }
    proof {
        assert(trimmed_len(bytes@) == k);
        lemma_trimmed_len(bytes@);
        if k < n {
            assert(is_line_end(bytes@[k as int]));
            is_char_boundary_iff_not_is_continuation_byte(bytes@, k as int);
        }
    }
    slice_str(line, 0, k)
}

/// Whether a character is one of the two that end a line.
pub open spec fn is_line_end_char(c: char) -> bool {
    c == '\n' || c == '\r'
}

/// A text without the line-end characters at its end, however many.
pub open spec fn without_line_end(text: Seq<char>) -> Seq<char>
    decreases text.len(),
{
    if text.len() > 0 && is_line_end_char(text.last()) {
        without_line_end(text.drop_last())
    } else {
        text
    }
}

/// A line-end byte alone spells the line-end character of the same number.
proof fn lemma_line_end_decodes(b: u8)
    requires
        is_line_end(b),
    ensures
        valid_utf8(seq![b]),
        decode_utf8(seq![b]) == seq![b as char],
        is_line_end_char(b as char),
{
    let s = seq![b];
    assert(codepoint_width_1(b) == b as u32) by (bit_vector)
        requires
            b == 10 || b == 13,
    ;
    assert(pop_first_scalar(s) =~= Seq::<u8>::empty());
    assert(valid_utf8(pop_first_scalar(s)));
    assert(valid_first_scalar(s));
    assert(valid_utf8(s));
    assert(decode_utf8(pop_first_scalar(s)) =~= Seq::<char>::empty());
    assert(decode_utf8(s) =~= seq![decode_first_scalar(s) as char]);
}

/// A text whose bytes end in a line-end byte ends in that line-end character,
/// and the bytes before are the text before.
proof fn lemma_last_byte_is_last_char(text: Seq<char>)
    requires
        encode_utf8(text).len() > 0,
        is_line_end(encode_utf8(text).last()),
    ensures
        text.len() > 0,
        text.last() == encode_utf8(text).last() as char,
        is_line_end_char(text.last()),
        encode_utf8(text.drop_last()) == encode_utf8(text).drop_last(),
{
    broadcast use group_utf8_lib;

    let bytes = encode_utf8(text);
    let k = bytes.len() - 1;
    let b = bytes.last();
    is_char_boundary_iff_not_is_continuation_byte(bytes, k);
    valid_utf8_split(bytes, k);
    decode_utf8_split(bytes, k);
    lemma_line_end_decodes(b);
    assert(bytes.subrange(k, bytes.len() as int) =~= seq![b]);
    assert(bytes.subrange(0, k) =~= bytes.drop_last());
    let front = decode_utf8(bytes.drop_last());
    assert(text == decode_utf8(bytes));
    assert(text =~= front + seq![b as char]);
    assert(text.drop_last() =~= front);
    assert(encode_utf8(front) == bytes.drop_last());
}

/// A text that ends in a line-end character has bytes that end in the
/// line-end byte of the same number.
proof fn lemma_last_char_is_last_byte(text: Seq<char>)
    requires
        text.len() > 0,
        is_line_end_char(text.last()),
    ensures
        encode_utf8(text).len() > 0,
        is_line_end(encode_utf8(text).last()),
{
    broadcast use group_utf8_lib;

    let front = text.drop_last();
    let b: u8 = if text.last() == '\n' {
        LINE_FEED
    } else {
        CARRIAGE_RETURN
    };
    lemma_line_end_decodes(b);
    assert(b as char == text.last());
    let head = encode_utf8(front);
    let whole = head + seq![b];
    valid_utf8_concat(head, seq![b]);
    is_char_boundary_iff_not_is_continuation_byte(whole, head.len() as int);
    decode_utf8_split(whole, head.len() as int);
    assert(whole.subrange(0, head.len() as int) =~= head);
    assert(whole.subrange(head.len() as int, whole.len() as int) =~= seq![b]);
    assert(decode_utf8(whole) =~= front + seq![b as char]);
    assert(front + seq![b as char] =~= text);
    assert(encode_utf8(decode_utf8(whole)) == whole);
}

/// Trimming by bytes is trimming by characters: a trimmed line is the line
/// without the line feeds and carriage returns at its end.
pub proof fn lemma_trimmed_line_by_chars(text: Seq<char>)
    ensures
        trimmed_line(text) == without_line_end(text),
    decreases text.len(),
{
    broadcast use group_utf8_lib;

    let bytes = encode_utf8(text);
    if text.len() > 0 && is_line_end_char(text.last()) {
        lemma_last_char_is_last_byte(text);
        lemma_last_byte_is_last_char(text);
        let front = text.drop_last();
        lemma_trimmed_line_by_chars(front);
        let k = trimmed_len(bytes.drop_last()) as int;
        lemma_trimmed_len(bytes.drop_last());
        assert(bytes.drop_last().subrange(0, k) =~= bytes.subrange(0, k));
    } else {
        if bytes.len() > 0 && is_line_end(bytes.last()) {
            lemma_last_byte_is_last_char(text);
        }
        assert(bytes.subrange(0, bytes.len() as int) =~= bytes);
    }
}

/// A trimmed line is the beginning of the line it was trimmed from.
pub proof fn lemma_trimmed_line_is_prefix(text: Seq<char>)
    ensures
        trimmed_line(text).len() <= text.len(),
        trimmed_line(text) == text.subrange(0, trimmed_line(text).len() as int),
{
    broadcast use group_utf8_lib;

    let bytes = encode_utf8(text);
    let k = trimmed_len(bytes) as int;
    lemma_trimmed_len(bytes);
    if k < bytes.len() {
        assert(is_line_end(bytes[k]));
        is_char_boundary_iff_not_is_continuation_byte(bytes, k);
    }
    valid_utf8_split(bytes, k);
    decode_utf8_split(bytes, k);
    let head = decode_utf8(bytes.subrange(0, k));
    let rest = decode_utf8(bytes.subrange(k, bytes.len() as int));
    assert(text == decode_utf8(bytes));
    assert(text =~= head + rest);
    assert(text.subrange(0, head.len() as int) =~= head);
}

/// What a timed wait on the queue gave.
#[derive(Debug)]
pub enum StdinEvent {
    /// A line arrived.
    Line(String),
    /// Nothing arrived within one poll interval.
    TimedOut,
    /// The reader has ended and the queue is empty.
    Disconnected,
}

/// The poll loop as a mathematical value.
pub struct StdinLoop {
    /// The emission schedule.
    pub schedule: Schedule,
    /// Whether the run is over.
    pub finished: bool,
}

/// A poll loop after a step, and the lines that the step shows.
pub struct StdinOutcome {
    pub next: StdinLoop,
    pub shown: Seq<Seq<char>>,
}

/// The line that is shown at once when `line` arrives, if one is.
pub open spec fn shown_on_arrival(
    line: Seq<char>,
    pattern: Option<Seq<char>>,
    code: Seq<char>,
    colors_enabled: bool,
) -> Seq<Seq<char>> {
    if line_matches(pattern, line) {
        seq![decorated(line, pattern, code, colors_enabled)]
    } else {
        Seq::empty()
    }
}

impl StdinLoop {
    /// The loop once the schedule has seen `line` at `now`.
    pub open spec fn arrived(
        self,
        line: Seq<char>,
        args: Args,
        pattern: Option<Seq<char>>,
        now: int,
    ) -> StdinLoop {
        StdinLoop {
            schedule: self.schedule.observed(
                line,
                line_matches(pattern, line),
                args.line_seconds,
                args.idle_seconds,
                now,
            ),
            ..self
        }
    }

    /// The loop once the clocks have been looked at.
    pub open spec fn polled(self, args: Args, now: int) -> StdinLoop {
        StdinLoop {
            schedule: self.schedule.ticked(args.line_seconds, args.idle_seconds, now),
            ..self
        }
    }

    /// What looking at the clocks at `now` shows.
    pub open spec fn shown_on_poll(
        self,
        args: Args,
        pattern: Option<Seq<char>>,
        colors_enabled: bool,
        now: int,
    ) -> Seq<Seq<char>> {
        tick_output(
            self.schedule,
            args.line_seconds,
            args.idle_seconds,
            pattern,
            args.color.code(),
            colors_enabled,
            now,
        )
    }

    /// The loop after `event` at `now`, and the lines to show. A line is
    /// trimmed of its line end and seen by the schedule; then, as after a wait
    /// that timed out, the clocks are looked at. When the reader has ended the
    /// run is over, and nothing changes any more.
    pub open spec fn step(
        self,
        event: StdinEvent,
        args: Args,
        pattern: Option<Seq<char>>,
        colors_enabled: bool,
        now: int,
    ) -> StdinOutcome {
        if self.finished {
            StdinOutcome { next: self, shown: Seq::empty() }
        } else {
            match event {
                StdinEvent::Line(raw) => {
                    let line = without_line_end(raw@);
                    let seen = self.arrived(line, args, pattern, now);
                    StdinOutcome {
                        next: seen.polled(args, now),
                        shown: shown_on_arrival(line, pattern, args.color.code(), colors_enabled)
                            + seen.shown_on_poll(args, pattern, colors_enabled, now),
                    }
                },
                StdinEvent::TimedOut => StdinOutcome {
                    next: self.polled(args, now),
                    shown: self.shown_on_poll(args, pattern, colors_enabled, now),
                },
                StdinEvent::Disconnected => StdinOutcome {
                    next: StdinLoop { finished: true, ..self },
                    shown: Seq::empty(),
                },
            }
        }
    }
}

/// The poll loop over standard input.
pub struct StdinFollower {
    /// The emission schedule.
    pub emit: EmitState,
    /// Whether the run is over.
    pub finished: bool,
}

impl View for StdinFollower {
    type V = StdinLoop;

    open spec fn view(&self) -> StdinLoop {
        StdinLoop { schedule: self.emit@, finished: self.finished }
    }
}

impl StdinFollower {
    /// A poll loop at the start of a run: the clocks run from `now`.
    pub fn new(args: &Args, now: u64) -> (follower: StdinFollower)
        ensures
            follower@.schedule == Schedule::started(
                args.line_seconds,
                args.idle_seconds,
                now as int,
            ),
            !follower@.finished,
    {
        StdinFollower { emit: EmitState::new(args, now), finished: false }
    }

    /// Whether the run is over.
    pub fn is_finished(&self) -> (finished: bool)
        ensures
            finished == self@.finished,
    {
        self.finished
    }

    /// Takes in what the wait on the queue gave at `now` and returns the lines
    /// to show.
    pub fn step(
        &mut self,
        event: StdinEvent,
        args: &Args,
        regex: Option<&LinePattern>,
        colors_enabled: bool,
        now: u64,
    ) -> (lines: Vec<String>)
        ensures
            final(self)@ == old(self)@.step(
                event,
                *args,
                pattern_text(regex),
                colors_enabled,
                now as int,
            ).next,
            texts(lines@) == old(self)@.step(
                event,
                *args,
                pattern_text(regex),
                colors_enabled,
                now as int,
            ).shown,
    {
        let mut lines: Vec<String> = Vec::new();
        if self.finished {
            assert(texts(lines@) =~= Seq::<Seq<char>>::empty());
            return lines;
        }
        match event {
            StdinEvent::Line(raw) => {
                let line = String::from_str(trim_line_end(raw.as_str()));
                match self.emit.observe_input(line, args, regex, &args.color, colors_enabled, now) {
                    Some(text) => {
                        lines.push(text);
                    },
                    None => {},
                }
                let ghost first = texts(lines@);
                assert(first =~= shown_on_arrival(
                    without_line_end(raw@),
                    pattern_text(regex),
                    args.color.code(),
                    colors_enabled,
                ));
                let mut due = self.emit.maybe_emit(args, regex, colors_enabled, now);
                let ghost second = texts(due@);
                lines.append(&mut due);
                assert(texts(lines@) =~= first + second);
                lines
            },
            StdinEvent::TimedOut => self.emit.maybe_emit(args, regex, colors_enabled, now),
            StdinEvent::Disconnected => {
                self.finished = true;
                assert(texts(lines@) =~= Seq::<Seq<char>>::empty());
                lines
            },
        }
    }
}

/// A line that is handed over is within both caps, and is the beginning of the
/// line that was read.
pub proof fn lemma_clamped_line_within_caps(
    line: Seq<char>,
    max_line_bytes: usize,
    max_buffer_bytes: usize,
)
    ensures
        ({
            let clamped = clamped_line(line, max_line_bytes, max_buffer_bytes);
            &&& encode_utf8(clamped).len() <= max_line_bytes
            &&& encode_utf8(clamped).len() <= max_buffer_bytes
            &&& clamped.len() <= line.len()
            &&& clamped == line.subrange(0, clamped.len() as int)
        }),
{
    let first = truncated_text(line, max_buffer_bytes as int);
    lemma_truncated_text(line, max_buffer_bytes as int);
    lemma_truncated_text(first, max_line_bytes as int);
    let clamped = clamped_line(line, max_line_bytes, max_buffer_bytes);
    assert(clamped =~= line.subrange(0, clamped.len() as int));
}

/// A line within both caps is handed over as it was read, with no notice.
pub proof fn lemma_short_line_is_kept(
    line: Seq<char>,
    max_line_bytes: usize,
    max_buffer_bytes: usize,
)
    requires
        encode_utf8(line).len() <= max_line_bytes,
        encode_utf8(line).len() <= max_buffer_bytes,
    ensures
        clamped_line(line, max_line_bytes, max_buffer_bytes) == line,
        clamp_notices(line, max_line_bytes, max_buffer_bytes) == Seq::<Seq<char>>::empty(),
{
}

/// Once the reader has ended, the poll loop takes in nothing.
pub proof fn lemma_finished_is_final(
    state: StdinLoop,
    event: StdinEvent,
    args: Args,
    pattern: Option<Seq<char>>,
    colors_enabled: bool,
    now: int,
)
    requires
        state.finished,
    ensures
        state.step(event, args, pattern, colors_enabled, now).next == state,
        state.step(event, args, pattern, colors_enabled, now).shown == Seq::<Seq<char>>::empty(),
{
}

/// Only the end of the reader ends the poll loop.
pub proof fn lemma_only_disconnection_finishes(
    state: StdinLoop,
    event: StdinEvent,
    args: Args,
    pattern: Option<Seq<char>>,
    colors_enabled: bool,
    now: int,
)
    requires
        !state.finished,
    ensures
        state.step(event, args, pattern, colors_enabled, now).next.finished
            <==> event is Disconnected,
{
}

/// A line that does not match waits for the line clock: if the clock has not
/// expired when the line arrives, the step shows nothing and holds the line.
pub proof fn lemma_ordinary_line_is_held(
    state: StdinLoop,
    raw: String,
    args: Args,
    pattern: Option<Seq<char>>,
    colors_enabled: bool,
    now: int,
)
    requires
        !state.finished,
        !line_matches(pattern, without_line_end(raw@)),
        !state.schedule.line_due(now),
        !state.schedule.idle_due(args.idle_seconds, now),
    ensures
        ({
            let after = state.step(StdinEvent::Line(raw), args, pattern, colors_enabled, now);
            &&& after.shown == Seq::<Seq<char>>::empty()
            &&& after.next.schedule.latest_line == Some(without_line_end(raw@))
            &&& after.next.schedule.next_line_emit == state.schedule.next_line_emit
        }),
{
    let after = state.step(StdinEvent::Line(raw), args, pattern, colors_enabled, now);
    assert(after.shown =~= Seq::<Seq<char>>::empty());
}

} // verus!
