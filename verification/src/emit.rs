//! The emission schedule: which line is shown when.
//!
//! Ordinary lines are throttled: the newest one is held back and shown when the
//! line clock next expires, earlier ones are given up. A line that matches the
//! highlight pattern is shown at once. A second clock announces silence.
//!
//! Time is a count of nanoseconds from a start that the caller chooses.

use crate::cli::{Args, HighlightColor};
use crate::output::{decorate_line, decorated, pattern_text};
use crate::pattern::{regex_is_match, LinePattern};
use crate::text::{decimal_string, decimal_text, texts};
use vstd::prelude::*;
use vstd::string::StringExecFns;

verus! {

/// Nanoseconds in a second.
pub const NANOS_PER_SECOND: u64 = 1_000_000_000;

/// A number of seconds, in nanoseconds.
pub open spec fn interval(seconds: u64) -> int {
    seconds * NANOS_PER_SECOND
}

/// When silence is next announced, counting from `now`: never without an idle interval.
pub open spec fn idle_deadline(idle_seconds: Option<u64>, now: int) -> Option<int> {
    match idle_seconds {
        Some(seconds) => Some(now + interval(seconds)),
        None => None,
    }
}

/// The schedule as a mathematical value.
pub struct Schedule {
    /// When the held line is due.
    pub next_line_emit: int,
    /// When silence is next announced, if it ever is.
    pub next_idle_emit: Option<int>,
    /// When something was last shown.
    pub last_output: int,
    /// The line held back, if there is one.
    pub latest_line: Option<Seq<char>>,
}

impl Schedule {
    /// The schedule of a run that starts at `now`.
    pub open spec fn started(line_seconds: u64, idle_seconds: Option<u64>, now: int) -> Schedule {
        Schedule {
            next_line_emit: now + interval(line_seconds),
            next_idle_emit: idle_deadline(idle_seconds, now),
            last_output: now,
            latest_line: None,
        }
    }

    /// The schedule once something has been shown at `now`.
    pub open spec fn marked(self, idle_seconds: Option<u64>, now: int) -> Schedule {
        Schedule {
            last_output: now,
            next_idle_emit: idle_deadline(idle_seconds, now),
            ..self
        }
    }

    /// The schedule once a line has been seen at `now`. A matching line is shown,
    /// drops the held line and restarts both clocks; another one is held in
    /// place of whatever was held.
    pub open spec fn observed(
        self,
        line: Seq<char>,
        matched: bool,
        line_seconds: u64,
        idle_seconds: Option<u64>,
        now: int,
    ) -> Schedule {
        if matched {
            Schedule {
                latest_line: None,
                next_line_emit: now + interval(line_seconds),
                ..self.marked(idle_seconds, now)
            }
        } else {
            Schedule { latest_line: Some(line), ..self }
        }
    }

    /// Whether the line clock has expired at `now`.
    pub open spec fn line_due(self, now: int) -> bool {
        now >= self.next_line_emit
    }

    /// The line that a tick at `now` shows, if it shows one.
    pub open spec fn flushed(self, now: int) -> Option<Seq<char>> {
        if self.line_due(now) {
            self.latest_line
        } else {
            None
        }
    }

    /// The schedule once the line clock has been looked at: if it has expired it
    /// is restarted, and the held line, if there is one, has been shown.
    pub open spec fn after_line_clock(
        self,
        line_seconds: u64,
        idle_seconds: Option<u64>,
        now: int,
    ) -> Schedule {
        if !self.line_due(now) {
            self
        } else if self.latest_line is Some {
            Schedule {
                latest_line: None,
                next_line_emit: now + interval(line_seconds),
                ..self.marked(idle_seconds, now)
            }
        } else {
            Schedule { next_line_emit: now + interval(line_seconds), ..self }
        }
    }

    /// Whether silence is announced at `now`: nothing was shown for a whole idle
    /// interval, and the idle clock has expired.
    pub open spec fn idle_due(self, idle_seconds: Option<u64>, now: int) -> bool {
        match (idle_seconds, self.next_idle_emit) {
            (Some(seconds), Some(deadline)) => now - self.last_output >= interval(seconds) && now
                >= deadline,
            _ => false,
        }
    }

    /// The schedule once the idle clock has been looked at.
    pub open spec fn after_idle_clock(self, idle_seconds: Option<u64>, now: int) -> Schedule {
        if self.idle_due(idle_seconds, now) {
            Schedule { next_idle_emit: idle_deadline(idle_seconds, now), ..self }
        } else {
            self
        }
    }

    /// The schedule after a tick at `now`: first the line clock, then the idle clock.
    pub open spec fn ticked(
        self,
        line_seconds: u64,
        idle_seconds: Option<u64>,
        now: int,
    ) -> Schedule {
        self.after_line_clock(line_seconds, idle_seconds, now).after_idle_clock(idle_seconds, now)
    }

    /// Whether a tick at `now` announces silence.
    pub open spec fn announces_idle(
        self,
        line_seconds: u64,
        idle_seconds: Option<u64>,
        now: int,
    ) -> bool {
        self.after_line_clock(line_seconds, idle_seconds, now).idle_due(idle_seconds, now)
    }
}

/// The text of a line that may be absent.
pub open spec fn held_text(line: Option<String>) -> Option<Seq<char>> {
    match line {
        Some(text) => Some(text@),
        None => None,
    }
}

/// The announcement of `seconds` seconds of silence.
pub open spec fn idle_text(seconds: u64) -> Seq<char> {
    "[no output for "@ + decimal_text(seconds as nat) + " seconds]"@
}

/// What a tick at `now` shows: the held line if it is due, as it is decorated,
/// and then the announcement of silence if that is due.
pub open spec fn tick_output(
    schedule: Schedule,
    line_seconds: u64,
    idle_seconds: Option<u64>,
    pattern: Option<Seq<char>>,
    code: Seq<char>,
    colors_enabled: bool,
    now: int,
) -> Seq<Seq<char>> {
    let line = match schedule.flushed(now) {
        Some(text) => seq![decorated(text, pattern, code, colors_enabled)],
        None => Seq::empty(),
    };
    let idle = if schedule.announces_idle(line_seconds, idle_seconds, now) {
        seq![idle_text(idle_seconds->0)]
    } else {
        Seq::empty()
    };
    line + idle
}

/// What one tick found due.
pub struct Tick {
    /// The held line, now released.
    pub line: Option<String>,
    /// Whether silence is to be announced.
    pub idle: bool,
}

/// The state of the schedule.
pub struct EmitState {
    /// When the held line is due, in nanoseconds.
    pub next_line_emit: u128,
    /// When silence is next announced, in nanoseconds, if it ever is.
    pub next_idle_emit: Option<u128>,
    /// When something was last shown, in nanoseconds.
    pub last_output: u64,
    /// The line held back: the newest ordinary line since the last one shown.
    pub latest_line: Option<String>,
}

impl View for EmitState {
    type V = Schedule;

    open spec fn view(&self) -> Schedule {
        Schedule {
            next_line_emit: self.next_line_emit as int,
            next_idle_emit: match self.next_idle_emit {
                Some(deadline) => Some(deadline as int),
                None => None,
            },
            last_output: self.last_output as int,
            latest_line: held_text(self.latest_line),
        }
    }
}

/// `now` plus a number of seconds, in nanoseconds.
fn deadline_after(now: u64, seconds: u64) -> (deadline: u128)
    ensures
        deadline == now + interval(seconds),
{
    let per_second: u128 = 1_000_000_000;
    let span: u128 = seconds as u128 * per_second;
    now as u128 + span
}

/// The next idle deadline counted from `now`, if silence is announced at all.
fn idle_deadline_after(now: u64, idle_seconds: Option<u64>) -> (deadline: Option<u128>)
    ensures
        match deadline {
            Some(d) => idle_deadline(idle_seconds, now as int) == Some(d as int),
            None => idle_deadline(idle_seconds, now as int) is None,
        },
{
    match idle_seconds {
        Some(seconds) => Some(deadline_after(now, seconds)),
        None => None,
    }
}

/// The announcement of `seconds` seconds of silence.
pub fn idle_notice(seconds: u64) -> (text: String)
    ensures
        text@ == idle_text(seconds),
{
    let mut text = String::from_str("[no output for ");
    let number = decimal_string(seconds);
    text.append(number.as_str());
    text.append(" seconds]");
    text
}

impl EmitState {
    /// The schedule of a run that starts at `now`.
    pub fn new(args: &Args, now: u64) -> (state: EmitState)
        ensures
            state@ == Schedule::started(args.line_seconds, args.idle_seconds, now as int),
    {
        EmitState {
            next_line_emit: deadline_after(now, args.line_seconds),
            next_idle_emit: idle_deadline_after(now, args.idle_seconds),
            last_output: now,
            latest_line: None,
        }
    }

    /// Records that something was shown at `now`: silence is counted from here.
    pub fn mark_output_emitted(&mut self, now: u64, args: &Args)
        ensures
            final(self)@ == old(self)@.marked(args.idle_seconds, now as int),
    {
        self.last_output = now;
        self.next_idle_emit = idle_deadline_after(now, args.idle_seconds);
    }

    /// Takes in a line seen at `now`, already known to match the pattern or not.
    /// Returns the line if it is to be shown at once; otherwise the line is held.
    pub fn observe(&mut self, line: String, matched: bool, args: &Args, now: u64) -> (shown: Option<
        String,
    >)
        ensures
            final(self)@ == old(self)@.observed(
                line@,
                matched,
                args.line_seconds,
                args.idle_seconds,
                now as int,
            ),
            held_text(shown) == if matched {
                Some(line@)
            } else {
                None
            },
    {
        if matched {
            self.mark_output_emitted(now, args);
            self.latest_line = None;
            self.next_line_emit = deadline_after(now, args.line_seconds);
            Some(line)
        } else {
            self.latest_line = Some(line);
            None
        }
    }

    /// Looks at both clocks at `now`. Releases the held line if the line clock
    /// has expired, and says whether silence is to be announced.
    pub fn tick(&mut self, args: &Args, now: u64) -> (due: Tick)
        ensures
            final(self)@ == old(self)@.ticked(args.line_seconds, args.idle_seconds, now as int),
            held_text(due.line) == old(self)@.flushed(now as int),
            due.idle == old(self)@.announces_idle(
                args.line_seconds,
                args.idle_seconds,
                now as int,
            ),
    {
        let mut line: Option<String> = None;
        if now as u128 >= self.next_line_emit {
            line = self.latest_line.take();
            if line.is_some() {
                self.mark_output_emitted(now, args);
            }
            self.next_line_emit = deadline_after(now, args.line_seconds);
        }
        let mut idle = false;
        if let Some(seconds) = args.idle_seconds {
            if let Some(deadline) = self.next_idle_emit {
                let per_second: u128 = 1_000_000_000;
                let span: u128 = seconds as u128 * per_second;
                let silent = now >= self.last_output && (now - self.last_output) as u128 >= span;
                if silent && now as u128 >= deadline {
                    idle = true;
                    self.next_idle_emit = Some(deadline_after(now, seconds));
                }
            }
        }
        Tick { line, idle }
    }

    /// Takes in a line seen at `now`. If it matches the pattern it is returned,
    /// decorated, to be shown at once; otherwise it is held.
    pub fn observe_input(
        &mut self,
        line: String,
        args: &Args,
        regex: Option<&LinePattern>,
        color: &HighlightColor,
        colors_enabled: bool,
        now: u64,
    ) -> (shown: Option<String>)
        ensures
            final(self)@ == old(self)@.observed(
                line@,
                line_matches(pattern_text(regex), line@),
                args.line_seconds,
                args.idle_seconds,
                now as int,
            ),
            held_text(shown) == if line_matches(pattern_text(regex), line@) {
                Some(decorated(line@, pattern_text(regex), color.code(), colors_enabled))
            } else {
                None
            },
    {
        let matched = match regex {
            Some(pattern) => pattern.matches(line.as_str()),
            None => false,
        };
        match self.observe(line, matched, args, now) {
            Some(text) => Some(decorate_line(text.as_str(), regex, color, colors_enabled)),
            None => None,
        }
    }

    /// Looks at both clocks at `now` and returns what is to be shown, in order:
    /// the held line, decorated, if the line clock has expired, and the
    /// announcement of silence if that is due.
    pub fn maybe_emit(
        &mut self,
        args: &Args,
        regex: Option<&LinePattern>,
        colors_enabled: bool,
        now: u64,
    ) -> (shown: Vec<String>)
        ensures
            final(self)@ == old(self)@.ticked(args.line_seconds, args.idle_seconds, now as int),
            texts(shown@) == tick_output(
                old(self)@,
                args.line_seconds,
                args.idle_seconds,
                pattern_text(regex),
                args.color.code(),
                colors_enabled,
                now as int,
            ),
    {
        let due = self.tick(args, now);
        let mut shown: Vec<String> = Vec::new();
        if let Some(line) = due.line {
            shown.push(decorate_line(line.as_str(), regex, &args.color, colors_enabled));
        }
        if due.idle {
            if let Some(seconds) = args.idle_seconds {
                shown.push(idle_notice(seconds));
            }
        }
        assert(texts(shown@) =~= tick_output(
            old(self)@,
            args.line_seconds,
            args.idle_seconds,
            pattern_text(regex),
            args.color.code(),
            colors_enabled,
            now as int,
        ));
        shown
    }
}

/// Whether a line is shown at once: there is a pattern, and it matches the line.
pub open spec fn line_matches(pattern: Option<Seq<char>>, line: Seq<char>) -> bool {
    match pattern {
        Some(p) => regex_is_match(p, line),
        None => false,
    }
}

/// The newest ordinary line wins: of two lines seen one after the other with no
/// match among them, only the second is held.
pub proof fn lemma_latest_line_wins(
    schedule: Schedule,
    first: Seq<char>,
    second: Seq<char>,
    line_seconds: u64,
    idle_seconds: Option<u64>,
    earlier: int,
    later: int,
)
    ensures
        schedule.observed(first, false, line_seconds, idle_seconds, earlier).observed(
            second,
            false,
            line_seconds,
            idle_seconds,
            later,
        ) == schedule.observed(second, false, line_seconds, idle_seconds, later),
{
}

/// A matching line drops the line that was held: no tick after it releases a
/// line until another line has been seen.
pub proof fn lemma_match_discards_held_line(
    schedule: Schedule,
    line: Seq<char>,
    line_seconds: u64,
    idle_seconds: Option<u64>,
    now: int,
    later: int,
)
    ensures
        schedule.observed(line, true, line_seconds, idle_seconds, now).latest_line is None,
        schedule.observed(line, true, line_seconds, idle_seconds, now).flushed(later) is None,
{
}

/// A tick never leaves a held line behind once the line clock has expired, and
/// with a line interval of at least a second it restarts the clock beyond `now`:
/// until a whole interval has passed no tick releases a line.
pub proof fn lemma_tick_restarts_line_clock(
    schedule: Schedule,
    line_seconds: u64,
    idle_seconds: Option<u64>,
    now: int,
    later: int,
)
    requires
        line_seconds >= 1,
        schedule.line_due(now),
        later < now + interval(line_seconds),
    ensures
        schedule.ticked(line_seconds, idle_seconds, now).latest_line is None,
        schedule.ticked(line_seconds, idle_seconds, now).next_line_emit == now + interval(
            line_seconds,
        ),
        !schedule.ticked(line_seconds, idle_seconds, now).line_due(later),
        schedule.ticked(line_seconds, idle_seconds, now).flushed(later) is None,
{
}

/// The two clocks are separate: with an idle interval of at least a second, a
/// tick that releases a line does not announce silence.
pub proof fn lemma_line_silences_idle_notice(
    schedule: Schedule,
    line_seconds: u64,
    idle_seconds: Option<u64>,
    now: int,
)
    requires
        idle_seconds matches Some(seconds) ==> seconds >= 1,
        schedule.flushed(now) is Some,
    ensures
        !schedule.announces_idle(line_seconds, idle_seconds, now),
{
}

/// Silence is announced at most once per idle interval: after a tick that
/// announced it at `now`, no tick before `now` plus the interval does so again,
/// whatever was seen in between.
pub proof fn lemma_idle_notice_restarts_idle_clock(
    schedule: Schedule,
    line_seconds: u64,
    idle_seconds: Option<u64>,
    now: int,
    later: int,
)
    requires
        idle_seconds matches Some(seconds) ==> seconds >= 1,
        schedule.announces_idle(line_seconds, idle_seconds, now),
        later < now + interval(idle_seconds->0),
    ensures
        !schedule.ticked(line_seconds, idle_seconds, now).idle_due(idle_seconds, later),
{
}

/// A tick at the very start of a run, with intervals of at least a second,
/// changes nothing and shows nothing.
pub proof fn lemma_tick_at_start_is_idle(line_seconds: u64, idle_seconds: Option<u64>, now: int)
    requires
        line_seconds >= 1,
        idle_seconds matches Some(seconds) ==> seconds >= 1,
    ensures
        Schedule::started(line_seconds, idle_seconds, now).ticked(line_seconds, idle_seconds, now)
            == Schedule::started(line_seconds, idle_seconds, now),
        Schedule::started(line_seconds, idle_seconds, now).flushed(now) is None,
        !Schedule::started(line_seconds, idle_seconds, now).announces_idle(
            line_seconds,
            idle_seconds,
            now,
        ),
{
}

/// Something that happens to a schedule: a line is seen, or the clocks are
/// looked at.
pub enum Happening {
    /// A line was seen at `at`; `matched` says whether it matched the pattern.
    Seen { line: Seq<char>, matched: bool, at: int },
    /// The clocks were looked at at `at`.
    Tick { at: int },
}

impl Happening {
    /// When it happened.
    pub open spec fn at(self) -> int {
        match self {
            Happening::Seen { at, .. } => at,
            Happening::Tick { at } => at,
        }
    }
}

/// The schedule after one happening.
pub open spec fn after_happening(
    schedule: Schedule,
    happening: Happening,
    line_seconds: u64,
    idle_seconds: Option<u64>,
) -> Schedule {
    match happening {
        Happening::Seen { line, matched, at } => schedule.observed(
            line,
            matched,
            line_seconds,
            idle_seconds,
            at,
        ),
        Happening::Tick { at } => schedule.ticked(line_seconds, idle_seconds, at),
    }
}

/// The times at which a held line is released in the course of `happenings`.
pub open spec fn release_times(
    schedule: Schedule,
    happenings: Seq<Happening>,
    line_seconds: u64,
    idle_seconds: Option<u64>,
) -> Seq<int>
    decreases happenings.len(),
{
    if happenings.len() == 0 {
        Seq::empty()
    } else {
        let first = happenings[0];
        let released = if first is Tick && schedule.flushed(first.at()) is Some {
            seq![first.at()]
        } else {
            Seq::empty()
        };
        released + release_times(
            after_happening(schedule, first, line_seconds, idle_seconds),
            happenings.drop_first(),
            line_seconds,
            idle_seconds,
        )
    }
}

/// Whether `happenings` come in the order of their times, none before `from`.
pub open spec fn in_time_order(happenings: Seq<Happening>, from: int) -> bool {
    &&& forall|i: int| 0 <= i < happenings.len() ==> from <= (#[trigger] happenings[i]).at()
    &&& forall|i: int, j: int|
        0 <= i < j < happenings.len() ==> (#[trigger] happenings[i]).at()
            <= (#[trigger] happenings[j]).at()
}

/// Whether `times` lie at least `gap` apart, the first at least `gap` after `from`.
pub open spec fn spaced(times: Seq<int>, from: int, gap: int) -> bool {
    &&& times.len() > 0 ==> from + gap <= times[0]
    &&& forall|i: int| 0 < i < times.len() ==> times[i - 1] + gap <= #[trigger] times[i]
}

/// Held lines are released at most once per line interval: however lines and
/// ticks follow one another in time, two releases lie at least a line interval
/// apart, and so do the start of the run and the first release.
pub proof fn lemma_releases_are_spaced(
    schedule: Schedule,
    happenings: Seq<Happening>,
    line_seconds: u64,
    idle_seconds: Option<u64>,
    from: int,
)
    requires
        from + interval(line_seconds) <= schedule.next_line_emit,
        in_time_order(happenings, from),
    ensures
        spaced(
            release_times(schedule, happenings, line_seconds, idle_seconds),
            from,
            interval(line_seconds),
        ),
    decreases happenings.len(),
{
    if happenings.len() > 0 {
        let gap = interval(line_seconds);
        let first = happenings[0];
        let rest = happenings.drop_first();
        let next = after_happening(schedule, first, line_seconds, idle_seconds);
        let releases = first is Tick && schedule.flushed(first.at()) is Some;
        let floor = if releases {
            first.at()
        } else {
            from
        };
        assert(in_time_order(rest, first.at())) by {
            assert forall|i: int| 0 <= i < rest.len() implies first.at() <= (
            #[trigger] rest[i]).at() by {
                assert(rest[i] == happenings[i + 1]);
            }
            assert forall|i: int, j: int| 0 <= i < j < rest.len() implies (
            #[trigger] rest[i]).at() <= (#[trigger] rest[j]).at() by {
                assert(rest[i] == happenings[i + 1]);
                assert(rest[j] == happenings[j + 1]);
            }
        }
        assert(in_time_order(rest, floor));
        assert(floor + gap <= next.next_line_emit);
        lemma_releases_are_spaced(next, rest, line_seconds, idle_seconds, floor);
        let later = release_times(next, rest, line_seconds, idle_seconds);
        let all = release_times(schedule, happenings, line_seconds, idle_seconds);
        if releases {
            assert(all =~= seq![first.at()] + later);
            assert forall|i: int| 0 < i < all.len() implies all[i - 1] + gap
                <= #[trigger] all[i] by {
                if i > 1 {
                    assert(all[i] == later[i - 1]);
                    assert(all[i - 1] == later[i - 2]);
                } else {
                    assert(all[1] == later[0]);
                }
            }
        } else {
            assert(all =~= later);
        }
    }
}

/// The first release of a run that starts at `now` comes no sooner than a line
/// interval after the start.
pub proof fn lemma_releases_of_a_run_are_spaced(
    happenings: Seq<Happening>,
    line_seconds: u64,
    idle_seconds: Option<u64>,
    now: int,
)
    requires
        in_time_order(happenings, now),
    ensures
        spaced(
            release_times(
                Schedule::started(line_seconds, idle_seconds, now),
                happenings,
                line_seconds,
                idle_seconds,
            ),
            now,
            interval(line_seconds),
        ),
{
    lemma_releases_are_spaced(
        Schedule::started(line_seconds, idle_seconds, now),
        happenings,
        line_seconds,
        idle_seconds,
        now,
    );
}

} // verus!
