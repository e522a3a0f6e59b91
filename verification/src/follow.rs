//! Following a file: every decision of the polling loop, with none of its I/O.
//!
//! The caller performs what `FileFollower::request` asks for (examine the path,
//! open, read, sleep) and hands the outcome to `FileFollower::step`, which
//! moves the follower on and returns what is to be written.

use crate::cli::Args;
use crate::emit::{idle_deadline, interval, line_matches, tick_output, EmitState, Schedule};
use crate::limits::{
    adjustments, append_overflows, append_with_buffer_cap, appended, collect_complete_lines,
    complete_lines, decoded_lines, kept_fragment, lemma_kept_fragment_is_shorter,
};
use crate::output::{decorated, pattern_text};
use crate::pattern::LinePattern;
use crate::text::texts;
use crate::report::{
    as_lines, buffer_overflow_notice, buffer_overflow_text, fatal_notice, fatal_text,
    oversized_notice, oversized_text, read_error_notice, read_error_text, reopen_blocked_notice,
    reopen_blocked_text, reopen_failed_notice, reopen_failed_text, reopened_notice, reopened_text,
    shown, waiting_notice, waiting_text, Output, Shown,
};
use vstd::prelude::*;
use vstd::string::StringExecFns;

verus! {

/// Most bytes asked of the file in one read.
pub const READ_CHUNK_BYTES: usize = 8192;

/// What tells one file from another at the same path: device and inode.
#[derive(Debug, Clone, Copy, PartialEq, Eq, Structural)]
pub struct FileIdentity {
    pub dev: u64,
    pub ino: u64,
}

/// What was found out about the path that is to be followed.
#[derive(Debug)]
pub struct TargetFacts {
    /// Whether the path itself is a symbolic link, or why that is not known.
    pub symlink: Result<bool, String>,
    /// The path with every link resolved, or why it does not resolve.
    pub canonical: Result<String, String>,
    /// Whether the resolved path lies under the allowed root.
    pub under_root: bool,
}

/// Why the target may not be followed, if it may not.
///
/// With symbolic links refused, the path must be known not to be one. With an
/// allowed root, the path must resolve, and to a place under that root.
pub open spec fn refusal_text(
    facts: TargetFacts,
    no_follow_symlinks: bool,
    allowed_root: Option<Seq<char>>,
) -> Option<Seq<char>> {
    if no_follow_symlinks && facts.symlink is Err {
        Some(facts.symlink->Err_0@)
    } else if no_follow_symlinks && facts.symlink->Ok_0 {
        Some("symlink targets are not allowed by --no-follow-symlinks"@)
    } else {
        match allowed_root {
            None => None,
            Some(root) => match facts.canonical {
                Err(reason) => Some(reason@),
                Ok(resolved) => if facts.under_root {
                    None
                } else {
                    Some("path '"@ + resolved@ + "' is outside allowed root '"@ + root + "'"@)
                },
            },
        }
    }
}

/// The text of a root that may be absent.
pub open spec fn root_text(allowed_root: Option<&str>) -> Option<Seq<char>> {
    match allowed_root {
        Some(root) => Some(root@),
        None => None,
    }
}

/// Decides whether the target may be followed, and says why where it may not.
pub fn validate_follow_target(
    facts: &TargetFacts,
    no_follow_symlinks: bool,
    allowed_root: Option<&str>,
) -> (r: Result<(), String>)
    ensures
        match refusal_text(*facts, no_follow_symlinks, root_text(allowed_root)) {
            None => r is Ok,
            Some(reason) => r is Err && r->Err_0@ == reason,
        },
{
    if no_follow_symlinks {
        match &facts.symlink {
            Err(reason) => {
                return Err(reason.clone());
            },
            Ok(is_link) => {
                if *is_link {
                    return Err(
                        String::from_str("symlink targets are not allowed by --no-follow-symlinks"),
                    );
                }
            },
        }
    }
    match allowed_root {
        None => Ok(()),
        Some(root) => match &facts.canonical {
            Err(reason) => Err(reason.clone()),
            Ok(resolved) => {
                if facts.under_root {
                    Ok(())
                } else {
                    let mut text = String::from_str("path '");
                    text.append(resolved.as_str());
                    text.append("' is outside allowed root '");
                    text.append(root);
                    text.append("'");
                    Err(text)
                }
            },
        },
    }
}

/// Where the follower stands: what it has asked for and not yet been told.
#[derive(Debug, Clone, Copy, PartialEq, Eq, Structural)]
pub enum Stage {
    /// No file is open; the target is being examined.
    Checking,
    /// No file is open; the target passed and is being opened at its end.
    Opening,
    /// No file is open; the follower pauses before it examines the target again.
    Retrying,
    /// A file is open and is being read.
    Reading,
    /// A read failed; the follower pauses before it goes on.
    Recovering,
    /// The read offset and the length of the file are being asked for.
    Locating,
    /// The file shrank below the read offset; it is being rewound to its start.
    Rewinding,
    /// The identity of the file now at the path is being asked for.
    Inspecting,
    /// Another file stands at the path; the target is being examined again.
    Rechecking(FileIdentity),
    /// Another file stands at the path; it passed and is being opened from its start.
    Reopening(FileIdentity),
    /// The poll is done; the follower pauses before the next one.
    Resting,
    /// The run has ended on a fault.
    Stopped,
}

/// What the caller is to do next.
#[derive(Debug, Clone, Copy, PartialEq, Eq, Structural)]
pub enum Request {
    /// Examine the path; answer with `FollowEvent::Probed`.
    Probe,
    /// Open the path, seek to the end and take the identity of the file at the
    /// path; answer with `FollowEvent::Opened` or `FollowEvent::OpenFailed`.
    OpenAtEnd,
    /// Open the path and, if that succeeds, read from the new file from now on;
    /// answer with `FollowEvent::Opened` or `FollowEvent::OpenFailed`.
    OpenFromStart,
    /// Read at most `READ_CHUNK_BYTES` bytes; answer with `FollowEvent::Read` or
    /// `FollowEvent::ReadFailed`.
    Read,
    /// Take the read offset and the length of the open file; answer with
    /// `FollowEvent::Position` or `FollowEvent::PositionFailed`.
    Position,
    /// Seek to the start of the open file; answer with `FollowEvent::Rewound` or
    /// `FollowEvent::RewindFailed`.
    Rewind,
    /// Take the identity of the file at the path; answer with `FollowEvent::Stat`.
    Stat,
    /// Sleep for one poll interval; answer with `FollowEvent::Woke`.
    Sleep,
    /// End the run as failed.
    Stop,
}

/// What the caller found when it did what was asked.
#[derive(Debug)]
pub enum FollowEvent {
    /// The path was examined.
    Probed(TargetFacts),
    /// The file is open. `identity` is that of the file at the path, if it
    /// could be taken.
    Opened { identity: Option<FileIdentity> },
    /// The file could not be opened.
    OpenFailed(String),
    /// A read returned these bytes; none at the end of the file.
    Read(Vec<u8>),
    /// A read failed.
    ReadFailed(String),
    /// The read offset and the length of the open file.
    Position { offset: u64, length: u64 },
    /// The read offset or the length could not be taken.
    PositionFailed(String),
    /// The open file was rewound to its start.
    Rewound,
    /// The open file could not be rewound.
    RewindFailed(String),
    /// The identity of the file at the path; none if there is no such file.
    Stat(Option<FileIdentity>),
    /// A pause is over.
    Woke,
}

/// What a run is configured with.
pub struct FollowConfig<'a> {
    /// The options.
    pub args: &'a Args,
    /// The compiled highlight pattern, where there is one.
    pub regex: Option<&'a LinePattern>,
    /// Whether matches are shown in colour.
    pub colors_enabled: bool,
    /// The path that is followed, as it is named in notices.
    pub target: &'a str,
    /// The allowed root, resolved, as it is named in notices.
    pub allowed_root: Option<&'a str>,
}

/// The schedule after the lines have been seen at `now`, one after the other.
pub open spec fn observe_each(
    schedule: Schedule,
    lines: Seq<Seq<char>>,
    config: FollowConfig,
    now: int,
) -> Schedule
    decreases lines.len(),
{
    if lines.len() == 0 {
        schedule
    } else {
        observe_each(schedule, lines.drop_last(), config, now).observed(
            lines.last(),
            line_matches(pattern_text(config.regex), lines.last()),
            config.args.line_seconds,
            config.args.idle_seconds,
            now,
        )
    }
}

/// The lines among `lines` that match the pattern, in order and decorated:
/// those that are shown at once.
pub open spec fn shown_matches(lines: Seq<Seq<char>>, config: FollowConfig) -> Seq<Shown>
    decreases lines.len(),
{
    if lines.len() == 0 {
        Seq::empty()
    } else {
        shown_matches(lines.drop_last(), config) + if line_matches(
            pattern_text(config.regex),
            lines.last(),
        ) {
            seq![
                Shown::Line(
                    decorated(
                        lines.last(),
                        pattern_text(config.regex),
                        config.args.color.code(),
                        config.colors_enabled,
                    ),
                ),
            ]
        } else {
            Seq::empty()
        }
    }
}

/// What a tick at `now` shows, as outputs.
pub open spec fn shown_by_tick(schedule: Schedule, config: FollowConfig, now: int) -> Seq<Shown> {
    as_lines(
        tick_output(
            schedule,
            config.args.line_seconds,
            config.args.idle_seconds,
            pattern_text(config.regex),
            config.args.color.code(),
            config.colors_enabled,
            now,
        ),
    )
}

/// The follower as a mathematical value.
pub struct Follower {
    /// Where the follower stands.
    pub stage: Stage,
    /// The emission schedule.
    pub schedule: Schedule,
    /// The bytes that wait for the end of their line.
    pub pending: Seq<u8>,
    /// The identity of the file that is open, if it is known.
    pub opened_id: Option<FileIdentity>,
}

/// A follower after a step, and what the step hands out.
pub struct Outcome {
    pub next: Follower,
    pub shown: Seq<Shown>,
}

impl Stage {
    /// What the caller is to do at this stage.
    pub open spec fn request(self) -> Request {
        match self {
            Stage::Checking => Request::Probe,
            Stage::Opening => Request::OpenAtEnd,
            Stage::Retrying => Request::Sleep,
            Stage::Reading => Request::Read,
            Stage::Recovering => Request::Sleep,
            Stage::Locating => Request::Position,
            Stage::Rewinding => Request::Rewind,
            Stage::Inspecting => Request::Stat,
            Stage::Rechecking(_) => Request::Probe,
            Stage::Reopening(_) => Request::OpenFromStart,
            Stage::Resting => Request::Sleep,
            Stage::Stopped => Request::Stop,
        }
    }
}

impl Follower {
    /// The follower at the start of a run: no file is open, nothing is
    /// pending, and the clocks run from `now`.
    pub open spec fn started(line_seconds: u64, idle_seconds: Option<u64>, now: int) -> Follower {
        Follower {
            stage: Stage::Checking,
            schedule: Schedule::started(line_seconds, idle_seconds, now),
            pending: Seq::empty(),
            opened_id: None,
        }
    }

    /// Whether what is pending is within both caps.
    pub open spec fn within_caps(self, config: FollowConfig) -> bool {
        &&& self.pending.len() <= config.args.max_buffer_bytes
        &&& self.pending.len() <= config.args.max_line_bytes
    }

    /// Nothing changes and nothing is shown.
    pub open spec fn stay(self) -> Outcome {
        Outcome { next: self, shown: Seq::empty() }
    }

    /// The follower moves to `stage`.
    pub open spec fn go(self, stage: Stage) -> Outcome {
        Outcome { next: Follower { stage, ..self }, shown: Seq::empty() }
    }

    /// The follower moves to `stage` and issues a notice.
    pub open spec fn go_noting(self, stage: Stage, notice: Seq<char>) -> Outcome {
        Outcome { next: Follower { stage, ..self }, shown: seq![Shown::Notice(notice)] }
    }

    /// A poll begins at `now`: the clocks are looked at, then the file is read.
    pub open spec fn poll(self, config: FollowConfig, now: int) -> Outcome {
        Outcome {
            next: Follower {
                stage: Stage::Reading,
                schedule: self.schedule.ticked(
                    config.args.line_seconds,
                    config.args.idle_seconds,
                    now,
                ),
                ..self
            },
            shown: shown_by_tick(self.schedule, config, now),
        }
    }

    /// The target was examined before the first open: a target that may be
    /// followed is opened, any other is waited for.
    pub open spec fn after_first_probe(self, facts: TargetFacts, config: FollowConfig) -> Outcome {
        match refusal_text(facts, config.args.no_follow_symlinks, root_text(config.allowed_root)) {
            None => self.go(Stage::Opening),
            Some(reason) => self.go_noting(Stage::Retrying, waiting_text(config.target@, reason)),
        }
    }

    /// The file was opened at its end: its identity is kept and the first poll begins.
    pub open spec fn after_first_open(
        self,
        identity: Option<FileIdentity>,
        config: FollowConfig,
        now: int,
    ) -> Outcome {
        Follower { opened_id: identity, ..self }.poll(config, now)
    }

    /// Bytes were read at `now`. They are appended within the buffer cap, the
    /// complete lines are taken out within the line cap, and each line is seen
    /// by the schedule. What was given up on the way is noted first.
    pub open spec fn after_read(self, bytes: Seq<u8>, config: FollowConfig, now: int) -> Outcome {
        if bytes.len() == 0 {
            self.go(Stage::Locating)
        } else {
            let max_buffer = config.args.max_buffer_bytes;
            let max_line = config.args.max_line_bytes;
            let filled = appended(self.pending, bytes, max_buffer as int);
            let lines = decoded_lines(complete_lines(filled, max_line as int));
            let count = adjustments(filled, max_line as int);
            let overflow = if append_overflows(self.pending, bytes, max_buffer as int) {
                seq![Shown::Notice(buffer_overflow_text(max_buffer))]
            } else {
                Seq::empty()
            };
            let oversized = if count > 0 {
                seq![Shown::Notice(oversized_text(count as usize, max_line))]
            } else {
                Seq::empty()
            };
            Outcome {
                next: Follower {
                    stage: Stage::Locating,
                    schedule: observe_each(self.schedule, lines, config, now),
                    pending: kept_fragment(filled, max_line as int),
                    ..self
                },
                shown: overflow + oversized + shown_matches(lines, config),
            }
        }
    }

    /// The read offset and the length are known: a file shorter than the offset
    /// was truncated and is rewound.
    pub open spec fn after_position(self, offset: u64, length: u64) -> Outcome {
        if length < offset {
            self.go(Stage::Rewinding)
        } else {
            self.go(Stage::Inspecting)
        }
    }

    /// The file was rewound: what was pending belongs to the old contents and is dropped.
    pub open spec fn after_rewind(self) -> Outcome {
        Outcome {
            next: Follower { stage: Stage::Inspecting, pending: Seq::empty(), ..self },
            shown: Seq::empty(),
        }
    }

    /// The identity of the file at the path is known: another file than the
    /// open one is a replacement, and is examined. A path without a file is
    /// left for the next poll.
    pub open spec fn after_stat(self, identity: Option<FileIdentity>) -> Outcome {
        match identity {
            None => self.go(Stage::Resting),
            Some(current) => if self.opened_id != Some(current) {
                self.go(Stage::Rechecking(current))
            } else {
                self.go(Stage::Resting)
            },
        }
    }

    /// The replacement was examined: one that may be followed is opened, any
    /// other is refused and the open file stays.
    pub open spec fn after_second_probe(
        self,
        current: FileIdentity,
        facts: TargetFacts,
        config: FollowConfig,
    ) -> Outcome {
        match refusal_text(facts, config.args.no_follow_symlinks, root_text(config.allowed_root)) {
            None => self.go(Stage::Reopening(current)),
            Some(reason) => self.go_noting(Stage::Resting, reopen_blocked_text(reason)),
        }
    }

    /// The replacement was opened: it is followed from its start, under its own
    /// identity, and what was pending is dropped.
    pub open spec fn after_reopen(self, current: FileIdentity, config: FollowConfig) -> Outcome {
        Outcome {
            next: Follower {
                stage: Stage::Resting,
                pending: Seq::empty(),
                opened_id: Some(current),
                ..self
            },
            shown: seq![Shown::Notice(reopened_text(config.target@))],
        }
    }

    /// The follower after `event`, and what is to be written. An event that
    /// does not answer what was asked changes nothing.
    pub open spec fn step(self, event: FollowEvent, config: FollowConfig, now: int) -> Outcome {
        match (self.stage, event) {
            (Stage::Checking, FollowEvent::Probed(facts)) => self.after_first_probe(facts, config),
            (Stage::Opening, FollowEvent::Opened { identity }) => self.after_first_open(
                identity,
                config,
                now,
            ),
            (Stage::Opening, FollowEvent::OpenFailed(reason)) => self.go_noting(
                Stage::Retrying,
                waiting_text(config.target@, reason@),
            ),
            (Stage::Retrying, FollowEvent::Woke) => self.go(Stage::Checking),
            (Stage::Reading, FollowEvent::Read(bytes)) => self.after_read(bytes@, config, now),
            (Stage::Reading, FollowEvent::ReadFailed(reason)) => self.go_noting(
                Stage::Recovering,
                read_error_text(reason@),
            ),
            (Stage::Recovering, FollowEvent::Woke) => self.go(Stage::Locating),
            (Stage::Locating, FollowEvent::Position { offset, length }) => self.after_position(
                offset,
                length,
            ),
            (Stage::Locating, FollowEvent::PositionFailed(reason)) => self.go_noting(
                Stage::Stopped,
                fatal_text(reason@),
            ),
            (Stage::Rewinding, FollowEvent::Rewound) => self.after_rewind(),
            (Stage::Rewinding, FollowEvent::RewindFailed(reason)) => self.go_noting(
                Stage::Stopped,
                fatal_text(reason@),
            ),
            (Stage::Inspecting, FollowEvent::Stat(identity)) => self.after_stat(identity),
            (Stage::Rechecking(current), FollowEvent::Probed(facts)) => self.after_second_probe(
                current,
                facts,
                config,
            ),
            (Stage::Reopening(current), FollowEvent::Opened { identity }) => self.after_reopen(
                current,
                config,
            ),
            (Stage::Reopening(current), FollowEvent::OpenFailed(reason)) => self.go_noting(
                Stage::Resting,
                reopen_failed_text(reason@),
            ),
            (Stage::Resting, FollowEvent::Woke) => self.poll(config, now),
            _ => self.stay(),
        }
    }
}

/// The follower of one file.
pub struct FileFollower {
    /// Where the follower stands.
    pub stage: Stage,
    /// The emission schedule.
    pub emit: EmitState,
    /// The bytes that wait for the end of their line.
    pub pending: Vec<u8>,
    /// The identity of the file that is open, if it is known.
    pub opened_id: Option<FileIdentity>,
}

impl View for FileFollower {
    type V = Follower;

    open spec fn view(&self) -> Follower {
        Follower {
            stage: self.stage,
            schedule: self.emit@,
            pending: self.pending@,
            opened_id: self.opened_id,
        }
    }
}

/// One notice and nothing else.
fn only_notice(text: String) -> (outputs: Vec<Output>)
    ensures
        shown(outputs@) == seq![Shown::Notice(text@)],
{
    let mut outputs: Vec<Output> = Vec::new();
    outputs.push(Output::Notice(text));
    assert(shown(outputs@) =~= seq![Shown::Notice(text@)]);
    outputs
}

/// Nothing to write.
fn no_output() -> (outputs: Vec<Output>)
    ensures
        shown(outputs@) == Seq::<Shown>::empty(),
{
    let outputs: Vec<Output> = Vec::new();
    assert(shown(outputs@) =~= Seq::<Shown>::empty());
    outputs
}

/// Each text as a line for standard output.
fn lines_to_outputs(lines: Vec<String>) -> (outputs: Vec<Output>)
    ensures
        shown(outputs@) == as_lines(texts(lines@)),
{
    let mut outputs: Vec<Output> = Vec::new();
    let mut i: usize = 0;
    while i < lines.len()
        invariant
            0 <= i <= lines.len(),
            outputs.len() == i,
            forall|k: int| 0 <= k < i ==> (#[trigger] outputs[k])@ == Shown::Line(lines[k]@),
        decreases lines.len() - i,
    {
        outputs.push(Output::Line(lines[i].clone()));
        i = i + 1;
    }
    assert(shown(outputs@) =~= as_lines(texts(lines@)));
    outputs
}

/// Lets the schedule see each line at `now` and adds the lines that are shown
/// at once to `outputs`.
fn observe_lines(
    emit: &mut EmitState,
    lines: Vec<String>,
    config: &FollowConfig,
    now: u64,
    outputs: &mut Vec<Output>,
)
    ensures
        final(emit)@ == observe_each(old(emit)@, texts(lines@), *config, now as int),
        shown(final(outputs)@) == shown(old(outputs)@) + shown_matches(texts(lines@), *config),
{
    let ghost all = texts(lines@);
    let ghost start = emit@;
    let ghost written = shown(outputs@);
    let mut i: usize = 0;
    assert(all.subrange(0, 0) =~= Seq::<Seq<char>>::empty());
    assert(shown(outputs@) =~= written + shown_matches(all.subrange(0, 0), *config));
    while i < lines.len()
        invariant
            0 <= i <= lines.len(),
            all == texts(lines@),
            emit@ == observe_each(start, all.subrange(0, i as int), *config, now as int),
            shown(outputs@) == written + shown_matches(all.subrange(0, i as int), *config),
        decreases lines.len() - i,
    {
        let ghost seen = all.subrange(0, i as int);
        let ghost grown = all.subrange(0, i + 1);
        let ghost before = outputs@;
        assert(grown.drop_last() =~= seen);
        assert(grown.last() == lines[i as int]@);
        let line = lines[i].clone();
        match emit.observe_input(
            line,
            config.args,
            config.regex,
            &config.args.color,
            config.colors_enabled,
            now,
        ) {
            Some(text) => {
                outputs.push(Output::Line(text));
                assert(shown(outputs@) =~= shown(before).push(Shown::Line(text@)));
            },
            None => {},
        }
        assert(shown(outputs@) =~= written + shown_matches(grown, *config));
        i = i + 1;
    }
    assert(all.subrange(0, lines.len() as int) =~= all);
}

impl FileFollower {
    /// A follower at the start of a run: no file is open, and the clocks run from `now`.
    pub fn new(args: &Args, now: u64) -> (follower: FileFollower)
        ensures
            follower@ == Follower::started(args.line_seconds, args.idle_seconds, now as int),
    {
        FileFollower {
            stage: Stage::Checking,
            emit: EmitState::new(args, now),
            pending: Vec::new(),
            opened_id: None,
        }
    }

    /// What the caller is to do next.
    pub fn request(&self) -> (request: Request)
        ensures
            request == self@.stage.request(),
    {
        match self.stage {
            Stage::Checking => Request::Probe,
            Stage::Opening => Request::OpenAtEnd,
            Stage::Retrying => Request::Sleep,
            Stage::Reading => Request::Read,
            Stage::Recovering => Request::Sleep,
            Stage::Locating => Request::Position,
            Stage::Rewinding => Request::Rewind,
            Stage::Inspecting => Request::Stat,
            Stage::Rechecking(_) => Request::Probe,
            Stage::Reopening(_) => Request::OpenFromStart,
            Stage::Resting => Request::Sleep,
            Stage::Stopped => Request::Stop,
        }
    }

    /// Begins a poll at `now`.
    fn poll(&mut self, config: &FollowConfig, now: u64) -> (outputs: Vec<Output>)
        ensures
            final(self)@ == old(self)@.poll(*config, now as int).next,
            shown(outputs@) == old(self)@.poll(*config, now as int).shown,
    {
        let lines = self.emit.maybe_emit(config.args, config.regex, config.colors_enabled, now);
        self.stage = Stage::Reading;
        lines_to_outputs(lines)
    }

    /// Takes in what a read returned at `now`.
    fn read(&mut self, bytes: Vec<u8>, config: &FollowConfig, now: u64) -> (outputs: Vec<Output>)
        ensures
            final(self)@ == old(self)@.after_read(bytes@, *config, now as int).next,
            shown(outputs@) == old(self)@.after_read(bytes@, *config, now as int).shown,
    {
        let mut outputs: Vec<Output> = Vec::new();
        self.stage = Stage::Locating;
        if bytes.len() == 0 {
            assert(shown(outputs@) =~= Seq::<Shown>::empty());
            return outputs;
        }
        let max_buffer: usize = config.args.max_buffer_bytes;
        let max_line: usize = config.args.max_line_bytes;
        if append_with_buffer_cap(&mut self.pending, bytes.as_slice(), max_buffer) {
            outputs.push(Output::Notice(buffer_overflow_notice(max_buffer)));
        }
        let (lines, count) = collect_complete_lines(&mut self.pending, max_line);
        if count > 0 {
            outputs.push(Output::Notice(oversized_notice(count, max_line)));
        }
        let ghost noted = shown(outputs@);
        proof {
            let overflow = if append_overflows(old(self)@.pending, bytes@, max_buffer as int) {
                seq![Shown::Notice(buffer_overflow_text(max_buffer))]
            } else {
                Seq::empty()
            };
            let oversized = if count > 0 {
                seq![Shown::Notice(oversized_text(count, max_line))]
            } else {
                Seq::empty()
            };
            assert(noted =~= overflow + oversized);
        }
        observe_lines(&mut self.emit, lines, config, now, &mut outputs);
        outputs
    }

    /// Takes in what the caller found at `now` and returns what is to be
    /// written. An event that does not answer `request` changes nothing.
    pub fn step(&mut self, event: FollowEvent, config: &FollowConfig, now: u64) -> (outputs: Vec<
        Output,
    >)
        ensures
            final(self)@ == old(self)@.step(event, *config, now as int).next,
            shown(outputs@) == old(self)@.step(event, *config, now as int).shown,
    {
        match self.stage {
            Stage::Checking => match event {
                FollowEvent::Probed(facts) => {
                    match validate_follow_target(
                        &facts,
                        config.args.no_follow_symlinks,
                        config.allowed_root,
                    ) {
                        Ok(_) => {
                            self.stage = Stage::Opening;
                            no_output()
                        },
                        Err(reason) => {
                            self.stage = Stage::Retrying;
                            only_notice(waiting_notice(config.target, reason.as_str()))
                        },
                    }
                },
                _ => no_output(),
            },
            Stage::Opening => match event {
                FollowEvent::Opened { identity } => {
                    self.opened_id = identity;
                    self.poll(config, now)
                },
                FollowEvent::OpenFailed(reason) => {
                    self.stage = Stage::Retrying;
                    only_notice(waiting_notice(config.target, reason.as_str()))
                },
                _ => no_output(),
            },
            Stage::Retrying => match event {
                FollowEvent::Woke => {
                    self.stage = Stage::Checking;
                    no_output()
                },
                _ => no_output(),
            },
            Stage::Reading => match event {
                FollowEvent::Read(bytes) => self.read(bytes, config, now),
                FollowEvent::ReadFailed(reason) => {
                    self.stage = Stage::Recovering;
                    only_notice(read_error_notice(reason.as_str()))
                },
                _ => no_output(),
            },
            Stage::Recovering => match event {
                FollowEvent::Woke => {
                    self.stage = Stage::Locating;
                    no_output()
                },
                _ => no_output(),
            },
            Stage::Locating => match event {
                FollowEvent::Position { offset, length } => {
                    if length < offset {
                        self.stage = Stage::Rewinding;
                    } else {
                        self.stage = Stage::Inspecting;
                    }
                    no_output()
                },
                FollowEvent::PositionFailed(reason) => {
                    self.stage = Stage::Stopped;
                    only_notice(fatal_notice(reason.as_str()))
                },
                _ => no_output(),
            },
            Stage::Rewinding => match event {
                FollowEvent::Rewound => {
                    self.pending.clear();
                    self.stage = Stage::Inspecting;
                    no_output()
                },
                FollowEvent::RewindFailed(reason) => {
                    self.stage = Stage::Stopped;
                    only_notice(fatal_notice(reason.as_str()))
                },
                _ => no_output(),
            },
            Stage::Inspecting => match event {
                FollowEvent::Stat(identity) => {
                    self.stage = Stage::Resting;
                    if let Some(current) = identity {
                        let same = match self.opened_id {
                            Some(opened) => opened == current,
                            None => false,
                        };
                        if !same {
                            self.stage = Stage::Rechecking(current);
                        }
                    }
                    no_output()
                },
                _ => no_output(),
            },
            Stage::Rechecking(current) => match event {
                FollowEvent::Probed(facts) => {
                    match validate_follow_target(
                        &facts,
                        config.args.no_follow_symlinks,
                        config.allowed_root,
                    ) {
                        Ok(_) => {
                            self.stage = Stage::Reopening(current);
                            no_output()
                        },
                        Err(reason) => {
                            self.stage = Stage::Resting;
                            only_notice(reopen_blocked_notice(reason.as_str()))
                        },
                    }
                },
                _ => no_output(),
            },
            Stage::Reopening(current) => match event {
                FollowEvent::Opened { identity: _ } => {
                    self.pending.clear();
                    self.opened_id = Some(current);
                    self.stage = Stage::Resting;
                    only_notice(reopened_notice(config.target))
                },
                FollowEvent::OpenFailed(reason) => {
                    self.stage = Stage::Resting;
                    only_notice(reopen_failed_notice(reason.as_str()))
                },
                _ => no_output(),
            },
            Stage::Resting => match event {
                FollowEvent::Woke => self.poll(config, now),
                _ => no_output(),
            },
            Stage::Stopped => no_output(),
        }
    }
}

/// Of a batch of lines seen at one time, the last one decides what is held: it
/// is held itself unless it matches. A batch without a match leaves the clocks
/// alone; a batch with a match restarts them at `now`.
pub proof fn lemma_observe_each(
    schedule: Schedule,
    lines: Seq<Seq<char>>,
    config: FollowConfig,
    now: int,
)
    requires
        lines.len() > 0,
    ensures
        ({
            let pattern = pattern_text(config.regex);
            let after = observe_each(schedule, lines, config, now);
            let any = exists|i: int| 0 <= i < lines.len() && line_matches(pattern, lines[i]);
            &&& after.latest_line == if line_matches(pattern, lines.last()) {
                None
            } else {
                Some(lines.last())
            }
            &&& !any ==> after.next_line_emit == schedule.next_line_emit && after.last_output
                == schedule.last_output && after.next_idle_emit == schedule.next_idle_emit
            &&& any ==> after.next_line_emit == now + interval(config.args.line_seconds)
                && after.last_output == now && after.next_idle_emit == idle_deadline(
                config.args.idle_seconds,
                now,
            )
        }),
    decreases lines.len(),
{
    let pattern = pattern_text(config.regex);
    let front = lines.drop_last();
    let last = lines.last();
    let any = exists|i: int| 0 <= i < lines.len() && line_matches(pattern, lines[i]);
    let any_front = exists|i: int| 0 <= i < front.len() && line_matches(pattern, front[i]);
    assert(observe_each(schedule, lines, config, now) == observe_each(
        schedule,
        front,
        config,
        now,
    ).observed(
        last,
        line_matches(pattern, last),
        config.args.line_seconds,
        config.args.idle_seconds,
        now,
    ));
    assert(any <==> any_front || line_matches(pattern, last)) by {
        if any {
            let i = choose|i: int| 0 <= i < lines.len() && line_matches(pattern, lines[i]);
            if i < front.len() {
                assert(line_matches(pattern, front[i]));
            }
        }
        if any_front {
            let i = choose|i: int| 0 <= i < front.len() && line_matches(pattern, front[i]);
            assert(line_matches(pattern, lines[i]));
        }
        if line_matches(pattern, last) {
            assert(line_matches(pattern, lines[lines.len() - 1]));
        }
    }
    if front.len() > 0 {
        lemma_observe_each(schedule, front, config, now);
    } else {
        assert(observe_each(schedule, front, config, now) == schedule);
    }
}

/// Nothing is pending at the start of a run, which is within any caps.
pub proof fn lemma_started_within_caps(
    line_seconds: u64,
    idle_seconds: Option<u64>,
    now: int,
    config: FollowConfig,
)
    ensures
        Follower::started(line_seconds, idle_seconds, now).within_caps(config),
{
}

/// What is pending never grows past either cap: a follower within both caps
/// stays within them, whatever happens, and a read brings any follower within
/// them.
pub proof fn lemma_step_keeps_pending_within_caps(
    follower: Follower,
    event: FollowEvent,
    config: FollowConfig,
    now: int,
)
    ensures
        follower.within_caps(config) ==> follower.step(event, config, now).next.within_caps(config),
        (follower.stage == Stage::Reading && (event matches FollowEvent::Read(bytes)
            && bytes@.len() > 0)) ==> follower.step(event, config, now).next.within_caps(config),
{
    if let (Stage::Reading, FollowEvent::Read(bytes)) = (follower.stage, event) {
        if bytes@.len() > 0 {
            let filled = appended(
                follower.pending,
                bytes@,
                config.args.max_buffer_bytes as int,
            );
            lemma_kept_fragment_is_shorter(filled, config.args.max_line_bytes as int);
        }
    }
}

/// A file that is shorter than the read offset was truncated: the follower asks
/// for it to be rewound to its start, and once that is done nothing is pending
/// any more.
pub proof fn lemma_truncation_rewinds(
    follower: Follower,
    offset: u64,
    length: u64,
    config: FollowConfig,
    now: int,
)
    requires
        follower.stage == Stage::Locating,
        length < offset,
    ensures
        ({
            let located = follower.step(FollowEvent::Position { offset, length }, config, now);
            let rewound = located.next.step(FollowEvent::Rewound, config, now);
            &&& located.next.stage.request() == Request::Rewind
            &&& located.next.pending == follower.pending
            &&& rewound.next.pending == Seq::<u8>::empty()
            &&& rewound.next.stage.request() == Request::Stat
            &&& rewound.next.schedule == follower.schedule
            &&& rewound.next.opened_id == follower.opened_id
            &&& located.shown + rewound.shown == Seq::<Shown>::empty()
        }),
{
    let located = follower.step(FollowEvent::Position { offset, length }, config, now);
    let rewound = located.next.step(FollowEvent::Rewound, config, now);
    assert(located.shown + rewound.shown =~= Seq::<Shown>::empty());
}

/// A file that is as long as the read offset, or longer, is left as it is.
pub proof fn lemma_no_truncation_no_rewind(
    follower: Follower,
    offset: u64,
    length: u64,
    config: FollowConfig,
    now: int,
)
    requires
        follower.stage == Stage::Locating,
        length >= offset,
    ensures
        follower.step(FollowEvent::Position { offset, length }, config, now) == follower.go(
            Stage::Inspecting,
        ),
{
}

/// Another file at the path is a replacement. If it may be followed it is
/// opened from its start; once it is open nothing is pending any more and the
/// follower knows the file by its new identity. Until then the old file stays.
pub proof fn lemma_rotation_reopens(
    follower: Follower,
    current: FileIdentity,
    facts: TargetFacts,
    config: FollowConfig,
    now: int,
)
    requires
        follower.stage == Stage::Inspecting,
        follower.opened_id != Some(current),
        refusal_text(facts, config.args.no_follow_symlinks, root_text(config.allowed_root)) is None,
    ensures
        ({
            let seen = follower.step(FollowEvent::Stat(Some(current)), config, now).next;
            let passed = seen.step(FollowEvent::Probed(facts), config, now).next;
            let reopened = passed.step(FollowEvent::Opened { identity: None }, config, now);
            &&& seen.stage.request() == Request::Probe
            &&& passed.stage.request() == Request::OpenFromStart
            &&& passed.pending == follower.pending
            &&& passed.opened_id == follower.opened_id
            &&& reopened.next.pending == Seq::<u8>::empty()
            &&& reopened.next.opened_id == Some(current)
            &&& reopened.next.stage.request() == Request::Sleep
            &&& reopened.shown == seq![Shown::Notice(reopened_text(config.target@))]
        }),
{
}

/// A replacement that may not be followed, or that cannot be opened, is left
/// alone: the open file is polled on, and what is pending is kept.
pub proof fn lemma_failed_reopen_keeps_the_file(
    follower: Follower,
    current: FileIdentity,
    event: FollowEvent,
    config: FollowConfig,
    now: int,
)
    requires
        (follower.stage == Stage::Rechecking(current) && (event matches FollowEvent::Probed(facts)
            && refusal_text(
            facts,
            config.args.no_follow_symlinks,
            root_text(config.allowed_root),
        ) is Some)) || (follower.stage == Stage::Reopening(current) && event is OpenFailed),
    ensures
        ({
            let after = follower.step(event, config, now);
            &&& after.next == follower.go(Stage::Resting).next
            &&& after.shown.len() == 1
            &&& after.shown[0] is Notice
        }),
{
}

/// The same file at the path, or none, leaves everything as it is until the next poll.
pub proof fn lemma_same_file_rests(
    follower: Follower,
    identity: Option<FileIdentity>,
    config: FollowConfig,
    now: int,
)
    requires
        follower.stage == Stage::Inspecting,
        identity is None || identity == follower.opened_id,
    ensures
        follower.step(FollowEvent::Stat(identity), config, now) == follower.go(Stage::Resting),
{
}

/// Once stopped, a follower takes in nothing.
pub proof fn lemma_stopped_is_final(
    follower: Follower,
    event: FollowEvent,
    config: FollowConfig,
    now: int,
)
    requires
        follower.stage == Stage::Stopped,
    ensures
        follower.step(event, config, now) == follower.stay(),
        follower.stage.request() == Request::Stop,
{
}

/// While no file is open, the clocks are not looked at and nothing is read:
/// schedule and buffer stay as they are.
pub proof fn lemma_waiting_touches_nothing(
    follower: Follower,
    event: FollowEvent,
    config: FollowConfig,
    now: int,
)
    requires
        follower.stage == Stage::Checking || follower.stage == Stage::Retrying
            || follower.stage == Stage::Opening && !(event is Opened),
    ensures
        follower.step(event, config, now).next.schedule == follower.schedule,
        follower.step(event, config, now).next.pending == follower.pending,
        follower.step(event, config, now).next.opened_id == follower.opened_id,
{
}

} // verus!
