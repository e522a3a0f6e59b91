//! Reading the options from the command line.
//!
//! The command line is described to `clap` argument by argument and read by it.
//! What it found is then checked once more against the limits of the options,
//! so that every `Args` that comes out of here is valid.

use crate::cli::{color_named, parse_positive_usize, Args, HighlightColor};
use clap::builder::{PathBufValueParser, PossibleValuesParser, RangedU64ValueParser};
use clap::builder::ValueParser;
use clap::{Arg, ArgAction, ArgMatches, Command};
use std::any::Any;
use std::path::PathBuf;
use vstd::prelude::*;
use vstd::string::StringExecFns;

verus! {

/// `clap::Command`, the description of a command line.
#[verifier::external_type_specification]
#[verifier::external_body]
pub struct ExCommand(Command);

/// `clap::Arg`, the description of one argument.
#[verifier::external_type_specification]
#[verifier::external_body]
pub struct ExArg(Arg);

/// `clap::ArgMatches`, what a command line was found to hold.
#[verifier::external_type_specification]
#[verifier::external_body]
pub struct ExArgMatches(ArgMatches);

/// Why a command line yields no options: a fault in it, or a request for the
/// help text or the version, which is then the message.
#[derive(Debug, Clone)]
pub struct CliError {
    /// The text to write.
    pub message: String,
    /// Whether the text belongs on the error stream rather than standard output.
    pub use_stderr: bool,
    /// The status to end the process with.
    pub exit_code: i32,
}

/// The status of a process that ends on a faulty command line.
pub const USAGE_EXIT_CODE: i32 = 2;

/// `clap::builder::ValueParser`, the way the text of a value is read.
#[verifier::external_type_specification]
#[verifier::external_body]
pub struct ExValueParser(ValueParser);

/// `Command::new`.
#[verifier::external_body]
fn command_new(name: &'static str) -> Command {
    Command::new(name)
}

/// `Command::version`.
#[verifier::external_body]
fn command_version(command: Command, version: &'static str) -> Command {
    command.version(version)
}

/// `Command::about`.
#[verifier::external_body]
fn command_about(command: Command, about: &'static str) -> Command {
    command.about(about)
}

/// `Command::arg`.
#[verifier::external_body]
fn command_arg(command: Command, arg: Arg) -> Command {
    command.arg(arg)
}

/// `Arg::new`.
#[verifier::external_body]
fn arg_new(id: &'static str) -> Arg {
    Arg::new(id)
}

/// `Arg::long`.
#[verifier::external_body]
fn arg_long(arg: Arg, long: &'static str) -> Arg {
    arg.long(long)
}

/// `Arg::short`, which takes any character but the hyphen.
#[verifier::external_body]
fn arg_short(arg: Arg, short: char) -> Arg
    requires
        short != '-',
{
    arg.short(short)
}

/// `Arg::value_name`.
#[verifier::external_body]
fn arg_value_name(arg: Arg, name: &'static str) -> Arg {
    arg.value_name(name)
}

/// `Arg::help`.
#[verifier::external_body]
fn arg_help(arg: Arg, help: &'static str) -> Arg {
    arg.help(help)
}

/// `Arg::default_value`.
#[verifier::external_body]
fn arg_default_value(arg: Arg, value: &'static str) -> Arg {
    arg.default_value(value)
}

/// `Arg::action` with `ArgAction::SetTrue`: the argument is a switch.
#[verifier::external_body]
fn arg_set_true(arg: Arg) -> Arg {
    arg.action(ArgAction::SetTrue)
}

/// `Arg::value_parser`.
#[verifier::external_body]
fn arg_value_parser(arg: Arg, parser: ValueParser) -> Arg {
    arg.value_parser(parser)
}

/// `RangedU64ValueParser::range` on a new parser for `u64`: numbers from `min` up.
#[verifier::external_body]
fn u64_parser(min: u64) -> ValueParser {
    RangedU64ValueParser::<u64>::new().range(min..).into()
}

/// `PathBufValueParser::new`.
#[verifier::external_body]
fn path_parser() -> ValueParser {
    PathBufValueParser::new().into()
}

/// `PossibleValuesParser::new`: one of the names given.
#[verifier::external_body]
fn names_parser(names: Vec<&'static str>) -> ValueParser {
    PossibleValuesParser::new(names).into()
}

/// `ValueParser::new` over `parse_positive_usize`.
#[verifier::external_body]
fn positive_usize_parser() -> ValueParser {
    ValueParser::new(parse_positive_usize)
}

/// `Command::try_get_matches_from`. A refusal is handed on as its rendered
/// text, its stream and its exit code, as `clap::Error` gives them. The command
/// is the one that `cli_command` describes: its names are distinct and its
/// defaults are values that their parsers take, as `clap` asks of a description.
#[verifier::external_body]
fn matches_from(command: Command, argv: &[&str]) -> Result<ArgMatches, CliError> {
    match command.try_get_matches_from(argv) {
        Ok(matches) => Ok(matches),
        Err(error) => Err(
            CliError {
                message: error.render().to_string(),
                use_stderr: error.use_stderr(),
                exit_code: error.exit_code(),
            },
        ),
    }
}

/// `ArgMatches::try_get_one`, the value cloned; none also where the name or the
/// type is not what the command line was described with.
#[verifier::external_body]
fn value_of<T: Any + Clone + Send + Sync + 'static>(matches: &ArgMatches, id: &str) -> Option<T> {
    matches.try_get_one::<T>(id).ok().flatten().cloned()
}

/// The name of the program.
pub const PROGRAM: &'static str = "butt";

/// The version of the program.
pub const VERSION: &'static str = "0.1.0";

/// What the command line was found to hold, value by value, before the limits
/// of the options are applied.
#[derive(Debug)]
pub struct RawArgs {
    pub path: Option<PathBuf>,
    pub line_seconds: Option<u64>,
    pub idle_seconds: Option<u64>,
    pub regex: Option<String>,
    pub color: Option<String>,
    pub poll_millis: Option<u64>,
    pub max_buffer_bytes: Option<usize>,
    pub max_line_bytes: Option<usize>,
    pub no_follow_symlinks: bool,
    pub allowed_root: Option<PathBuf>,
}

/// The colour that the values name, if they name one.
pub open spec fn raw_color(raw: RawArgs) -> Option<HighlightColor> {
    match raw.color {
        Some(name) => color_named(name@),
        None => None,
    }
}

/// The first option whose value is missing or outside its limits, if there is one.
pub open spec fn faulty_option(raw: RawArgs) -> Option<Seq<char>> {
    if !(raw.line_seconds matches Some(seconds) && seconds >= 1) {
        Some("--line-seconds"@)
    } else if raw.idle_seconds == Some(0u64) {
        Some("--idle-seconds"@)
    } else if raw_color(raw) is None {
        Some("--color"@)
    } else if raw.poll_millis is None {
        Some("--poll-millis"@)
    } else if !(raw.max_buffer_bytes matches Some(bytes) && bytes >= 1) {
        Some("--max-buffer-bytes"@)
    } else if !(raw.max_line_bytes matches Some(bytes) && bytes >= 1) {
        Some("--max-line-bytes"@)
    } else {
        None
    }
}

/// The message that names a faulty option.
pub open spec fn fault_text(option: Seq<char>) -> Seq<char> {
    "error: invalid value for '"@ + option + "'"@
}

/// Whether `r` is what the limits of the options make of the values found: the
/// refusal that names the first option at fault, or else the options with
/// every value as it was found.
pub open spec fn limits_applied(raw: RawArgs, r: Result<Args, CliError>) -> bool {
    match faulty_option(raw) {
        Some(option) => {
            &&& r is Err
            &&& r->Err_0.message@ == fault_text(option)
            &&& r->Err_0.use_stderr
            &&& r->Err_0.exit_code == USAGE_EXIT_CODE
        },
        None => {
            &&& r is Ok
            &&& r->Ok_0.is_valid()
            &&& r->Ok_0.path == raw.path
            &&& Some(r->Ok_0.line_seconds) == raw.line_seconds
            &&& r->Ok_0.idle_seconds == raw.idle_seconds
            &&& r->Ok_0.regex == raw.regex
            &&& Some(r->Ok_0.color) == raw_color(raw)
            &&& Some(r->Ok_0.poll_millis) == raw.poll_millis
            &&& Some(r->Ok_0.max_buffer_bytes) == raw.max_buffer_bytes
            &&& Some(r->Ok_0.max_line_bytes) == raw.max_line_bytes
            &&& r->Ok_0.no_follow_symlinks == raw.no_follow_symlinks
            &&& r->Ok_0.allowed_root == raw.allowed_root
        },
    }
}

/// The refusal of a command line for a faulty option.
fn fault(option: &str) -> (error: CliError)
    ensures
        error.message@ == fault_text(option@),
        error.use_stderr,
        error.exit_code == USAGE_EXIT_CODE,
{
    let mut message = String::from_str("error: invalid value for '");
    message.append(option);
    message.append("'");
    CliError { message, use_stderr: true, exit_code: USAGE_EXIT_CODE }
}

/// An option that takes a value: its name in the result, its long name, the
/// name of its value and its help text.
fn option(
    id: &'static str,
    long: &'static str,
    value_name: &'static str,
    help: &'static str,
) -> Arg {
    arg_help(arg_value_name(arg_long(arg_new(id), long), value_name), help)
}

/// The description of the command line.
fn cli_command() -> Command {
    let cmd = command_new(PROGRAM);
    let cmd = command_version(cmd, VERSION);
    let cmd = command_about(cmd, "Throttle stream output and follow files");

    let path = arg_new("path");
    let path = arg_value_name(path, "PATH");
    let path = arg_help(path, "File to follow. If omitted, reads from stdin.");
    let cmd = command_arg(cmd, arg_value_parser(path, path_parser()));

    let line_seconds = option(
        "line_seconds",
        "line-seconds",
        "LINE_SECONDS",
        "Print at most one input line per N seconds.",
    );
    let line_seconds = arg_short(line_seconds, 'n');
    let line_seconds = arg_value_parser(line_seconds, u64_parser(1));
    let cmd = command_arg(cmd, arg_default_value(line_seconds, "5"));

    let idle_seconds = option(
        "idle_seconds",
        "idle-seconds",
        "IDLE_SECONDS",
        "No-output notice period in seconds.",
    );
    let idle_seconds = arg_short(idle_seconds, 'i');
    let cmd = command_arg(cmd, arg_value_parser(idle_seconds, u64_parser(1)));

    let regex = option("regex", "regex", "REGEX", "Regex pattern to highlight.");
    let cmd = command_arg(cmd, arg_short(regex, 'r'));

    let color = option("color", "color", "COLOR", "Highlight color for regex matches.");
    let color = arg_short(color, 'c');
    let names = vec!["red", "green", "yellow", "blue", "magenta", "cyan"];
    let color = arg_value_parser(color, names_parser(names));
    let cmd = command_arg(cmd, arg_default_value(color, "yellow"));

    let poll_millis = option(
        "poll_millis",
        "poll-millis",
        "POLL_MILLIS",
        "Poll interval in milliseconds.",
    );
    let poll_millis = arg_value_parser(poll_millis, u64_parser(0));
    let cmd = command_arg(cmd, arg_default_value(poll_millis, "200"));

    let max_buffer_bytes = option(
        "max_buffer_bytes",
        "max-buffer-bytes",
        "MAX_BUFFER_BYTES",
        "Maximum pending in-memory bytes while assembling lines.",
    );
    let max_buffer_bytes = arg_value_parser(max_buffer_bytes, positive_usize_parser());
    let cmd = command_arg(cmd, arg_default_value(max_buffer_bytes, "1048576"));

    let max_line_bytes = option(
        "max_line_bytes",
        "max-line-bytes",
        "MAX_LINE_BYTES",
        "Maximum bytes per line before truncation/drop.",
    );
    let max_line_bytes = arg_value_parser(max_line_bytes, positive_usize_parser());
    let cmd = command_arg(cmd, arg_default_value(max_line_bytes, "65536"));

    let no_follow_symlinks = arg_long(arg_new("no_follow_symlinks"), "no-follow-symlinks");
    let no_follow_symlinks = arg_help(
        no_follow_symlinks,
        "Refuse following files when PATH is a symlink.",
    );
    let cmd = command_arg(cmd, arg_set_true(no_follow_symlinks));

    let allowed_root = option(
        "allowed_root",
        "allowed-root",
        "ALLOWED_ROOT",
        "Restrict followed file to this root directory (after canonicalization).",
    );
    command_arg(cmd, arg_value_parser(allowed_root, path_parser()))
}

impl Args {
    /// Applies the limits of the options to the values found. The options come
    /// out as they were found if both intervals and both caps are there and at
    /// least 1, the colour is one of the six, and the poll interval is there;
    /// else the first option at fault is named.
    pub fn from_raw(raw: RawArgs) -> (r: Result<Args, CliError>)
        ensures
            limits_applied(raw, r),
    {
        let line_seconds: u64 = match raw.line_seconds {
            Some(seconds) => seconds,
            None => 0,
        };
        if line_seconds == 0 {
            return Err(fault("--line-seconds"));
        }
        if let Some(seconds) = raw.idle_seconds {
            if seconds == 0 {
                return Err(fault("--idle-seconds"));
            }
        }
        let color = match &raw.color {
            Some(name) => HighlightColor::from_name(name.as_str()),
            None => None,
        };
        let color = match color {
            Some(color) => color,
            None => {
                return Err(fault("--color"));
            },
        };
        let poll_millis: u64 = match raw.poll_millis {
            Some(millis) => millis,
            None => {
                return Err(fault("--poll-millis"));
            },
        };
        let max_buffer_bytes: usize = match raw.max_buffer_bytes {
            Some(bytes) => bytes,
            None => 0,
        };
        if max_buffer_bytes == 0 {
            return Err(fault("--max-buffer-bytes"));
        }
        let max_line_bytes: usize = match raw.max_line_bytes {
            Some(bytes) => bytes,
            None => 0,
        };
        if max_line_bytes == 0 {
            return Err(fault("--max-line-bytes"));
        }
        Ok(
            Args {
                path: raw.path,
                line_seconds,
                idle_seconds: raw.idle_seconds,
                regex: raw.regex,
                color,
                poll_millis,
                max_buffer_bytes,
                max_line_bytes,
                no_follow_symlinks: raw.no_follow_symlinks,
                allowed_root: raw.allowed_root,
            },
        )
    }

    /// Turns what the reading of a command line gave into options: a refusal
    /// is handed on as it is, and values that were found come under the limits
    /// of the options.
    pub fn from_outcome(outcome: Result<RawArgs, CliError>) -> (r: Result<Args, CliError>)
        ensures
            match outcome {
                Ok(raw) => limits_applied(raw, r),
                Err(error) => r == Err::<Args, CliError>(error),
            },
    {
        match outcome {
            Ok(raw) => Args::from_raw(raw),
            Err(error) => Err(error),
        }
    }

    /// Reads the options from a command line, program name first. Options that
    /// come out are within their limits.
    pub fn try_parse_from(argv: &[&str]) -> (r: Result<Args, CliError>)
        ensures
            r matches Ok(args) ==> args.is_valid(),
    {
        let outcome = match matches_from(cli_command(), argv) {
            Ok(matches) => {
                let no_follow_symlinks = match value_of::<bool>(&matches, "no_follow_symlinks") {
                    Some(set) => set,
                    None => false,
                };
                Ok(
                    RawArgs {
                        path: value_of::<PathBuf>(&matches, "path"),
                        line_seconds: value_of::<u64>(&matches, "line_seconds"),
                        idle_seconds: value_of::<u64>(&matches, "idle_seconds"),
                        regex: value_of::<String>(&matches, "regex"),
                        color: value_of::<String>(&matches, "color"),
                        poll_millis: value_of::<u64>(&matches, "poll_millis"),
                        max_buffer_bytes: value_of::<usize>(&matches, "max_buffer_bytes"),
                        max_line_bytes: value_of::<usize>(&matches, "max_line_bytes"),
                        no_follow_symlinks,
                        allowed_root: value_of::<PathBuf>(&matches, "allowed_root"),
                    },
                )
            },
            Err(error) => Err(error),
        };
        Args::from_outcome(outcome)
    }
}

} // verus!
