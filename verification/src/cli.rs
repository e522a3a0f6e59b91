//! Command-line configuration: the options, their defaults and their limits.

use crate::text::{parse_usize, parsed_usize, str_equals};
use std::path::PathBuf;
use vstd::prelude::*;
use vstd::string::StringExecFns;
use vstd::utf8::encode_utf8;

verus! {

/// The colour in which matches are shown.
#[derive(Debug, Clone, Copy, PartialEq, Eq, Structural)]
pub enum HighlightColor {
    Red,
    Green,
    Yellow,
    Blue,
    Magenta,
    Cyan,
}

/// `text` between the escape sequence that selects the colour `code` and the one
/// that resets it.
pub open spec fn painted(code: Seq<char>, text: Seq<char>) -> Seq<char> {
    "\x1b["@ + code + "m"@ + text + "\x1b[0m"@
}

/// The colour that a name stands for, if it stands for one.
pub open spec fn color_named(name: Seq<char>) -> Option<HighlightColor> {
    if name == "red"@ {
        Some(HighlightColor::Red)
    } else if name == "green"@ {
        Some(HighlightColor::Green)
    } else if name == "yellow"@ {
        Some(HighlightColor::Yellow)
    } else if name == "blue"@ {
        Some(HighlightColor::Blue)
    } else if name == "magenta"@ {
        Some(HighlightColor::Magenta)
    } else if name == "cyan"@ {
        Some(HighlightColor::Cyan)
    } else {
        None
    }
}

impl HighlightColor {
    /// The colour that `name` stands for, if it stands for one.
    pub fn from_name(name: &str) -> (color: Option<HighlightColor>)
        ensures
            color == color_named(name@),
    {
        if str_equals(name, "red") {
            Some(HighlightColor::Red)
        } else if str_equals(name, "green") {
            Some(HighlightColor::Green)
        } else if str_equals(name, "yellow") {
            Some(HighlightColor::Yellow)
        } else if str_equals(name, "blue") {
            Some(HighlightColor::Blue)
        } else if str_equals(name, "magenta") {
            Some(HighlightColor::Magenta)
        } else if str_equals(name, "cyan") {
            Some(HighlightColor::Cyan)
        } else {
            None
        }
    }

    /// The SGR parameter that selects this colour as foreground.
    pub open spec fn code(self) -> Seq<char> {
        match self {
            HighlightColor::Red => "31"@,
            HighlightColor::Green => "32"@,
            HighlightColor::Yellow => "33"@,
            HighlightColor::Blue => "34"@,
            HighlightColor::Magenta => "35"@,
            HighlightColor::Cyan => "36"@,
        }
    }

    /// The SGR parameter that selects this colour as foreground.
    pub fn ansi_code(&self) -> (code: &'static str)
        ensures
            code@ == self.code(),
    {
        match self {
            HighlightColor::Red => "31",
            HighlightColor::Green => "32",
            HighlightColor::Yellow => "33",
            HighlightColor::Blue => "34",
            HighlightColor::Magenta => "35",
            HighlightColor::Cyan => "36",
        }
    }

    /// `input` wrapped in the escape sequences that show it in this colour.
    pub fn paint(&self, input: &str) -> (out: String)
        ensures
            out@ == painted(self.code(), input@),
    {
        let mut out = String::from_str("\x1b[");
        out.append(self.ansi_code());
        out.append("m");
        out.append(input);
        out.append("\x1b[0m");
        out
    }
}

/// `std::path::PathBuf`, carried through as it came from the command line.
#[verifier::external_type_specification]
#[verifier::external_body]
pub struct ExPathBuf(PathBuf);

/// The options of one run.
#[derive(Debug, Clone)]
pub struct Args {
    /// File to follow; standard input is read where there is none.
    pub path: Option<PathBuf>,
    /// At most one ordinary line is shown per this many seconds.
    pub line_seconds: u64,
    /// Silence is announced after this many seconds; never where there is none.
    pub idle_seconds: Option<u64>,
    /// Pattern whose matches are highlighted and shown at once.
    pub regex: Option<String>,
    /// Colour of the highlighted matches.
    pub color: HighlightColor,
    /// Pause between two polls, in milliseconds.
    pub poll_millis: u64,
    /// Most bytes held while a line is assembled.
    pub max_buffer_bytes: usize,
    /// Most bytes of one line.
    pub max_line_bytes: usize,
    /// Whether a path that is a symbolic link is refused.
    pub no_follow_symlinks: bool,
    /// Directory that the followed file must lie under.
    pub allowed_root: Option<PathBuf>,
}

impl Args {
    /// Whether the options are within their limits: both intervals and both
    /// caps are at least 1.
    pub open spec fn is_valid(&self) -> bool {
        &&& self.line_seconds >= 1
        &&& (self.idle_seconds matches Some(seconds) ==> seconds >= 1)
        &&& self.max_buffer_bytes >= 1
        &&& self.max_line_bytes >= 1
    }
}

/// What `parse_positive_usize` makes of a text: the number, or the message that
/// says why there is none.
pub open spec fn positive_usize(text: Seq<char>) -> Result<usize, Seq<char>> {
    match parsed_usize(encode_utf8(text)) {
        None => Err("invalid integer '"@ + text + "'"@),
        Some(value) => if value == 0 {
            Err("value must be >= 1"@)
        } else {
            Ok(value)
        },
    }
}

/// Reads a byte limit: a decimal `usize` that is at least 1.
pub fn parse_positive_usize(input: &str) -> (r: Result<usize, String>)
    ensures
        match positive_usize(input@) {
            Ok(value) => r == Ok::<usize, String>(value),
            Err(message) => r is Err && r->Err_0@ == message,
        },
{
    match parse_usize(input) {
        None => {
            let mut message = String::from_str("invalid integer '");
            message.append(input);
            message.append("'");
            Err(message)
        },
        Some(value) => {
            if value == 0 {
                Err(String::from_str("value must be >= 1"))
            } else {
                Ok(value)
            }
        },
    }
}

} // verus!
