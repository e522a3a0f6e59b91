//! Follow a line-oriented stream, throttle what reaches the terminal, and keep
//! memory bounded while doing so.
//!
//! The library holds the decisions and none of the input and output. A caller
//! reads bytes and the clock, sleeps and writes; the library says what each
//! byte, line and tick leads to.
//!
//! - [`limits`]: the pending buffer and the lines taken out of it, within a
//!   buffer cap and a line cap.
//! - [`emit`]: the schedule that holds ordinary lines back, lets matching lines
//!   through and announces silence.
//! - [`follow`]: the polling loop over a file, with truncation and replacement.
//! - [`stdin`]: the reader of standard input and the loop that polls its queue.
//! - [`pattern`] and [`output`]: the highlight pattern and the decorated line.
//! - [`cli`] and [`parse`]: the options and the command line they are read from.
//! - [`report`] and [`text`]: the notices, and text at the level of its bytes.

pub mod cli;
pub mod emit;
pub mod follow;
pub mod limits;
pub mod output;
pub mod parse;
pub mod pattern;
pub mod report;
pub mod stdin;
pub mod text;
