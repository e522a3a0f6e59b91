//! What a run hands out: lines for standard output and notices for the error
//! stream, each as finished text.

use crate::text::{decimal_string, decimal_text};
use vstd::prelude::*;
use vstd::string::StringExecFns;

verus! {

/// One piece of text to write, and where.
#[derive(Debug, Clone, PartialEq, Eq)]
pub enum Output {
    /// A line for standard output.
    Line(String),
    /// A diagnostic for the error stream.
    Notice(String),
}

/// An output as a mathematical value.
pub enum Shown {
    /// A line for standard output.
    Line(Seq<char>),
    /// A diagnostic for the error stream.
    Notice(Seq<char>),
}

impl View for Output {
    type V = Shown;

    open spec fn view(&self) -> Shown {
        match self {
            Output::Line(text) => Shown::Line(text@),
            Output::Notice(text) => Shown::Notice(text@),
        }
    }
}

/// The outputs of a list, each as a mathematical value.
pub open spec fn shown(outputs: Seq<Output>) -> Seq<Shown> {
    Seq::new(outputs.len(), |i: int| outputs[i]@)
}

/// Each text as a line for standard output.
pub open spec fn as_lines(texts: Seq<Seq<char>>) -> Seq<Shown> {
    Seq::new(texts.len(), |i: int| Shown::Line(texts[i]))
}

/// The target cannot be followed yet, for the reason given.
pub open spec fn waiting_text(target: Seq<char>, reason: Seq<char>) -> Seq<char> {
    "[butt] waiting for file '"@ + target + "' ("@ + reason + ")"@
}

/// Bytes were given up to keep the buffer within its cap.
pub open spec fn buffer_overflow_text(max_buffer_bytes: usize) -> Seq<char> {
    "[butt] buffer exceeded --max-buffer-bytes="@ + decimal_text(max_buffer_bytes as nat)
        + ", dropping buffered data"@
}

/// Lines were cut, or a fragment dropped, to keep lines within their cap.
pub open spec fn oversized_text(count: usize, max_line_bytes: usize) -> Seq<char> {
    "[butt] truncated/dropped "@ + decimal_text(count as nat)
        + " oversized line fragment(s) (max-line-bytes="@ + decimal_text(max_line_bytes as nat)
        + ")"@
}

/// A read failed.
pub open spec fn read_error_text(reason: Seq<char>) -> Seq<char> {
    "[butt] read error: "@ + reason
}

/// The file at the path was replaced, and the new one may not be followed.
pub open spec fn reopen_blocked_text(reason: Seq<char>) -> Seq<char> {
    "[butt] reopen blocked: "@ + reason
}

/// The file at the path was replaced, and the new one could not be opened.
pub open spec fn reopen_failed_text(reason: Seq<char>) -> Seq<char> {
    "[butt] reopen failed: "@ + reason
}

/// The file at the path was replaced, and the new one is followed from now on.
pub open spec fn reopened_text(target: Seq<char>) -> Seq<char> {
    "[butt] reopened '"@ + target + "' after rotation/replacement"@
}

/// The run ends on a fault.
pub open spec fn fatal_text(reason: Seq<char>) -> Seq<char> {
    "[butt] error: "@ + reason
}

/// A line from standard input was cut to the buffer cap.
pub open spec fn stdin_overflow_text(max_buffer_bytes: usize) -> Seq<char> {
    "[butt] stdin chunk exceeded --max-buffer-bytes="@ + decimal_text(max_buffer_bytes as nat)
        + ", truncating"@
}

/// A line from standard input was cut to the line cap.
pub open spec fn stdin_oversized_text(max_line_bytes: usize) -> Seq<char> {
    "[butt] line exceeded --max-line-bytes="@ + decimal_text(max_line_bytes as nat)
        + ", truncating"@
}

/// The pattern did not compile.
pub open spec fn invalid_regex_text(pattern: Seq<char>, reason: Seq<char>) -> Seq<char> {
    "[butt] invalid regex '"@ + pattern + "': "@ + reason
}

/// `prefix`, then `middle`, then `suffix`.
fn compose(prefix: &str, middle: &str, suffix: &str) -> (text: String)
    ensures
        text@ == prefix@ + middle@ + suffix@,
{
    let mut text = String::from_str(prefix);
    text.append(middle);
    text.append(suffix);
    text
}

/// `prefix`, then `rest`.
fn prefixed(prefix: &str, rest: &str) -> (text: String)
    ensures
        text@ == prefix@ + rest@,
{
    let mut text = String::from_str(prefix);
    text.append(rest);
    text
}

/// A count of bytes, in decimal.
fn count_string(n: usize) -> (text: String)
    ensures
        text@ == decimal_text(n as nat),
{
    decimal_string(n as u64)
}

/// The target cannot be followed yet, for the reason given.
pub fn waiting_notice(target: &str, reason: &str) -> (text: String)
    ensures
        text@ == waiting_text(target@, reason@),
{
    let mut text = compose("[butt] waiting for file '", target, "' (");
    text.append(reason);
    text.append(")");
    text
}

/// Bytes were given up to keep the buffer within its cap.
pub fn buffer_overflow_notice(max_buffer_bytes: usize) -> (text: String)
    ensures
        text@ == buffer_overflow_text(max_buffer_bytes),
{
    let number = count_string(max_buffer_bytes);
    compose(
        "[butt] buffer exceeded --max-buffer-bytes=",
        number.as_str(),
        ", dropping buffered data",
    )
}

/// Lines were cut, or a fragment dropped, to keep lines within their cap.
pub fn oversized_notice(count: usize, max_line_bytes: usize) -> (text: String)
    ensures
        text@ == oversized_text(count, max_line_bytes),
{
    let number = count_string(count);
    let mut text = compose(
        "[butt] truncated/dropped ",
        number.as_str(),
        " oversized line fragment(s) (max-line-bytes=",
    );
    let cap = count_string(max_line_bytes);
    text.append(cap.as_str());
    text.append(")");
    text
}

/// A read failed.
pub fn read_error_notice(reason: &str) -> (text: String)
    ensures
        text@ == read_error_text(reason@),
{
    prefixed("[butt] read error: ", reason)
}

/// The file at the path was replaced, and the new one may not be followed.
pub fn reopen_blocked_notice(reason: &str) -> (text: String)
    ensures
        text@ == reopen_blocked_text(reason@),
{
    prefixed("[butt] reopen blocked: ", reason)
}

/// The file at the path was replaced, and the new one could not be opened.
pub fn reopen_failed_notice(reason: &str) -> (text: String)
    ensures
        text@ == reopen_failed_text(reason@),
{
    prefixed("[butt] reopen failed: ", reason)
}

/// The file at the path was replaced, and the new one is followed from now on.
pub fn reopened_notice(target: &str) -> (text: String)
    ensures
        text@ == reopened_text(target@),
{
    compose("[butt] reopened '", target, "' after rotation/replacement")
}

/// The run ends on a fault.
pub fn fatal_notice(reason: &str) -> (text: String)
    ensures
        text@ == fatal_text(reason@),
{
    prefixed("[butt] error: ", reason)
}

/// A line from standard input was cut to the buffer cap.
pub fn stdin_overflow_notice(max_buffer_bytes: usize) -> (text: String)
    ensures
        text@ == stdin_overflow_text(max_buffer_bytes),
{
    let number = count_string(max_buffer_bytes);
    compose("[butt] stdin chunk exceeded --max-buffer-bytes=", number.as_str(), ", truncating")
}

/// A line from standard input was cut to the line cap.
pub fn stdin_oversized_notice(max_line_bytes: usize) -> (text: String)
    ensures
        text@ == stdin_oversized_text(max_line_bytes),
{
    let number = count_string(max_line_bytes);
    compose("[butt] line exceeded --max-line-bytes=", number.as_str(), ", truncating")
}

/// The pattern did not compile.
pub fn invalid_regex_notice(pattern: &str, reason: &str) -> (text: String)
    ensures
        text@ == invalid_regex_text(pattern@, reason@),
{
    let mut text = compose("[butt] invalid regex '", pattern, "': ");
    text.append(reason);
    text
}

} // verus!
