//! Bounded line assembly: a pending byte buffer with a total cap and a per-line cap.

use crate::text::texts;
use vstd::prelude::*;
use vstd::utf8::*;

verus! {

/// The buffer that `append_with_buffer_cap` leaves behind.
///
/// A chunk at least as large as the cap replaces the buffer with its own newest
/// `max` bytes. A smaller chunk that does not fit beside what is pending replaces
/// the buffer as a whole. Otherwise the chunk is appended.
pub open spec fn appended(pending: Seq<u8>, incoming: Seq<u8>, max: int) -> Seq<u8> {
    if incoming.len() >= max {
        incoming.subrange(incoming.len() - max, incoming.len() as int)
    } else if pending.len() + incoming.len() > max {
        incoming
    } else {
        pending + incoming
    }
}

/// Whether appending `incoming` to `pending` loses buffered or incoming bytes.
pub open spec fn append_overflows(pending: Seq<u8>, incoming: Seq<u8>, max: int) -> bool {
    incoming.len() >= max || pending.len() + incoming.len() > max
}

/// Appends `incoming` to `pending` without letting the buffer grow past
/// `max_buffer_bytes`, and reports whether anything had to be given up.
pub fn append_with_buffer_cap(
    pending: &mut Vec<u8>,
    incoming: &[u8],
    max_buffer_bytes: usize,
) -> (overflow: bool)
    ensures
        final(pending)@ == appended(old(pending)@, incoming@, max_buffer_bytes as int),
        overflow == append_overflows(old(pending)@, incoming@, max_buffer_bytes as int),
        final(pending)@.len() <= max_buffer_bytes,
{
    let n: usize = incoming.len();
    if n >= max_buffer_bytes {
        pending.clear();
        let tail = vstd::slice::slice_subrange(incoming, n - max_buffer_bytes, n);
        pending.extend_from_slice(tail);
        assert(pending@ =~= incoming@.subrange(n - max_buffer_bytes, n as int));
        return true;
    }
    let mut dropped = false;
    if pending.len() > max_buffer_bytes - n {
        pending.clear();
        dropped = true;
    }
    let ghost before = pending@;
    pending.extend_from_slice(incoming);
    assert(pending@ =~= before + incoming@);
    dropped
}

/// The line feed that ends a line.
pub const LINE_FEED: u8 = 10;

/// The carriage return that may stand before the line feed.
pub const CARRIAGE_RETURN: u8 = 13;

/// Index of the first line feed in `s`, or `s.len()` where `s` holds none.
pub open spec fn first_newline(s: Seq<u8>) -> nat
    decreases s.len(),
{
    if s.len() == 0 || s[0] == LINE_FEED {
        0
    } else {
        1 + first_newline(s.drop_first())
    }
}

/// Whether `s` holds a line feed.
pub open spec fn has_newline(s: Seq<u8>) -> bool {
    exists|i: int| 0 <= i < s.len() && s[i] == LINE_FEED
}

/// The terminated pieces of `s` in order, each without its line feed.
pub open spec fn complete_segments(s: Seq<u8>) -> Seq<Seq<u8>>
    decreases s.len(),
{
    let i = first_newline(s) as int;
    if i >= s.len() {
        Seq::empty()
    } else {
        seq![s.subrange(0, i)] + complete_segments(s.subrange(i + 1, s.len() as int))
    }
}

/// What follows the last line feed of `s`: the fragment still waiting for its end.
pub open spec fn unterminated_tail(s: Seq<u8>) -> Seq<u8>
    decreases s.len(),
{
    let i = first_newline(s) as int;
    if i >= s.len() {
        s
    } else {
        unterminated_tail(s.subrange(i + 1, s.len() as int))
    }
}

/// A segment without the carriage return that may end it.
pub open spec fn strip_carriage_return(segment: Seq<u8>) -> Seq<u8> {
    if segment.len() > 0 && segment.last() == CARRIAGE_RETURN {
        segment.drop_last()
    } else {
        segment
    }
}

/// Whether a segment, once stripped, is longer than the line cap.
pub open spec fn is_oversized(segment: Seq<u8>, max: int) -> bool {
    strip_carriage_return(segment).len() > max
}

/// The line that a segment yields: stripped, then cut to the line cap.
pub open spec fn line_of_segment(segment: Seq<u8>, max: int) -> Seq<u8> {
    let stripped = strip_carriage_return(segment);
    if stripped.len() > max {
        stripped.subrange(0, max)
    } else {
        stripped
    }
}

/// How many of the segments had to be cut.
pub open spec fn oversized_count(segments: Seq<Seq<u8>>, max: int) -> nat
    decreases segments.len(),
{
    if segments.len() == 0 {
        0
    } else {
        oversized_count(segments.drop_last(), max) + if is_oversized(segments.last(), max) {
            1nat
        } else {
            0nat
        }
    }
}

/// The complete lines that `s` yields under the line cap `max`.
pub open spec fn complete_lines(s: Seq<u8>, max: int) -> Seq<Seq<u8>> {
    let segments = complete_segments(s);
    Seq::new(segments.len(), |i: int| line_of_segment(segments[i], max))
}

/// Whether the unterminated fragment of `s` is given up for being over the cap.
pub open spec fn fragment_dropped(s: Seq<u8>, max: int) -> bool {
    unterminated_tail(s).len() > max
}

/// What stays pending once the complete lines of `s` are taken out.
pub open spec fn kept_fragment(s: Seq<u8>, max: int) -> Seq<u8> {
    if fragment_dropped(s, max) {
        Seq::empty()
    } else {
        unterminated_tail(s)
    }
}

/// The number of lines cut to the cap, plus one where the fragment was dropped.
pub open spec fn adjustments(s: Seq<u8>, max: int) -> nat {
    oversized_count(complete_segments(s), max) + if fragment_dropped(s, max) {
        1nat
    } else {
        0nat
    }
}

/// The byte contents of a list of lines.
pub open spec fn line_bytes(lines: Seq<Vec<u8>>) -> Seq<Seq<u8>> {
    Seq::new(lines.len(), |i: int| lines[i]@)
}

/// The segments, each with its line feed behind it, and then the fragment.
pub open spec fn rejoined(segments: Seq<Seq<u8>>, tail: Seq<u8>) -> Seq<u8>
    decreases segments.len(),
{
    if segments.len() == 0 {
        tail
    } else {
        segments[0] + seq![LINE_FEED] + rejoined(segments.drop_first(), tail)
    }
}

/// `first_newline` is the least index that holds a line feed.
pub proof fn lemma_first_newline(s: Seq<u8>)
    ensures
        first_newline(s) <= s.len(),
        forall|j: int| 0 <= j < first_newline(s) ==> s[j] != LINE_FEED,
        first_newline(s) < s.len() ==> s[first_newline(s) as int] == LINE_FEED,
        has_newline(s) <==> first_newline(s) < s.len(),
    decreases s.len(),
{
    if s.len() == 0 || s[0] == LINE_FEED {
    } else {
        let t = s.drop_first();
        lemma_first_newline(t);
        assert forall|j: int| 0 <= j < first_newline(s) implies s[j] != LINE_FEED by {
            if j > 0 {
                assert(s[j] == t[j - 1]);
            }
        }
        if first_newline(s) < s.len() {
            assert(s[first_newline(s) as int] == t[first_newline(t) as int]);
        }
        if has_newline(s) {
            let k = choose|k: int| 0 <= k < s.len() && s[k] == LINE_FEED;
            assert(t[k - 1] == LINE_FEED);
        }
    }
}

/// An index that holds the first line feed, or the length where there is none,
/// is what `first_newline` gives.
pub proof fn lemma_first_newline_at(s: Seq<u8>, i: int)
    requires
        0 <= i <= s.len(),
        forall|j: int| 0 <= j < i ==> s[j] != LINE_FEED,
        i < s.len() ==> s[i] == LINE_FEED,
    ensures
        first_newline(s) == i,
{
    lemma_first_newline(s);
    let f = first_newline(s) as int;
    if f < i {
        assert(s[f] != LINE_FEED);
    } else if f > i {
        assert(s[i] != LINE_FEED);
    }
}

/// Takes every complete line out of `pending`, cut to `max_line_bytes`, and
/// drops the unterminated fragment if it is over that cap. Returns the lines as
/// bytes and the number of lines cut or fragments dropped.
pub fn split_complete_lines(pending: &mut Vec<u8>, max_line_bytes: usize) -> (r: (
    Vec<Vec<u8>>,
    usize,
))
    ensures
        line_bytes(r.0@) == complete_lines(old(pending)@, max_line_bytes as int),
        r.1 == adjustments(old(pending)@, max_line_bytes as int),
        final(pending)@ == kept_fragment(old(pending)@, max_line_bytes as int),
        final(pending)@.len() <= max_line_bytes,
        !has_newline(final(pending)@),
{
    let ghost s = pending@;
    let ghost max = max_line_bytes as int;
    let n: usize = pending.len();
    let mut lines: Vec<Vec<u8>> = Vec::new();
    let mut count: usize = 0;
    let mut start: usize = 0;
    let mut i: usize = 0;
    let ghost mut segments: Seq<Seq<u8>> = Seq::empty();
    assert(s.subrange(0, n as int) =~= s);
    assert(line_bytes(lines@) =~= Seq::new(
        segments.len(),
        |k: int| line_of_segment(segments[k], max),
    ));
    while i < n
        invariant
            pending@ == s,
            n == s.len(),
            max == max_line_bytes,
            0 <= start <= i <= n,
            forall|j: int| start <= j < i ==> s[j] != LINE_FEED,
            complete_segments(s) == segments + complete_segments(
                s.subrange(start as int, n as int),
            ),
            unterminated_tail(s) == unterminated_tail(s.subrange(start as int, n as int)),
            line_bytes(lines@) == Seq::new(
                segments.len(),
                |k: int| line_of_segment(segments[k], max),
            ),
            count == oversized_count(segments, max),
            count <= start,
        decreases n - i,
    {
        if pending[i] == LINE_FEED {
            let ghost rest = s.subrange(start as int, n as int);
            let ghost segment = s.subrange(start as int, i as int);
            proof {
                lemma_first_newline_at(rest, i - start);
                assert(rest.subrange(0, i - start) =~= segment);
                assert(rest.subrange(i - start + 1, rest.len() as int) =~= s.subrange(
                    i + 1,
                    n as int,
                ));
                assert(segments + (seq![segment] + complete_segments(s.subrange(i + 1, n as int)))
                    =~= segments.push(segment) + complete_segments(s.subrange(i + 1, n as int)));
                assert(segments.push(segment).drop_last() =~= segments);
            }
            let mut end: usize = i;
            if end > start && pending[end - 1] == CARRIAGE_RETURN {
                end = end - 1;
            }
            assert(s.subrange(start as int, end as int) =~= strip_carriage_return(segment));
            if end - start > max_line_bytes {
                end = start + max_line_bytes;
                count = count + 1;
            }
            let line = vstd::slice::slice_to_vec(
                vstd::slice::slice_subrange(pending.as_slice(), start, end),
            );
            assert(line@ =~= line_of_segment(segment, max));
            let ghost before = lines@;
            lines.push(line);
            proof {
                let grown = segments.push(segment);
                assert(line_bytes(before).len() == segments.len());
                assert(line_bytes(lines@).len() == grown.len());
                assert(line_bytes(lines@) =~= Seq::new(
                    grown.len(),
                    |k: int| line_of_segment(grown[k], max),
                )) by {
                    assert forall|k: int| 0 <= k < grown.len() implies line_bytes(lines@)[k]
                        == line_of_segment(grown[k], max) by {
                        if k < segments.len() {
                            assert(lines@[k] == before[k]);
                            assert(line_bytes(before)[k] == line_of_segment(segments[k], max));
                        }
                    }
                }
                segments = grown;
            }
            start = i + 1;
        }
        i = i + 1;
    }
    proof {
        let rest = s.subrange(start as int, n as int);
        lemma_first_newline_at(rest, rest.len() as int);
        assert(segments + Seq::<Seq<u8>>::empty() =~= segments);
        assert(line_bytes(lines@) =~= complete_lines(s, max));
        assert(!has_newline(rest)) by {
            lemma_first_newline(rest);
        }
    }
    if n - start > max_line_bytes {
        pending.clear();
        count = count + 1;
        assert(!has_newline(pending@));
    } else if start > 0 {
        let tail = pending.split_off(start);
        *pending = tail;
    } else {
        assert(s.subrange(0, n as int) =~= s);
    }
    (lines, count)
}

/// What `String::from_utf8_lossy` makes of a byte sequence: its text, with each
/// ill-formed part replaced by U+FFFD.
pub uninterp spec fn utf8_lossy(bytes: Seq<u8>) -> Seq<char>;

/// `String::from_utf8_lossy`, owned. The text is named `utf8_lossy` of the bytes;
/// for well-formed UTF-8 it is the decoding of the bytes, with nothing replaced.
#[verifier::external_body]
fn decode_lossy(bytes: &[u8]) -> (text: String)
    ensures
        text@ == utf8_lossy(bytes@),
        valid_utf8(bytes@) ==> text@ == decode_utf8(bytes@),
{
    String::from_utf8_lossy(bytes).into_owned()
}

/// Each line decoded, ill-formed parts replaced.
pub open spec fn decoded_lines(lines: Seq<Seq<u8>>) -> Seq<Seq<char>> {
    Seq::new(lines.len(), |i: int| utf8_lossy(lines[i]))
}

/// Decodes each line permissively.
pub fn decode_lines(lines: &Vec<Vec<u8>>) -> (decoded: Vec<String>)
    ensures
        texts(decoded@) == decoded_lines(line_bytes(lines@)),
        forall|i: int|
            0 <= i < lines.len() && valid_utf8(#[trigger] lines[i]@) ==> decoded[i]@ == decode_utf8(
                lines[i]@,
            ),
{
    let mut decoded: Vec<String> = Vec::new();
    let mut i: usize = 0;
    while i < lines.len()
        invariant
            0 <= i <= lines.len(),
            decoded.len() == i,
            forall|k: int| 0 <= k < i ==> (#[trigger] decoded[k])@ == utf8_lossy(lines[k]@),
            forall|k: int|
                0 <= k < i && valid_utf8(#[trigger] lines[k]@) ==> decoded[k]@ == decode_utf8(
                    lines[k]@,
                ),
        decreases lines.len() - i,
    {
        let text = decode_lossy(lines[i].as_slice());
        decoded.push(text);
        i = i + 1;
    }
    assert(texts(decoded@) =~= decoded_lines(line_bytes(lines@)));
    decoded
}

/// Takes every complete line out of `pending` as text, cut to `max_line_bytes`
/// before decoding, and drops the unterminated fragment if it is over that cap.
/// Returns the lines and the number of lines cut or fragments dropped.
pub fn collect_complete_lines(pending: &mut Vec<u8>, max_line_bytes: usize) -> (r: (
    Vec<String>,
    usize,
))
    ensures
        texts(r.0@) == decoded_lines(complete_lines(old(pending)@, max_line_bytes as int)),
        forall|i: int|
            0 <= i < r.0.len() && valid_utf8(
                #[trigger] complete_lines(old(pending)@, max_line_bytes as int)[i],
            ) ==> r.0[i]@ == decode_utf8(complete_lines(old(pending)@, max_line_bytes as int)[i]),
        r.1 == adjustments(old(pending)@, max_line_bytes as int),
        final(pending)@ == kept_fragment(old(pending)@, max_line_bytes as int),
        final(pending)@.len() <= max_line_bytes,
        !has_newline(final(pending)@),
{
    let (lines, count) = split_complete_lines(pending, max_line_bytes);
    let decoded = decode_lines(&lines);
    proof {
        let expected = complete_lines(old(pending)@, max_line_bytes as int);
        assert(decoded.len() == texts(decoded@).len());
        assert forall|i: int|
            0 <= i < decoded.len() && valid_utf8(#[trigger] expected[i]) implies decoded[i]@
            == decode_utf8(expected[i]) by {
            assert(line_bytes(lines@)[i] == lines[i]@);
        }
    }
    (decoded, count)
}

/// The segments and the fragment are the buffer cut at its line feeds: put
/// together again with the line feeds they give the buffer back, and neither a
/// segment nor the fragment holds a line feed.
pub proof fn lemma_segments_partition_buffer(s: Seq<u8>)
    ensures
        rejoined(complete_segments(s), unterminated_tail(s)) == s,
        forall|i: int|
            0 <= i < complete_segments(s).len() ==> !has_newline(
                #[trigger] complete_segments(s)[i],
            ),
        !has_newline(unterminated_tail(s)),
    decreases s.len(),
{
    lemma_first_newline(s);
    let i = first_newline(s) as int;
    if i < s.len() {
        let head = s.subrange(0, i);
        let rest = s.subrange(i + 1, s.len() as int);
        lemma_segments_partition_buffer(rest);
        let segments = complete_segments(s);
        assert(segments[0] == head);
        assert(segments.drop_first() =~= complete_segments(rest));
        assert(head + seq![LINE_FEED] + rest =~= s);
        assert forall|k: int| 0 <= k < segments.len() implies !has_newline(
            #[trigger] segments[k],
        ) by {
            if k > 0 {
                assert(segments[k] == complete_segments(rest)[k - 1]);
            }
        }
    }
}

/// No line that comes out is longer than the cap. A line is its segment, stripped,
/// exactly when the segment is not counted as cut; otherwise it is the first `max`
/// bytes of it. A line that is well-formed UTF-8 has exactly these bytes as text
/// too. The count is at most one per line, and one more for the fragment.
pub proof fn lemma_lines_within_cap(s: Seq<u8>, max: int)
    requires
        max >= 0,
    ensures
        complete_lines(s, max).len() == complete_segments(s).len(),
        forall|i: int|
            0 <= i < complete_segments(s).len() ==> {
                let line = #[trigger] complete_lines(s, max)[i];
                let stripped = strip_carriage_return(complete_segments(s)[i]);
                &&& line.len() <= max
                &&& line == stripped.subrange(0, line.len() as int)
                &&& (line == stripped <==> !is_oversized(complete_segments(s)[i], max))
                &&& (valid_utf8(line) ==> encode_utf8(decode_utf8(line)) == line)
            },
        adjustments(s, max) <= complete_segments(s).len() + 1,
        kept_fragment(s, max).len() <= max,
{
    let segments = complete_segments(s);
    assert forall|i: int| 0 <= i < segments.len() implies {
        let line = #[trigger] complete_lines(s, max)[i];
        let stripped = strip_carriage_return(segments[i]);
        &&& line.len() <= max
        &&& line == stripped.subrange(0, line.len() as int)
        &&& (line == stripped <==> !is_oversized(segments[i], max))
        &&& (valid_utf8(line) ==> encode_utf8(decode_utf8(line)) == line)
    } by {
        let line = complete_lines(s, max)[i];
        let stripped = strip_carriage_return(segments[i]);
        assert(stripped.subrange(0, stripped.len() as int) =~= stripped);
        if valid_utf8(line) {
            decode_utf8_encode_utf8(line);
        }
    }
    lemma_oversized_count_bound(segments, max);
}

/// At most every segment is counted as cut.
pub proof fn lemma_oversized_count_bound(segments: Seq<Seq<u8>>, max: int)
    ensures
        oversized_count(segments, max) <= segments.len(),
    decreases segments.len(),
{
    if segments.len() > 0 {
        lemma_oversized_count_bound(segments.drop_last(), max);
    }
}

/// A buffer without a line feed yields no line. If it fits the cap it stays as it
/// is, and nothing is counted; if not, it is dropped and counted once.
pub proof fn lemma_no_newline_yields_nothing(s: Seq<u8>, max: int)
    requires
        !has_newline(s),
    ensures
        complete_lines(s, max) == Seq::<Seq<u8>>::empty(),
        s.len() <= max ==> kept_fragment(s, max) == s && adjustments(s, max) == 0,
        s.len() > max ==> kept_fragment(s, max) == Seq::<u8>::empty() && adjustments(s, max) == 1,
{
    lemma_first_newline(s);
    assert(complete_lines(s, max) =~= Seq::<Seq<u8>>::empty());
}

/// What one collection leaves pending holds no line feed.
pub proof fn lemma_kept_fragment_has_no_newline(s: Seq<u8>, max: int)
    ensures
        !has_newline(kept_fragment(s, max)),
        !has_newline(unterminated_tail(s)),
    decreases s.len(),
{
    lemma_first_newline(s);
    let i = first_newline(s) as int;
    if i < s.len() {
        lemma_kept_fragment_has_no_newline(s.subrange(i + 1, s.len() as int), max);
    }
}

/// The fragment that stays is not longer than the buffer it was taken from.
pub proof fn lemma_kept_fragment_is_shorter(s: Seq<u8>, max: int)
    ensures
        unterminated_tail(s).len() <= s.len(),
        kept_fragment(s, max).len() <= s.len(),
    decreases s.len(),
{
    let i = first_newline(s) as int;
    if i < s.len() {
        lemma_kept_fragment_is_shorter(s.subrange(i + 1, s.len() as int), max);
    }
}

/// Collecting twice in a row, with nothing appended in between: the second
/// collection yields no line, counts nothing and leaves the buffer as the first
/// one left it.
pub proof fn lemma_collect_twice(s: Seq<u8>, max: int)
    requires
        max >= 0,
    ensures
        complete_lines(kept_fragment(s, max), max) == Seq::<Seq<u8>>::empty(),
        adjustments(kept_fragment(s, max), max) == 0,
        kept_fragment(kept_fragment(s, max), max) == kept_fragment(s, max),
{
    lemma_kept_fragment_has_no_newline(s, max);
    lemma_no_newline_yields_nothing(kept_fragment(s, max), max);
}

/// The largest character boundary of `bytes` that is at most `max`.
pub open spec fn floor_char_boundary(bytes: Seq<u8>, max: int) -> int
    decreases max,
{
    if max <= 0 {
        0
    } else if is_char_boundary(bytes, max) {
        max
    } else {
        floor_char_boundary(bytes, max - 1)
    }
}

/// A text cut to at most `max` bytes of UTF-8 without splitting a character:
/// unchanged if it fits, else its longest prefix of whole characters that does.
pub open spec fn truncated_text(text: Seq<char>, max: int) -> Seq<char> {
    let bytes = encode_utf8(text);
    if bytes.len() <= max {
        text
    } else {
        decode_utf8(bytes.subrange(0, floor_char_boundary(bytes, max)))
    }
}

/// `floor_char_boundary` is a boundary, at most `max`, with none between it and `max`.
pub proof fn lemma_floor_char_boundary(bytes: Seq<u8>, max: int)
    requires
        valid_utf8(bytes),
        0 <= max,
    ensures
        0 <= floor_char_boundary(bytes, max) <= max,
        is_char_boundary(bytes, floor_char_boundary(bytes, max)),
        forall|j: int| floor_char_boundary(bytes, max) < j <= max ==> !is_char_boundary(bytes, j),
    decreases max,
{
    if max > 0 && !is_char_boundary(bytes, max) {
        lemma_floor_char_boundary(bytes, max - 1);
    }
}

/// A truncated text fits the cap and is a prefix of the text it was cut from.
pub proof fn lemma_truncated_text(text: Seq<char>, max: int)
    requires
        0 <= max,
    ensures
        encode_utf8(truncated_text(text, max)).len() <= max,
        encode_utf8(truncated_text(text, max)).len() <= encode_utf8(text).len(),
        truncated_text(text, max).len() <= text.len(),
        truncated_text(text, max) == text.subrange(0, truncated_text(text, max).len() as int),
{
    broadcast use group_utf8_lib;

    let bytes = encode_utf8(text);
    if bytes.len() <= max {
        assert(text.subrange(0, text.len() as int) =~= text);
    } else {
        lemma_floor_char_boundary(bytes, max);
        let k = floor_char_boundary(bytes, max);
        let head = bytes.subrange(0, k);
        let rest = bytes.subrange(k, bytes.len() as int);
        valid_utf8_split(bytes, k);
        decode_utf8_split(bytes, k);
        assert(text == decode_utf8(bytes));
        assert(text =~= decode_utf8(head) + decode_utf8(rest));
        assert(encode_utf8(decode_utf8(head)) == head);
        assert(text.subrange(0, decode_utf8(head).len() as int) =~= decode_utf8(head));
    }
}

/// Cuts `s` to at most `max_bytes` bytes, never inside a character.
pub fn truncate_utf8_to_bytes(s: &mut String, max_bytes: usize)
    ensures
        final(s)@ == truncated_text(old(s)@, max_bytes as int),
        encode_utf8(final(s)@).len() <= max_bytes,
{
    broadcast use group_utf8_lib;

    proof {
        lemma_truncated_text(s@, max_bytes as int);
    }
    let text = s.as_str();
    if text.as_bytes().len() <= max_bytes {
        return;
    }
    let ghost bytes = encode_utf8(text@);
    let mut idx: usize = max_bytes;
    while idx > 0 && !text.is_char_boundary(idx)
        invariant
            bytes == encode_utf8(text@),
            valid_utf8(bytes),
            0 <= idx <= max_bytes < bytes.len(),
            floor_char_boundary(bytes, idx as int) == floor_char_boundary(bytes, max_bytes as int),
        decreases idx,
    {
        idx = idx - 1;
    }
    let head = text.split_at(idx).0.to_owned();
    assert(encode_utf8(head@) == bytes.subrange(0, idx as int));
    *s = head;
}

} // verus!
