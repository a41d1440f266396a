//! Frames of a server-sent event stream.
use vstd::prelude::*;
use vstd::utf8::{decode_utf8, encode_utf8, valid_utf8};

use crate::json::{json_text, parsed_json, Json, JsonView};
use crate::text::{
    drop_cr, join, joined, option_text, pieces_at, split_at_char, strip_prefix, texts, trim,
    trimmed, without_cr, has_prefix,
};

verus! {

/// What `String::from_utf8_lossy` makes of bytes.
pub uninterp spec fn lossy_text(bytes: Seq<u8>) -> Seq<char>;

/// Calls `String::from_utf8_lossy`. The result is the named text; valid UTF-8 is decoded as it
/// stands.
#[verifier::external_body]
pub(crate) fn text_of_bytes(bytes: &[u8]) -> (r: String)
    ensures
        r@ == lossy_text(bytes@),
        valid_utf8(bytes@) ==> r@ == decode_utf8(bytes@),
{
    String::from_utf8_lossy(bytes).into_owned()
}

/// Calls `std::str::from_utf8`. There is a text exactly for valid UTF-8: the one it encodes.
#[verifier::external_body]
pub(crate) fn text_of_utf8(bytes: &[u8]) -> (r: Option<&str>)
    ensures
        match r {
            Some(text) => valid_utf8(bytes@) && text@ == decode_utf8(bytes@),
            None => !valid_utf8(bytes@),
        },
{
    std::str::from_utf8(bytes).ok()
}

#[derive(Debug)]
pub struct SseFrame {
    pub event: Option<String>,
    pub data: String,
}

#[verifier::ext_equal]
pub struct FrameView {
    pub event: Option<Seq<char>>,
    pub data: Seq<char>,
}

impl View for SseFrame {
    type V = FrameView;

    open spec fn view(&self) -> FrameView {
        FrameView { event: option_text(self.event), data: self.data@ }
    }
}

/// The event that the last `event:` line names.
pub open spec fn event_of(lines: Seq<Seq<char>>) -> Option<Seq<char>>
    decreases lines.len(),
{
    if lines.len() == 0 {
        None
    } else if has_prefix(lines.last(), "event:"@) {
        Some(trimmed(lines.last().skip("event:"@.len() as int)))
    } else {
        event_of(lines.drop_last())
    }
}

/// What follows `data:` in a line, without the one space that may stand there.
pub open spec fn data_value(line: Seq<char>) -> Seq<char> {
    let rest = line.skip("data:"@.len() as int);
    if has_prefix(rest, " "@) {
        rest.skip(1)
    } else {
        rest
    }
}

/// The values of the `data:` lines.
pub open spec fn data_lines(lines: Seq<Seq<char>>) -> Seq<Seq<char>>
    decreases lines.len(),
{
    if lines.len() == 0 {
        Seq::empty()
    } else if !has_prefix(lines.last(), "event:"@) && has_prefix(lines.last(), "data:"@) {
        data_lines(lines.drop_last()).push(data_value(lines.last()))
    } else {
        data_lines(lines.drop_last())
    }
}

pub open spec fn frame_lines(frame: Seq<u8>) -> Seq<Seq<char>> {
    let parts = pieces_at(lossy_text(frame), '\n');
    Seq::new(parts.len(), |i: int| without_cr(parts[i]))
}

pub open spec fn parsed_frame(frame: Seq<u8>) -> FrameView {
    FrameView {
        event: event_of(frame_lines(frame)),
        data: joined(data_lines(frame_lines(frame)), "\n"@),
    }
}

impl FrameView {
    /// The JSON value that the data is, if it is one.
    pub open spec fn json(self) -> Option<JsonView> {
        let text = trimmed(self.data);
        if text.len() == 0 {
            None
        } else {
            match parsed_json(text) {
                Ok(value) => Some(value),
                Err(_) => None,
            }
        }
    }
}

impl SseFrame {
    pub fn data_json(&self) -> (r: Option<Json>)
        ensures
            match r {
                Some(value) => self@.json() == Some(value@),
                None => self@.json() is None,
            },
    {
        let text = trim(self.data.as_str());
        if text.is_empty() {
            return None;
        }
        match Json::parse(text) {
            Ok(value) => Some(value),
            Err(_) => None,
        }
    }
}

pub fn parse_sse_frame(frame: &[u8]) -> (r: SseFrame)
    ensures
        r@ == parsed_frame(frame@),
{
    let text = text_of_bytes(frame);
    let parts = split_at_char(text.as_str(), '\n');
    let ghost lines = frame_lines(frame@);
    let mut event: Option<String> = None;
    let mut data: Vec<String> = Vec::new();
    proof {
        reveal_strlit(" ");
        assert(texts(data@) =~= data_lines(lines.take(0)));
    }
    for i in 0..parts.len()
        invariant
            " "@.len() == 1,
            texts(parts@) == pieces_at(lossy_text(frame@), '\n'),
            lines == frame_lines(frame@),
            option_text(event) == event_of(lines.take(i as int)),
            texts(data@) == data_lines(lines.take(i as int)),
    {
        let line = drop_cr(parts[i].as_str());
        proof {
            assert(texts(parts@)[i as int] == parts@[i as int]@);
            assert(lines[i as int] == line@);
            assert(lines.take(i + 1).drop_last() =~= lines.take(i as int));
            assert(lines.take(i + 1).last() == line@);
        }
        if let Some(name) = strip_prefix(line, "event:") {
            event = Some(trim(name).to_owned());
        } else if let Some(rest) = strip_prefix(line, "data:") {
            let value = match strip_prefix(rest, " ") {
                Some(value) => value,
                None => rest,
            };
            let ghost before = texts(data@);
            data.push(value.to_owned());
            assert(texts(data@) =~= before.push(value@));
        }
    }
    assert(lines.take(parts@.len() as int) =~= lines);
    SseFrame { event, data: join(&data, "\n") }
}

/// `pattern` stands in `bytes` at `i`.
pub open spec fn stands_at(bytes: Seq<u8>, pattern: Seq<u8>, i: int) -> bool {
    0 <= i <= bytes.len() - pattern.len() && bytes.subrange(i, i + pattern.len()) == pattern
}

/// Where `pattern` first ends in `bytes`, looking from `from` on.
pub open spec fn first_end(bytes: Seq<u8>, pattern: Seq<u8>, from: int) -> Option<int>
    decreases bytes.len() + 1 - from,
{
    if from + pattern.len() > bytes.len() {
        None
    } else if stands_at(bytes, pattern, from) {
        Some(from + pattern.len())
    } else {
        first_end(bytes, pattern, from + 1)
    }
}

pub open spec fn line_feeds() -> Seq<u8> {
    seq![10u8, 10u8]
}

pub open spec fn crlf_pairs() -> Seq<u8> {
    seq![13u8, 10u8, 13u8, 10u8]
}

/// Where the first frame of a buffer ends, and whether a blank line ends it. A blank line is two
/// line feeds, or two pairs of carriage return and line feed. A buffer without one is still a
/// frame where its data is JSON.
pub open spec fn frame_boundary(buffer: Seq<u8>) -> Option<(int, bool)> {
    match (first_end(buffer, line_feeds(), 0), first_end(buffer, crlf_pairs(), 0)) {
        (Some(a), Some(b)) => Some((if b < a { b } else { a }, true)),
        (Some(a), None) => Some((a, true)),
        (None, Some(b)) => Some((b, true)),
        (None, None) => if buffer.len() > 0 && parsed_frame(buffer).json() is Some {
            Some((buffer.len() as int, false))
        } else {
            None
        },
    }
}

pub open spec fn frame_end(buffer: Seq<u8>) -> Option<int> {
    match frame_boundary(buffer) {
        Some((end, _)) => Some(end),
        None => None,
    }
}

pub fn find_end(bytes: &[u8], pattern: &Vec<u8>) -> (r: Option<usize>)
    requires
        pattern@.len() <= 4,
    ensures
        match r {
            Some(end) => first_end(bytes@, pattern@, 0) == Some(end as int) && pattern@.len() <= end
                <= bytes@.len(),
            None => first_end(bytes@, pattern@, 0) is None,
        },
{
    let n = pattern.len();
    let len = bytes.len();
    let mut i: usize = 0;
    while n <= len && i <= len - n
        invariant
            n == pattern@.len(),
            len == bytes@.len(),
            n <= len ==> i <= len - n + 1,
            first_end(bytes@, pattern@, 0) == first_end(bytes@, pattern@, i as int),
        decreases len - i + 1,
    {
        let mut same = true;
        for k in 0..n
            invariant
                n == pattern@.len(),
                len == bytes@.len(),
                i + n <= len,
                same == (forall|j: int| 0 <= j < k ==> bytes@[i + j] == #[trigger] pattern@[j]),
        {
            if bytes[i + k] != pattern[k] {
                same = false;
            }
        }
        proof {
            let window = bytes@.subrange(i as int, i + n);
            if same {
                assert(window =~= pattern@);
            } else if window == pattern@ {
                assert forall|j: int| 0 <= j < n implies bytes@[i + j] == #[trigger] pattern@[j] by {
                    assert(window[j] == pattern@[j]);
                }
            }
        }
        if same {
            return Some(i + n);
        }
        if i == len - n {
            assert(first_end(bytes@, pattern@, i + 1) is None);
            return None;
        }
        i = i + 1;
    }
    None
}

pub fn find_frame_boundary(buffer: &[u8]) -> (r: Option<(usize, bool)>)
    ensures
        match r {
            Some((end, complete)) => frame_boundary(buffer@) == Some((end as int, complete)) && 0
                < end <= buffer@.len(),
            None => frame_boundary(buffer@) is None,
        },
{
    let feeds: Vec<u8> = vec![10u8, 10u8];
    let pairs: Vec<u8> = vec![13u8, 10u8, 13u8, 10u8];
    assert(feeds@ =~= line_feeds());
    assert(pairs@ =~= crlf_pairs());
    match (find_end(buffer, &feeds), find_end(buffer, &pairs)) {
        (Some(a), Some(b)) => if b < a {
            Some((b, true))
        } else {
            Some((a, true))
        },
        (Some(a), None) => Some((a, true)),
        (None, Some(b)) => Some((b, true)),
        (None, None) => {
            if buffer.len() == 0 {
                return None;
            }
            let parsed = parse_sse_frame(buffer);
            match parsed.data_json() {
                Some(_) => Some((buffer.len(), false)),
                None => None,
            }
        },
    }
}

/// Takes the first frame off a buffer.
pub fn take_complete_frame(buffer: &mut Vec<u8>) -> (r: Option<Vec<u8>>)
    ensures
        match r {
            Some(frame) => frame_end(old(buffer)@) == Some(frame@.len() as int) && frame@.len() > 0
                && old(buffer)@ == frame@ + final(buffer)@,
            None => frame_end(old(buffer)@) is None && final(buffer)@ == old(buffer)@,
        },
{
    match find_frame_boundary(buffer.as_slice()) {
        Some((end, _)) => {
            let ghost all = buffer@;
            let mut rest = buffer.split_off(end);
            std::mem::swap(buffer, &mut rest);
            assert(all =~= rest@ + buffer@);
            Some(rest)
        },
        None => None,
    }
}

/// The bytes of a frame that names an event and carries a value.
pub open spec fn frame_bytes(event: Seq<char>, data: JsonView) -> Seq<u8> {
    encode_utf8("event: "@) + encode_utf8(event) + encode_utf8("\ndata: "@) + encode_utf8(
        json_text(data),
    ) + encode_utf8("\n\n"@)
}

pub fn push_frame(output: &mut Vec<u8>, event: &str, data: &Json)
    ensures
        final(output)@ == old(output)@ + frame_bytes(event@, data@),
{
    let text = data.to_text();
    push_text(output, "event: ");
    push_text(output, event);
    push_text(output, "\ndata: ");
    push_text(output, text.as_str());
    push_text(output, "\n\n");
    assert(output@ =~= old(output)@ + frame_bytes(event@, data@));
}

fn push_text(output: &mut Vec<u8>, text: &str)
    ensures
        final(output)@ == old(output)@ + encode_utf8(text@),
{
    push_all(output, text.as_bytes());
}

/// Appends bytes.
pub fn push_all(output: &mut Vec<u8>, bytes: &[u8])
    ensures
        final(output)@ == old(output)@ + bytes@,
{
    output.extend_from_slice(bytes);
    assert(output@ =~= old(output)@ + bytes@);
}

} // verus!
