//! What frames of an event stream say, and where they end.
use vstd::prelude::*;
use vstd::utf8::encode_utf8;

use crate::address_laws::{lacks, lemma_one_piece, lemma_pieces_around};
use crate::json::{json_text, JsonView};
use crate::sse::{
    crlf_pairs, data_lines, event_of, first_end, frame_boundary, frame_bytes, frame_lines,
    line_feeds, lossy_text, parsed_frame, stands_at,
};
use crate::text::{has_prefix, pieces_at, trimmed, without_cr};

verus! {

proof fn lemma_line_names()
    ensures
        "event:"@.len() == 6,
        "event:"@[0] == 'e',
        "data:"@.len() == 5,
        "data:"@[0] == 'd',
        " "@ == seq![' '],
        "\n"@ == seq!['\n'],
{
    reveal_strlit("event:");
    reveal_strlit("data:");
    reveal_strlit(" ");
    reveal_strlit("\n");
    assert(" "@ =~= seq![' ']);
    assert("\n"@ =~= seq!['\n']);
}

pub open spec fn is_event_line(line: Seq<char>) -> bool {
    has_prefix(line, "event:"@)
}

/// The last line that names an event counts; without one there is none.
pub proof fn last_event_counts(
    before: Seq<Seq<char>>,
    name: Seq<char>,
    after: Seq<Seq<char>>,
)
    requires
        forall|i: int| 0 <= i < after.len() ==> !is_event_line(#[trigger] after[i]),
    ensures
        event_of(before + seq!["event:"@ + name] + after) == Some(trimmed(name)),
        event_of(after) is None,
    decreases after.len(),
{
    let line = "event:"@ + name;
    let lines = before + seq![line] + after;
    if after.len() == 0 {
        assert(lines.last() == line);
        assert(line.take("event:"@.len() as int) =~= "event:"@);
        assert(line.skip("event:"@.len() as int) =~= name);
    } else {
        let shorter = after.drop_last();
        assert forall|i: int| 0 <= i < shorter.len() implies !is_event_line(
            #[trigger] shorter[i],
        ) by {
            assert(shorter[i] == after[i]);
        }
        last_event_counts(before, name, shorter);
        assert(lines.drop_last() =~= before + seq![line] + shorter);
        assert(lines.last() == after.last());
        assert(!is_event_line(after[after.len() - 1]));
    }
}

/// The data of lines is that of the first ones, and then that of the rest.
pub proof fn data_is_read_line_by_line(a: Seq<Seq<char>>, b: Seq<Seq<char>>)
    ensures
        data_lines(a + b) == data_lines(a) + data_lines(b),
    decreases b.len(),
{
    if b.len() == 0 {
        assert(a + b =~= a);
        assert(data_lines(a + b) =~= data_lines(a) + data_lines(b));
    } else {
        assert((a + b).drop_last() =~= a + b.drop_last());
        data_is_read_line_by_line(a, b.drop_last());
        assert(data_lines(a + b) =~= data_lines(a) + data_lines(b));
    }
}

/// A data line says what follows its name, without one space before it; any other line says nothing.
pub proof fn data_lines_say_what_follows(line: Seq<char>, value: Seq<char>)
    ensures
        data_lines(seq!["data: "@ + value]) == seq![value],
        value.len() > 0 && value[0] != ' ' ==> data_lines(seq!["data:"@ + value]) == seq![value],
        !has_prefix(line, "data:"@) ==> data_lines(seq![line]) == Seq::<Seq<char>>::empty(),
{
    reveal_with_fuel(data_lines, 2);
    lemma_line_names();
    reveal_strlit("data: ");
    reveal_strlit("data:");
    assert("data: "@ =~= "data:"@ + seq![' ']);
    let spaced = "data: "@ + value;
    assert(spaced.take(5) =~= "data:"@);
    assert(spaced.skip(5) =~= seq![' '] + value);
    assert(spaced.skip(5).take(1) =~= seq![' ']);
    assert(spaced.skip(5).skip(1) =~= value);
    assert(spaced[0] == 'd');
    lemma_no_event(spaced);
    assert(seq![spaced].drop_last() =~= Seq::<Seq<char>>::empty());
    assert(data_lines(seq![spaced]) =~= seq![value]);
    if value.len() > 0 && value[0] != ' ' {
        let bare = "data:"@ + value;
        assert(bare.take(5) =~= "data:"@);
        assert(bare.skip(5) =~= value);
        assert(bare[0] == 'd');
        lemma_no_event(bare);
        if has_prefix(value, " "@) {
            assert(value.take(1)[0] == ' ');
        }
        assert(seq![bare].drop_last() =~= Seq::<Seq<char>>::empty());
        assert(data_lines(seq![bare]) =~= seq![value]);
    }
    assert(seq![line].drop_last() =~= Seq::<Seq<char>>::empty());
}

proof fn lemma_no_event(line: Seq<char>)
    requires
        line.len() > 0,
        line[0] == 'd',
    ensures
        !has_prefix(line, "event:"@),
{
    lemma_line_names();
    if has_prefix(line, "event:"@) {
        assert(line.take(6)[0] == 'e');
    }
}

/// A frame that names its event once and holds its data on one line is read as that event and that
/// data.
pub proof fn frames_say_what_they_hold(frame: Seq<u8>, event: Seq<char>, data: Seq<char>)
    requires
        lossy_text(frame) == "event: "@ + event + "\ndata: "@ + data + "\n\n"@,
        lacks(event, '\n'),
        lacks(event, '\r'),
        lacks(data, '\n'),
        lacks(data, '\r'),
    ensures
        parsed_frame(frame).event == Some(trimmed(seq![' '] + event)),
        parsed_frame(frame).data == data,
{
    reveal_with_fuel(data_lines, 5);
    reveal_with_fuel(event_of, 5);
    lemma_line_names();
    reveal_strlit("event: ");
    reveal_strlit("event:");
    reveal_strlit("\ndata: ");
    reveal_strlit("data: ");
    reveal_strlit("\n\n");
    let first = "event: "@ + event;
    let second = "data: "@ + data;
    let none = Seq::<char>::empty();
    let text = lossy_text(frame);
    assert("\ndata: "@ =~= seq!['\n'] + "data: "@);
    assert("\n\n"@ =~= seq!['\n'] + seq!['\n'] + none);
    assert(text =~= first + seq!['\n'] + (second + seq!['\n'] + (none + seq!['\n'] + none)));
    assert(lacks(first, '\n')) by {
        assert forall|i: int| 0 <= i < first.len() implies #[trigger] first[i] != '\n' by {
            if i >= 7 {
                assert(first[i] == event[i - 7]);
            }
        }
    }
    assert(lacks(second, '\n')) by {
        assert forall|i: int| 0 <= i < second.len() implies #[trigger] second[i] != '\n' by {
            if i >= 6 {
                assert(second[i] == data[i - 6]);
            }
        }
    }
    lemma_one_piece(first, '\n');
    lemma_one_piece(second, '\n');
    lemma_one_piece(none, '\n');
    lemma_pieces_around(none, '\n', none);
    lemma_pieces_around(second, '\n', none + seq!['\n'] + none);
    lemma_pieces_around(first, '\n', second + seq!['\n'] + (none + seq!['\n'] + none));
    let parts = pieces_at(text, '\n');
    assert(parts =~= seq![first, second, none, none]);
    assert(without_cr(first) == first) by {
        if first.len() > 7 {
            assert(first.last() == event[event.len() - 1]);
        }
    }
    assert(without_cr(second) == second) by {
        if second.len() > 6 {
            assert(second.last() == data[data.len() - 1]);
        }
    }
    let lines = frame_lines(frame);
    assert(lines =~= seq![first, second] + seq![none, none]);
    assert("event: "@ =~= "event:"@ + seq![' ']);
    assert(first =~= "event:"@ + (seq![' '] + event));
    let after = seq![second, none, none];
    assert forall|i: int| 0 <= i < after.len() implies !is_event_line(#[trigger] after[i]) by {
        if i == 0 {
            assert(second[0] == 'd');
            lemma_no_event(second);
        }
    }
    last_event_counts(Seq::empty(), seq![' '] + event, after);
    assert(lines =~= Seq::<Seq<char>>::empty() + seq![first] + after);
    data_is_read_line_by_line(seq![first], after);
    data_is_read_line_by_line(seq![second], seq![none, none]);
    data_is_read_line_by_line(seq![none], seq![none]);
    assert(after =~= seq![second] + (seq![none] + seq![none]));
    assert(seq![none, none] =~= seq![none] + seq![none]);
    assert(!has_prefix(first, "data:"@)) by {
        if has_prefix(first, "data:"@) {
            assert(first.take(5)[0] == 'd');
            assert(first[0] == 'e');
        }
    }
    data_lines_say_what_follows(first, data);
    data_lines_say_what_follows(none, data);
    assert(lines =~= seq![first] + after);
    assert(data_lines(lines) =~= seq![data]);
}

proof fn lemma_encoded_in_parts(a: Seq<char>, b: Seq<char>)
    ensures
        encode_utf8(a + b) == encode_utf8(a) + encode_utf8(b),
    decreases a.len(),
{
    if a.len() == 0 {
        assert(a + b =~= b);
        assert(encode_utf8(a + b) =~= encode_utf8(a) + encode_utf8(b));
    } else {
        assert((a + b).drop_first() =~= a.drop_first() + b);
        lemma_encoded_in_parts(a.drop_first(), b);
        assert(encode_utf8(a + b) =~= encode_utf8(a) + encode_utf8(b));
    }
}

/// A frame that is written names its event on one line, holds its data on the next, and ends with an
/// empty one.
pub proof fn written_frames_have_two_lines(event: Seq<char>, data: JsonView)
    ensures
        frame_bytes(event, data) == encode_utf8(
            "event: "@ + event + "\n"@ + "data: "@ + json_text(data) + "\n"@ + "\n"@,
        ),
{
    lemma_line_names();
    reveal_strlit("\ndata: ");
    reveal_strlit("data: ");
    reveal_strlit("\n\n");
    let start = "event: "@;
    let text = json_text(data);
    assert("\ndata: "@ =~= "\n"@ + "data: "@);
    assert("\n\n"@ =~= "\n"@ + "\n"@);
    lemma_encoded_in_parts(start, event);
    lemma_encoded_in_parts(start + event, "\ndata: "@);
    lemma_encoded_in_parts(start + event + "\ndata: "@, text);
    lemma_encoded_in_parts(start + event + "\ndata: "@ + text, "\n\n"@);
    assert(start + event + "\n"@ + "data: "@ + text + "\n"@ + "\n"@ =~= start + event
        + "\ndata: "@ + text + "\n\n"@);
}

proof fn lemma_first_end(bytes: Seq<u8>, pattern: Seq<u8>, from: int)
    requires
        0 <= from,
    ensures
        match first_end(bytes, pattern, from) {
            Some(end) => from + pattern.len() <= end <= bytes.len() && stands_at(
                bytes,
                pattern,
                end - pattern.len(),
            ) && forall|i: int|
                from <= i && i + pattern.len() < end ==> !#[trigger] stands_at(bytes, pattern, i),
            None => forall|i: int| from <= i ==> !#[trigger] stands_at(bytes, pattern, i),
        },
    decreases bytes.len() + 1 - from,
{
    if from + pattern.len() <= bytes.len() && !stands_at(bytes, pattern, from) {
        lemma_first_end(bytes, pattern, from + 1);
    }
}

/// An empty line ends at a place: two line feeds, or two pairs of a carriage return and a line feed.
pub open spec fn ends_in_empty_line(bytes: Seq<u8>, end: int) -> bool {
    &&& 0 <= end <= bytes.len()
    &&& (end >= 2 && bytes[end - 1] == 10 && bytes[end - 2] == 10) || (end >= 4 && bytes[end - 1]
        == 10 && bytes[end - 2] == 13 && bytes[end - 3] == 10 && bytes[end - 4] == 13)
}

proof fn lemma_ends(bytes: Seq<u8>, end: int)
    requires
        0 <= end <= bytes.len(),
    ensures
        ends_in_empty_line(bytes, end) == (stands_at(bytes, line_feeds(), end - 2) || stands_at(
            bytes,
            crlf_pairs(),
            end - 4,
        )),
{
    let feeds = line_feeds();
    let pairs = crlf_pairs();
    if end >= 2 {
        let last = bytes.subrange(end - 2, end);
        assert(last.len() == 2 && last[0] == bytes[end - 2] && last[1] == bytes[end - 1]);
        if bytes[end - 1] == 10 && bytes[end - 2] == 10 {
            assert(last =~= feeds);
        }
    }
    if end >= 4 {
        let last = bytes.subrange(end - 4, end);
        assert(last.len() == 4 && last[0] == bytes[end - 4] && last[1] == bytes[end - 3]);
        assert(last[2] == bytes[end - 2] && last[3] == bytes[end - 1]);
        if bytes[end - 1] == 10 && bytes[end - 2] == 13 && bytes[end - 3] == 10 && bytes[end - 4]
            == 13 {
            assert(last =~= pairs);
        }
    }
}

/// The first frame of a buffer ends with its first empty line; a buffer without one is a frame of its
/// own, not a complete one, where it holds readable data, and else there is none.
pub proof fn frames_end_with_the_first_empty_line(buffer: Seq<u8>, end: int)
    ensures
        ends_in_empty_line(buffer, end) && (forall|i: int|
            0 <= i < end ==> !#[trigger] ends_in_empty_line(buffer, i)) ==> frame_boundary(buffer)
            == Some((end, true)),
        (forall|i: int| 0 <= i <= buffer.len() ==> !#[trigger] ends_in_empty_line(buffer, i)) ==> {
            &&& buffer.len() > 0 && parsed_frame(buffer).json() is Some ==> frame_boundary(buffer)
                == Some((buffer.len() as int, false))
            &&& buffer.len() == 0 || parsed_frame(buffer).json() is None ==> frame_boundary(
                buffer,
            ) is None
        },
{
    let feeds = line_feeds();
    let pairs = crlf_pairs();
    lemma_first_end(buffer, feeds, 0);
    lemma_first_end(buffer, pairs, 0);
    let a = first_end(buffer, feeds, 0);
    let b = first_end(buffer, pairs, 0);
    if a is Some {
        lemma_ends(buffer, a->0);
        assert(ends_in_empty_line(buffer, a->0));
    }
    if b is Some {
        lemma_ends(buffer, b->0);
        assert(ends_in_empty_line(buffer, b->0));
    }
    if 0 <= end <= buffer.len() {
        lemma_ends(buffer, end);
    }
}

} // verus!
