//! What holds of texts that are cut, parted, joined and read.
use vstd::prelude::*;

use crate::text::{
    all_digits, decimal, digit, is_char, is_digit, is_white_space, joined, lowered, number_of,
    parsed_u64, pieces, pieces_at, trimmed, trimmed_end, trimmed_end_of, trimmed_start,
    trimmed_start_of,
};

verus! {

/// A part of a text with nothing but white space around it.
pub open spec fn is_core(s: Seq<char>, from: int, to: int) -> bool {
    &&& 0 <= from <= to <= s.len()
    &&& forall|i: int| 0 <= i < from ==> is_white_space(#[trigger] s[i])
    &&& forall|i: int| to <= i < s.len() ==> is_white_space(#[trigger] s[i])
    &&& from < to ==> !is_white_space(s[from]) && !is_white_space(s[to - 1])
}

proof fn lemma_start(s: Seq<char>) -> (from: int)
    ensures
        0 <= from <= s.len(),
        trimmed_start(s) == s.skip(from),
        forall|i: int| 0 <= i < from ==> is_white_space(#[trigger] s[i]),
        from < s.len() ==> !is_white_space(s[from]),
    decreases s.len(),
{
    if s.len() > 0 && is_white_space(s[0]) {
        let rest = s.skip(1);
        let from = lemma_start(rest);
        assert(rest.skip(from) =~= s.skip(from + 1));
        assert forall|i: int| 0 <= i < from + 1 implies is_white_space(#[trigger] s[i]) by {
            if i > 0 {
                assert(rest[i - 1] == s[i]);
            }
        }
        assert(from < rest.len() ==> rest[from] == s[from + 1]);
        from + 1
    } else {
        assert(s.skip(0) =~= s);
        0
    }
}

proof fn lemma_end(s: Seq<char>) -> (to: int)
    ensures
        0 <= to <= s.len(),
        trimmed_end(s) == s.take(to),
        forall|i: int| to <= i < s.len() ==> is_white_space(#[trigger] s[i]),
        to > 0 ==> !is_white_space(s[to - 1]),
    decreases s.len(),
{
    if s.len() > 0 && is_white_space(s.last()) {
        let rest = s.drop_last();
        let to = lemma_end(rest);
        assert(rest.take(to) =~= s.take(to));
        assert forall|i: int| to <= i < s.len() implies is_white_space(#[trigger] s[i]) by {
            if i < rest.len() {
                assert(rest[i] == s[i]);
            }
        }
        assert(to > 0 ==> rest[to - 1] == s[to - 1]);
        to
    } else {
        assert(s.take(s.len() as int) =~= s);
        s.len() as int
    }
}

/// Trimming takes the white space off both ends of a text, all of it and nothing else.
pub proof fn trimming_takes_white_space_only(s: Seq<char>)
    ensures
        exists|from: int, to: int|
            (#[trigger] is_core(s, from, to)) && trimmed(s) == s.subrange(from, to),
{
    let from = lemma_start(s);
    let rest = s.skip(from);
    let to = lemma_end(rest);
    assert(trimmed(s) =~= s.subrange(from, from + to));
    if to > 0 {
        assert(rest[0] == s[from]);
        assert(rest[to - 1] == s[from + to - 1]);
        assert(from < s.len());
    }
    assert forall|i: int| from + to <= i < s.len() implies is_white_space(#[trigger] s[i]) by {
        assert(rest[i - from] == s[i]);
    }
    assert(is_core(s, from, from + to));
}

/// Cutting a character off an end takes all that stand there and nothing else.
pub proof fn cutting_takes_one_character_only(s: Seq<char>, c: char)
    ensures
        trimmed_end_of(s, c).len() <= s.len(),
        trimmed_end_of(s, c) == s.take(trimmed_end_of(s, c).len() as int),
        forall|i: int| trimmed_end_of(s, c).len() <= i < s.len() ==> #[trigger] s[i] == c,
        trimmed_end_of(s, c).len() > 0 ==> trimmed_end_of(s, c).last() != c,
    decreases s.len(),
{
    if s.len() > 0 && s.last() == c {
        let rest = s.drop_last();
        cutting_takes_one_character_only(rest, c);
        let kept = trimmed_end_of(s, c);
        assert(rest.take(kept.len() as int) =~= s.take(kept.len() as int));
        assert forall|i: int| kept.len() <= i < s.len() implies #[trigger] s[i] == c by {
            if i < rest.len() {
                assert(rest[i] == s[i]);
            }
        }
    } else {
        assert(s.take(s.len() as int) =~= s);
    }
}

pub proof fn cutting_the_start_takes_one_character_only(s: Seq<char>, c: char)
    ensures
        trimmed_start_of(s, c).len() <= s.len(),
        trimmed_start_of(s, c) == s.skip(s.len() - trimmed_start_of(s, c).len()),
        forall|i: int| 0 <= i < s.len() - trimmed_start_of(s, c).len() ==> #[trigger] s[i] == c,
        trimmed_start_of(s, c).len() > 0 ==> trimmed_start_of(s, c)[0] != c,
    decreases s.len(),
{
    let kept = trimmed_start_of(s, c);
    if s.len() > 0 && s[0] == c {
        let rest = s.skip(1);
        cutting_the_start_takes_one_character_only(rest, c);
        assert(rest.skip(rest.len() - kept.len()) =~= s.skip(s.len() - kept.len()));
        assert forall|i: int| 0 <= i < s.len() - kept.len() implies #[trigger] s[i] == c by {
            if i > 0 {
                assert(rest[i - 1] == s[i]);
            }
        }
    } else {
        assert(s.skip(0) =~= s);
    }
}

/// No piece of a parted text holds a separator, and there is always a piece.
pub proof fn pieces_hold_no_separator(s: Seq<char>, separator: spec_fn(char) -> bool)
    ensures
        pieces(s, separator).len() > 0,
        forall|i: int, j: int|
            0 <= i < pieces(s, separator).len() && 0 <= j < pieces(s, separator)[i].len()
                ==> !separator(#[trigger] pieces(s, separator)[i][j]),
    decreases s.len(),
{
    if s.len() > 0 {
        let before = pieces(s.drop_last(), separator);
        pieces_hold_no_separator(s.drop_last(), separator);
        let all = pieces(s, separator);
        assert forall|i: int, j: int| 0 <= i < all.len() && 0 <= j < all[i].len() implies !separator(
            #[trigger] all[i][j],
        ) by {
            if separator(s.last()) {
                if i < before.len() {
                    assert(all[i] == before[i]);
                    assert(!separator(before[i][j]));
                }
            } else if i < before.len() - 1 {
                assert(all[i] == before[i]);
                assert(!separator(before[i][j]));
            } else {
                assert(all[i] == before.last().push(s.last()));
                if j < before.last().len() {
                    assert(all[i][j] == before[before.len() - 1][j]);
                    assert(!separator(before[before.len() - 1][j]));
                }
            }
        }
    }
}

proof fn lemma_joined_push(parts: Seq<Seq<char>>, part: Seq<char>, separator: Seq<char>)
    requires
        parts.len() > 0,
    ensures
        joined(parts.push(part), separator) == joined(parts, separator) + separator + part,
{
    assert(parts.push(part).drop_last() =~= parts);
}

/// The pieces of a text, joined by what they were parted at, are the text.
pub proof fn joining_the_pieces_gives_the_text(s: Seq<char>, c: char)
    ensures
        joined(pieces_at(s, c), seq![c]) == s,
    decreases s.len(),
{
    let all = pieces_at(s, c);
    pieces_hold_no_separator(s, is_char(c));
    if s.len() == 0 {
        assert(joined(all, seq![c]) =~= s);
    } else {
        let rest = s.drop_last();
        let before = pieces_at(rest, c);
        joining_the_pieces_gives_the_text(rest, c);
        pieces_hold_no_separator(rest, is_char(c));
        if s.last() == c {
            lemma_joined_push(before, Seq::empty(), seq![c]);
            assert(joined(all, seq![c]) =~= s);
        } else {
            let front = before.drop_last();
            assert(all == front.push(before.last().push(s.last())));
            assert(before =~= front.push(before.last()));
            if front.len() > 0 {
                lemma_joined_push(front, before.last(), seq![c]);
                lemma_joined_push(front, before.last().push(s.last()), seq![c]);
                assert(joined(before, seq![c]) == joined(front, seq![c]) + seq![c] + before.last());
                assert(joined(all, seq![c]) =~= rest.push(s.last()));
                assert(rest.push(s.last()) =~= s);
            } else {
                assert(before.len() == 1);
                assert(joined(before, seq![c]) == before[0]);
                assert(all.len() == 1);
                assert(joined(all, seq![c]) == all[0]);
                assert(all[0] =~= rest.push(s.last()));
                assert(rest.push(s.last()) =~= s);
            }
        }
    }
}

proof fn lemma_decimal(n: nat)
    ensures
        decimal(n).len() > 0,
        all_digits(decimal(n)),
        number_of(decimal(n)) == n,
    decreases n,
{
    let s = decimal(n);
    if n < 10 {
        assert(s.drop_last() =~= Seq::<char>::empty());
        assert(number_of(Seq::<char>::empty()) == 0);
        assert(is_digit(digit(n)));
    } else {
        lemma_decimal(n / 10);
        let before = decimal(n / 10);
        assert(s.drop_last() =~= before);
        assert(is_digit(digit(n % 10)));
        assert forall|i: int| 0 <= i < s.len() implies is_digit(#[trigger] s[i]) by {
            if i < before.len() {
                assert(s[i] == before[i]);
            }
        }
    }
}

/// The decimal text of a number is read as that number.
pub proof fn decimals_are_read_back(n: u64)
    ensures
        parsed_u64(decimal(n as nat)) == Some(n),
{
    lemma_decimal(n as nat);
    assert(is_digit(decimal(n as nat)[0]));
}

/// Lowering a text keeps its length, leaves no capital of ASCII, and keeps every other character.
pub proof fn lowering_leaves_no_capitals(s: Seq<char>, i: int)
    requires
        0 <= i < s.len(),
    ensures
        lowered(s).len() == s.len(),
        !('A' <= lowered(s)[i] <= 'Z'),
        !('A' <= s[i] <= 'Z') ==> lowered(s)[i] == s[i],
        'A' <= s[i] <= 'Z' ==> lowered(s)[i] as int == s[i] as int + 32,
{
}

} // verus!
