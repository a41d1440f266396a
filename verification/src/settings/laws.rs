//! What holds of a configuration that was parted.
use vstd::prelude::*;

use super::normalize::{
    config_section, config_text, in_context, is_context_header, is_header, section_lines,
};
use crate::text::{
    is_char, is_white_space, joined, lines_of, pieces, pieces_at, trimmed, trimmed_end,
    trimmed_start, without_cr,
};

verus! {

/// A line that does not begin a context table.
spec fn is_plain(line: Seq<char>) -> bool {
    !(is_header(trimmed(line)) && is_context_header(trimmed(line)))
}

spec fn are_plain(lines: Seq<Seq<char>>) -> bool {
    forall|i: int| 0 <= i < lines.len() ==> is_plain(#[trigger] lines[i])
}

/// A text none of whose lines begins a context table.
spec fn has_plain_lines(s: Seq<char>) -> bool {
    are_plain(pieces_at(s, '\n'))
}

proof fn lemma_start_of_longer(s: Seq<char>, c: char)
    requires
        is_white_space(c),
    ensures
        trimmed_start(s).len() == 0 ==> trimmed_start(s.push(c)).len() == 0,
        trimmed_start(s).len() > 0 ==> trimmed_start(s.push(c)) == trimmed_start(s).push(c),
    decreases s.len(),
{
    if s.len() == 0 {
        assert(s.push(c).skip(1) =~= Seq::<char>::empty());
        assert(trimmed_start(Seq::<char>::empty()).len() == 0);
    } else if is_white_space(s[0]) {
        assert(s.push(c).skip(1) =~= s.skip(1).push(c));
        lemma_start_of_longer(s.skip(1), c);
    }
}

/// White space at the end of a line does not count.
proof fn lemma_space_after(s: Seq<char>, c: char)
    requires
        is_white_space(c),
    ensures
        trimmed(s.push(c)) == trimmed(s),
{
    lemma_start_of_longer(s, c);
    let t = trimmed_start(s);
    if t.len() > 0 {
        assert(t.push(c).drop_last() =~= t);
    } else {
        assert(t =~= Seq::<char>::empty());
        assert(trimmed_start(s.push(c)) =~= Seq::<char>::empty());
    }
}

/// White space before a line does not count.
proof fn lemma_space_before(s: Seq<char>, c: char)
    requires
        is_white_space(c),
    ensures
        trimmed(seq![c] + s) == trimmed(s),
{
    assert((seq![c] + s).skip(1) =~= s);
}

proof fn lemma_some_piece(s: Seq<char>)
    ensures
        pieces_at(s, '\n').len() > 0,
    decreases s.len(),
{
    if s.len() > 0 {
        lemma_some_piece(s.drop_last());
    }
}

/// A character before a text begins its first line, or comes before its lines.
proof fn lemma_pieces_after_char(s: Seq<char>, c: char)
    ensures
        pieces_at(seq![c] + s, '\n') == (if c == '\n' {
            seq![Seq::<char>::empty()] + pieces_at(s, '\n')
        } else {
            pieces_at(s, '\n').update(0, seq![c] + pieces_at(s, '\n')[0])
        }),
    decreases s.len(),
{
    lemma_some_piece(s);
    let sep = is_char('\n');
    let whole = seq![c] + s;
    if s.len() == 0 {
        assert(whole.drop_last() =~= Seq::<char>::empty());
        assert(whole.last() == c);
        let before = pieces(whole.drop_last(), sep);
        assert(before =~= seq![Seq::<char>::empty()]);
        assert(pieces_at(s, '\n') =~= seq![Seq::<char>::empty()]);
        if c == '\n' {
            assert(pieces(whole, sep) =~= seq![Seq::<char>::empty()] + pieces_at(s, '\n'));
        } else {
            assert(pieces(whole, sep) =~= seq![Seq::<char>::empty().push(c)]);
            assert(Seq::<char>::empty().push(c) =~= seq![c] + Seq::<char>::empty());
            assert(pieces(whole, sep) =~= pieces_at(s, '\n').update(
                0,
                seq![c] + pieces_at(s, '\n')[0],
            ));
        }
    } else {
        let short = s.drop_last();
        lemma_pieces_after_char(short, c);
        lemma_some_piece(short);
        assert(whole.drop_last() =~= seq![c] + short);
        assert(whole.last() == s.last());
        let before = pieces_at(short, '\n');
        let now = pieces_at(seq![c] + short, '\n');
        if c == '\n' {
            if s.last() == '\n' {
                assert(pieces_at(whole, '\n') =~= seq![Seq::<char>::empty()] + pieces_at(s, '\n'));
            } else {
                assert(now.drop_last() =~= seq![Seq::<char>::empty()] + before.drop_last());
                assert(pieces_at(whole, '\n') =~= seq![Seq::<char>::empty()] + pieces_at(s, '\n'));
            }
        } else {
            let first = seq![c] + before[0];
            if s.last() == '\n' {
                assert(pieces_at(whole, '\n') =~= pieces_at(s, '\n').update(0, first));
            } else if before.len() == 1 {
                assert((seq![c] + before[0]).push(s.last()) =~= seq![c] + before[0].push(s.last()));
                assert(pieces_at(whole, '\n') =~= pieces_at(s, '\n').update(
                    0,
                    seq![c] + pieces_at(s, '\n')[0],
                ));
            } else {
                assert(pieces_at(whole, '\n') =~= pieces_at(s, '\n').update(0, first));
            }
        }
    }
}

/// White space at the start of a text is no line that counts.
proof fn lemma_plain_after_start(s: Seq<char>)
    requires
        s.len() > 0,
        is_white_space(s[0]),
        has_plain_lines(s),
    ensures
        has_plain_lines(s.skip(1)),
{
    let rest = s.skip(1);
    let c = s[0];
    assert(seq![c] + rest =~= s);
    lemma_pieces_after_char(rest, c);
    lemma_some_piece(rest);
    let all = pieces_at(s, '\n');
    let parts = pieces_at(rest, '\n');
    assert forall|i: int| 0 <= i < parts.len() implies is_plain(#[trigger] parts[i]) by {
        if c == '\n' {
            assert(all[i + 1] == parts[i]);
            assert(is_plain(all[i + 1]));
        } else if i == 0 {
            assert(all[0] == seq![c] + parts[0]);
            assert(is_plain(all[0]));
            lemma_space_before(parts[0], c);
        } else {
            assert(all[i] == parts[i]);
            assert(is_plain(all[i]));
        }
    }
}

proof fn lemma_plain_before_end(s: Seq<char>)
    requires
        s.len() > 0,
        is_white_space(s.last()),
        has_plain_lines(s),
    ensures
        has_plain_lines(s.drop_last()),
{
    lemma_some_piece(s.drop_last());
    let all = pieces_at(s, '\n');
    let parts = pieces_at(s.drop_last(), '\n');
    assert forall|i: int| 0 <= i < parts.len() implies is_plain(#[trigger] parts[i]) by {
        if s.last() != '\n' && i == parts.len() - 1 {
            assert(all[i] == parts[i].push(s.last()));
            assert(is_plain(all[i]));
            lemma_space_after(parts[i], s.last());
        } else {
            assert(all[i] == parts[i]);
            assert(is_plain(all[i]));
        }
    }
}

proof fn lemma_plain_trimmed_start(s: Seq<char>)
    requires
        has_plain_lines(s),
    ensures
        has_plain_lines(trimmed_start(s)),
    decreases s.len(),
{
    if s.len() > 0 && is_white_space(s[0]) {
        lemma_plain_after_start(s);
        lemma_plain_trimmed_start(s.skip(1));
    }
}

proof fn lemma_plain_trimmed_end(s: Seq<char>)
    requires
        has_plain_lines(s),
    ensures
        has_plain_lines(trimmed_end(s)),
    decreases s.len(),
{
    if s.len() > 0 && is_white_space(s.last()) {
        lemma_plain_before_end(s);
        lemma_plain_trimmed_end(s.drop_last());
    }
}

/// The lines of two texts with a line feed between them.
proof fn lemma_pieces_of_two(a: Seq<char>, b: Seq<char>)
    ensures
        pieces_at(a + seq!['\n'] + b, '\n') == pieces_at(a, '\n') + pieces_at(b, '\n'),
    decreases b.len(),
{
    let whole = a + seq!['\n'] + b;
    lemma_some_piece(b);
    if b.len() == 0 {
        assert(whole.drop_last() =~= a);
        assert(whole.last() == '\n');
        assert(pieces_at(b, '\n') =~= seq![Seq::<char>::empty()]);
        assert(pieces_at(whole, '\n') =~= pieces_at(a, '\n') + pieces_at(b, '\n'));
    } else {
        let short = b.drop_last();
        lemma_pieces_of_two(a, short);
        lemma_some_piece(short);
        assert(whole.drop_last() =~= a + seq!['\n'] + short);
        assert(whole.last() == b.last());
        let before = pieces_at(a, '\n') + pieces_at(short, '\n');
        assert(before.last() == pieces_at(short, '\n').last());
        assert(before.drop_last() =~= pieces_at(a, '\n') + pieces_at(short, '\n').drop_last());
        assert(pieces_at(whole, '\n') =~= pieces_at(a, '\n') + pieces_at(b, '\n'));
    }
}

proof fn lemma_plain_joined(lines: Seq<Seq<char>>)
    requires
        forall|i: int| 0 <= i < lines.len() ==> has_plain_lines(#[trigger] lines[i]),
    ensures
        has_plain_lines(joined(lines, "\n"@)),
    decreases lines.len(),
{
    reveal_strlit("\n");
    reveal_strlit("[");
    assert("\n"@ =~= seq!['\n']);
    if lines.len() == 0 {
        let none = Seq::<char>::empty();
        assert(pieces_at(none, '\n') =~= seq![none]);
        assert(is_plain(none));
    } else if lines.len() == 1 {
        assert(has_plain_lines(lines[0]));
    } else {
        let short = lines.drop_last();
        assert forall|i: int| 0 <= i < short.len() implies has_plain_lines(#[trigger] short[i]) by {
            assert(short[i] == lines[i]);
        }
        lemma_plain_joined(short);
        assert(has_plain_lines(lines[lines.len() - 1]));
        lemma_pieces_of_two(joined(short, "\n"@), lines.last());
        let a = pieces_at(joined(short, "\n"@), '\n');
        let b = pieces_at(lines.last(), '\n');
        assert forall|i: int| 0 <= i < (a + b).len() implies is_plain(#[trigger] (a + b)[i]) by {
            if i < a.len() {
                assert(is_plain(a[i]));
            } else {
                assert(is_plain(b[i - a.len()]));
            }
        }
    }
}

spec fn is_one_line(s: Seq<char>) -> bool {
    forall|i: int| 0 <= i < s.len() ==> #[trigger] s[i] != '\n'
}

proof fn lemma_pieces_are_lines(s: Seq<char>)
    ensures
        forall|i: int|
            0 <= i < pieces_at(s, '\n').len() ==> is_one_line(#[trigger] pieces_at(s, '\n')[i]),
    decreases s.len(),
{
    if s.len() > 0 {
        lemma_pieces_are_lines(s.drop_last());
        lemma_some_piece(s.drop_last());
        let before = pieces_at(s.drop_last(), '\n');
        assert(is_one_line(before[before.len() - 1]));
    }
}

proof fn lemma_line_is_its_piece(s: Seq<char>)
    requires
        is_one_line(s),
    ensures
        pieces_at(s, '\n') == seq![s],
    decreases s.len(),
{
    if s.len() == 0 {
        assert(s =~= Seq::<char>::empty());
    } else {
        let short = s.drop_last();
        assert forall|i: int| 0 <= i < short.len() implies #[trigger] short[i] != '\n' by {
            assert(short[i] == s[i]);
        }
        lemma_line_is_its_piece(short);
        assert(s[s.len() - 1] != '\n');
        let before = pieces_at(short, '\n');
        assert(before.last().push(s.last()) =~= s);
        assert(pieces_at(s, '\n') =~= seq![s]);
    }
}

proof fn lemma_without_cr(s: Seq<char>)
    ensures
        trimmed(without_cr(s)) == trimmed(s),
        is_one_line(s) ==> is_one_line(without_cr(s)),
{
    if s.len() > 0 && s.last() == '\r' {
        let short = s.drop_last();
        assert(short.push('\r') =~= s);
        lemma_space_after(short, '\r');
        assert(without_cr(s) =~= short);
    }
}

proof fn lemma_lines_are_lines(s: Seq<char>)
    ensures
        forall|i: int| 0 <= i < lines_of(s).len() ==> is_one_line(#[trigger] lines_of(s)[i]),
{
    lemma_some_piece(s);
    lemma_pieces_are_lines(s);
    let parts = pieces_at(s, '\n');
    let lines = lines_of(s);
    assert forall|i: int| 0 <= i < lines.len() implies is_one_line(#[trigger] lines[i]) by {
        assert(is_one_line(parts[i]));
        lemma_without_cr(parts[i]);
    }
}

/// The lines outside the context tables begin none.
proof fn lemma_common_lines(lines: Seq<Seq<char>>, n: int)
    requires
        0 <= n <= lines.len(),
        forall|i: int| 0 <= i < lines.len() ==> is_one_line(#[trigger] lines[i]),
    ensures
        forall|i: int|
            0 <= i < section_lines(lines, n, false).len() ==> has_plain_lines(
                #[trigger] section_lines(lines, n, false)[i],
            ),
    decreases n,
{
    if n > 0 {
        lemma_common_lines(lines, n - 1);
        let line = lines[n - 1];
        let before = section_lines(lines, n - 1, false);
        lemma_line_is_its_piece(line);
        if !in_context(lines, n) {
            assert(is_plain(line));
            assert(pieces_at(line, '\n')[0] == line);
            assert(has_plain_lines(line));
            let now = section_lines(lines, n, false);
            assert forall|i: int| 0 <= i < now.len() implies has_plain_lines(#[trigger] now[i]) by {
                if i < before.len() {
                    assert(now[i] == before[i]);
                }
            }
        }
    }
}

/// Without a line that begins a context table there is none.
proof fn lemma_no_context(lines: Seq<Seq<char>>, n: int)
    requires
        0 <= n <= lines.len(),
        are_plain(lines),
    ensures
        !in_context(lines, n),
        section_lines(lines, n, true) == Seq::<Seq<char>>::empty(),
    decreases n,
{
    if n > 0 {
        lemma_no_context(lines, n - 1);
        assert(is_plain(lines[n - 1]));
    }
}

proof fn lemma_plain_lines(s: Seq<char>)
    requires
        has_plain_lines(s),
    ensures
        are_plain(lines_of(s)),
{
    lemma_some_piece(s);
    let parts = pieces_at(s, '\n');
    let lines = lines_of(s);
    assert forall|i: int| 0 <= i < lines.len() implies is_plain(#[trigger] lines[i]) by {
        assert(is_plain(parts[i]));
        lemma_without_cr(parts[i]);
    }
}

/// Once the context tables are parted from a configuration, the rest holds none.
pub proof fn rest_holds_no_context_table(config: Seq<char>)
    ensures
        config_section(config_section(config, false), true) == Seq::<char>::empty(),
{
    reveal_strlit("\n");
    reveal_strlit("[");
    assert("\n"@ =~= seq!['\n']);
    let lines = lines_of(config);
    lemma_lines_are_lines(config);
    lemma_common_lines(lines, lines.len() as int);
    let common = section_lines(lines, lines.len() as int, false);
    lemma_plain_joined(common);
    let text = joined(common, "\n"@);
    lemma_plain_trimmed_start(text);
    lemma_plain_trimmed_end(trimmed_start(text));
    let rest = config_section(config, false);
    let none = Seq::<char>::empty();
    assert(pieces_at(none, '\n') =~= seq![none]);
    assert(is_plain(none));
    if trimmed(text).len() > 0 {
        lemma_pieces_of_two(trimmed(text), none);
        assert(rest =~= trimmed(text) + seq!['\n'] + none);
        let a = pieces_at(trimmed(text), '\n');
        let parts = pieces_at(rest, '\n');
        assert forall|i: int| 0 <= i < parts.len() implies is_plain(#[trigger] parts[i]) by {
            if i < a.len() {
                assert(is_plain(a[i]));
                assert(parts[i] == a[i]);
            } else {
                assert(parts[i] == none);
            }
        }
    }
    assert(has_plain_lines(rest));
    lemma_plain_lines(rest);
    lemma_no_context(lines_of(rest), lines_of(rest).len() as int);
    assert(joined(Seq::<Seq<char>>::empty(), "\n"@) =~= none);
    assert(trimmed(none) =~= none);
    assert(config_text(none) =~= none);
}

} // verus!
