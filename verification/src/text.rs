//! Text as a sequence of characters: trimming, splitting, joining, searching,
//! ordering, and the decimal form of numbers.
use vstd::prelude::*;

verus! {

/// The characters with the Unicode property `White_Space`.
pub open spec fn is_white_space(c: char) -> bool {
    ||| '\u{9}' <= c <= '\u{d}'
    ||| c == '\u{20}'
    ||| c == '\u{85}'
    ||| c == '\u{a0}'
    ||| c == '\u{1680}'
    ||| '\u{2000}' <= c <= '\u{200a}'
    ||| c == '\u{2028}'
    ||| c == '\u{2029}'
    ||| c == '\u{202f}'
    ||| c == '\u{205f}'
    ||| c == '\u{3000}'
}

pub fn white_space(c: char) -> (r: bool)
    ensures
        r == is_white_space(c),
{
    ('\u{9}' <= c && c <= '\u{d}') || c == '\u{20}' || c == '\u{85}' || c == '\u{a0}' || c
        == '\u{1680}' || ('\u{2000}' <= c && c <= '\u{200a}') || c == '\u{2028}' || c == '\u{2029}'
        || c == '\u{202f}' || c == '\u{205f}' || c == '\u{3000}'
}

/// The text that may be there.
pub open spec fn option_text(text: Option<String>) -> Option<Seq<char>> {
    match text {
        Some(s) => Some(s@),
        None => None,
    }
}

/// The views of a list of strings.
pub open spec fn texts(list: Seq<String>) -> Seq<Seq<char>> {
    list.map_values(|s: String| s@)
}

/// `s` without its leading white space.
pub open spec fn trimmed_start(s: Seq<char>) -> Seq<char>
    decreases s.len(),
{
    if s.len() > 0 && is_white_space(s[0]) {
        trimmed_start(s.skip(1))
    } else {
        s
    }
}

/// `s` without its trailing white space.
pub open spec fn trimmed_end(s: Seq<char>) -> Seq<char>
    decreases s.len(),
{
    if s.len() > 0 && is_white_space(s.last()) {
        trimmed_end(s.drop_last())
    } else {
        s
    }
}

/// `s` without leading and trailing white space.
pub open spec fn trimmed(s: Seq<char>) -> Seq<char> {
    trimmed_end(trimmed_start(s))
}

/// `s` without the trailing characters that equal `c`.
pub open spec fn trimmed_end_of(s: Seq<char>, c: char) -> Seq<char>
    decreases s.len(),
{
    if s.len() > 0 && s.last() == c {
        trimmed_end_of(s.drop_last(), c)
    } else {
        s
    }
}

/// `s` without the leading characters that equal `c`.
pub open spec fn trimmed_start_of(s: Seq<char>, c: char) -> Seq<char>
    decreases s.len(),
{
    if s.len() > 0 && s[0] == c {
        trimmed_start_of(s.skip(1), c)
    } else {
        s
    }
}

proof fn lemma_trimmed_start(s: Seq<char>)
    ensures
        trimmed_start(s).len() > 0 ==> !is_white_space(trimmed_start(s)[0]),
    decreases s.len(),
{
    if s.len() > 0 && is_white_space(s[0]) {
        lemma_trimmed_start(s.skip(1));
    }
}

proof fn lemma_trimmed_end(s: Seq<char>)
    ensures
        trimmed_end(s).len() > 0 ==> !is_white_space(trimmed_end(s).last()),
        s.len() > 0 && !is_white_space(s[0]) ==> trimmed_end(s).len() > 0 && trimmed_end(s)[0]
            == s[0],
    decreases s.len(),
{
    if s.len() > 0 && is_white_space(s.last()) {
        lemma_trimmed_end(s.drop_last());
    }
}

/// A text with no white space at its ends is all that is left of it.
pub proof fn lemma_trimmed_word(s: Seq<char>)
    requires
        s.len() > 0,
        !is_white_space(s[0]),
        !is_white_space(s.last()),
    ensures
        trimmed(s) == s,
{
}

/// Trimming a text that is trimmed changes nothing.
pub proof fn lemma_trimmed_twice(s: Seq<char>)
    ensures
        trimmed(trimmed(s)) == trimmed(s),
{
    let t = trimmed_start(s);
    lemma_trimmed_start(s);
    lemma_trimmed_end(t);
    let u = trimmed_end(t);
    if t.len() == 0 {
        assert(u.len() == 0);
    }
    assert(trimmed_start(u) == u);
    assert(trimmed_end(u) == u);
}

pub fn chars_of(text: &str) -> (r: Vec<char>)
    ensures
        r@ == text@,
{
    let mut r: Vec<char> = Vec::new();
    for c in it: text.chars()
        invariant
            it.seq() == text@,
            r@ == text@.take(it.index()),
    {
        r.push(c);
        assert(text@.take(it.index() + 1) =~= text@.take(it.index()).push(c));
    }
    assert(text@.take(text@.len() as int) =~= text@);
    r
}

pub fn same_text(a: &str, b: &str) -> (r: bool)
    ensures
        r == (a@ == b@),
{
    a.to_owned() == b.to_owned()
}

pub fn trim_start(text: &str) -> (r: &str)
    ensures
        r@ == trimmed_start(text@),
{
    let chars = chars_of(text);
    let mut start: usize = 0;
    assert(chars@.skip(0) =~= chars@);
    while start < chars.len() && white_space(chars[start])
        invariant
            start <= chars.len(),
            trimmed_start(chars@.skip(start as int)) == trimmed_start(chars@),
        decreases chars.len() - start,
    {
        assert(chars@.skip(start as int).skip(1) =~= chars@.skip(start + 1));
        start = start + 1;
    }
    assert(chars@.skip(start as int) =~= chars@.subrange(start as int, chars@.len() as int));
    text.substring_char(start, chars.len())
}

pub fn trim_end(text: &str) -> (r: &str)
    ensures
        r@ == trimmed_end(text@),
{
    let chars = chars_of(text);
    let mut end: usize = chars.len();
    assert(chars@.take(end as int) =~= chars@);
    while end > 0 && white_space(chars[end - 1])
        invariant
            end <= chars.len(),
            trimmed_end(chars@.take(end as int)) == trimmed_end(chars@),
        decreases end,
    {
        assert(chars@.take(end as int).drop_last() =~= chars@.take(end - 1));
        end = end - 1;
    }
    assert(chars@.take(end as int) =~= chars@.subrange(0, end as int));
    text.substring_char(0, end)
}

/// The text without leading and trailing white space.
pub fn trim(text: &str) -> (r: &str)
    ensures
        r@ == trimmed(text@),
{
    trim_end(trim_start(text))
}

pub fn trim_end_of(text: &str, c: char) -> (r: &str)
    ensures
        r@ == trimmed_end_of(text@, c),
{
    let chars = chars_of(text);
    let mut end: usize = chars.len();
    assert(chars@.take(end as int) =~= chars@);
    while end > 0 && chars[end - 1] == c
        invariant
            end <= chars.len(),
            trimmed_end_of(chars@.take(end as int), c) == trimmed_end_of(chars@, c),
        decreases end,
    {
        assert(chars@.take(end as int).drop_last() =~= chars@.take(end - 1));
        end = end - 1;
    }
    assert(chars@.take(end as int) =~= chars@.subrange(0, end as int));
    text.substring_char(0, end)
}

pub fn trim_start_of(text: &str, c: char) -> (r: &str)
    ensures
        r@ == trimmed_start_of(text@, c),
{
    let chars = chars_of(text);
    let mut start: usize = 0;
    assert(chars@.skip(0) =~= chars@);
    while start < chars.len() && chars[start] == c
        invariant
            start <= chars.len(),
            trimmed_start_of(chars@.skip(start as int), c) == trimmed_start_of(chars@, c),
        decreases chars.len() - start,
    {
        assert(chars@.skip(start as int).skip(1) =~= chars@.skip(start + 1));
        start = start + 1;
    }
    assert(chars@.skip(start as int) =~= chars@.subrange(start as int, chars@.len() as int));
    text.substring_char(start, chars.len())
}

pub open spec fn has_prefix(s: Seq<char>, prefix: Seq<char>) -> bool {
    s.len() >= prefix.len() && s.take(prefix.len() as int) == prefix
}

pub open spec fn has_suffix(s: Seq<char>, suffix: Seq<char>) -> bool {
    s.len() >= suffix.len() && s.skip(s.len() - suffix.len()) == suffix
}

/// `part` occurs in `s`.
pub open spec fn has_part(s: Seq<char>, part: Seq<char>) -> bool {
    exists|i: int| 0 <= i <= s.len() - part.len() && #[trigger] s.subrange(i, i + part.len()) == part
}

pub fn starts_with(text: &str, prefix: &str) -> (r: bool)
    ensures
        r == has_prefix(text@, prefix@),
{
    let n = prefix.unicode_len();
    if text.unicode_len() < n {
        return false;
    }
    assert(text@.take(n as int) =~= text@.subrange(0, n as int));
    same_text(text.substring_char(0, n), prefix)
}

pub fn ends_with(text: &str, suffix: &str) -> (r: bool)
    ensures
        r == has_suffix(text@, suffix@),
{
    let n = suffix.unicode_len();
    let len = text.unicode_len();
    if len < n {
        return false;
    }
    assert(text@.skip(len - n) =~= text@.subrange(len - n, len as int));
    same_text(text.substring_char(len - n, len), suffix)
}

/// The rest of the text behind `prefix`, if the text starts with it.
pub fn strip_prefix<'a>(text: &'a str, prefix: &str) -> (r: Option<&'a str>)
    ensures
        r is Some == has_prefix(text@, prefix@),
        r matches Some(rest) ==> rest@ == text@.skip(prefix@.len() as int),
{
    if starts_with(text, prefix) {
        let n = prefix.unicode_len();
        let len = text.unicode_len();
        assert(text@.skip(n as int) =~= text@.subrange(n as int, len as int));
        Some(text.substring_char(n, len))
    } else {
        None
    }
}

/// The text before `suffix`, if the text ends with it.
pub fn strip_suffix<'a>(text: &'a str, suffix: &str) -> (r: Option<&'a str>)
    ensures
        r is Some == has_suffix(text@, suffix@),
        r matches Some(rest) ==> rest@ == text@.take(text@.len() - suffix@.len()),
{
    if ends_with(text, suffix) {
        let n = suffix.unicode_len();
        let len = text.unicode_len();
        assert(text@.take(len - n) =~= text@.subrange(0, len - n));
        Some(text.substring_char(0, len - n))
    } else {
        None
    }
}

pub fn contains(text: &str, part: &str) -> (r: bool)
    ensures
        r == has_part(text@, part@),
{
    let n = part.unicode_len();
    let len = text.unicode_len();
    if len < n {
        return false;
    }
    let mut i: usize = 0;
    while i <= len - n
        invariant
            n == part@.len(),
            len == text@.len(),
            n <= len,
            i <= len - n + 1,
            forall|k: int| 0 <= k < i ==> #[trigger] text@.subrange(k, k + n) != part@,
        decreases len - n + 1 - i,
    {
        if same_text(text.substring_char(i, i + n), part) {
            return true;
        }
        if i == len - n {
            return false;
        }
        i = i + 1;
    }
    false
}

/// The pieces of `s` between the characters for which `separator` holds.
pub open spec fn pieces(s: Seq<char>, separator: spec_fn(char) -> bool) -> Seq<Seq<char>>
    decreases s.len(),
{
    if s.len() == 0 {
        seq![Seq::<char>::empty()]
    } else {
        let before = pieces(s.drop_last(), separator);
        if separator(s.last()) {
            before.push(Seq::<char>::empty())
        } else {
            before.drop_last().push(before.last().push(s.last()))
        }
    }
}

pub open spec fn is_char(c: char) -> spec_fn(char) -> bool {
    |x: char| x == c
}

pub open spec fn is_any(set: Seq<char>) -> spec_fn(char) -> bool {
    |x: char| set.contains(x)
}

/// The pieces of `s` between the occurrences of `c`.
pub open spec fn pieces_at(s: Seq<char>, c: char) -> Seq<Seq<char>> {
    pieces(s, is_char(c))
}

proof fn lemma_texts_push(list: Seq<String>, s: String)
    ensures
        texts(list.push(s)) == texts(list).push(s@),
{
    assert(texts(list.push(s)) =~= texts(list).push(s@));
}

/// The pieces of the text between the characters that occur in `separators`.
pub fn split_any(text: &str, separators: &[char]) -> (r: Vec<String>)
    ensures
        texts(r@) == pieces(text@, is_any(separators@)),
        r@.len() > 0,
{
    let ghost sep = is_any(separators@);
    let chars = chars_of(text);
    let mut r: Vec<String> = Vec::new();
    let mut start: usize = 0;
    let mut i: usize = 0;
    assert(text@.take(0) =~= Seq::<char>::empty());
    assert(pieces(text@.take(0), sep) =~= texts(r@).push(text@.subrange(0, 0)));
    while i < chars.len()
        invariant
            chars@ == text@,
            sep == is_any(separators@),
            start <= i <= chars.len(),
            pieces(text@.take(i as int), sep) == texts(r@).push(
                text@.subrange(start as int, i as int),
            ),
        decreases chars.len() - i,
    {
        let c = chars[i];
        let mut found = false;
        let mut k: usize = 0;
        while k < separators.len()
            invariant
                k <= separators@.len(),
                found == (exists|j: int| 0 <= j < k && separators@[j] == c),
            decreases separators.len() - k,
        {
            if separators[k] == c {
                found = true;
            }
            k = k + 1;
        }
        assert(found == separators@.contains(c));
        assert(text@.take(i + 1).drop_last() =~= text@.take(i as int));
        let ghost before = texts(r@);
        if found {
            let piece = text.substring_char(start, i).to_owned();
            proof {
                lemma_texts_push(r@, piece);
            }
            r.push(piece);
            start = i + 1;
            assert(text@.subrange(start as int, i + 1) =~= Seq::<char>::empty());
        } else {
            assert(text@.subrange(start as int, i + 1) =~= text@.subrange(
                start as int,
                i as int,
            ).push(c));
            assert(before.push(text@.subrange(start as int, i as int)).drop_last() =~= before);
        }
        i = i + 1;
    }
    assert(text@.take(i as int) =~= text@);
    let piece = text.substring_char(start, i).to_owned();
    proof {
        lemma_texts_push(r@, piece);
    }
    r.push(piece);
    r
}

/// The pieces of the text between the occurrences of `c`.
pub fn split_at_char(text: &str, c: char) -> (r: Vec<String>)
    ensures
        texts(r@) == pieces_at(text@, c),
        r@.len() > 0,
{
    let mut one: Vec<char> = Vec::new();
    one.push(c);
    let r = split_any(text, one.as_slice());
    proof {
        assert forall|x: char| #[trigger] is_any(one@)(x) == is_char(c)(x) by {
            if x == c {
                assert(one@[0] == x);
            }
        }
        lemma_pieces_same(text@, is_any(one@), is_char(c));
    }
    r
}

proof fn lemma_pieces_same(
    s: Seq<char>,
    p: spec_fn(char) -> bool,
    q: spec_fn(char) -> bool,
)
    requires
        forall|c: char| #[trigger] p(c) == q(c),
    ensures
        pieces(s, p) == pieces(s, q),
    decreases s.len(),
{
    if s.len() > 0 {
        lemma_pieces_same(s.drop_last(), p, q);
    }
}

/// The texts in order, with `separator` between neighbours.
pub open spec fn joined(parts: Seq<Seq<char>>, separator: Seq<char>) -> Seq<char>
    decreases parts.len(),
{
    if parts.len() == 0 {
        Seq::<char>::empty()
    } else if parts.len() == 1 {
        parts[0]
    } else {
        joined(parts.drop_last(), separator) + separator + parts.last()
    }
}

pub fn join(parts: &Vec<String>, separator: &str) -> (r: String)
    ensures
        r@ == joined(texts(parts@), separator@),
{
    let mut r = String::new();
    let ghost all = texts(parts@);
    for i in 0..parts.len()
        invariant
            all == texts(parts@),
            r@ == joined(all.take(i as int), separator@),
    {
        assert(all.take(i + 1).drop_last() =~= all.take(i as int));
        if i > 0 {
            r.append(separator);
        } else {
            assert(r@ + parts@[0]@ =~= parts@[0]@);
        }
        r.append(parts[i].as_str());
    }
    assert(all.take(parts@.len() as int) =~= all);
    r
}

/// A line without the carriage return that may end it.
pub open spec fn without_cr(line: Seq<char>) -> Seq<char> {
    if line.len() > 0 && line.last() == '\r' {
        line.drop_last()
    } else {
        line
    }
}

/// The lines of `s`: each ends with a line feed, or with a carriage return and
/// a line feed; the last one may lack that ending.
pub open spec fn lines_of(s: Seq<char>) -> Seq<Seq<char>> {
    let parts = pieces_at(s, '\n');
    let ended = Seq::new((parts.len() - 1) as nat, |i: int| without_cr(parts[i]));
    if parts.last().len() == 0 {
        ended
    } else {
        ended.push(parts.last())
    }
}

pub fn drop_cr(line: &str) -> (r: &str)
    ensures
        r@ == without_cr(line@),
{
    let n = line.unicode_len();
    if n > 0 && line.get_char(n - 1) == '\r' {
        assert(line@.subrange(0, n - 1) =~= line@.drop_last());
        line.substring_char(0, n - 1)
    } else {
        line
    }
}

pub fn lines(text: &str) -> (r: Vec<String>)
    ensures
        texts(r@) == lines_of(text@),
{
    let parts = split_at_char(text, '\n');
    let ghost views = pieces_at(text@, '\n');
    let mut r: Vec<String> = Vec::new();
    let last = parts.len() - 1;
    for i in 0..last
        invariant
            last == parts@.len() - 1,
            texts(parts@) == views,
            texts(r@) == Seq::new(i as nat, |k: int| without_cr(views[k])),
    {
        assert(views[i as int] == parts@[i as int]@);
        let line = drop_cr(parts[i].as_str()).to_owned();
        proof {
            lemma_texts_push(r@, line);
        }
        r.push(line);
        assert(texts(r@) =~= Seq::new((i + 1) as nat, |k: int| without_cr(views[k])));
    }
    assert(views.last() == parts@.last()@);
    if !parts[last].as_str().is_empty() {
        proof {
            lemma_texts_push(r@, parts@[last as int]);
        }
        r.push(parts[last].clone());
    }
    r
}

/// The lines of `s` with their line feeds; the last one may lack it.
pub open spec fn full_lines_of(s: Seq<char>) -> Seq<Seq<char>> {
    let parts = pieces_at(s, '\n');
    let ended = Seq::new((parts.len() - 1) as nat, |i: int| parts[i].push('\n'));
    if parts.last().len() == 0 {
        ended
    } else {
        ended.push(parts.last())
    }
}

pub fn full_lines(text: &str) -> (r: Vec<String>)
    ensures
        texts(r@) == full_lines_of(text@),
{
    let parts = split_at_char(text, '\n');
    let ghost views = pieces_at(text@, '\n');
    let mut r: Vec<String> = Vec::new();
    let last = parts.len() - 1;
    for i in 0..last
        invariant
            last == parts@.len() - 1,
            texts(parts@) == views,
            texts(r@) == Seq::new(i as nat, |k: int| views[k].push('\n')),
    {
        assert(views[i as int] == parts@[i as int]@);
        let mut line = parts[i].clone();
        line.append("\n");
        proof {
            reveal_strlit("\n");
            assert(line@ =~= views[i as int].push('\n'));
            lemma_texts_push(r@, line);
        }
        r.push(line);
        assert(texts(r@) =~= Seq::new((i + 1) as nat, |k: int| views[k].push('\n')));
    }
    assert(views.last() == parts@.last()@);
    if !parts[last].as_str().is_empty() {
        proof {
            lemma_texts_push(r@, parts@[last as int]);
        }
        r.push(parts[last].clone());
    }
    r
}

pub open spec fn digit(d: nat) -> char {
    (('0' as nat) + d) as char
}

/// The decimal digits of `n`, without leading zeros.
pub open spec fn decimal(n: nat) -> Seq<char>
    decreases n,
{
    if n < 10 {
        seq![digit(n)]
    } else {
        decimal(n / 10).push(digit(n % 10))
    }
}

fn digit_text(d: u64) -> (r: &'static str)
    requires
        d < 10,
    ensures
        r@ == seq![digit(d as nat)],
{
    proof {
        reveal_strlit("0");
        reveal_strlit("1");
        reveal_strlit("2");
        reveal_strlit("3");
        reveal_strlit("4");
        reveal_strlit("5");
        reveal_strlit("6");
        reveal_strlit("7");
        reveal_strlit("8");
        reveal_strlit("9");
    }
    let r = match d {
        0 => "0",
        1 => "1",
        2 => "2",
        3 => "3",
        4 => "4",
        5 => "5",
        6 => "6",
        7 => "7",
        8 => "8",
        _ => "9",
    };
    assert(r@ =~= seq![digit(d as nat)]);
    r
}

pub fn decimal_text(n: u64) -> (r: String)
    ensures
        r@ == decimal(n as nat),
    decreases n,
{
    if n < 10 {
        digit_text(n).to_owned()
    } else {
        let mut r = decimal_text(n / 10);
        r.append(digit_text(n % 10));
        assert(r@ =~= decimal(n as nat));
        r
    }
}

pub open spec fn is_digit(c: char) -> bool {
    '0' <= c <= '9'
}

/// The number that a sequence of digits denotes.
pub open spec fn number_of(s: Seq<char>) -> nat
    decreases s.len(),
{
    if s.len() == 0 {
        0
    } else {
        number_of(s.drop_last()) * 10 + ((s.last() as int - '0' as int) as nat)
    }
}

pub open spec fn all_digits(s: Seq<char>) -> bool {
    forall|i: int| 0 <= i < s.len() ==> is_digit(#[trigger] s[i])
}

/// The number that a text denotes: at least one digit, behind an optional plus
/// sign, and not above the largest `u64`.
pub open spec fn parsed_u64(s: Seq<char>) -> Option<u64> {
    let digits = if s.len() > 0 && s[0] == '+' {
        s.skip(1)
    } else {
        s
    };
    if digits.len() > 0 && all_digits(digits) && number_of(digits) <= u64::MAX {
        Some(number_of(digits) as u64)
    } else {
        None
    }
}

pub fn parse_u64(text: &str) -> (r: Option<u64>)
    ensures
        r == parsed_u64(text@),
{
    let chars = chars_of(text);
    let start: usize = if chars.len() > 0 && chars[0] == '+' {
        1
    } else {
        0
    };
    let ghost digits = chars@.skip(start as int);
    assert(start == 0 ==> digits =~= chars@);
    if chars.len() == start {
        return None;
    }
    let mut value: u64 = 0;
    let mut fits = true;
    let mut i: usize = start;
    assert(digits.take(0) =~= Seq::<char>::empty());
    while i < chars.len()
        invariant
            chars@ == text@,
            start <= i <= chars.len(),
            start < chars.len(),
            digits == chars@.skip(start as int),
            start == (if text@.len() > 0 && text@[0] == '+' {
                1int
            } else {
                0int
            }),
            start == 0 ==> digits == text@,
            forall|k: int| 0 <= k < i - start ==> is_digit(#[trigger] digits[k]),
            fits ==> value == number_of(digits.take(i - start)),
            !fits ==> number_of(digits.take(i - start)) > u64::MAX,
        decreases chars.len() - i,
    {
        let c = chars[i];
        assert(digits[i - start] == c);
        if c < '0' || c > '9' {
            assert(!is_digit(digits[i - start]));
            return None;
        }
        let d: u64 = (c as u32 - '0' as u32) as u64;
        assert(digits.take(i - start + 1).drop_last() =~= digits.take(i - start));
        if fits {
            if value <= u64::MAX / 10 && value * 10 <= u64::MAX - d {
                value = value * 10 + d;
            } else {
                fits = false;
            }
        }
        i = i + 1;
    }
    assert(digits.take(digits.len() as int) =~= digits);
    if fits {
        Some(value)
    } else {
        None
    }
}

/// The order of texts by their characters, as in a dictionary.
pub open spec fn text_before(a: Seq<char>, b: Seq<char>) -> bool
    decreases a.len(),
{
    if b.len() == 0 {
        false
    } else if a.len() == 0 {
        true
    } else if a[0] == b[0] {
        text_before(a.skip(1), b.skip(1))
    } else {
        a[0] < b[0]
    }
}

pub fn comes_before(a: &str, b: &str) -> (r: bool)
    ensures
        r == text_before(a@, b@),
{
    let x = chars_of(a);
    let y = chars_of(b);
    let mut i: usize = 0;
    assert(x@.skip(0) =~= x@);
    assert(y@.skip(0) =~= y@);
    while i < x.len() && i < y.len()
        invariant
            x@ == a@,
            y@ == b@,
            i <= x.len(),
            i <= y.len(),
            text_before(x@.skip(i as int), y@.skip(i as int)) == text_before(a@, b@),
        decreases x.len() - i,
    {
        if x[i] != y[i] {
            return x[i] < y[i];
        }
        assert(x@.skip(i as int).skip(1) =~= x@.skip(i + 1));
        assert(y@.skip(i as int).skip(1) =~= y@.skip(i + 1));
        i = i + 1;
    }
    i < y.len()
}

/// `text_before` is a strict total order.
pub proof fn lemma_text_before_is_order(a: Seq<char>, b: Seq<char>, c: Seq<char>)
    ensures
        !text_before(a, a),
        text_before(a, b) ==> !text_before(b, a),
        text_before(a, b) || text_before(b, a) || a == b,
        text_before(a, b) && text_before(b, c) ==> text_before(a, c),
    decreases a.len() + b.len() + c.len(),
{
    if a.len() > 0 || b.len() > 0 {
        if a.len() > 0 && b.len() > 0 {
            let cc = if c.len() > 0 {
                c.skip(1)
            } else {
                c
            };
            lemma_text_before_is_order(a.skip(1), b.skip(1), cc);
            if a[0] == b[0] && a.skip(1) == b.skip(1) {
                assert forall|i: int| 0 <= i < a.len() implies a[i] == b[i] by {
                    if i > 0 {
                        assert(a[i] == a.skip(1)[i - 1]);
                        assert(b[i] == b.skip(1)[i - 1]);
                    }
                }
                assert(a.len() == a.skip(1).len() + 1);
                assert(a =~= b);
            }
        } else if a.len() > 0 {
            lemma_text_before_is_order(a.skip(1), b, c);
        }
    } else {
        assert(a =~= b);
    }
}

pub open spec fn is_least(k: Seq<char>, set: Set<Seq<char>>) -> bool {
    set.contains(k) && forall|o: Seq<char>| #[trigger] set.contains(o) ==> o == k || text_before(k, o)
}

/// The first text of a set, in their order.
pub open spec fn least_text(set: Set<Seq<char>>) -> Seq<char> {
    choose|k: Seq<char>| is_least(k, set)
}

pub proof fn lemma_least_text(k: Seq<char>, set: Set<Seq<char>>)
    requires
        is_least(k, set),
    ensures
        least_text(set) == k,
{
    let l = least_text(set);
    assert(is_least(l, set));
    assert(set.contains(l) && set.contains(k));
    lemma_text_before_is_order(k, l, k);
}

/// The first text of a list, in their order.
pub fn least_of(list: &Vec<String>) -> (r: Option<String>)
    ensures
        match r {
            Some(text) => is_least(text@, texts(list@).to_set()),
            None => list@.len() == 0,
        },
{
    if list.len() == 0 {
        return None;
    }
    let mut best: usize = 0;
    let ghost all = texts(list@);
    for i in 1..list.len()
        invariant
            all == texts(list@),
            best < list@.len(),
            forall|j: int|
                0 <= j < i ==> (#[trigger] all[j]) == all[best as int] || text_before(
                    all[best as int],
                    all[j],
                ),
    {
        assert(all[i as int] == list@[i as int]@ && all[best as int] == list@[best as int]@);
        let before = comes_before(list[i].as_str(), list[best].as_str());
        proof {
            lemma_text_before_is_order(all[i as int], all[best as int], all[i as int]);
            if before {
                assert forall|j: int| 0 <= j < i implies (#[trigger] all[j]) == all[i as int]
                    || text_before(all[i as int], all[j]) by {
                    lemma_text_before_is_order(all[i as int], all[best as int], all[j]);
                }
            }
        }
        if before {
            best = i;
        }
    }
    proof {
        let set = all.to_set();
        assert(all.contains(all[best as int]));
        assert forall|o: Seq<char>| #[trigger] set.contains(o) implies o == all[best as int]
            || text_before(all[best as int], o) by {
            let j = choose|j: int| 0 <= j < all.len() && all[j] == o;
            assert(all[j] == o);
        }
        assert(all[best as int] == list@[best as int]@);
    }
    Some(list[best].clone())
}

/// Texts in strict order.
pub open spec fn increasing(list: Seq<Seq<char>>) -> bool {
    forall|i: int, j: int| 0 <= i < j < list.len() ==> text_before(#[trigger] list[i], #[trigger] list[j])
}

/// Sorts texts that are all different.
pub fn sort_texts(list: Vec<String>) -> (r: Vec<String>)
    requires
        texts(list@).no_duplicates(),
    ensures
        increasing(texts(r@)),
        r@.len() == list@.len(),
        forall|t: Seq<char>| #[trigger] texts(r@).contains(t) == texts(list@).contains(t),
{
    let mut r: Vec<String> = Vec::new();
    for n in 0..list.len()
        invariant
            texts(list@).no_duplicates(),
            increasing(texts(r@)),
            r@.len() == n,
            forall|t: Seq<char>| #[trigger] texts(r@).contains(t) == texts(list@).take(n as int).contains(t),
    {
        let text = list[n].as_str();
        let ghost before = texts(r@);
        let ghost done = texts(list@).take(n as int);
        let mut p: usize = 0;
        while p < r.len() && comes_before(r[p].as_str(), text)
            invariant
                before == texts(r@),
                p <= r@.len(),
                forall|j: int| 0 <= j < p ==> text_before(#[trigger] before[j], text@),
            ensures
                p < r@.len() ==> !text_before(before[p as int], text@),
                p <= r@.len(),
                forall|j: int| 0 <= j < p ==> text_before(#[trigger] before[j], text@),
            decreases r@.len() - p,
        {
            assert(before[p as int] == r@[p as int]@);
            p = p + 1;
        }
        r.insert(p, list[n].clone());
        proof {
            let after = texts(r@);
            assert(after =~= before.insert(p as int, text@));
            assert(!before.contains(text@)) by {
                if before.contains(text@) {
                    assert(done.contains(text@));
                    let j = choose|j: int| 0 <= j < done.len() && done[j] == text@;
                    assert(texts(list@)[j] == texts(list@)[n as int]);
                }
            }
            assert forall|j: int| p <= j < before.len() implies text_before(text@, #[trigger] before[j]) by {
                lemma_text_before_is_order(before[p as int], text@, before[p as int]);
                assert(before.contains(before[p as int]));
                if j > p {
                    assert(text_before(before[p as int], before[j]));
                    lemma_text_before_is_order(text@, before[p as int], before[j]);
                }
            }
            assert forall|i: int, j: int| 0 <= i < j < after.len() implies text_before(
                #[trigger] after[i],
                #[trigger] after[j],
            ) by {
                let bi = if i < p { i } else { i - 1 };
                let bj = if j < p { j } else { j - 1 };
                if i != p && j != p {
                    assert(after[i] == before[bi] && after[j] == before[bj]);
                } else if i == p {
                    assert(after[j] == before[j - 1]);
                } else {
                    assert(after[i] == before[i]);
                }
            }
            assert forall|t: Seq<char>| #[trigger] after.contains(t) == texts(list@).take(
                n + 1,
            ).contains(t) by {
                let next = texts(list@).take(n + 1);
                assert(next =~= done.push(text@));
                if after.contains(t) {
                    let j = choose|j: int| 0 <= j < after.len() && after[j] == t;
                    if j == p {
                        assert(next[n as int] == t);
                    } else {
                        let b = if j < p { j } else { j - 1 };
                        assert(before[b] == t);
                        assert(before.contains(t));
                        assert(done.contains(t));
                        let d = choose|d: int| 0 <= d < done.len() && done[d] == t;
                        assert(next[d] == t);
                    }
                }
                if next.contains(t) {
                    let d = choose|d: int| 0 <= d < next.len() && next[d] == t;
                    if d == n {
                        assert(after[p as int] == t);
                    } else {
                        assert(done[d] == t);
                        assert(done.contains(t));
                        assert(before.contains(t));
                        let b = choose|b: int| 0 <= b < before.len() && before[b] == t;
                        let j = if b < p { b } else { b + 1 };
                        assert(after[j] == t);
                    }
                }
            }
        }
    }
    assert(texts(list@).take(list@.len() as int) =~= texts(list@));
    r
}

pub fn concat(a: &str, b: &str) -> (r: String)
    ensures
        r@ == a@ + b@,
{
    let mut r = a.to_owned();
    r.append(b);
    r
}

pub fn concat3(a: &str, b: &str, c: &str) -> (r: String)
    ensures
        r@ == a@ + b@ + c@,
{
    let mut r = concat(a, b);
    r.append(c);
    r
}

pub fn concat5(a: &str, b: &str, c: &str, d: &str, e: &str) -> (r: String)
    ensures
        r@ == a@ + b@ + c@ + d@ + e@,
{
    let mut r = concat3(a, b, c);
    r.append(d);
    r.append(e);
    r
}

pub open spec fn lower_char(c: char) -> char {
    if 'A' <= c <= 'Z' {
        (c as int + 32) as char
    } else {
        c
    }
}

/// `s` with its ASCII capitals in lower case.
pub open spec fn lowered(s: Seq<char>) -> Seq<char> {
    s.map_values(|c: char| lower_char(c))
}

pub fn lower_chars(text: &str) -> (r: Vec<char>)
    ensures
        r@ == lowered(text@),
{
    let chars = chars_of(text);
    let mut r: Vec<char> = Vec::new();
    for i in 0..chars.len()
        invariant
            r@ == lowered(chars@.take(i as int)),
    {
        let c = chars[i];
        let low = if 'A' <= c && c <= 'Z' {
            (c as u8 + 32) as char
        } else {
            c
        };
        r.push(low);
        assert(lowered(chars@.take(i + 1)) =~= lowered(chars@.take(i as int)).push(low));
    }
    assert(chars@.take(chars@.len() as int) =~= chars@);
    r
}

/// Whether the characters hold `part`.
pub fn chars_contain(chars: &Vec<char>, part: &str) -> (r: bool)
    ensures
        r == has_part(chars@, part@),
{
    let p = chars_of(part);
    if chars.len() < p.len() {
        return false;
    }
    let last = chars.len() - p.len();
    let mut i: usize = 0;
    while i <= last
        invariant
            p@ == part@,
            last == chars@.len() - p@.len(),
            i <= last + 1,
            forall|k: int| 0 <= k < i ==> #[trigger] chars@.subrange(k, k + p@.len()) != part@,
        decreases last + 1 - i,
    {
        if chars_match_at(chars, i, &p) {
            return true;
        }
        if i == last {
            return false;
        }
        i = i + 1;
    }
    false
}

fn chars_match_at(chars: &Vec<char>, at: usize, part: &Vec<char>) -> (r: bool)
    requires
        at + part@.len() <= chars@.len(),
    ensures
        r == (chars@.subrange(at as int, at + part@.len()) == part@),
{
    let ghost here = chars@.subrange(at as int, at + part@.len());
    for k in 0..part.len()
        invariant
            at + part@.len() <= chars@.len(),
            here == chars@.subrange(at as int, at + part@.len()),
            forall|j: int| 0 <= j < k ==> here[j] == part@[j],
    {
        assert(at + k < chars.len());
        if chars[at + k] != part[k] {
            assert(here[k as int] != part@[k as int]);
            return false;
        }
    }
    assert(here =~= part@);
    true
}

/// Whether the characters end with `part`.
pub fn chars_end_with(chars: &Vec<char>, part: &str) -> (r: bool)
    ensures
        r == has_suffix(chars@, part@),
{
    let p = chars_of(part);
    if chars.len() < p.len() {
        return false;
    }
    let at = chars.len() - p.len();
    assert(chars@.skip(at as int) =~= chars@.subrange(at as int, at + p@.len()));
    chars_match_at(chars, at, &p)
}

} // verus!
