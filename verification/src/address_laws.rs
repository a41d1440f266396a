//! Which paths are served, and which addresses are called.
use vstd::prelude::*;

use crate::protocol_proxy::{
    compact_address, endpoint_url, leads_to, models_address, plain_base, without_query,
};
use crate::text::{has_part, has_prefix, has_suffix, is_char, pieces, pieces_at, trimmed, trimmed_end_of};
use crate::text_laws::{cutting_takes_one_character_only, pieces_hold_no_separator};

verus! {

/// A text that does not hold a character.
pub open spec fn lacks(s: Seq<char>, c: char) -> bool {
    forall|i: int| 0 <= i < s.len() ==> #[trigger] s[i] != c
}

pub(crate) proof fn lemma_one_piece(s: Seq<char>, c: char)
    requires
        lacks(s, c),
    ensures
        pieces_at(s, c) == seq![s],
    decreases s.len(),
{
    if s.len() == 0 {
        assert(s =~= Seq::<char>::empty());
    } else {
        let rest = s.drop_last();
        assert forall|i: int| 0 <= i < rest.len() implies #[trigger] rest[i] != c by {
            assert(rest[i] == s[i]);
        }
        lemma_one_piece(rest, c);
        assert(s[s.len() - 1] != c);
        assert(rest.push(s.last()) =~= s);
        assert(pieces_at(s, c) =~= seq![s]);
    }
}

/// The pieces of two texts around a separator are those of both.
pub(crate) proof fn lemma_pieces_around(a: Seq<char>, c: char, b: Seq<char>)
    ensures
        pieces_at(a + seq![c] + b, c) == pieces_at(a, c) + pieces_at(b, c),
    decreases b.len(),
{
    let all = a + seq![c] + b;
    pieces_hold_no_separator(b, is_char(c));
    if b.len() == 0 {
        assert(all.drop_last() =~= a);
        assert(all.last() == c);
        assert(b =~= Seq::<char>::empty());
        assert(pieces_at(all, c) =~= pieces_at(a, c) + pieces_at(b, c));
    } else {
        let rest = b.drop_last();
        lemma_pieces_around(a, c, rest);
        pieces_hold_no_separator(rest, is_char(c));
        assert(all.drop_last() =~= a + seq![c] + rest);
        assert(all.last() == b.last());
        assert(pieces_at(all, c) =~= pieces_at(a, c) + pieces_at(b, c));
    }
}

/// A path ends where its query begins.
pub proof fn queries_do_not_count(path: Seq<char>, query: Seq<char>)
    requires
        lacks(path, '?'),
    ensures
        without_query(path) == path,
        without_query(path + "?"@ + query) == path,
{
    reveal_strlit("?");
    assert("?"@ =~= seq!['?']);
    lemma_one_piece(path, '?');
    lemma_pieces_around(path, '?', query);
    pieces_hold_no_separator(query, is_char('?'));
}

/// An endpoint is served under its own path, and behind each of three prefixes, with any query; and
/// under no other path.
pub proof fn endpoints_are_served_behind_prefixes(
    path: Seq<char>,
    endpoint: Seq<char>,
    query: Seq<char>,
)
    requires
        lacks(path, '?'),
    ensures
        ({
            let served = path == endpoint || path == "/v1"@ + endpoint || path == "/v1/v1"@
                + endpoint || path == "/codex/v1"@ + endpoint;
            &&& leads_to(path, endpoint) == served
            &&& leads_to(path + "?"@ + query, endpoint) == served
        }),
{
    queries_do_not_count(path, query);
}

/// The base of an address is the address without white space around it, without the number signs at
/// its end, and without the slashes before those.
pub proof fn bases_lose_their_ends_only(address: Seq<char>)
    ensures
        plain_base(address).len() > 0 ==> plain_base(address).last() != '/',
        plain_base(address).len() <= trimmed(address).len(),
        plain_base(address) == trimmed(address).take(plain_base(address).len() as int),
        forall|i: int|
            plain_base(address).len() <= i < trimmed(address).len() ==> #[trigger] trimmed(
                address,
            )[i] == '/' || trimmed(address)[i] == '#',
{
    let all = trimmed(address);
    let marked = trimmed_end_of(all, '#');
    cutting_takes_one_character_only(all, '#');
    cutting_takes_one_character_only(marked, '/');
    let base = plain_base(address);
    assert(base =~= all.take(base.len() as int));
    assert forall|i: int| base.len() <= i < all.len() implies #[trigger] all[i] == '/' || all[i]
        == '#' by {
        if i < marked.len() {
            assert(marked[i] == all[i]);
        }
    }
}

proof fn lemma_cut(kept: Seq<char>, tail: Seq<char>, c: char)
    requires
        kept.len() > 0 ==> kept.last() != c,
        forall|i: int| 0 <= i < tail.len() ==> #[trigger] tail[i] == c,
    ensures
        trimmed_end_of(kept + tail, c) == kept,
    decreases tail.len(),
{
    if tail.len() == 0 {
        assert(kept + tail =~= kept);
    } else {
        let shorter = tail.drop_last();
        assert forall|i: int| 0 <= i < shorter.len() implies #[trigger] shorter[i] == c by {
            assert(shorter[i] == tail[i]);
        }
        lemma_cut(kept, shorter, c);
        assert((kept + tail).drop_last() =~= kept + shorter);
        assert(tail[tail.len() - 1] == c);
    }
}

/// Every number sign at the end of an address goes, and every slash before those.
pub proof fn bases_lose_their_whole_ends(
    address: Seq<char>,
    kept: Seq<char>,
    slashes: Seq<char>,
    signs: Seq<char>,
)
    requires
        trimmed(address) == kept + slashes + signs,
        kept.len() > 0 ==> kept.last() != '/',
        slashes.len() == 0 && kept.len() > 0 ==> kept.last() != '#',
        forall|i: int| 0 <= i < slashes.len() ==> #[trigger] slashes[i] == '/',
        forall|i: int| 0 <= i < signs.len() ==> #[trigger] signs[i] == '#',
    ensures
        plain_base(address) == kept,
{
    let marked = kept + slashes;
    if slashes.len() > 0 {
        assert(marked.last() == slashes[slashes.len() - 1]);
    } else {
        assert(marked =~= kept);
    }
    lemma_cut(marked, signs, '#');
    lemma_cut(kept, slashes, '/');
}

/// An address that says no more than its host.
pub open spec fn names_a_host(base: Seq<char>, scheme: Seq<char>, host: Seq<char>) -> bool {
    &&& base == scheme + host
    &&& scheme == "https://"@ || scheme == "http://"@
    &&& lacks(host, '/')
}

proof fn lemma_no_slash(s: Seq<char>)
    ensures
        lacks(s, '/') == !has_part(s, "/"@),
{
    reveal_strlit("/");
    assert("/"@ =~= seq!['/']);
    if has_part(s, "/"@) {
        let i = choose|i: int| 0 <= i <= s.len() - 1 && #[trigger] s.subrange(i, i + 1) == "/"@;
        assert(s.subrange(i, i + 1)[0] == '/');
        assert(s[i] == '/');
    }
    if !lacks(s, '/') {
        let i = choose|i: int| 0 <= i < s.len() && #[trigger] s[i] == '/';
        assert(s.subrange(i, i + "/"@.len()) =~= "/"@);
    }
}

/// The address of an endpoint: the base itself where it names the endpoint already; a host alone gets
/// the version before the endpoint, unless a number sign ends the address; any other base is followed
/// by the endpoint.
pub proof fn endpoints_follow_their_base(
    address: Seq<char>,
    endpoint: Seq<char>,
    scheme: Seq<char>,
    host: Seq<char>,
)
    ensures
        ({
            let base = plain_base(address);
            let marked = trimmed(address).len() > 0 && trimmed(address).last() == '#';
            &&& has_suffix(base, endpoint) ==> endpoint_url(address, endpoint) == base
            &&& !has_suffix(base, endpoint) && names_a_host(base, scheme, host) && !marked
                ==> endpoint_url(address, endpoint) == base + "/v1"@ + endpoint
            &&& !has_suffix(base, endpoint) && marked ==> endpoint_url(address, endpoint) == base
                + endpoint
            &&& !has_suffix(base, endpoint) && base == scheme + host && (scheme == "https://"@
                || scheme == "http://"@) && !lacks(host, '/') ==> endpoint_url(address, endpoint)
                == base + endpoint
            &&& !has_suffix(base, endpoint) && lacks(base, '/') && !marked ==> endpoint_url(
                address,
                endpoint,
            ) == base + "/v1"@ + endpoint
        }),
{
    reveal_strlit("https://");
    reveal_strlit("http://");
    reveal_strlit("#");
    assert("https://"@.len() == 8 && "https://"@[4] == 's' && "https://"@[6] == '/');
    assert("http://"@.len() == 7 && "http://"@[4] == ':' && "http://"@[5] == '/');
    assert("#"@ =~= seq!['#']);
    let all = trimmed(address);
    let base = plain_base(address);
    if all.len() > 0 && all.last() == '#' {
        assert(all.skip(all.len() - 1) =~= "#"@);
    }
    if has_suffix(all, "#"@) {
        assert(all.skip(all.len() - 1)[0] == '#');
    }
    lemma_no_slash(base);
    if base == scheme + host && (scheme == "https://"@ || scheme == "http://"@) {
        assert(base.take(scheme.len() as int) =~= scheme);
        assert(base.skip(scheme.len() as int) =~= host);
        lemma_no_slash(host);
        if scheme == "http://"@ && has_prefix(base, "https://"@) {
            assert(base.take(8)[4] == 's');
            assert(base[4] == ':');
        }
        lemma_no_slash(base.skip(scheme.len() as int));
    }
    if lacks(base, '/') {
        if has_prefix(base, "https://"@) {
            assert(base.take(8)[6] == '/');
            assert(base[6] == '/');
        }
        if has_prefix(base, "http://"@) {
            assert(base.take(7)[5] == '/');
            assert(base[5] == '/');
        }
    }
}

/// The models stand beside the chat endpoint; any other base is followed by them.
pub proof fn models_stand_beside_the_chat(address: Seq<char>, before: Seq<char>)
    ensures
        plain_base(address) == before + "/chat/completions"@ ==> models_address(address) == before
            + "/models"@,
        !has_suffix(plain_base(address), "/chat/completions"@) ==> models_address(address)
            == endpoint_url(address, "/models"@),
{
    let base = plain_base(address);
    let chat = "/chat/completions"@;
    if base == before + chat {
        assert(base.skip(base.len() - chat.len()) =~= chat);
        assert(base.take(base.len() - chat.len()) =~= before);
    }
}

/// Compaction stands behind the responses; any other base is followed by both.
pub proof fn compaction_stands_behind_the_responses(address: Seq<char>, before: Seq<char>)
    ensures
        plain_base(address) == before + "/responses"@ ==> compact_address(address) == before
            + "/responses"@ + "/compact"@,
        !has_suffix(plain_base(address), "/responses"@) ==> compact_address(address)
            == endpoint_url(address, "/responses/compact"@),
{
    let base = plain_base(address);
    let responses = "/responses"@;
    if base == before + responses {
        assert(base.skip(base.len() - responses.len()) =~= responses);
    }
}

} // verus!
