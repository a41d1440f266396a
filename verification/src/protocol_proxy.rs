//! The paths that the proxy serves, and the addresses that it calls.
use vstd::prelude::*;

use crate::text::{
    concat, contains, ends_with, has_part, has_prefix, has_suffix, pieces_at, same_text,
    split_at_char, strip_prefix, texts, trim, trim_end_of, trimmed, trimmed_end_of, strip_suffix,
};
use crate::time::Duration;

verus! {

/// A path without its query.
pub open spec fn without_query(path: Seq<char>) -> Seq<char> {
    pieces_at(path, '?')[0]
}

/// A path leads to an endpoint, under any of the prefixes that clients use.
pub open spec fn leads_to(path: Seq<char>, endpoint: Seq<char>) -> bool {
    let bare = without_query(path);
    bare == endpoint || bare == "/v1"@ + endpoint || bare == "/v1/v1"@ + endpoint || bare
        == "/codex/v1"@ + endpoint
}

fn matches_endpoint(path: &str, endpoint: &str) -> (r: bool)
    ensures
        r == leads_to(path@, endpoint@),
{
    let parts = split_at_char(path, '?');
    assert(texts(parts@)[0] == parts@[0]@);
    let bare = parts[0].as_str();
    let first = concat("/v1", endpoint);
    let second = concat("/v1/v1", endpoint);
    let third = concat("/codex/v1", endpoint);
    same_text(bare, endpoint) || same_text(bare, first.as_str()) || same_text(
        bare,
        second.as_str(),
    ) || same_text(bare, third.as_str())
}

pub fn is_responses_compact_proxy_path(path: &str) -> (r: bool)
    ensures
        r == leads_to(path@, "/responses/compact"@),
{
    matches_endpoint(path, "/responses/compact")
}

pub fn is_responses_proxy_path(path: &str) -> (r: bool)
    ensures
        r == (leads_to(path@, "/responses"@) || leads_to(path@, "/responses/compact"@)),
{
    matches_endpoint(path, "/responses") || matches_endpoint(path, "/responses/compact")
}

pub fn is_chat_completions_proxy_path(path: &str) -> (r: bool)
    ensures
        r == leads_to(path@, "/chat/completions"@),
{
    matches_endpoint(path, "/chat/completions")
}

pub fn is_models_proxy_path(path: &str) -> (r: bool)
    ensures
        r == leads_to(path@, "/models"@),
{
    matches_endpoint(path, "/models")
}

pub fn is_audio_transcriptions_proxy_path(path: &str) -> (r: bool)
    ensures
        r == leads_to(path@, "/audio/transcriptions"@),
{
    matches_endpoint(path, "/audio/transcriptions")
}

/// An address without the space around it, the mark at its end and the slashes before that.
pub open spec fn plain_base(base_url: Seq<char>) -> Seq<char> {
    trimmed_end_of(trimmed_end_of(trimmed(base_url), '#'), '/')
}

/// Whether an address names a host and nothing on it.
pub open spec fn is_host_only(base: Seq<char>) -> bool {
    if has_prefix(base, "https://"@) {
        !has_part(base.skip("https://"@.len() as int), "/"@)
    } else if has_prefix(base, "http://"@) {
        !has_part(base.skip("http://"@.len() as int), "/"@)
    } else {
        !has_part(base, "/"@)
    }
}

/// An address where the endpoints stand: a host alone stands for its first version. A mark at the
/// end keeps an address as it is.
pub open spec fn endpoint_base(base_url: Seq<char>) -> Seq<char> {
    if is_host_only(plain_base(base_url)) && !has_suffix(trimmed(base_url), "#"@) {
        plain_base(base_url) + "/v1"@
    } else {
        plain_base(base_url)
    }
}

/// The address of an endpoint; an address that ends with it already is the one.
pub open spec fn endpoint_url(base_url: Seq<char>, endpoint: Seq<char>) -> Seq<char> {
    if has_suffix(plain_base(base_url), endpoint) {
        plain_base(base_url)
    } else {
        endpoint_base(base_url) + endpoint
    }
}

fn base_of(base_url: &str) -> (r: &str)
    ensures
        r@ == plain_base(base_url@),
{
    trim_end_of(trim_end_of(trim(base_url), '#'), '/')
}

fn host_only(base: &str) -> (r: bool)
    ensures
        r == is_host_only(base@),
{
    if let Some(rest) = strip_prefix(base, "https://") {
        return !contains(rest, "/");
    }
    if let Some(rest) = strip_prefix(base, "http://") {
        return !contains(rest, "/");
    }
    !contains(base, "/")
}

fn with_version(base_url: &str) -> (r: String)
    ensures
        r@ == endpoint_base(base_url@),
{
    let base = base_of(base_url);
    if host_only(base) && !ends_with(trim(base_url), "#") {
        concat(base, "/v1")
    } else {
        base.to_owned()
    }
}

fn url_of(base_url: &str, endpoint: &str) -> (r: String)
    ensures
        r@ == endpoint_url(base_url@, endpoint@),
{
    let base = base_of(base_url);
    if ends_with(base, endpoint) {
        return base.to_owned();
    }
    let versioned = with_version(base_url);
    concat(versioned.as_str(), endpoint)
}

pub fn chat_completions_url(base_url: &str) -> (r: String)
    ensures
        r@ == endpoint_url(base_url@, "/chat/completions"@),
{
    url_of(base_url, "/chat/completions")
}

pub fn audio_transcriptions_url(base_url: &str) -> (r: String)
    ensures
        r@ == endpoint_url(base_url@, "/audio/transcriptions"@),
{
    url_of(base_url, "/audio/transcriptions")
}

/// The address of the list of models; an address of the chat endpoint leads there too.
pub open spec fn models_address(base_url: Seq<char>) -> Seq<char> {
    let base = plain_base(base_url);
    if has_suffix(base, "/chat/completions"@) {
        base.take(base.len() - "/chat/completions"@.len()) + "/models"@
    } else {
        endpoint_url(base_url, "/models"@)
    }
}

pub fn models_url(base_url: &str) -> (r: String)
    ensures
        r@ == models_address(base_url@),
{
    match strip_suffix(base_of(base_url), "/chat/completions") {
        Some(rest) => concat(rest, "/models"),
        None => url_of(base_url, "/models"),
    }
}

/// The address that compacts a response; an address of the responses endpoint leads there too.
pub open spec fn compact_address(base_url: Seq<char>) -> Seq<char> {
    let base = plain_base(base_url);
    if has_suffix(base, "/responses"@) {
        base + "/compact"@
    } else {
        endpoint_url(base_url, "/responses/compact"@)
    }
}

pub fn responses_compact_url(base_url: &str) -> (r: String)
    ensures
        r@ == compact_address(base_url@),
{
    let base = base_of(base_url);
    if ends_with(base, "/responses") {
        return concat(base, "/compact");
    }
    url_of(base_url, "/responses/compact")
}

/// How long the headers of an answer may take.
pub fn upstream_header_timeout() -> (r: Duration)
    ensures
        r.seconds == 60,
{
    Duration::from_secs(60)
}

/// How long the headers of a stream may take.
pub fn upstream_stream_header_timeout() -> (r: Duration)
    ensures
        r.seconds == 300,
{
    Duration::from_secs(300)
}

} // verus!
