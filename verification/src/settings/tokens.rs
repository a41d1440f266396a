//! Bearer tokens in the configuration texts of relays.
use vstd::prelude::*;

use super::types::{relay_profile_views, RelayMode, RelayProfile, RelayProfileView};
use crate::text::{
    concat, ends_with, has_suffix, is_white_space, lemma_trimmed_twice, option_text, same_text,
    trim, trim_start_of, trimmed, trimmed_start_of,
};
use crate::toml::{
    came_about, can_be_set, document_contents, document_inner_kind, document_kind,
    document_table_text, document_text, gives_place, inner_item, item_at, kind_of, new_document,
    no_items, parse_document, parsed_toml, root_text, set_document_text, set_indexed_text,
    table_text, text_can_be_set, toml_reads_as, with_indexed_text, write_document, written_toml,
    TomlEdit, TomlHistory, TomlKind, TomlView,
};

verus! {

/// What a configuration text holds, a byte order mark aside. A blank text is an empty document.
pub open spec fn parsed_config(contents: Seq<char>) -> Result<Map<Seq<char>, TomlView>, Seq<char>> {
    let text = trimmed_start_of(contents, '\u{feff}');
    if trimmed(text).len() == 0 {
        Ok(no_items())
    } else {
        match parsed_toml(text) {
            Ok(items) => Ok(items),
            Err(message) => Err("config.toml TOML 解析失败："@ + message),
        }
    }
}

/// How the document of a configuration text comes about.
pub open spec fn config_history(contents: Seq<char>) -> TomlHistory {
    let text = trimmed_start_of(contents, '\u{feff}');
    if trimmed(text).len() == 0 || parsed_toml(text) is Err {
        TomlHistory::new_document()
    } else {
        TomlHistory::read_from(text)
    }
}

pub(crate) fn parse_toml_document(contents: &str) -> (r: Result<toml_edit::DocumentMut, String>)
    ensures
        match r {
            Ok(doc) => parsed_config(contents@) == Ok::<Map<Seq<char>, TomlView>, Seq<char>>(
                document_contents(doc),
            ) && came_about(doc, config_history(contents@)),
            Err(message) => parsed_config(contents@) == Err::<
                Map<Seq<char>, TomlView>,
                Seq<char>,
            >(message@),
        },
{
    let text = trim_start_of(contents, '\u{feff}');
    if trim(text).is_empty() {
        Ok(new_document())
    } else {
        match parse_document(text) {
            Ok(doc) => Ok(doc),
            Err(message) => Err(concat("config.toml TOML 解析失败：", message.as_str())),
        }
    }
}

/// A text without the space around it, where anything is left.
pub open spec fn filled_text(text: Option<Seq<char>>) -> Option<Seq<char>> {
    match text {
        Some(s) if trimmed(s).len() > 0 => Some(trimmed(s)),
        _ => None,
    }
}

fn filled_option(text: Option<String>) -> (r: Option<String>)
    ensures
        option_text(r) == filled_text(option_text(text)),
{
    match text {
        Some(s) => {
            let s = trim(s.as_str());
            if s.is_empty() {
                None
            } else {
                Some(s.to_owned())
            }
        },
        None => None,
    }
}

/// The provider that a configuration has in use.
pub open spec fn provider_id(config: Map<Seq<char>, TomlView>) -> Option<Seq<char>> {
    filled_text(root_text(config, "model_provider"@))
}

fn active_provider_id(doc: &toml_edit::DocumentMut) -> (r: Option<String>)
    ensures
        option_text(r) == provider_id(document_contents(*doc)),
{
    filled_option(document_text(doc, "model_provider"))
}

/// The token of a provider.
pub open spec fn token_of_provider(config: Map<Seq<char>, TomlView>, id: Seq<char>) -> Option<Seq<char>> {
    filled_text(table_text(config, "model_providers"@, id, "experimental_bearer_token"@))
}

/// The token of the provider in use; requests of OpenAI's go through the custom one.
pub open spec fn token_of(config: Map<Seq<char>, TomlView>) -> Option<Seq<char>> {
    match provider_id(config) {
        None => None,
        Some(id) => match token_of_provider(config, id) {
            Some(token) => Some(token),
            None => if id == "openai"@ {
                token_of_provider(config, "custom"@)
            } else {
                None
            },
        },
    }
}

/// The token in a configuration text.
pub open spec fn config_token(contents: Seq<char>) -> Option<Seq<char>> {
    match parsed_config(contents) {
        Ok(config) => token_of(config),
        Err(_) => None,
    }
}

pub fn experimental_bearer_token_from_config_text(contents: &str) -> (r: Option<String>)
    ensures
        option_text(r) == config_token(contents@),
{
    let doc = match parse_toml_document(contents) {
        Ok(doc) => doc,
        Err(_) => {
            return None;
        },
    };
    let id = match active_provider_id(&doc) {
        Some(id) => id,
        None => {
            return None;
        },
    };
    let own = filled_option(
        document_table_text(&doc, "model_providers", id.as_str(), "experimental_bearer_token"),
    );
    if own.is_some() {
        return own;
    }
    if same_text(id.as_str(), "openai") {
        return filled_option(
            document_table_text(&doc, "model_providers", "custom", "experimental_bearer_token"),
        );
    }
    None
}

/// What a configuration text holds, nothing where it cannot be read.
pub open spec fn config_or_empty(contents: Seq<char>) -> Map<Seq<char>, TomlView> {
    match parsed_config(contents) {
        Ok(config) => config,
        Err(_) => no_items(),
    }
}

/// The provider that sessions belong to.
pub open spec fn session_provider(config: Map<Seq<char>, TomlView>) -> Seq<char> {
    match provider_id(config) {
        Some(id) => id,
        None => "codex-plus-relay"@,
    }
}

/// The provider that requests go through.
pub open spec fn transport_provider(session: Seq<char>) -> Seq<char> {
    if session == "openai"@ {
        "custom"@
    } else {
        session
    }
}

pub open spec fn with_session(config: Map<Seq<char>, TomlView>) -> Map<Seq<char>, TomlView> {
    config.insert("model_provider"@, TomlView::Text(session_provider(config)))
}

/// Whether a configuration has a place for a token: no item stands where its tables stand.
pub open spec fn has_place_for_token(config: Map<Seq<char>, TomlView>) -> bool {
    let transport = transport_provider(session_provider(config));
    gives_place(item_at(config, "model_providers"@)) && gives_place(
        inner_item(config, "model_providers"@, transport),
    )
}

/// Whether a configuration can take a token: it has a place for it, and both the token and the
/// provider's id can be written.
pub open spec fn takes_token(config: Map<Seq<char>, TomlView>, token: Seq<char>) -> bool {
    has_place_for_token(config) && can_be_set(session_provider(config)) && can_be_set(
        trimmed(token),
    )
}

/// The configuration with a token for the provider in use.
pub open spec fn with_token(config: Map<Seq<char>, TomlView>, token: Seq<char>) -> Map<
    Seq<char>,
    TomlView,
> {
    with_indexed_text(
        with_session(config),
        "model_providers"@,
        transport_provider(session_provider(config)),
        "experimental_bearer_token"@,
        trimmed(token),
    )
}

/// A text with a line feed at its end, unless it is empty.
pub open spec fn ended_line(s: Seq<char>) -> Seq<char> {
    if s.len() == 0 || has_suffix(s, "\n"@) {
        s
    } else {
        s + "\n"@
    }
}

/// The document of a configuration text, with its session's provider and a token set.
pub open spec fn token_history(contents: Seq<char>, token: Seq<char>) -> TomlHistory {
    let session = session_provider(config_or_empty(contents));
    config_history(contents).and(TomlEdit::Root("model_provider"@, session)).and(
        TomlEdit::Indexed(
            "model_providers"@,
            transport_provider(session),
            "experimental_bearer_token"@,
            trimmed(token),
        ),
    )
}

/// Whether a text is the configuration text with a token set: it is the one written for that
/// document, and it reads as the configuration with the token.
pub open spec fn is_with_token(text: Seq<char>, contents: Seq<char>, token: Seq<char>) -> bool {
    text == ended_line(written_toml(token_history(contents, token))) && toml_reads_as(
        text,
        with_token(config_or_empty(contents), token),
    )
}

fn is_place(kind: TomlKind) -> (r: bool)
    ensures
        forall|item: Option<TomlView>| kind == kind_of(item) ==> r == #[trigger] gives_place(item),
{
    match kind {
        TomlKind::Missing => true,
        TomlKind::Text => false,
        TomlKind::Table => true,
        TomlKind::Inline => true,
        TomlKind::Other => false,
    }
}

fn ensure_text_newline(value: String) -> (r: String)
    ensures
        r@ == ended_line(value@),
{
    if value.as_str().is_empty() || ends_with(value.as_str(), "\n") {
        value
    } else {
        concat(value.as_str(), "\n")
    }
}

/// A configuration text, its session's provider, and the provider that requests go through.
fn open_session(contents: &str) -> (r: (toml_edit::DocumentMut, String, String))
    ensures
        document_contents(r.0) == config_or_empty(contents@),
        came_about(r.0, config_history(contents@)),
        r.1@ == session_provider(config_or_empty(contents@)),
        r.2@ == transport_provider(session_provider(config_or_empty(contents@))),
{
    let doc = match parse_toml_document(contents) {
        Ok(doc) => doc,
        Err(_) => new_document(),
    };
    let session = match active_provider_id(&doc) {
        Some(id) => id,
        None => "codex-plus-relay".to_owned(),
    };
    let transport = if same_text(session.as_str(), "openai") {
        "custom".to_owned()
    } else {
        session.clone()
    };
    (doc, session, transport)
}

fn can_take_token(contents: &str, token: &str) -> (r: bool)
    ensures
        r == takes_token(config_or_empty(contents@), token@),
{
    let (doc, session, transport) = open_session(contents);
    is_place(document_kind(&doc, "model_providers")) && is_place(
        document_inner_kind(&doc, "model_providers", transport.as_str()),
    ) && text_can_be_set(session.as_str()) && text_can_be_set(trim(token))
}

/// The configuration text with a token set.
pub fn set_or_replace_experimental_bearer_token(contents: &str, token: &str) -> (r: String)
    requires
        takes_token(config_or_empty(contents@), token@),
    ensures
        is_with_token(r@, contents@, token@),
{
    let (mut doc, session, transport) = open_session(contents);
    set_document_text(&mut doc, "model_provider", session.as_str());
    proof {
        reveal_strlit("model_provider");
        reveal_strlit("model_providers");
        assert("model_provider"@.len() == 14 && "model_providers"@.len() == 15);
    }
    set_indexed_text(
        &mut doc,
        "model_providers",
        transport.as_str(),
        "experimental_bearer_token",
        trim(token),
    );
    ensure_text_newline(write_document(&doc))
}

/// The same where the configuration can take the token, and nothing where it cannot.
pub fn set_token_where_placed(contents: &str, token: &str) -> (r: Option<String>)
    ensures
        match r {
            Some(text) => takes_token(config_or_empty(contents@), token@) && is_with_token(
                text@,
                contents@,
                token@,
            ),
            None => !takes_token(config_or_empty(contents@), token@),
        },
{
    if can_take_token(contents, token) {
        Some(set_or_replace_experimental_bearer_token(contents, token))
    } else {
        None
    }
}

/// A token that was set is the one in use, where its provider has a table with a header. OpenAI's
/// own token would come first.
pub proof fn token_is_read_back(config: Map<Seq<char>, TomlView>, token: Seq<char>)
    requires
        trimmed(token).len() > 0,
        item_at(config, "model_providers"@) matches Some(TomlView::Table(tables)) && item_at(
            tables,
            transport_provider(session_provider(config)),
        ) is Some && item_at(tables, transport_provider(session_provider(config)))->0 is Table,
        session_provider(config) == "openai"@ ==> token_of_provider(config, "openai"@) is None,
    ensures
        token_of(with_token(config, token)) == Some(trimmed(token)),
{
    reveal_strlit("model_provider");
    reveal_strlit("model_providers");
    reveal_strlit("codex-plus-relay");
    reveal_strlit("openai");
    reveal_strlit("custom");
    lemma_trimmed_twice(token);
    if let Some(id) = root_text(config, "model_provider"@) {
        lemma_trimmed_twice(id);
    }
    assert(trimmed("codex-plus-relay"@) == "codex-plus-relay"@) by {
        assert(!is_white_space("codex-plus-relay"@[0]));
        assert(!is_white_space("codex-plus-relay"@.last()));
    }
    assert("model_provider"@.len() == 14 && "model_providers"@.len() == 15);
    assert("codex-plus-relay"@.len() == 16);
    assert("openai"@[0] == 'o' && "custom"@[0] == 'c');
    let after = with_token(config, token);
    let session = session_provider(config);
    let transport = transport_provider(session);
    assert(session.len() > 0);
    assert(root_text(after, "model_provider"@) == Some(session));
    assert(provider_id(after) == Some(session));
    assert(table_text(after, "model_providers"@, transport, "experimental_bearer_token"@) == Some(
        trimmed(token),
    ));
    assert(token_of_provider(after, transport) == Some(trimmed(token)));
    if session == "openai"@ {
        assert(table_text(after, "model_providers"@, session, "experimental_bearer_token"@)
            == table_text(config, "model_providers"@, session, "experimental_bearer_token"@));
        assert(token_of_provider(after, session) is None);
    }
}

/// An official relay that also uses a key of its own.
pub open spec fn is_official_mix(relay: RelayProfileView) -> bool {
    relay.relay_mode == RelayMode::Official && relay.official_mix_api_key
}

/// The token that the last mixed relay with an id had in its configuration.
pub open spec fn earlier_token(previous: Seq<RelayProfileView>, id: Seq<char>) -> Option<Seq<char>>
    decreases previous.len(),
{
    if previous.len() == 0 {
        None
    } else {
        let last = previous.last();
        if is_official_mix(last) && last.id == id && config_token(last.config_contents) is Some {
            config_token(last.config_contents)
        } else {
            earlier_token(previous.drop_last(), id)
        }
    }
}

/// The token that a relay lacks: a mixed relay without one gets its own key, or else the token it
/// had before.
pub open spec fn missing_token(relay: RelayProfileView, previous: Seq<RelayProfileView>) -> Option<
    Seq<char>,
> {
    if !is_official_mix(relay) || config_token(relay.config_contents) is Some {
        None
    } else if trimmed(relay.api_key).len() > 0 {
        Some(trimmed(relay.api_key))
    } else {
        earlier_token(previous, relay.id)
    }
}

/// Whether one relay is another with the token that it lacked.
pub open spec fn has_kept_token(
    after: RelayProfileView,
    before: RelayProfileView,
    previous: Seq<RelayProfileView>,
) -> bool {
    match missing_token(before, previous) {
        None => after == before,
        Some(token) => {
            &&& after == (RelayProfileView { config_contents: after.config_contents, ..before })
            &&& is_with_token(after.config_contents, before.config_contents, token)
        },
    }
}

/// A relay lacks a token that its configuration cannot take.
pub open spec fn cannot_keep_token(relay: RelayProfileView, previous: Seq<RelayProfileView>) -> bool {
    missing_token(relay, previous) is Some && !takes_token(
        config_or_empty(relay.config_contents),
        missing_token(relay, previous)->0,
    )
}

fn find_earlier_token(previous: &Vec<RelayProfile>, id: &str) -> (r: Option<String>)
    ensures
        option_text(r) == earlier_token(relay_profile_views(previous@), id@),
{
    let ghost views = relay_profile_views(previous@);
    let mut n = previous.len();
    assert(views.take(n as int) =~= views);
    while n > 0
        invariant
            n <= previous@.len(),
            views == relay_profile_views(previous@),
            earlier_token(views, id@) == earlier_token(views.take(n as int), id@),
        decreases n,
    {
        let relay = &previous[n - 1];
        proof {
            assert(views.take(n as int).drop_last() =~= views.take(n - 1));
            assert(views.take(n as int).last() == relay@);
        }
        if relay.relay_mode == RelayMode::Official && relay.official_mix_api_key && same_text(
            relay.id.as_str(),
            id,
        ) {
            let token = experimental_bearer_token_from_config_text(relay.config_contents.as_str());
            if token.is_some() {
                return token;
            }
        }
        n = n - 1;
    }
    None
}

fn find_missing_token(relay: &RelayProfile, previous: &Vec<RelayProfile>) -> (r: Option<String>)
    ensures
        option_text(r) == missing_token(relay@, relay_profile_views(previous@)),
{
    if relay.relay_mode != RelayMode::Official || !relay.official_mix_api_key {
        return None;
    }
    if experimental_bearer_token_from_config_text(relay.config_contents.as_str()).is_some() {
        return None;
    }
    let key = trim(relay.api_key.as_str());
    if !key.is_empty() {
        return Some(key.to_owned());
    }
    find_earlier_token(previous, relay.id.as_str())
}

fn with_config(relay: RelayProfile, config_contents: String) -> (r: RelayProfile)
    ensures
        r@ == (RelayProfileView { config_contents: config_contents@, ..relay@ }),
{
    RelayProfile { config_contents, ..relay }
}

/// The relays with the tokens that they lack, given the relays before.
pub fn preserve_official_mix_bearer_tokens(
    profiles: &Vec<RelayProfile>,
    previous: &Vec<RelayProfile>,
) -> (r: Vec<RelayProfile>)
    requires
        forall|i: int|
            0 <= i < profiles@.len() ==> !cannot_keep_token(
                (#[trigger] profiles@[i])@,
                relay_profile_views(previous@),
            ),
    ensures
        r@.len() == profiles@.len(),
        forall|i: int|
            0 <= i < r@.len() ==> has_kept_token(
                (#[trigger] r@[i])@,
                profiles@[i]@,
                relay_profile_views(previous@),
            ),
{
    let mut kept: Vec<RelayProfile> = Vec::new();
    for i in 0..profiles.len()
        invariant
            forall|j: int|
                0 <= j < profiles@.len() ==> !cannot_keep_token(
                    (#[trigger] profiles@[j])@,
                    relay_profile_views(previous@),
                ),
            kept@.len() == i,
            forall|j: int|
                0 <= j < i ==> has_kept_token(
                    (#[trigger] kept@[j])@,
                    profiles@[j]@,
                    relay_profile_views(previous@),
                ),
    {
        let relay = profiles[i].copy();
        match find_missing_token(&relay, previous) {
            None => {
                kept.push(relay);
            },
            Some(token) => {
                assert(!cannot_keep_token(profiles@[i as int]@, relay_profile_views(previous@)));
                let text = set_or_replace_experimental_bearer_token(
                    relay.config_contents.as_str(),
                    token.as_str(),
                );
                kept.push(with_config(relay, text));
            },
        }
    }
    kept
}

/// The same where each relay can take its token, and nothing where one cannot.
pub fn preserve_tokens_where_placed(
    profiles: &Vec<RelayProfile>,
    previous: &Vec<RelayProfile>,
) -> (r: Option<Vec<RelayProfile>>)
    ensures
        match r {
            Some(kept) => {
                &&& kept@.len() == profiles@.len()
                &&& forall|i: int|
                    0 <= i < profiles@.len() ==> !cannot_keep_token(
                        (#[trigger] profiles@[i])@,
                        relay_profile_views(previous@),
                    )
                &&& forall|i: int|
                    0 <= i < kept@.len() ==> has_kept_token(
                        (#[trigger] kept@[i])@,
                        profiles@[i]@,
                        relay_profile_views(previous@),
                    )
            },
            None => exists|i: int|
                0 <= i < profiles@.len() && cannot_keep_token(
                    (#[trigger] profiles@[i])@,
                    relay_profile_views(previous@),
                ),
        },
{
    for i in 0..profiles.len()
        invariant
            forall|j: int|
                0 <= j < i ==> !cannot_keep_token(
                    (#[trigger] profiles@[j])@,
                    relay_profile_views(previous@),
                ),
    {
        let relay = &profiles[i];
        if let Some(token) = find_missing_token(relay, previous) {
            if !can_take_token(relay.config_contents.as_str(), token.as_str()) {
                assert(cannot_keep_token(profiles@[i as int]@, relay_profile_views(previous@)));
                return None;
            }
        }
    }
    Some(preserve_official_mix_bearer_tokens(profiles, previous))
}

} // verus!
