//! The connection of a relay: its address, key and model, kept in step with its configuration.
use vstd::prelude::*;

use crate::json::{
    empty_object, parsed_json, pretty_json_text, Json, JsonView,
};
use crate::settings::types::{RelayMode, RelayProfile, RelayProfileView};
use crate::text::{trim, trimmed};
use crate::toml::{
    came_about, can_be_set, document_contents, document_inner_has, document_inner_kind,
    document_kind, document_text, inner_item, insert_inner_text, item_at, kind_of, parse_document,
    parsed_toml, root_text, set_document_text, text_can_be_set, toml_reads_as, with_indexed_text,
    write_document, written_toml, TomlEdit, TomlHistory, TomlKind, TomlView,
};

verus! {

/// The address that a change of a relay names.
pub open spec fn new_url(patch: JsonView) -> Option<JsonView> {
    match patch.field("baseUrl"@) {
        Some(url) => Some(url),
        None => patch.field("upstreamBaseUrl"@),
    }
}

pub open spec fn touches_connection(patch: JsonView) -> bool {
    new_url(patch) is Some || patch.field("apiKey"@) is Some || patch.field("model"@) is Some
}

/// The configuration with the model of a change.
pub open spec fn with_model(config: Map<Seq<char>, TomlView>, patch: JsonView) -> Result<
    Map<Seq<char>, TomlView>,
    Seq<char>,
> {
    match patch.field("model"@) {
        None => Ok(config),
        Some(model) => match model.text() {
            None => Err("model must be a string"@),
            Some(text) => Ok(config.insert("model"@, TomlView::Text(text))),
        },
    }
}

/// The provider whose table holds the address: the one in use, or else the custom one.
pub open spec fn transport_id(config: Map<Seq<char>, TomlView>) -> Seq<char> {
    let id = match root_text(config, "model_provider"@) {
        Some(id) => id,
        None => "custom"@,
    };
    let table = inner_item(config, "model_providers"@, id);
    if table is Some && table->0.entries().contains_key("base_url"@) {
        id
    } else {
        "custom"@
    }
}

/// The same, where it has a table.
pub open spec fn transport(config: Map<Seq<char>, TomlView>) -> Result<Seq<char>, Seq<char>> {
    let tables = item_at(config, "model_providers"@);
    let table = inner_item(config, "model_providers"@, transport_id(config));
    if tables is None || !tables->0.is_table_like() {
        Err("Provider config has no model_providers table; update configContents"@)
    } else if table is None || !table->0.is_table_like() {
        Err("Provider transport table not found"@)
    } else {
        Ok(transport_id(config))
    }
}

/// The configuration with a text set for a provider.
pub open spec fn with_provider_text(
    config: Map<Seq<char>, TomlView>,
    id: Seq<char>,
    key: Seq<char>,
    value: Seq<char>,
) -> Map<Seq<char>, TomlView> {
    with_indexed_text(config, "model_providers"@, id, key, value)
}

/// The connection of a relay, and what its configuration holds.
#[verifier::ext_equal]
pub struct ConnectionView {
    pub config: Map<Seq<char>, TomlView>,
    pub base_url: Seq<char>,
    pub upstream_base_url: Seq<char>,
    pub api_key: Seq<char>,
    pub auth_contents: Seq<char>,
}

pub open spec fn with_url(connection: ConnectionView, id: Seq<char>, patch: JsonView) -> Result<
    ConnectionView,
    Seq<char>,
> {
    match new_url(patch) {
        None => Ok(connection),
        Some(url) => match url.text() {
            None => Err("baseUrl must be a string"@),
            Some(text) => Ok(
                ConnectionView {
                    config: with_provider_text(connection.config, id, "base_url"@, text),
                    base_url: text,
                    upstream_base_url: text,
                    ..connection
                },
            ),
        },
    }
}

/// What the auth contents of a relay hold; nothing is an empty object.
pub open spec fn stored_auth(auth_contents: Seq<char>) -> Result<JsonView, Seq<char>> {
    if trimmed(auth_contents).len() == 0 {
        Ok(empty_object())
    } else {
        match parsed_json(auth_contents) {
            Ok(JsonView::Null) => Ok(empty_object()),
            other => other,
        }
    }
}

/// Whether auth contents that can be read have fields.
pub open spec fn auth_takes_key(auth_contents: Seq<char>) -> bool {
    stored_auth(auth_contents) is Ok ==> stored_auth(auth_contents)->Ok_0 is Object
}

/// The auth contents with a key.
pub open spec fn auth_with_key(auth_contents: Seq<char>, key: Seq<char>) -> Result<
    Seq<char>,
    Seq<char>,
> {
    match stored_auth(auth_contents) {
        Err(message) => Err(message),
        Ok(value) => Ok(pretty_json_text(value.with_text("OPENAI_API_KEY"@, key))),
    }
}

/// A key goes into the auth contents of a relay that signs in with it alone, and into the
/// configuration of any other.
pub open spec fn with_key(
    connection: ConnectionView,
    id: Seq<char>,
    patch: JsonView,
    relay_mode: RelayMode,
) -> Result<ConnectionView, Seq<char>> {
    match patch.field("apiKey"@) {
        None => Ok(connection),
        Some(key) => match key.text() {
            None => Err("apiKey must be a string"@),
            Some(text) => if relay_mode == RelayMode::PureApi {
                match auth_with_key(connection.auth_contents, text) {
                    Err(message) => Err(message),
                    Ok(auth_contents) => Ok(
                        ConnectionView { api_key: text, auth_contents, ..connection },
                    ),
                }
            } else {
                Ok(
                    ConnectionView {
                        api_key: text,
                        config: with_provider_text(
                            connection.config,
                            id,
                            "experimental_bearer_token"@,
                            text,
                        ),
                        ..connection
                    },
                )
            },
        },
    }
}

/// The connection of a relay with the address and the model of a change, and the provider that a
/// key goes to.
pub open spec fn addressed_connection(relay: RelayProfileView, patch: JsonView) -> Result<
    (ConnectionView, Seq<char>),
    Seq<char>,
> {
    if relay.relay_mode == RelayMode::Aggregate {
        Err(
            "Aggregate connection is managed by Codex++; update its modelList or members instead"@,
        )
    } else {
        match parsed_toml(relay.config_contents) {
            Err(message) => Err(message),
            Ok(stored) => match with_model(stored, patch) {
                Err(message) => Err(message),
                Ok(config) => {
                    let connection = ConnectionView {
                        config,
                        base_url: relay.base_url,
                        upstream_base_url: relay.upstream_base_url,
                        api_key: relay.api_key,
                        auth_contents: relay.auth_contents,
                    };
                    if new_url(patch) is None && patch.field("apiKey"@) is None {
                        Ok((connection, Seq::empty()))
                    } else {
                        match transport(config) {
                            Err(message) => Err(message),
                            Ok(id) => match with_url(connection, id, patch) {
                                Err(message) => Err(message),
                                Ok(addressed) => Ok((addressed, id)),
                            },
                        }
                    }
                },
            },
        }
    }
}

/// The connection of a relay after a change that touches it.
pub open spec fn changed_connection(relay: RelayProfileView, patch: JsonView) -> Result<
    ConnectionView,
    Seq<char>,
> {
    match addressed_connection(relay, patch) {
        Err(message) => Err(message),
        Ok((connection, id)) => with_key(connection, id, patch, relay.relay_mode),
    }
}

/// Whether a key has a place: where it comes to putting one into the auth contents, they have
/// fields.
pub open spec fn key_has_place(relay: RelayProfileView, patch: JsonView) -> bool {
    relay.relay_mode == RelayMode::PureApi && patch.text_field("apiKey"@) is Some
        && addressed_connection(relay, patch) is Ok ==> auth_takes_key(relay.auth_contents)
}

/// Whether a text of a change, if it is one, can be written into a configuration.
pub open spec fn field_can_be_set(field: Option<JsonView>) -> bool {
    field is Some && field->0.text() is Some ==> can_be_set(field->0.text()->0)
}

/// Whether the texts that a change brings into the configuration can be written there.
pub open spec fn texts_can_be_set(relay: RelayProfileView, patch: JsonView) -> bool {
    &&& field_can_be_set(patch.field("model"@))
    &&& field_can_be_set(new_url(patch))
    &&& relay.relay_mode != RelayMode::PureApi ==> field_can_be_set(patch.field("apiKey"@))
}

/// What a change sets in the configuration: the model.
pub open spec fn model_edits(patch: JsonView) -> Seq<TomlEdit> {
    match patch.text_field("model"@) {
        Some(text) => seq![TomlEdit::Root("model"@, text)],
        None => seq![],
    }
}

/// The address, for a provider.
pub open spec fn url_edits(id: Seq<char>, patch: JsonView) -> Seq<TomlEdit> {
    match new_url(patch) {
        Some(url) if url.text() is Some => seq![
            TomlEdit::Inserted("model_providers"@, id, "base_url"@, url.text()->0),
        ],
        _ => seq![],
    }
}

/// The key, for a provider, unless it goes into the auth contents.
pub open spec fn key_edits(id: Seq<char>, patch: JsonView, relay_mode: RelayMode) -> Seq<TomlEdit> {
    match patch.text_field("apiKey"@) {
        Some(text) if relay_mode != RelayMode::PureApi => seq![
            TomlEdit::Inserted("model_providers"@, id, "experimental_bearer_token"@, text),
        ],
        _ => seq![],
    }
}

/// How the configuration of a relay comes about with a change.
pub open spec fn connection_history(relay: RelayProfileView, patch: JsonView) -> TomlHistory {
    let id = addressed_connection(relay, patch)->Ok_0.1;
    TomlHistory::read_from(relay.config_contents).and_all(model_edits(patch)).and_all(
        url_edits(id, patch),
    ).and_all(key_edits(id, patch, relay.relay_mode))
}

/// Whether a relay is another with a changed connection: its configuration is the text written for
/// the changed document, and reads as the changed configuration.
pub open spec fn is_connected(
    after: RelayProfileView,
    before: RelayProfileView,
    patch: JsonView,
    connection: ConnectionView,
) -> bool {
    &&& after == (RelayProfileView {
        config_contents: after.config_contents,
        base_url: connection.base_url,
        upstream_base_url: connection.upstream_base_url,
        api_key: connection.api_key,
        auth_contents: connection.auth_contents,
        ..before
    })
    &&& after.config_contents == written_toml(connection_history(before, patch))
    &&& toml_reads_as(after.config_contents, connection.config)
}

/// A document has taken some texts.
pub open spec fn took(
    before: toml_edit::DocumentMut,
    after: toml_edit::DocumentMut,
    edits: Seq<TomlEdit>,
) -> bool {
    forall|history: TomlHistory| #[trigger]
        came_about(before, history) ==> came_about(after, history.and_all(edits))
}

proof fn lemma_took_nothing(doc: toml_edit::DocumentMut)
    ensures
        took(doc, doc, seq![]),
{
    assert forall|history: TomlHistory| #[trigger] came_about(doc, history) implies came_about(
        doc,
        history.and_all(seq![]),
    ) by {
        assert(history.and_all(seq![]) =~= history);
    }
}

proof fn lemma_took_one(
    before: toml_edit::DocumentMut,
    after: toml_edit::DocumentMut,
    edit: TomlEdit,
)
    requires
        forall|history: TomlHistory| #[trigger]
            came_about(before, history) ==> came_about(after, history.and(edit)),
    ensures
        took(before, after, seq![edit]),
{
    assert forall|history: TomlHistory| #[trigger] came_about(before, history) implies came_about(
        after,
        history.and_all(seq![edit]),
    ) by {
        assert(history.and_all(seq![edit]) =~= history.and(edit));
    }
}

fn is_table_kind(kind: TomlKind) -> (r: bool)
    ensures
        forall|item: Option<TomlView>|
            kind == #[trigger] kind_of(item) ==> r == (item is Some && item->0.is_table_like()),
{
    match kind {
        TomlKind::Missing => false,
        TomlKind::Text => false,
        TomlKind::Table => true,
        TomlKind::Inline => true,
        TomlKind::Other => false,
    }
}

fn find_transport(doc: &toml_edit::DocumentMut) -> (r: Result<String, String>)
    ensures
        match r {
            Ok(id) => transport(document_contents(*doc)) == Ok::<Seq<char>, Seq<char>>(id@),
            Err(message) => transport(document_contents(*doc)) == Err::<Seq<char>, Seq<char>>(
                message@,
            ),
        },
{
    let id = match document_text(doc, "model_provider") {
        Some(id) => id,
        None => "custom".to_owned(),
    };
    if !is_table_kind(document_kind(doc, "model_providers")) {
        return Err(
            "Provider config has no model_providers table; update configContents".to_owned(),
        );
    }
    let transport_id = if document_inner_has(doc, "model_providers", id.as_str(), "base_url") {
        id
    } else {
        "custom".to_owned()
    };
    if !is_table_kind(document_inner_kind(doc, "model_providers", transport_id.as_str())) {
        return Err("Provider transport table not found".to_owned());
    }
    Ok(transport_id)
}

fn read_auth(auth_contents: &str) -> (r: Result<Json, String>)
    ensures
        match r {
            Ok(value) => stored_auth(auth_contents@) == Ok::<JsonView, Seq<char>>(value@),
            Err(message) => stored_auth(auth_contents@) == Err::<JsonView, Seq<char>>(message@),
        },
{
    if trim(auth_contents).is_empty() {
        return Ok(Json::object());
    }
    match Json::parse(auth_contents) {
        Ok(value) => if value.is_null() {
            Ok(Json::object())
        } else {
            Ok(value)
        },
        Err(message) => Err(message),
    }
}

fn put_auth_key(auth_contents: &str, key: &str) -> (r: Result<String, String>)
    ensures
        match r {
            Ok(text) => auth_with_key(auth_contents@, key@) == Ok::<Seq<char>, Seq<char>>(text@),
            Err(message) => auth_with_key(auth_contents@, key@) == Err::<Seq<char>, Seq<char>>(
                message@,
            ),
        },
{
    let mut auth = match read_auth(auth_contents) {
        Ok(value) => value,
        Err(message) => {
            return Err(message);
        },
    };
    auth.put_text("OPENAI_API_KEY", key);
    Ok(auth.to_pretty_text())
}

/// The texts of a connection besides the configuration.
struct ConnectionTexts {
    base_url: String,
    upstream_base_url: String,
    api_key: String,
    auth_contents: String,
}

spec fn connection_view(config: Map<Seq<char>, TomlView>, texts: ConnectionTexts) -> ConnectionView {
    ConnectionView {
        config,
        base_url: texts.base_url@,
        upstream_base_url: texts.upstream_base_url@,
        api_key: texts.api_key@,
        auth_contents: texts.auth_contents@,
    }
}

/// A table that took one text takes another.
proof fn lemma_table_stays(
    config: Map<Seq<char>, TomlView>,
    id: Seq<char>,
    key: Seq<char>,
    value: Seq<char>,
)
    requires
        inner_item(config, "model_providers"@, id) is Some,
        inner_item(config, "model_providers"@, id)->0.is_table_like(),
    ensures
        inner_item(
            with_provider_text(config, id, key, value),
            "model_providers"@,
            id,
        ) is Some,
        inner_item(
            with_provider_text(config, id, key, value),
            "model_providers"@,
            id,
        )->0.is_table_like(),
{
}

fn put_url(
    doc: &mut toml_edit::DocumentMut,
    texts: ConnectionTexts,
    id: &str,
    patch: &Json,
) -> (r: Result<ConnectionTexts, String>)
    requires
        field_can_be_set(new_url(patch@)),
        inner_item(document_contents(*old(doc)), "model_providers"@, id@) is Some,
        inner_item(document_contents(*old(doc)), "model_providers"@, id@)->0.is_table_like(),
    ensures
        match r {
            Ok(after) => with_url(
                connection_view(document_contents(*old(doc)), texts),
                id@,
                patch@,
            ) == Ok::<ConnectionView, Seq<char>>(
                connection_view(document_contents(*final(doc)), after),
            ) && inner_item(document_contents(*final(doc)), "model_providers"@, id@) is Some
                && inner_item(
                document_contents(*final(doc)),
                "model_providers"@,
                id@,
            )->0.is_table_like() && took(*old(doc), *final(doc), url_edits(id@, patch@)),
            Err(message) => with_url(
                connection_view(document_contents(*old(doc)), texts),
                id@,
                patch@,
            ) == Err::<ConnectionView, Seq<char>>(message@),
        },
{
    let url = match patch.get("baseUrl") {
        Some(url) => url,
        None => match patch.get("upstreamBaseUrl") {
            Some(url) => url,
            None => {
                proof {
                    lemma_took_nothing(*doc);
                }
                return Ok(texts);
            },
        },
    };
    let text = match url.as_text() {
        Some(text) => text,
        None => {
            return Err("baseUrl must be a string".to_owned());
        },
    };
    proof {
        lemma_table_stays(document_contents(*doc), id@, "base_url"@, text@);
    }
    insert_inner_text(doc, "model_providers", id, "base_url", text);
    proof {
        lemma_took_one(
            *old(doc),
            *doc,
            TomlEdit::Inserted("model_providers"@, id@, "base_url"@, text@),
        );
    }
    Ok(
        ConnectionTexts {
            base_url: text.to_owned(),
            upstream_base_url: text.to_owned(),
            ..texts
        },
    )
}

fn put_key(
    doc: &mut toml_edit::DocumentMut,
    texts: ConnectionTexts,
    id: &str,
    patch: &Json,
    relay_mode: RelayMode,
) -> (r: Result<ConnectionTexts, String>)
    requires
        relay_mode != RelayMode::PureApi ==> field_can_be_set(patch@.field("apiKey"@)),
        inner_item(document_contents(*old(doc)), "model_providers"@, id@) is Some,
        inner_item(document_contents(*old(doc)), "model_providers"@, id@)->0.is_table_like(),
    ensures
        match r {
            Ok(after) => with_key(
                connection_view(document_contents(*old(doc)), texts),
                id@,
                patch@,
                relay_mode,
            ) == Ok::<ConnectionView, Seq<char>>(
                connection_view(document_contents(*final(doc)), after),
            ) && took(*old(doc), *final(doc), key_edits(id@, patch@, relay_mode)),
            Err(message) => with_key(
                connection_view(document_contents(*old(doc)), texts),
                id@,
                patch@,
                relay_mode,
            ) == Err::<ConnectionView, Seq<char>>(message@),
        },
{
    let key = match patch.get("apiKey") {
        Some(key) => key,
        None => {
            proof {
                lemma_took_nothing(*doc);
            }
            return Ok(texts);
        },
    };
    let text = match key.as_text() {
        Some(text) => text,
        None => {
            return Err("apiKey must be a string".to_owned());
        },
    };
    if relay_mode == RelayMode::PureApi {
        proof {
            lemma_took_nothing(*doc);
        }
        match put_auth_key(texts.auth_contents.as_str(), text) {
            Ok(auth_contents) => Ok(
                ConnectionTexts { api_key: text.to_owned(), auth_contents, ..texts },
            ),
            Err(message) => Err(message),
        }
    } else {
        insert_inner_text(doc, "model_providers", id, "experimental_bearer_token", text);
        proof {
            lemma_took_one(
                *old(doc),
                *doc,
                TomlEdit::Inserted("model_providers"@, id@, "experimental_bearer_token"@, text@),
            );
        }
        Ok(ConnectionTexts { api_key: text.to_owned(), ..texts })
    }
}

fn with_connection(profile: RelayProfile, texts: ConnectionTexts, config_contents: String) -> (r:
    RelayProfile)
    ensures
        r@ == (RelayProfileView {
            config_contents: config_contents@,
            base_url: texts.base_url@,
            upstream_base_url: texts.upstream_base_url@,
            api_key: texts.api_key@,
            auth_contents: texts.auth_contents@,
            ..profile@
        }),
{
    RelayProfile {
        config_contents,
        base_url: texts.base_url,
        upstream_base_url: texts.upstream_base_url,
        api_key: texts.api_key,
        auth_contents: texts.auth_contents,
        ..profile
    }
}

/// Takes the address and the model of a change over.
fn put_address(profile: &RelayProfile, patch: &Json) -> (r: Result<
    (toml_edit::DocumentMut, ConnectionTexts, String),
    String,
>)
    requires
        texts_can_be_set(profile@, patch@),
    ensures
        match r {
            Ok((doc, texts, id)) => addressed_connection(profile@, patch@) == Ok::<
                (ConnectionView, Seq<char>),
                Seq<char>,
            >((connection_view(document_contents(doc), texts), id@)) && (patch@.field(
                "apiKey"@,
            ) is Some ==> inner_item(document_contents(doc), "model_providers"@, id@) is Some
                && inner_item(
                document_contents(doc),
                "model_providers"@,
                id@,
            )->0.is_table_like()) && came_about(
                doc,
                TomlHistory::read_from(profile@.config_contents).and_all(
                    model_edits(patch@),
                ).and_all(url_edits(id@, patch@)),
            ),
            Err(message) => addressed_connection(profile@, patch@) == Err::<
                (ConnectionView, Seq<char>),
                Seq<char>,
            >(message@),
        },
{
    if profile.relay_mode == RelayMode::Aggregate {
        return Err(
            "Aggregate connection is managed by Codex++; update its modelList or members instead".to_owned(),
        );
    }
    let mut doc = match parse_document(profile.config_contents.as_str()) {
        Ok(doc) => doc,
        Err(message) => {
            return Err(message);
        },
    };
    let ghost start = doc;
    proof {
        lemma_took_nothing(start);
    }
    if let Some(model) = patch.get("model") {
        match model.as_text() {
            Some(text) => {
                set_document_text(&mut doc, "model", text);
                proof {
                    lemma_took_one(start, doc, TomlEdit::Root("model"@, text@));
                }
            },
            None => {
                return Err("model must be a string".to_owned());
            },
        }
    }
    assert(took(start, doc, model_edits(patch@)));
    let texts = ConnectionTexts {
        base_url: profile.base_url.clone(),
        upstream_base_url: profile.upstream_base_url.clone(),
        api_key: profile.api_key.clone(),
        auth_contents: profile.auth_contents.clone(),
    };
    if patch.get("baseUrl").is_none() && patch.get("upstreamBaseUrl").is_none() && patch.get(
        "apiKey",
    ).is_none() {
        proof {
            reveal_strlit("");
            assert(""@ =~= Seq::empty());
            lemma_took_nothing(doc);
        }
        return Ok((doc, texts, "".to_owned()));
    }
    let id = match find_transport(&doc) {
        Ok(id) => id,
        Err(message) => {
            return Err(message);
        },
    };
    match put_url(&mut doc, texts, id.as_str(), patch) {
        Ok(texts) => Ok((doc, texts, id)),
        Err(message) => Err(message),
    }
}

/// Takes the address, the key and the model of a change into a relay and its configuration.
pub fn update_connection_fields(profile: RelayProfile, patch: &Json) -> (r: Result<
    RelayProfile,
    String,
>)
    requires
        key_has_place(profile@, patch@),
        texts_can_be_set(profile@, patch@),
    ensures
        match r {
            Ok(after) => if touches_connection(patch@) {
                changed_connection(profile@, patch@) is Ok && is_connected(
                    after@,
                    profile@,
                    patch@,
                    changed_connection(profile@, patch@)->Ok_0,
                )
            } else {
                after@ == profile@
            },
            Err(message) => touches_connection(patch@) && changed_connection(profile@, patch@)
                == Err::<ConnectionView, Seq<char>>(message@),
        },
{
    if patch.get("baseUrl").is_none() && patch.get("upstreamBaseUrl").is_none() && patch.get(
        "apiKey",
    ).is_none() && patch.get("model").is_none() {
        return Ok(profile);
    }
    let (mut doc, mut texts, id) = match put_address(&profile, patch) {
        Ok(addressed) => addressed,
        Err(message) => {
            return Err(message);
        },
    };
    proof {
        lemma_took_nothing(doc);
    }
    if patch.get("apiKey").is_some() {
        texts = match put_key(&mut doc, texts, id.as_str(), patch, profile.relay_mode) {
            Ok(texts) => texts,
            Err(message) => {
                return Err(message);
            },
        };
    }
    let config_contents = write_document(&doc);
    Ok(with_connection(profile, texts, config_contents))
}

fn can_set_field(field: Option<&Json>) -> (r: bool)
    ensures
        r == field_can_be_set(match field {
            Some(value) => Some(value@),
            None => None,
        }),
{
    match field {
        Some(value) => match value.as_text() {
            Some(text) => text_can_be_set(text),
            None => true,
        },
        None => true,
    }
}

fn can_set_texts(profile: &RelayProfile, patch: &Json) -> (r: bool)
    ensures
        r == texts_can_be_set(profile@, patch@),
{
    let url = match patch.get("baseUrl") {
        Some(url) => Some(url),
        None => patch.get("upstreamBaseUrl"),
    };
    can_set_field(patch.get("model")) && can_set_field(url) && (profile.relay_mode
        == RelayMode::PureApi || can_set_field(patch.get("apiKey")))
}

/// The same where a key has a place and the texts can be written, and nothing where not.
pub fn update_connection_where_placed(profile: RelayProfile, patch: &Json) -> (r: Option<
    Result<RelayProfile, String>,
>)
    ensures
        match r {
            None => !key_has_place(profile@, patch@) || !texts_can_be_set(profile@, patch@),
            Some(Ok(after)) => key_has_place(profile@, patch@) && texts_can_be_set(
                profile@,
                patch@,
            ) && if touches_connection(patch@) {
                changed_connection(profile@, patch@) is Ok && is_connected(
                    after@,
                    profile@,
                    patch@,
                    changed_connection(profile@, patch@)->Ok_0,
                )
            } else {
                after@ == profile@
            },
            Some(Err(message)) => key_has_place(profile@, patch@) && texts_can_be_set(
                profile@,
                patch@,
            ) && touches_connection(patch@)
                && changed_connection(profile@, patch@) == Err::<ConnectionView, Seq<char>>(
                message@,
            ),
        },
{
    if !can_set_texts(&profile, patch) {
        return None;
    }
    if profile.relay_mode == RelayMode::PureApi && patch.text_at("apiKey").is_some() {
        let takes_key = match read_auth(profile.auth_contents.as_str()) {
            Ok(value) => value.is_object(),
            Err(_) => true,
        };
        if !takes_key && put_address(&profile, patch).is_ok() {
            return None;
        }
    }
    Some(update_connection_fields(profile, patch))
}

} // verus!
