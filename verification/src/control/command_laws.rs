//! What commands read, ask for and decide, and what a change does to a relay's connection.
use vstd::prelude::*;

use super::arguments::{
    bare_command, command_names, options_from, parsed_arguments, parsed_input, source_of,
    ArgumentsView, InputSourceView,
};
use super::changes::switched;
use super::commands::{
    action_of, decision, launch_input, launch_preview, lifecycle_decision, reaches_live_config,
    reserved_field, ChangeAction, CommandAction, LifecycleAction, LifecycleDecision, RouteAction,
    StoreDecision, TellAction,
};
use super::connection::{
    auth_with_key, changed_connection, new_url, stored_auth, touches_connection, transport_id,
    ConnectionView,
};
use super::patch::{needed_object, needed_text};
use super::requests::{
    asked_aggregate, asked_aggregate_change, asked_relay, asked_relay_change,
    asked_settings_change, asked_switch,
};
use crate::json::{empty_object, parsed_json, pretty_json_text, JsonView};
use crate::settings::active::{lemma_relay_position, relay_position};
use crate::settings::active_laws::lemma_aggregate_position;
use crate::settings::backend::RelaySettingsView;
use crate::settings::types::{RelayMode, RelayProfileView};
use crate::text::{has_suffix, trimmed, trimmed_start_of};
use crate::toml::{inner_item, item_at, parsed_toml, root_text, TomlView};

verus! {

proof fn lemma_field_names()
    ensures
        "model"@.len() == 5,
        "model_providers"@.len() == 15,
        "base_url"@.len() == 8,
        "experimental_bearer_token"@.len() == 25,
        "appPath"@.len() == 7,
        "syncActiveRelay"@.len() == 15,
        "syncActiveRelay"@[0] == 's',
        "model_provider"@.len() == 14,
{
    reveal_strlit("model");
    reveal_strlit("model_providers");
    reveal_strlit("base_url");
    reveal_strlit("experimental_bearer_token");
    reveal_strlit("appPath");
    reveal_strlit("syncActiveRelay");
    reveal_strlit("model_provider");
}

/// The address of a change is its `baseUrl`, or else its `upstreamBaseUrl`.
pub proof fn base_url_counts_first(patch: JsonView)
    ensures
        patch.field("baseUrl"@) is Some ==> new_url(patch) == patch.field("baseUrl"@),
        patch.field("baseUrl"@) is None ==> new_url(patch) == patch.field("upstreamBaseUrl"@),
{
}

/// A change touches the connection where it names an address, a key or a model.
pub proof fn connections_are_touched_by_three_things(patch: JsonView)
    ensures
        touches_connection(patch) == (patch.field("baseUrl"@) is Some || patch.field(
            "upstreamBaseUrl"@,
        ) is Some || patch.field("apiKey"@) is Some || patch.field("model"@) is Some),
{
}

/// A text that a command needs is a field that is a text and not blank, as it stands; an object is a
/// field that is one.
pub proof fn needed_fields_are_asked_for(input: JsonView, key: Seq<char>)
    ensures
        ({
            let text = input.text_field(key);
            let object = input.field(key);
            let is_object = object is Some && object->0 is Object;
            &&& text is Some && trimmed(text->0).len() > 0 ==> needed_text(input, key) == Ok::<
                Seq<char>,
                Seq<char>,
            >(text->0)
            &&& text is None || trimmed(text->0).len() == 0 ==> needed_text(input, key) == Err::<
                Seq<char>,
                Seq<char>,
            >(key + " must be a non-empty string"@)
            &&& is_object ==> needed_object(input, key) == Ok::<JsonView, Seq<char>>(object->0)
            &&& !is_object ==> needed_object(input, key) == Err::<JsonView, Seq<char>>(
                key + " must be an object"@,
            )
        }),
{
}

/// The table that takes the address and the key is that of the provider in use where it has an
/// address, else the one named custom.
pub proof fn provider_with_an_address_is_changed(config: Map<Seq<char>, TomlView>, id: Seq<char>)
    ensures
        transport_id(config) == "custom"@ || (root_text(config, "model_provider"@) == Some(
            transport_id(config),
        ) && inner_item(config, "model_providers"@, transport_id(config)) is Some && inner_item(
            config,
            "model_providers"@,
            transport_id(config),
        )->0.entries().contains_key("base_url"@)),
        root_text(config, "model_provider"@) == Some(id) && inner_item(
            config,
            "model_providers"@,
            id,
        ) is Some && inner_item(config, "model_providers"@, id)->0.entries().contains_key(
            "base_url"@,
        ) ==> transport_id(config) == id,
{
}

/// What a provider's table says for a key.
pub open spec fn provider_entry(
    config: Map<Seq<char>, TomlView>,
    id: Seq<char>,
    key: Seq<char>,
) -> Option<TomlView> {
    match inner_item(config, "model_providers"@, id) {
        Some(table) => item_at(table.entries(), key),
        None => None,
    }
}

/// A change that names an address sets it as the relay's own, as its upstream and in the table of the
/// provider; one that names none leaves all three.
pub proof fn new_address_stands_everywhere(relay: RelayProfileView, patch: JsonView)
    requires
        changed_connection(relay, patch) is Ok,
    ensures
        ({
            let after = changed_connection(relay, patch)->Ok_0;
            let stored = parsed_toml(relay.config_contents)->Ok_0;
            match new_url(patch) {
                Some(url) => {
                    &&& url == JsonView::Text(after.base_url)
                    &&& after.upstream_base_url == after.base_url
                    &&& provider_entry(after.config, transport_id(after.config), "base_url"@)
                        == Some(TomlView::Text(after.base_url))
                },
                None => {
                    &&& after.base_url == relay.base_url
                    &&& after.upstream_base_url == relay.upstream_base_url
                    &&& forall|id: Seq<char>| #[trigger]
                        provider_entry(after.config, id, "base_url"@) == provider_entry(
                            stored,
                            id,
                            "base_url"@,
                        )
                },
            }
        }),
{
    lemma_field_names();
}

/// A change that names a key sets it as the relay's own, and in the stored credentials of a relay that
/// uses the interface alone, else in the table of the provider; the other of the two stays.
pub proof fn new_key_stands_in_its_place(relay: RelayProfileView, patch: JsonView)
    requires
        changed_connection(relay, patch) is Ok,
    ensures
        ({
            let after = changed_connection(relay, patch)->Ok_0;
            let stored = parsed_toml(relay.config_contents)->Ok_0;
            let token = "experimental_bearer_token"@;
            let keeps_tokens = forall|id: Seq<char>| #[trigger]
                provider_entry(after.config, id, token) == provider_entry(stored, id, token);
            match patch.field("apiKey"@) {
                Some(key) => {
                    &&& key == JsonView::Text(after.api_key)
                    &&& relay.relay_mode == RelayMode::PureApi ==> auth_with_key(
                        relay.auth_contents,
                        after.api_key,
                    ) == Ok::<Seq<char>, Seq<char>>(after.auth_contents) && keeps_tokens
                    &&& relay.relay_mode != RelayMode::PureApi ==> after.auth_contents
                        == relay.auth_contents && provider_entry(
                        after.config,
                        transport_id(after.config),
                        token,
                    ) == Some(TomlView::Text(after.api_key))
                },
                None => {
                    &&& after.api_key == relay.api_key
                    &&& after.auth_contents == relay.auth_contents
                    &&& keeps_tokens
                },
            }
        }),
{
    lemma_field_names();
}

/// A change that names a model sets it; nothing else of the configuration changes but the address and
/// the key in the tables of the providers.
pub proof fn configuration_keeps_its_rest(
    relay: RelayProfileView,
    patch: JsonView,
    key: Seq<char>,
    id: Seq<char>,
)
    requires
        changed_connection(relay, patch) is Ok,
    ensures
        ({
            let after = changed_connection(relay, patch)->Ok_0.config;
            let stored = parsed_toml(relay.config_contents)->Ok_0;
            &&& parsed_toml(relay.config_contents) is Ok
            &&& patch.field("model"@) is Some ==> patch.text_field("model"@) is Some && root_text(
                after,
                "model"@,
            ) == patch.text_field("model"@)
            &&& patch.field("model"@) is None ==> item_at(after, "model"@) == item_at(
                stored,
                "model"@,
            )
            &&& key != "model"@ && key != "model_providers"@ ==> item_at(after, key) == item_at(
                stored,
                key,
            )
            &&& key != "base_url"@ && key != "experimental_bearer_token"@ ==> provider_entry(
                after,
                id,
                key,
            ) == provider_entry(stored, id, key)
            &&& id != transport_id(stored) ==> provider_entry(after, id, key) == provider_entry(
                stored,
                id,
                key,
            )
        }),
{
    lemma_field_names();
}

/// An aggregate has no connection to change; texts must be texts, and an address or a key needs the
/// table that takes it.
pub proof fn changes_of_a_connection_are_refused(relay: RelayProfileView, patch: JsonView)
    ensures
        ({
            let after = changed_connection(relay, patch);
            let stored = parsed_toml(relay.config_contents);
            &&& relay.relay_mode == RelayMode::Aggregate ==> after == Err::<
                ConnectionView,
                Seq<char>,
            >(
                "Aggregate connection is managed by Codex++; update its modelList or members instead"@,
            )
            &&& relay.relay_mode != RelayMode::Aggregate && stored is Err ==> after == Err::<
                ConnectionView,
                Seq<char>,
            >(stored->Err_0)
            &&& relay.relay_mode != RelayMode::Aggregate && stored is Ok && patch.field(
                "model"@,
            ) is Some && patch.text_field("model"@) is None ==> after == Err::<
                ConnectionView,
                Seq<char>,
            >("model must be a string"@)
            &&& new_url(patch) is Some && !(new_url(patch)->0 is Text) ==> after is Err
            &&& patch.field("apiKey"@) is Some && patch.text_field("apiKey"@) is None ==> after is Err
            &&& relay.relay_mode != RelayMode::Aggregate && stored is Ok && new_url(patch) is None
                && patch.field("apiKey"@) is None && (patch.field("model"@) is None
                || patch.text_field("model"@) is Some) ==> after is Ok
            &&& (new_url(patch) is Some || patch.field("apiKey"@) is Some)
                && relay.relay_mode != RelayMode::Aggregate && stored is Ok && patch.field(
                "model"@,
            ) is None && (item_at(stored->Ok_0, "model_providers"@) is None || !item_at(
                stored->Ok_0,
                "model_providers"@,
            )->0.is_table_like()) ==> after == Err::<ConnectionView, Seq<char>>(
                "Provider config has no model_providers table; update configContents"@,
            )
        }),
{
}

/// A key that is stored takes its field of the credentials, and every other field stays; credentials
/// that are blank or null count as empty.
pub proof fn stored_credentials_keep_their_rest(contents: Seq<char>, key: Seq<char>)
    ensures
        trimmed(contents).len() == 0 ==> auth_with_key(contents, key) == Ok::<Seq<char>, Seq<char>>(
            pretty_json_text(empty_object().with_text("OPENAI_API_KEY"@, key)),
        ),
        trimmed(contents).len() > 0 && parsed_json(contents) == Ok::<JsonView, Seq<char>>(
            JsonView::Null,
        ) ==> auth_with_key(contents, key) == Ok::<Seq<char>, Seq<char>>(
            pretty_json_text(empty_object().with_text("OPENAI_API_KEY"@, key)),
        ),
        trimmed(contents).len() > 0 && parsed_json(contents) is Ok && parsed_json(
            contents,
        )->Ok_0 is Object ==> exists|value: JsonView| #[trigger]
            auth_holds(contents, value, key) && auth_with_key(contents, key) == Ok::<
                Seq<char>,
                Seq<char>,
            >(pretty_json_text(value)),
        trimmed(contents).len() > 0 && parsed_json(contents) is Err ==> auth_with_key(contents, key)
            == Err::<Seq<char>, Seq<char>>(parsed_json(contents)->Err_0),
{
    if trimmed(contents).len() > 0 && parsed_json(contents) is Ok && parsed_json(
        contents,
    )->Ok_0 is Object {
        let value = parsed_json(contents)->Ok_0.with_text("OPENAI_API_KEY"@, key);
        assert(stored_auth(contents) == parsed_json(contents));
        assert(auth_holds(contents, value, key));
    }
}

/// Credentials with a key: what was stored, but for the key.
pub open spec fn auth_holds(contents: Seq<char>, value: JsonView, key: Seq<char>) -> bool {
    &&& value.text_field("OPENAI_API_KEY"@) == Some(key)
    &&& forall|k: Seq<char>|
        k != "OPENAI_API_KEY"@ ==> #[trigger] value.field(k) == parsed_json(contents)->Ok_0.field(k)
}

/// What each command is for.
pub proof fn commands_have_their_actions()
    ensures
        action_of("help"@) == Some(CommandAction::Help),
        action_of("manager-open"@) == Some(CommandAction::Lifecycle(LifecycleAction::OpenManager)),
        action_of("codex-start"@) == Some(CommandAction::Lifecycle(LifecycleAction::Start)),
        action_of("codex-restart"@) == Some(CommandAction::Lifecycle(LifecycleAction::Restart)),
        action_of("model-routes-list"@) == Some(CommandAction::Routes(RouteAction::List)),
        action_of("model-route-set"@) == Some(CommandAction::Routes(RouteAction::Switch)),
        action_of("status"@) == Some(CommandAction::Tell(TellAction::Status)),
        action_of("settings-get"@) == Some(CommandAction::Tell(TellAction::Settings)),
        action_of("providers-list"@) == Some(CommandAction::Tell(TellAction::Providers)),
        action_of("provider-get"@) == Some(CommandAction::Tell(TellAction::Provider)),
        action_of("aggregate-get"@) == Some(CommandAction::Tell(TellAction::Aggregate)),
        action_of("settings-set"@) == Some(CommandAction::Change(ChangeAction::Settings)),
        action_of("provider-update"@) == Some(CommandAction::Change(ChangeAction::Provider)),
        action_of("providers-reorder"@) == Some(CommandAction::Change(ChangeAction::Order)),
        action_of("aggregate-update"@) == Some(CommandAction::Change(ChangeAction::Aggregate)),
        action_of("provider-switch"@) == Some(CommandAction::Change(ChangeAction::Switch)),
        action_of("aggregate-switch"@) == Some(CommandAction::Change(ChangeAction::Switch)),
{
    reveal_strlit("help");
    reveal_strlit("manager-open");
    reveal_strlit("codex-start");
    reveal_strlit("codex-restart");
    reveal_strlit("model-routes-list");
    reveal_strlit("model-route-set");
    reveal_strlit("status");
    reveal_strlit("settings-get");
    reveal_strlit("providers-list");
    reveal_strlit("provider-get");
    reveal_strlit("aggregate-get");
    reveal_strlit("settings-set");
    reveal_strlit("provider-update");
    reveal_strlit("providers-reorder");
    reveal_strlit("aggregate-update");
    reveal_strlit("provider-switch");
    reveal_strlit("aggregate-switch");
    assert("help"@.len() == 4 && "status"@.len() == 6);
    assert("codex-start"@.len() == 11);
    assert("manager-open"@.len() == 12 && "manager-open"@[0] == 'm');
    assert("settings-get"@.len() == 12 && "settings-get"@[0] == 's' && "settings-get"@[9] == 'g');
    assert("settings-set"@.len() == 12 && "settings-set"@[0] == 's' && "settings-set"@[9] == 's');
    assert("provider-get"@.len() == 12 && "provider-get"@[0] == 'p');
    assert("codex-restart"@.len() == 13 && "codex-restart"@[0] == 'c');
    assert("aggregate-get"@.len() == 13 && "aggregate-get"@[0] == 'a');
    assert("providers-list"@.len() == 14);
    assert("model-route-set"@.len() == 15 && "model-route-set"@[0] == 'm');
    assert("provider-update"@.len() == 15 && "provider-update"@[9] == 'u');
    assert("provider-update"@[0] == 'p' && "provider-switch"@[0] == 'p');
    assert("provider-switch"@.len() == 15 && "provider-switch"@[9] == 's');
    assert("aggregate-update"@.len() == 16 && "aggregate-update"@[10] == 'u');
    assert("aggregate-switch"@.len() == 16 && "aggregate-switch"@[10] == 's');
    assert("model-routes-list"@.len() == 17 && "model-routes-list"@[0] == 'm');
    assert("providers-reorder"@.len() == 17 && "providers-reorder"@[0] == 'p');
}

/// The fields that `settings-set` leaves alone: the first of the four that a change has is told of,
/// and a change without one is let through.
pub proof fn relays_have_their_own_commands(patch: JsonView)
    ensures
        ({
            let relay = patch.field("activeRelayId"@) is Some;
            let aggregate = patch.field("activeAggregateRelayId"@) is Some;
            let relays = patch.field("relayProfiles"@) is Some;
            let aggregates = patch.field("aggregateRelayProfiles"@) is Some;
            &&& (reserved_field(patch) is None) == (!relay && !aggregate && !relays && !aggregates)
            &&& relay ==> reserved_field(patch) == Some("activeRelayId"@)
            &&& !relay && aggregate ==> reserved_field(patch) == Some("activeAggregateRelayId"@)
            &&& !relay && !aggregate && relays ==> reserved_field(patch) == Some("relayProfiles"@)
            &&& !relay && !aggregate && !relays && aggregates ==> reserved_field(patch) == Some(
                "aggregateRelayProfiles"@,
            )
        }),
{
}

/// Changed settings reach the configuration in use where relays are on, and the command is for the
/// settings, the order or a switch, or names the active relay or a member of the active aggregate.
pub proof fn live_config_follows_what_is_in_use(
    settings: RelaySettingsView,
    command: Seq<char>,
    input: JsonView,
    member: int,
)
    ensures
        ({
            let reaches = reaches_live_config(settings, command, input);
            let named = input.text_field("id"@);
            let is_named = named is Some && trimmed(named->0).len() > 0;
            let general = command == "settings-set"@ || command == "providers-reorder"@
                || has_suffix(command, "-switch"@);
            &&& !settings.relay_profiles_enabled ==> !reaches
            &&& settings.relay_profiles_enabled && general ==> reaches
            &&& settings.relay_profiles_enabled && is_named && named->0 == settings.active_relay_id
                ==> reaches
            &&& settings.relay_profiles_enabled && is_named && settings.active_aggregate() is Some
                && 0 <= member < settings.active_aggregate()->0.members.len()
                && settings.active_aggregate()->0.members[member].relay_id == named->0 ==> reaches
            &&& !general && !is_named ==> !reaches
            &&& !general && is_named && named->0 != settings.active_relay_id && (
            settings.active_aggregate() is None || forall|i: int|
                0 <= i < settings.active_aggregate()->0.members.len() ==> (
                #[trigger] settings.active_aggregate()->0.members[i]).relay_id != named->0)
                ==> !reaches
        }),
{
}

/// A trial run shows what it would reach; a switch is refused while relays are off; else the settings
/// are applied where they reach the configuration in use, and stored where they do not.
pub proof fn stored_settings_are_applied_where_they_reach(
    settings: RelaySettingsView,
    command: Seq<char>,
    input: JsonView,
)
    ensures
        ({
            let reaches = reaches_live_config(settings, command, input);
            let refused = has_suffix(command, "-switch"@) && !settings.relay_profiles_enabled;
            let done = decision(settings, command, input, false);
            &&& decision(settings, command, input, true) == StoreDecision::Preview(reaches)
            &&& refused ==> done == StoreDecision::Refuse
            &&& !refused && reaches ==> done == StoreDecision::Apply
            &&& !refused && !reaches ==> done == StoreDecision::Save
        }),
{
}

/// Only a start that asks for it, with relays on, writes the relay in use first; a trial run tells
/// what it would do, and paths that are not the real ones are refused.
pub proof fn starts_write_the_relay_first(
    command: Seq<char>,
    isolated: bool,
    sync: bool,
    enabled: bool,
)
    ensures
        lifecycle_decision(command, true, isolated, sync, enabled) == LifecycleDecision::Preview,
        lifecycle_decision(command, false, true, sync, enabled) == LifecycleDecision::Refuse,
        lifecycle_decision("codex-start"@, false, false, true, true) == LifecycleDecision::Go(true),
        command != "codex-start"@ || !sync || !enabled ==> lifecycle_decision(
            command,
            false,
            false,
            sync,
            enabled,
        ) == LifecycleDecision::Go(false),
{
}

/// What a launch is told: everything that was asked for, with the path of the program and that the
/// relay in use is written where the input says neither.
pub proof fn launches_are_told_what_is_asked(input: JsonView, path: Seq<char>, key: Seq<char>)
    requires
        input is Object,
    ensures
        ({
            let told = launch_input(input, path);
            &&& input.field(key) is Some ==> told.field(key) == input.field(key)
            &&& key != "appPath"@ && key != "syncActiveRelay"@ ==> told.field(key) == input.field(
                key,
            )
            &&& input.field("appPath"@) is None ==> told.text_field("appPath"@) == Some(path)
            &&& input.field("syncActiveRelay"@) is None ==> told.field("syncActiveRelay"@) == Some(
                JsonView::Bool(true),
            )
        }),
{
    lemma_field_names();
}

/// A dash stands for the standard input, a text behind an at sign for a file, any other for itself.
pub proof fn sources_are_told_apart(value: Seq<char>)
    ensures
        source_of("-"@) == InputSourceView::Stdin,
        source_of("@"@ + value) == InputSourceView::File(value),
        value != "-"@ && (value.len() == 0 || value[0] != '@') ==> source_of(value)
            == InputSourceView::Literal(value),
{
    reveal_strlit("-");
    reveal_strlit("@");
    assert("-"@.len() == 1 && "-"@[0] == '-' && "@"@.len() == 1 && "@"@[0] == '@');
    let file = "@"@ + value;
    assert(file[0] == '@' && file.take(1) =~= "@"@ && file.skip(1) =~= value);
    if value.len() > 0 && value[0] != '@' {
        assert(value.take(1)[0] != '@');
    }
}

/// Each option says one thing, and the options behind it are read with that; an option that is
/// unknown, repeated where it may not be, or without its value, is refused.
pub proof fn options_are_read_in_turn(args: Seq<Seq<char>>, from: int, read: ArgumentsView)
    requires
        0 <= from < args.len(),
    ensures
        ({
            let valued = from + 1 < args.len();
            let all = options_from(args, from, read);
            &&& args[from] == "--include-secrets"@ ==> all == options_from(
                args,
                from + 1,
                ArgumentsView { include_secrets: true, ..read },
            )
            &&& args[from] == "--dry-run"@ ==> all == options_from(
                args,
                from + 1,
                ArgumentsView { dry_run: true, ..read },
            )
            &&& args[from] == "--state-dir"@ && valued ==> all == options_from(
                args,
                from + 2,
                ArgumentsView { state_dir: Some(args[from + 1]), ..read },
            )
            &&& args[from] == "--state-dir"@ && !valued ==> all == Err::<ArgumentsView, Seq<char>>(
                "Missing state directory"@,
            )
            &&& args[from] == "--codex-home"@ && valued ==> all == options_from(
                args,
                from + 2,
                ArgumentsView { codex_home: Some(args[from + 1]), ..read },
            )
            &&& args[from] == "--codex-home"@ && !valued ==> all == Err::<
                ArgumentsView,
                Seq<char>,
            >("Missing Codex home"@)
            &&& args[from] == "--input"@ && read.input is Some ==> all == Err::<
                ArgumentsView,
                Seq<char>,
            >("Only one --input is allowed"@)
            &&& args[from] == "--input"@ && read.input is None && !valued ==> all == Err::<
                ArgumentsView,
                Seq<char>,
            >("--input requires JSON, @file or -"@)
            &&& args[from] == "--input"@ && read.input is None && valued ==> all == options_from(
                args,
                from + 2,
                ArgumentsView { input: Some(source_of(args[from + 1])), ..read },
            )
            &&& !([
                "--input"@,
                "--state-dir"@,
                "--codex-home"@,
                "--include-secrets"@,
                "--dry-run"@,
            ]@.contains(args[from])) ==> all == Err::<ArgumentsView, Seq<char>>(
                "Unknown CLI option: "@ + args[from],
            )
        }),
{
    reveal_strlit("--input");
    reveal_strlit("--state-dir");
    reveal_strlit("--codex-home");
    reveal_strlit("--include-secrets");
    reveal_strlit("--dry-run");
    assert("--input"@.len() == 7 && "--state-dir"@.len() == 11 && "--codex-home"@.len() == 12);
    assert("--include-secrets"@.len() == 17 && "--dry-run"@.len() == 9);
    let known = [
        "--input"@,
        "--state-dir"@,
        "--codex-home"@,
        "--include-secrets"@,
        "--dry-run"@,
    ]@;
    assert(known[0] == "--input"@ && known[1] == "--state-dir"@ && known[2] == "--codex-home"@);
    assert(known[3] == "--include-secrets"@ && known[4] == "--dry-run"@);
}

/// A flag that was given stays given, and a directory that was named stays named.
proof fn lemma_options_stay(args: Seq<Seq<char>>, from: int, read: ArgumentsView)
    requires
        options_from(args, from, read) is Ok,
    ensures
        ({
            let all = options_from(args, from, read)->Ok_0;
            &&& all.command == read.command
            &&& read.include_secrets ==> all.include_secrets
            &&& read.dry_run ==> all.dry_run
            &&& read.input is Some ==> all.input == read.input
            &&& read.state_dir is Some ==> all.state_dir is Some
            &&& read.codex_home is Some ==> all.codex_home is Some
        }),
    decreases args.len() - from,
{
    if from < args.len() {
        if args[from] == "--input"@ {
            lemma_options_stay(
                args,
                from + 2,
                ArgumentsView { input: Some(source_of(args[from + 1])), ..read },
            );
        } else if args[from] == "--state-dir"@ {
            lemma_options_stay(
                args,
                from + 2,
                ArgumentsView { state_dir: Some(args[from + 1]), ..read },
            );
        } else if args[from] == "--codex-home"@ {
            lemma_options_stay(
                args,
                from + 2,
                ArgumentsView { codex_home: Some(args[from + 1]), ..read },
            );
        } else if args[from] == "--include-secrets"@ {
            lemma_options_stay(
                args,
                from + 1,
                ArgumentsView { include_secrets: true, ..read },
            );
        } else {
            lemma_options_stay(args, from + 1, ArgumentsView { dry_run: true, ..read });
        }
    }
}

/// What is read of a command line: its command is the first argument, or help; it is a known one; and
/// both directories are named or neither.
pub proof fn command_lines_name_a_known_command(args: Seq<Seq<char>>)
    ensures
        args.len() == 0 ==> parsed_arguments(args) == Ok::<ArgumentsView, Seq<char>>(
            bare_command("help"@),
        ),
        parsed_arguments(args) matches Ok(read) ==> {
            &&& args.len() > 0 ==> read.command == args[0]
            &&& command_names().contains(read.command)
            &&& read.state_dir is Some <==> read.codex_home is Some
        },
        args.len() == 1 && command_names().contains(args[0]) ==> parsed_arguments(args) == Ok::<
            ArgumentsView,
            Seq<char>,
        >(bare_command(args[0])),
        args.len() == 1 && !command_names().contains(args[0]) ==> parsed_arguments(args) == Err::<
            ArgumentsView,
            Seq<char>,
        >("Unknown command: "@ + args[0] + "; use --cli help"@),
{
    if args.len() == 0 {
        assert(command_names()[0] == "help"@);
    } else if parsed_arguments(args) is Ok {
        lemma_options_stay(args, 1, bare_command(args[0]));
    }
}

/// An input is an object; one that is left out is the empty object, and marks of the byte order before
/// it do not count.
pub proof fn inputs_are_objects(text: Option<Seq<char>>)
    ensures
        parsed_input(None) == Ok::<JsonView, Seq<char>>(JsonView::Object(Map::empty())),
        parsed_input(text) is Ok ==> parsed_input(text)->Ok_0 is Object,
        text is Some ==> ({
            let read = parsed_json(trimmed_start_of(text->0, '\u{feff}'));
            &&& read is Ok && read->Ok_0 is Object ==> parsed_input(text) == read
            &&& read is Ok && !(read->Ok_0 is Object) ==> parsed_input(text) == Err::<
                JsonView,
                Seq<char>,
            >("Input must be a JSON object"@)
            &&& read is Err ==> parsed_input(text) == Err::<JsonView, Seq<char>>(
                "Invalid input JSON"@,
            )
        }),
{
}

/// The first relay that has an id.
pub open spec fn is_first_relay(settings: RelaySettingsView, id: Seq<char>, place: int) -> bool {
    &&& 0 <= place < settings.relay_profiles.len()
    &&& settings.relay_profiles[place].id == id
    &&& forall|j: int|
        0 <= j < place ==> (#[trigger] settings.relay_profiles[j]).id != id
}

pub open spec fn is_first_aggregate(settings: RelaySettingsView, id: Seq<char>, place: int) -> bool {
    &&& 0 <= place < settings.aggregate_relay_profiles.len()
    &&& settings.aggregate_relay_profiles[place].id == id
    &&& forall|j: int|
        0 <= j < place ==> (#[trigger] settings.aggregate_relay_profiles[j]).id != id
}

/// What a command asks for is the first relay, or aggregate, of the id that it names; an id that is
/// missing or blank, or that nothing has, is refused.
pub proof fn named_things_are_asked_for(settings: RelaySettingsView, input: JsonView)
    ensures
        ({
            let id = input.text_field("id"@);
            let named = id is Some && trimmed(id->0).len() > 0;
            let blank = "id"@ + " must be a non-empty string"@;
            &&& !named ==> asked_relay(settings, input) == Err::<int, Seq<char>>(blank)
                && asked_aggregate(settings, input) == Err::<(int, int), Seq<char>>(blank)
                && asked_relay_change(settings, input) == Err::<(int, JsonView), Seq<char>>(blank)
                && asked_aggregate_change(settings, input) == Err::<(int, JsonView), Seq<char>>(
                blank,
            )
            &&& asked_relay(settings, input) matches Ok(place) ==> named && is_first_relay(
                settings,
                id->0,
                place,
            )
            &&& asked_aggregate(settings, input) matches Ok(places) ==> named && is_first_aggregate(
                settings,
                id->0,
                places.0,
            ) && is_first_relay(settings, id->0, places.1)
            &&& asked_relay_change(settings, input) matches Ok(asked) ==> named && is_first_relay(
                settings,
                id->0,
                asked.0,
            ) && input.field("patch"@) == Some(asked.1) && asked.1 is Object
            &&& asked_aggregate_change(settings, input) matches Ok(asked) ==> named
                && is_first_aggregate(settings, id->0, asked.0) && input.field("patch"@) == Some(
                asked.1,
            ) && asked.1 is Object
            &&& asked_settings_change(input) matches Ok(patch) ==> input.field("patch"@) == Some(
                patch,
            ) && patch is Object
        }),
{
    if input.text_field("id"@) is Some {
        let id = input.text_field("id"@)->0;
        lemma_relay_position(settings.relay_profiles, id);
        lemma_aggregate_position(settings.aggregate_relay_profiles, id, 0);
    }
}

/// A relay that is there is found, and changed unless the change is of what it is.
pub proof fn things_that_are_there_are_found(
    settings: RelaySettingsView,
    input: JsonView,
    relay: int,
    aggregate: int,
)
    requires
        input.text_field("id"@) is Some,
        trimmed(input.text_field("id"@)->0).len() > 0,
    ensures
        ({
            let id = input.text_field("id"@)->0;
            let patch = input.field("patch"@);
            let is_change = patch is Some && patch->0 is Object;
            let has_relay = is_first_relay(settings, id, relay);
            let has_aggregate = is_first_aggregate(settings, id, aggregate);
            &&& has_relay ==> asked_relay(settings, input) == Ok::<int, Seq<char>>(relay)
            &&& has_relay && has_aggregate ==> asked_aggregate(settings, input) == Ok::<
                (int, int),
                Seq<char>,
            >((aggregate, relay))
            &&& has_relay && is_change && patch->0.field("id"@) is None && patch->0.field(
                "relayMode"@,
            ) is None ==> asked_relay_change(settings, input) == Ok::<(int, JsonView), Seq<char>>(
                (relay, patch->0),
            )
            &&& is_change && (patch->0.field("id"@) is Some || patch->0.field("relayMode"@) is Some)
                ==> asked_relay_change(settings, input) == Err::<(int, JsonView), Seq<char>>(
                "Changing provider id or relayMode is not supported by provider-update"@,
            )
            &&& has_aggregate && is_change && patch->0.field("id"@) is None
                ==> asked_aggregate_change(settings, input) == Ok::<(int, JsonView), Seq<char>>(
                (aggregate, patch->0),
            )
            &&& is_change && patch->0.field("id"@) is Some ==> asked_aggregate_change(
                settings,
                input,
            ) == Err::<(int, JsonView), Seq<char>>("Aggregate id cannot change"@)
        }),
{
    let id = input.text_field("id"@)->0;
    lemma_relay_position(settings.relay_profiles, id);
    lemma_aggregate_position(settings.aggregate_relay_profiles, id, 0);
    if is_first_relay(settings, id, relay) {
        let p = relay_position(settings.relay_profiles, id)->0;
        assert(settings.relay_profiles[relay].id == id);
        assert(p == relay);
    }
    if is_first_aggregate(settings, id, aggregate) {
        assert(settings.aggregate_relay_profiles[aggregate].id == id);
    }
}

/// A switch to an aggregate needs one; any other switch takes any relay.
pub proof fn switches_ask_for_what_they_name(
    settings: RelaySettingsView,
    command: Seq<char>,
    input: JsonView,
)
    requires
        input.text_field("id"@) is Some,
        trimmed(input.text_field("id"@)->0).len() > 0,
    ensures
        asked_switch(settings, "aggregate-switch"@, input) == switched(
            settings,
            input.text_field("id"@)->0,
            true,
        ),
        command != "aggregate-switch"@ ==> asked_switch(settings, command, input) == switched(
            settings,
            input.text_field("id"@)->0,
            false,
        ),
{
}

/// A trial run of a start tells what would be started, with which ports, and whether the relay in use
/// would be written; only a restart interrupts what runs.
pub proof fn trial_starts_tell_what_they_would_do(
    command: Seq<char>,
    launcher: Seq<char>,
    app_path: Seq<char>,
    debug_port: u16,
    helper_port: u16,
    sync: bool,
)
    ensures
        ({
            let told = launch_preview(command, launcher, app_path, debug_port, helper_port, sync);
            &&& told.text_field("status"@) == Some("ok"@)
            &&& told.field("dryRun"@) == Some(JsonView::Bool(true))
            &&& told.text_field("operation"@) == Some(command)
            &&& told.text_field("launcher"@) == Some(launcher)
            &&& told.text_field("appPath"@) == Some(app_path)
            &&& told.field("debugPort"@) == Some(JsonView::Integer(debug_port as int))
            &&& told.field("helperPort"@) == Some(JsonView::Integer(helper_port as int))
            &&& told.field("syncActiveRelay"@) == Some(JsonView::Bool(sync))
            &&& told.field("launchIncludesInjection"@) == Some(JsonView::Bool(true))
            &&& command == "codex-restart"@ ==> told.field("willInterruptRunningTasks"@) == Some(
                JsonView::Bool(true),
            )
            &&& command != "codex-restart"@ ==> told.field("willInterruptRunningTasks"@) == Some(
                JsonView::Bool(false),
            )
        }),
{
    lemma_field_names();
    reveal_strlit("status");
    reveal_strlit("dryRun");
    reveal_strlit("operation");
    reveal_strlit("launcher");
    reveal_strlit("debugPort");
    reveal_strlit("helperPort");
    reveal_strlit("launchIncludesInjection");
    reveal_strlit("willInterruptRunningTasks");
    assert("status"@.len() == 6 && "status"@[0] == 's' && "dryRun"@.len() == 6);
    assert("dryRun"@[0] == 'd' && "operation"@.len() == 9 && "operation"@[0] == 'o');
    assert("launcher"@.len() == 8 && "debugPort"@.len() == 9 && "debugPort"@[0] == 'd');
    assert("helperPort"@.len() == 10 && "launchIncludesInjection"@.len() == 23);
    assert("willInterruptRunningTasks"@.len() == 25);
}

} // verus!
