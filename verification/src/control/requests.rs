//! What the input of a command asks for.
use vstd::prelude::*;

use super::changes::{changes_identity, refuse_identity_change, switch_provider, switched};
use super::commands::{refuse_reserved_fields, reserved_field};
use super::patch::{needed_object, needed_text, object, string};
use crate::json::{Json, JsonView};
use crate::settings::active::{aggregate_position, find_aggregate, find_relay, relay_position};
use crate::settings::backend::{BackendSettings, BackendSettingsView, RelaySettingsView};
use crate::text::same_text;

verus! {

/// The place of the relay that a command asks for.
pub open spec fn asked_relay(settings: RelaySettingsView, input: JsonView) -> Result<
    int,
    Seq<char>,
> {
    match needed_text(input, "id"@) {
        Err(message) => Err(message),
        Ok(id) => match relay_position(settings.relay_profiles, id) {
            Some(place) => Ok(place),
            None => Err("Provider not found"@),
        },
    }
}

/// Finds the relay that `provider-get` asks for.
pub fn requested_provider(settings: &BackendSettings, input: &Json) -> (r: Result<usize, String>)
    ensures
        match r {
            Ok(place) => asked_relay(settings@.relays, input@) == Ok::<int, Seq<char>>(
                place as int,
            ) && place < settings.relays.relay_profiles@.len(),
            Err(message) => asked_relay(settings@.relays, input@) == Err::<int, Seq<char>>(
                message@,
            ),
        },
{
    let id = match string(input, "id") {
        Ok(id) => id,
        Err(message) => {
            return Err(message);
        },
    };
    match find_relay(&settings.relays.relay_profiles, id) {
        Some(place) => Ok(place),
        None => Err("Provider not found".to_owned()),
    }
}

/// The places of the aggregate that a command asks for and of its relay.
pub open spec fn asked_aggregate(settings: RelaySettingsView, input: JsonView) -> Result<
    (int, int),
    Seq<char>,
> {
    match needed_text(input, "id"@) {
        Err(message) => Err(message),
        Ok(id) => match aggregate_position(settings.aggregate_relay_profiles, id, 0) {
            None => Err("Aggregate not found"@),
            Some(aggregate) => match relay_position(settings.relay_profiles, id) {
                None => Err("Aggregate profile not found"@),
                Some(relay) => Ok((aggregate, relay)),
            },
        },
    }
}

/// Finds the aggregate that `aggregate-get` asks for, and its relay.
pub fn requested_aggregate(settings: &BackendSettings, input: &Json) -> (r: Result<
    (usize, usize),
    String,
>)
    ensures
        match r {
            Ok((aggregate, relay)) => asked_aggregate(settings@.relays, input@) == Ok::<
                (int, int),
                Seq<char>,
            >((aggregate as int, relay as int)) && aggregate
                < settings.relays.aggregate_relay_profiles@.len() && relay
                < settings.relays.relay_profiles@.len(),
            Err(message) => asked_aggregate(settings@.relays, input@) == Err::<
                (int, int),
                Seq<char>,
            >(message@),
        },
{
    let id = match string(input, "id") {
        Ok(id) => id,
        Err(message) => {
            return Err(message);
        },
    };
    let aggregate = match find_aggregate(&settings.relays.aggregate_relay_profiles, id) {
        Some(aggregate) => aggregate,
        None => {
            return Err("Aggregate not found".to_owned());
        },
    };
    match find_relay(&settings.relays.relay_profiles, id) {
        Some(relay) => Ok((aggregate, relay)),
        None => Err("Aggregate profile not found".to_owned()),
    }
}

/// Whether a command asks for the relay in use.
pub fn asks_for_active(settings: &BackendSettings, input: &Json) -> (r: bool)
    ensures
        r == (needed_text(input@, "id"@) == Ok::<Seq<char>, Seq<char>>(
            settings@.relays.active_relay_id,
        )),
{
    match string(input, "id") {
        Ok(id) => same_text(id, settings.relays.active_relay_id.as_str()),
        Err(_) => false,
    }
}

/// The change that `settings-set` asks for; it leaves the relays to other commands.
pub open spec fn asked_settings_change(input: JsonView) -> Result<JsonView, Seq<char>> {
    match needed_object(input, "patch"@) {
        Err(message) => Err(message),
        Ok(patch) => match reserved_field(patch) {
            Some(key) => Err("Use provider/aggregate commands to change "@ + key),
            None => Ok(patch),
        },
    }
}

/// Finds the change that `settings-set` asks for.
pub fn requested_settings_change<'a>(input: &'a Json) -> (r: Result<&'a Json, String>)
    ensures
        match r {
            Ok(patch) => asked_settings_change(input@) == Ok::<JsonView, Seq<char>>(patch@),
            Err(message) => asked_settings_change(input@) == Err::<JsonView, Seq<char>>(message@),
        },
{
    let patch = match object(input, "patch") {
        Ok(patch) => patch,
        Err(message) => {
            return Err(message);
        },
    };
    match refuse_reserved_fields(patch) {
        Ok(_) => Ok(patch),
        Err(message) => Err(message),
    }
}

/// The place of the relay that `provider-update` asks to change, and the change, which leaves the
/// id and the mode alone.
pub open spec fn asked_relay_change(settings: RelaySettingsView, input: JsonView) -> Result<
    (int, JsonView),
    Seq<char>,
> {
    match needed_text(input, "id"@) {
        Err(message) => Err(message),
        Ok(id) => match needed_object(input, "patch"@) {
            Err(message) => Err(message),
            Ok(patch) => if changes_identity(patch) {
                Err("Changing provider id or relayMode is not supported by provider-update"@)
            } else {
                match relay_position(settings.relay_profiles, id) {
                    Some(place) => Ok((place, patch)),
                    None => Err("Provider not found"@),
                }
            },
        },
    }
}

/// Finds the relay that `provider-update` asks to change, and the change.
pub fn requested_provider_change<'a>(settings: &BackendSettings, input: &'a Json) -> (r: Result<
    (usize, &'a Json),
    String,
>)
    ensures
        match r {
            Ok((place, patch)) => asked_relay_change(settings@.relays, input@) == Ok::<
                (int, JsonView),
                Seq<char>,
            >((place as int, patch@)) && place < settings.relays.relay_profiles@.len(),
            Err(message) => asked_relay_change(settings@.relays, input@) == Err::<
                (int, JsonView),
                Seq<char>,
            >(message@),
        },
{
    let id = match string(input, "id") {
        Ok(id) => id,
        Err(message) => {
            return Err(message);
        },
    };
    let patch = match object(input, "patch") {
        Ok(patch) => patch,
        Err(message) => {
            return Err(message);
        },
    };
    match refuse_identity_change(patch) {
        Ok(_) => {},
        Err(message) => {
            return Err(message);
        },
    }
    match find_relay(&settings.relays.relay_profiles, id) {
        Some(place) => Ok((place, patch)),
        None => Err("Provider not found".to_owned()),
    }
}

/// The place of the aggregate that `aggregate-update` asks to change, and the change, which leaves
/// the id alone.
pub open spec fn asked_aggregate_change(settings: RelaySettingsView, input: JsonView) -> Result<
    (int, JsonView),
    Seq<char>,
> {
    match needed_text(input, "id"@) {
        Err(message) => Err(message),
        Ok(id) => match needed_object(input, "patch"@) {
            Err(message) => Err(message),
            Ok(patch) => if patch.field("id"@) is Some {
                Err("Aggregate id cannot change"@)
            } else {
                match aggregate_position(settings.aggregate_relay_profiles, id, 0) {
                    Some(place) => Ok((place, patch)),
                    None => Err("Aggregate not found"@),
                }
            },
        },
    }
}

/// Finds the aggregate that `aggregate-update` asks to change, and the change.
pub fn requested_aggregate_change<'a>(settings: &BackendSettings, input: &'a Json) -> (r: Result<
    (usize, &'a Json),
    String,
>)
    ensures
        match r {
            Ok((place, patch)) => asked_aggregate_change(settings@.relays, input@) == Ok::<
                (int, JsonView),
                Seq<char>,
            >((place as int, patch@)) && place
                < settings.relays.aggregate_relay_profiles@.len(),
            Err(message) => asked_aggregate_change(settings@.relays, input@) == Err::<
                (int, JsonView),
                Seq<char>,
            >(message@),
        },
{
    let id = match string(input, "id") {
        Ok(id) => id,
        Err(message) => {
            return Err(message);
        },
    };
    let patch = match object(input, "patch") {
        Ok(patch) => patch,
        Err(message) => {
            return Err(message);
        },
    };
    if patch.get("id").is_some() {
        return Err("Aggregate id cannot change".to_owned());
    }
    match find_aggregate(&settings.relays.aggregate_relay_profiles, id) {
        Some(place) => Ok((place, patch)),
        None => Err("Aggregate not found".to_owned()),
    }
}

/// The relays after the switch that a command asks for.
pub open spec fn asked_switch(
    settings: RelaySettingsView,
    command: Seq<char>,
    input: JsonView,
) -> Result<RelaySettingsView, Seq<char>> {
    match needed_text(input, "id"@) {
        Err(message) => Err(message),
        Ok(id) => switched(settings, id, command == "aggregate-switch"@),
    }
}

/// Chooses the relay that `provider-switch` or `aggregate-switch` asks for.
pub fn switch_as_requested(settings: BackendSettings, command: &str, input: &Json) -> (r: Result<
    BackendSettings,
    String,
>)
    ensures
        match r {
            Ok(after) => asked_switch(settings@.relays, command@, input@) == Ok::<
                RelaySettingsView,
                Seq<char>,
            >(after@.relays) && after@ == (BackendSettingsView {
                relays: after@.relays,
                ..settings@
            }),
            Err(message) => asked_switch(settings@.relays, command@, input@) == Err::<
                RelaySettingsView,
                Seq<char>,
            >(message@),
        },
{
    let id = match string(input, "id") {
        Ok(id) => id,
        Err(message) => {
            return Err(message);
        },
    };
    switch_provider(settings, id, same_text(command, "aggregate-switch"))
}

} // verus!
