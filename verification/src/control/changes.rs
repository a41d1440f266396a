//! The changes that commands make to the relays.
use vstd::prelude::*;

use super::patch::{first_unknown_field, is_one_of, merge_object, merged_object, unknown_fields};
use super::validate::ids_are_distinct;
use crate::json::{Json, JsonView};
use crate::settings::active::{
    aggregate_position, find_aggregate, find_relay, lemma_relay_position, relay_position,
};
use crate::settings::backend::{
    BackendSettings, BackendSettingsView, RelaySettings, RelaySettingsView,
};
use crate::settings::types::{
    aggregate_relay_profile_views, copy_aggregate_relay_profiles, copy_relay_profiles,
    relay_profile_views, AggregateRelayProfile, AggregateRelayProfileView, RelayMode, RelayProfile,
    RelayProfileView,
};
use crate::text::{concat, least_text, lemma_least_text, same_text, texts};

verus! {

/// The relays after another one was chosen. Of an aggregate the aggregate is chosen too; a command
/// for aggregates takes no other relay.
pub open spec fn switched(settings: RelaySettingsView, id: Seq<char>, aggregate_only: bool) -> Result<
    RelaySettingsView,
    Seq<char>,
> {
    match relay_position(settings.relay_profiles, id) {
        None => Err("Provider not found"@),
        Some(p) => {
            let is_aggregate = settings.relay_profiles[p].relay_mode == RelayMode::Aggregate;
            if aggregate_only && !is_aggregate {
                Err("Selected provider is not an aggregate"@)
            } else {
                Ok(
                    RelaySettingsView {
                        active_relay_id: id,
                        active_aggregate_relay_id: if is_aggregate {
                            id
                        } else {
                            Seq::empty()
                        },
                        ..settings
                    },
                )
            }
        },
    }
}

/// Chooses another relay.
pub fn switch_provider(settings: BackendSettings, id: &str, aggregate_only: bool) -> (r: Result<
    BackendSettings,
    String,
>)
    ensures
        match r {
            Ok(after) => switched(settings@.relays, id@, aggregate_only) == Ok::<
                RelaySettingsView,
                Seq<char>,
            >(after@.relays) && after@ == (BackendSettingsView {
                relays: after@.relays,
                ..settings@
            }),
            Err(message) => switched(settings@.relays, id@, aggregate_only) == Err::<
                RelaySettingsView,
                Seq<char>,
            >(message@),
        },
{
    let p = match find_relay(&settings.relays.relay_profiles, id) {
        Some(p) => p,
        None => {
            return Err("Provider not found".to_owned());
        },
    };
    assert(settings@.relays.relay_profiles[p as int]
        == settings.relays.relay_profiles@[p as int]@);
    let is_aggregate = settings.relays.relay_profiles[p].relay_mode == RelayMode::Aggregate;
    if aggregate_only && !is_aggregate {
        return Err("Selected provider is not an aggregate".to_owned());
    }
    let active_aggregate_relay_id = if is_aggregate {
        id.to_owned()
    } else {
        String::new()
    };
    let relays = RelaySettings {
        active_relay_id: id.to_owned(),
        active_aggregate_relay_id,
        ..settings.relays
    };
    Ok(BackendSettings { relays, ..settings })
}

/// Whether the ids before one in a list hold it too.
pub open spec fn is_repeated(ids: Seq<Seq<char>>, i: int) -> bool {
    exists|j: int| 0 <= j < i && #[trigger] ids[j] == ids[i]
}

/// The relays that a list of ids names, in its order. An id that comes twice, or that no relay has,
/// is refused.
pub open spec fn picked(relays: Seq<RelayProfileView>, ids: Seq<Seq<char>>, n: int) -> Result<
    Seq<RelayProfileView>,
    Seq<char>,
>
    decreases n,
{
    if n <= 0 {
        Ok(Seq::empty())
    } else {
        match picked(relays, ids, n - 1) {
            Err(message) => Err(message),
            Ok(before) => if is_repeated(ids, n - 1) {
                Err("Duplicate provider id: "@ + ids[n - 1])
            } else {
                match relay_position(relays, ids[n - 1]) {
                    Some(p) => Ok(before.push(relays[p])),
                    None => Err("Unknown provider in order"@),
                }
            },
        }
    }
}

/// Of the first `n` relays those that a list of ids does not name.
pub open spec fn unnamed(relays: Seq<RelayProfileView>, ids: Seq<Seq<char>>, n: int) -> Seq<
    RelayProfileView,
>
    decreases n,
{
    if n <= 0 {
        Seq::empty()
    } else {
        let before = unnamed(relays, ids, n - 1);
        if ids.contains(relays[n - 1].id) {
            before
        } else {
            before.push(relays[n - 1])
        }
    }
}

/// The relays in another order: those that a list names first, then the others.
pub open spec fn reordered(relays: Seq<RelayProfileView>, ids: Seq<Seq<char>>) -> Result<
    Seq<RelayProfileView>,
    Seq<char>,
> {
    match picked(relays, ids, ids.len() as int) {
        Ok(first) => Ok(first + unnamed(relays, ids, relays.len() as int)),
        Err(message) => Err(message),
    }
}

pub(super) proof fn lemma_picked_error(
    relays: Seq<RelayProfileView>,
    ids: Seq<Seq<char>>,
    n: int,
    m: int,
)
    requires
        0 <= n <= m,
        picked(relays, ids, n) is Err,
    ensures
        picked(relays, ids, m) == picked(relays, ids, n),
    decreases m - n,
{
    if n < m {
        lemma_picked_error(relays, ids, n, m - 1);
    }
}

/// Puts the relays into another order.
pub fn reorder_providers(relays: &Vec<RelayProfile>, ids: &Vec<String>) -> (r: Result<
    Vec<RelayProfile>,
    String,
>)
    ensures
        match r {
            Ok(ordered) => reordered(relay_profile_views(relays@), texts(ids@)) == Ok::<
                Seq<RelayProfileView>,
                Seq<char>,
            >(relay_profile_views(ordered@)),
            Err(message) => reordered(relay_profile_views(relays@), texts(ids@)) == Err::<
                Seq<RelayProfileView>,
                Seq<char>,
            >(message@),
        },
{
    let ghost views = relay_profile_views(relays@);
    let ghost all = texts(ids@);
    let mut ordered: Vec<RelayProfile> = Vec::new();
    assert(relay_profile_views(ordered@) =~= Seq::empty());
    for i in 0..ids.len()
        invariant
            views == relay_profile_views(relays@),
            all == texts(ids@),
            picked(views, all, i as int) == Ok::<Seq<RelayProfileView>, Seq<char>>(
                relay_profile_views(ordered@),
            ),
    {
        assert(all[i as int] == ids@[i as int]@);
        for j in 0..i
            invariant
                i < ids@.len(),
                views == relay_profile_views(relays@),
                all == texts(ids@),
                picked(views, all, i as int) is Ok,
                forall|k: int| 0 <= k < j ==> #[trigger] all[k] != all[i as int],
        {
            assert(all[j as int] == ids@[j as int]@ && all[i as int] == ids@[i as int]@);
            if same_text(ids[j].as_str(), ids[i].as_str()) {
                proof {
                    assert(is_repeated(all, i as int));
                    lemma_picked_error(views, all, i + 1, all.len() as int);
                }
                return Err(concat("Duplicate provider id: ", ids[i].as_str()));
            }
        }
        assert(!is_repeated(all, i as int));
        match find_relay(relays, ids[i].as_str()) {
            Some(p) => {
                assert(views[p as int] == relays@[p as int]@);
                let ghost before = relay_profile_views(ordered@);
                ordered.push(relays[p].copy());
                assert(relay_profile_views(ordered@) =~= before.push(views[p as int]));
            },
            None => {
                proof {
                    lemma_picked_error(views, all, i + 1, all.len() as int);
                }
                return Err("Unknown provider in order".to_owned());
            },
        }
    }
    let ghost first = relay_profile_views(ordered@);
    assert(first + Seq::<RelayProfileView>::empty() =~= first);
    for n in 0..relays.len()
        invariant
            views == relay_profile_views(relays@),
            all == texts(ids@),
            relay_profile_views(ordered@) == first + unnamed(views, all, n as int),
    {
        assert(views[n as int] == relays@[n as int]@);
        if !crate::settings::active::contains_text(ids, relays[n].id.as_str()) {
            let ghost before = relay_profile_views(ordered@);
            ordered.push(relays[n].copy());
            proof {
                assert(relay_profile_views(ordered@) =~= before.push(views[n as int]));
                assert(before.push(views[n as int]) =~= first + unnamed(views, all, n as int).push(
                    views[n as int],
                ));
            }
        }
    }
    Ok(ordered)
}

pub(super) proof fn lemma_picked(relays: Seq<RelayProfileView>, ids: Seq<Seq<char>>, n: int)
    requires
        0 <= n <= ids.len(),
        picked(relays, ids, n) is Ok,
    ensures
        picked(relays, ids, n)->Ok_0.len() == n,
        forall|i: int|
            0 <= i < n ==> relay_position(relays, #[trigger] ids[i]) is Some && picked(
                relays,
                ids,
                n,
            )->Ok_0[i] == relays[relay_position(relays, ids[i])->0],
    decreases n,
{
    if n > 0 {
        lemma_picked(relays, ids, n - 1);
    }
}

proof fn lemma_unnamed_has(relays: Seq<RelayProfileView>, ids: Seq<Seq<char>>, n: int, i: int)
    requires
        0 <= i < n <= relays.len(),
        !ids.contains(relays[i].id),
    ensures
        unnamed(relays, ids, n).contains(relays[i]),
    decreases n,
{
    let list = unnamed(relays, ids, n);
    let before = unnamed(relays, ids, n - 1);
    if i < n - 1 {
        lemma_unnamed_has(relays, ids, n - 1, i);
        let j = choose|j: int| 0 <= j < before.len() && before[j] == relays[i];
        assert(list[j] == relays[i]);
    } else {
        assert(list[list.len() - 1] == relays[i]);
    }
}

proof fn lemma_unnamed_from(relays: Seq<RelayProfileView>, ids: Seq<Seq<char>>, n: int, k: int)
    requires
        0 <= n <= relays.len(),
        0 <= k < unnamed(relays, ids, n).len(),
    ensures
        relays.contains(unnamed(relays, ids, n)[k]),
    decreases n,
{
    let before = unnamed(relays, ids, n - 1);
    if k < before.len() {
        lemma_unnamed_from(relays, ids, n - 1, k);
    } else {
        assert(relays[n - 1] == unnamed(relays, ids, n)[k]);
    }
}

/// Another order drops no relay and makes none up.
pub proof fn reordering_keeps_the_relays(
    relays: Seq<RelayProfileView>,
    ids: Seq<Seq<char>>,
    relay: RelayProfileView,
)
    requires
        ids_are_distinct(relays),
        reordered(relays, ids) is Ok,
    ensures
        reordered(relays, ids)->Ok_0.contains(relay) == relays.contains(relay),
{
    let n = ids.len() as int;
    let first = picked(relays, ids, n)->Ok_0;
    let rest = unnamed(relays, ids, relays.len() as int);
    let all = first + rest;
    lemma_picked(relays, ids, n);
    if relays.contains(relay) {
        let i = choose|i: int| 0 <= i < relays.len() && relays[i] == relay;
        if ids.contains(relay.id) {
            let j = choose|j: int| 0 <= j < ids.len() && ids[j] == relay.id;
            lemma_relay_position(relays, ids[j]);
            let p = relay_position(relays, ids[j])->0;
            assert(p == i);
            assert(all[j] == relay);
        } else {
            lemma_unnamed_has(relays, ids, relays.len() as int, i);
            let k = choose|k: int| 0 <= k < rest.len() && rest[k] == relay;
            assert(all[first.len() + k] == relay);
        }
    }
    if all.contains(relay) {
        let k = choose|k: int| 0 <= k < all.len() && all[k] == relay;
        if k < first.len() {
            lemma_relay_position(relays, ids[k]);
            assert(relays[relay_position(relays, ids[k])->0] == relay);
        } else {
            lemma_unnamed_from(relays, ids, relays.len() as int, k - first.len());
        }
    }
}

/// Whether a change of a relay is refused: neither its id nor its mode can change.
pub open spec fn changes_identity(patch: JsonView) -> bool {
    patch.field("id"@) is Some || patch.field("relayMode"@) is Some
}

pub fn refuse_identity_change(patch: &Json) -> (r: Result<(), String>)
    ensures
        match r {
            Ok(_) => !changes_identity(patch@),
            Err(message) => changes_identity(patch@) && message@
                == "Changing provider id or relayMode is not supported by provider-update"@,
        },
{
    if patch.get("id").is_some() || patch.get("relayMode").is_some() {
        return Err(
            "Changing provider id or relayMode is not supported by provider-update".to_owned(),
        );
    }
    Ok(())
}

/// Fields of a relay that are not always stored.
pub open spec fn is_optional_field(key: Seq<char>) -> bool {
    key == "model"@ || key == "baseUrl"@ || key == "apiKey"@ || key == "userAgent"@ || key
        == "modelRoutes"@ || key == "modelWindows"@ || key == "modelVlm"@ || key == "vlmApiKey"@
        || key == "sub2apiMultiplier"@
}

/// The fields of a change that a stored relay cannot have.
pub open spec fn unknown_relay_fields(relay: JsonView, patch: JsonView) -> Set<Seq<char>> {
    match patch {
        JsonView::Object(changes) => changes.dom().filter(
            |k: Seq<char>| relay.field(k) is None && !is_optional_field(k),
        ),
        _ => Set::empty(),
    }
}

/// A stored relay after a change of its fields.
pub open spec fn patched_relay(relay: JsonView, patch: JsonView) -> Result<JsonView, Seq<char>> {
    let unknown = unknown_relay_fields(relay, patch);
    if unknown != Set::<Seq<char>>::empty() {
        Err("Unknown provider field: "@ + least_text(unknown))
    } else {
        Ok(merged_object(relay, patch))
    }
}

/// Changes the fields of a stored relay.
pub fn patch_provider(relay: &mut Json, patch: &Json) -> (r: Result<(), String>)
    requires
        old(relay)@ is Object,
        patch@ is Object,
    ensures
        match r {
            Ok(_) => patched_relay(old(relay)@, patch@) == Ok::<JsonView, Seq<char>>(final(relay)@),
            Err(message) => patched_relay(old(relay)@, patch@) == Err::<JsonView, Seq<char>>(
                message@,
            ) && *final(relay) == *old(relay),
        },
{
    let optional: Vec<&str> = vec![
        "model",
        "baseUrl",
        "apiKey",
        "userAgent",
        "modelRoutes",
        "modelWindows",
        "modelVlm",
        "vlmApiKey",
        "sub2apiMultiplier",
    ];
    proof {
        assert forall|k: Seq<char>| is_one_of(k, optional@) == is_optional_field(k) by {
            assert(optional@[0]@ == "model"@);
            assert(optional@[1]@ == "baseUrl"@);
            assert(optional@[2]@ == "apiKey"@);
            assert(optional@[3]@ == "userAgent"@);
            assert(optional@[4]@ == "modelRoutes"@);
            assert(optional@[5]@ == "modelWindows"@);
            assert(optional@[6]@ == "modelVlm"@);
            assert(optional@[7]@ == "vlmApiKey"@);
            assert(optional@[8]@ == "sub2apiMultiplier"@);
        }
        assert(unknown_fields(relay@, patch@, optional@) =~= unknown_relay_fields(
            relay@,
            patch@,
        ));
    }
    if let Some(key) = first_unknown_field(relay, patch, &optional) {
        proof {
            lemma_least_text(key@, unknown_relay_fields(relay@, patch@));
            assert(unknown_relay_fields(relay@, patch@).contains(key@));
        }
        return Err(concat("Unknown provider field: ", key.as_str()));
    }
    merge_object(relay, patch);
    Ok(())
}

/// The aggregates after the relay of one got another name.
pub open spec fn renamed_aggregates(
    aggregates: Seq<AggregateRelayProfileView>,
    relay: RelayProfileView,
    id: Seq<char>,
) -> Seq<AggregateRelayProfileView> {
    match aggregate_position(aggregates, id, 0) {
        Some(i) if relay.relay_mode == RelayMode::Aggregate => aggregates.update(
            i,
            AggregateRelayProfileView { name: relay.name, ..aggregates[i] },
        ),
        _ => aggregates,
    }
}

/// The relays after one of them was replaced. An aggregate takes the name of its relay.
pub open spec fn with_relay(
    settings: RelaySettingsView,
    id: Seq<char>,
    relay: RelayProfileView,
) -> Option<RelaySettingsView> {
    match relay_position(settings.relay_profiles, id) {
        None => None,
        Some(p) => Some(
            RelaySettingsView {
                relay_profiles: settings.relay_profiles.update(p, relay),
                aggregate_relay_profiles: renamed_aggregates(
                    settings.aggregate_relay_profiles,
                    relay,
                    id,
                ),
                ..settings
            },
        ),
    }
}

fn rename_aggregates(
    aggregates: &Vec<AggregateRelayProfile>,
    relay: &RelayProfile,
    id: &str,
) -> (r: Vec<AggregateRelayProfile>)
    ensures
        aggregate_relay_profile_views(r@) == renamed_aggregates(
            aggregate_relay_profile_views(aggregates@),
            relay@,
            id@,
        ),
{
    let ghost before = aggregate_relay_profile_views(aggregates@);
    let mut r = copy_aggregate_relay_profiles(aggregates);
    if relay.relay_mode == RelayMode::Aggregate {
        if let Some(i) = find_aggregate(aggregates, id) {
            assert(before[i as int] == aggregates@[i as int]@);
            let aggregate = aggregates[i].copy();
            let renamed = AggregateRelayProfile { name: relay.name.clone(), ..aggregate };
            assert(aggregate_relay_profile_views(r@).len() == r@.len());
            let ghost list = r@;
            r.set(i, renamed);
            proof {
                assert forall|j: int| 0 <= j < list.len() implies (#[trigger] list[j])@
                    == before[j] by {
                    assert(aggregate_relay_profile_views(list)[j] == before[j]);
                }
                assert(aggregate_relay_profile_views(r@) =~= before.update(i as int, renamed@));
            }
        }
    }
    r
}

/// Replaces a relay by its changed self.
pub fn replace_provider(settings: BackendSettings, id: &str, relay: RelayProfile) -> (r: Option<
    BackendSettings,
>)
    ensures
        match r {
            Some(after) => with_relay(settings@.relays, id@, relay@) == Some(after@.relays)
                && after@ == (BackendSettingsView { relays: after@.relays, ..settings@ }),
            None => with_relay(settings@.relays, id@, relay@) is None,
        },
{
    let p = match find_relay(&settings.relays.relay_profiles, id) {
        Some(p) => p,
        None => {
            return None;
        },
    };
    let ghost before = settings@.relays;
    let aggregates = rename_aggregates(&settings.relays.aggregate_relay_profiles, &relay, id);
    let mut list = copy_relay_profiles(&settings.relays.relay_profiles);
    assert(relay_profile_views(list@).len() == list@.len());
    let ghost copied = list@;
    list.set(p, relay);
    proof {
        assert forall|j: int| 0 <= j < copied.len() implies (#[trigger] copied[j])@
            == before.relay_profiles[j] by {
            assert(relay_profile_views(copied)[j] == before.relay_profiles[j]);
        }
        assert(relay_profile_views(list@) =~= before.relay_profiles.update(p as int, relay@));
    }
    let relays = RelaySettings {
        relay_profiles: list,
        aggregate_relay_profiles: aggregates,
        ..settings.relays
    };
    Some(BackendSettings { relays, ..settings })
}

/// The relays after one got another name.
pub open spec fn renamed_relays(
    relays: Seq<RelayProfileView>,
    id: Seq<char>,
    name: Option<JsonView>,
) -> Result<Seq<RelayProfileView>, Seq<char>> {
    match name {
        None => Ok(relays),
        Some(value) => match value.text() {
            None => Err("name must be a string"@),
            Some(text) => match relay_position(relays, id) {
                None => Err("Aggregate profile not found"@),
                Some(p) => Ok(relays.update(p, RelayProfileView { name: text, ..relays[p] })),
            },
        },
    }
}

/// The relays after an aggregate was replaced; a change of its name renames its relay.
pub open spec fn with_aggregate(
    settings: RelaySettingsView,
    id: Seq<char>,
    aggregate: AggregateRelayProfileView,
    name: Option<JsonView>,
) -> Result<RelaySettingsView, Seq<char>> {
    match aggregate_position(settings.aggregate_relay_profiles, id, 0) {
        None => Err("Aggregate not found"@),
        Some(i) => match renamed_relays(settings.relay_profiles, id, name) {
            Err(message) => Err(message),
            Ok(relays) => Ok(
                RelaySettingsView {
                    aggregate_relay_profiles: settings.aggregate_relay_profiles.update(
                        i,
                        aggregate,
                    ),
                    relay_profiles: relays,
                    ..settings
                },
            ),
        },
    }
}

fn rename_relay(relay: RelayProfile, name: String) -> (r: RelayProfile)
    ensures
        r@ == (RelayProfileView { name: name@, ..relay@ }),
{
    RelayProfile { name, ..relay }
}

pub open spec fn json_option(value: Option<&Json>) -> Option<JsonView> {
    match value {
        Some(v) => Some(v@),
        None => None,
    }
}

fn rename_relays(relays: &Vec<RelayProfile>, id: &str, name: Option<&Json>) -> (r: Result<
    Vec<RelayProfile>,
    String,
>)
    ensures
        match r {
            Ok(list) => renamed_relays(relay_profile_views(relays@), id@, json_option(name)) == Ok::<
                Seq<RelayProfileView>,
                Seq<char>,
            >(relay_profile_views(list@)),
            Err(message) => renamed_relays(relay_profile_views(relays@), id@, json_option(name))
                == Err::<Seq<RelayProfileView>, Seq<char>>(message@),
        },
{
    let mut list = copy_relay_profiles(relays);
    let ghost before = relay_profile_views(relays@);
    let ghost copied = list@;
    assert(relay_profile_views(copied).len() == copied.len());
    let value = match name {
        Some(value) => value,
        None => {
            return Ok(list);
        },
    };
    let text = match value.as_text() {
        Some(text) => text,
        None => {
            return Err("name must be a string".to_owned());
        },
    };
    match find_relay(relays, id) {
        Some(p) => {
            assert(before[p as int] == relays@[p as int]@);
            let renamed = rename_relay(relays[p].copy(), text.to_owned());
            list.set(p, renamed);
            proof {
                assert forall|j: int| 0 <= j < copied.len() implies (#[trigger] copied[j])@
                    == before[j] by {
                    assert(relay_profile_views(copied)[j] == before[j]);
                }
                assert(relay_profile_views(list@) =~= before.update(p as int, renamed@));
            }
            Ok(list)
        },
        None => Err("Aggregate profile not found".to_owned()),
    }
}

/// Replaces an aggregate by its changed self.
pub fn replace_aggregate(
    settings: BackendSettings,
    id: &str,
    aggregate: AggregateRelayProfile,
    name: Option<&Json>,
) -> (r: Result<BackendSettings, String>)
    ensures
        match r {
            Ok(after) => with_aggregate(settings@.relays, id@, aggregate@, json_option(name))
                == Ok::<RelaySettingsView, Seq<char>>(after@.relays) && after@ == (
            BackendSettingsView { relays: after@.relays, ..settings@ }),
            Err(message) => with_aggregate(settings@.relays, id@, aggregate@, json_option(name))
                == Err::<RelaySettingsView, Seq<char>>(message@),
        },
{
    let i = match find_aggregate(&settings.relays.aggregate_relay_profiles, id) {
        Some(i) => i,
        None => {
            return Err("Aggregate not found".to_owned());
        },
    };
    let relays = match rename_relays(&settings.relays.relay_profiles, id, name) {
        Ok(relays) => relays,
        Err(message) => {
            return Err(message);
        },
    };
    let ghost before = settings@.relays;
    let mut aggregates = copy_aggregate_relay_profiles(&settings.relays.aggregate_relay_profiles);
    let ghost copied = aggregates@;
    assert(aggregate_relay_profile_views(copied).len() == copied.len());
    aggregates.set(i, aggregate);
    proof {
        assert forall|j: int| 0 <= j < copied.len() implies (#[trigger] copied[j])@
            == before.aggregate_relay_profiles[j] by {
            assert(aggregate_relay_profile_views(copied)[j] == before.aggregate_relay_profiles[j]);
        }
        assert(aggregate_relay_profile_views(aggregates@)
            =~= before.aggregate_relay_profiles.update(i as int, aggregate@));
    }
    let changed = RelaySettings {
        relay_profiles: relays,
        aggregate_relay_profiles: aggregates,
        ..settings.relays
    };
    Ok(BackendSettings { relays: changed, ..settings })
}

} // verus!
