//! What settings must hold, what is hidden of them, and what changes do to them.
use vstd::prelude::*;

use super::changes::{
    lemma_picked, lemma_picked_error, patched_relay, picked, reordered, switched, unnamed,
    with_aggregate, with_relay,
};
use super::patch::{hidden, is_secret, merged_object, patched, redacted, unknown_fields};
use super::validate::{bad_member, fault_of_aggregate, fault_of_aggregates, fault_of_settings};
use crate::json::JsonView;
use crate::settings::active::{lemma_relay_position, relay_position};
use crate::settings::active_laws::lemma_aggregate_position;
use crate::settings::backend::RelaySettingsView;
use crate::settings::types::{
    AggregateRelayMemberView, AggregateRelayProfileView, RelayMode, RelayProfileView,
};
use crate::text::{has_part, has_suffix, is_least, lowered};

verus! {

/// A relay stands at a place, and is an aggregate or none.
pub open spec fn stands_at(
    relays: Seq<RelayProfileView>,
    place: int,
    id: Seq<char>,
    aggregate: bool,
) -> bool {
    &&& 0 <= place < relays.len()
    &&& relays[place].id == id
    &&& aggregate == (relays[place].relay_mode == RelayMode::Aggregate)
}

pub open spec fn stands(relays: Seq<RelayProfileView>, id: Seq<char>, aggregate: bool) -> bool {
    exists|place: int| stands_at(relays, place, id, aggregate)
}

/// A member counts, is named for the first time and is a plain relay.
pub open spec fn member_is_sound(
    relays: Seq<RelayProfileView>,
    members: Seq<AggregateRelayMemberView>,
    i: int,
) -> bool {
    &&& members[i].weight >= 1
    &&& forall|j: int| 0 <= j < i ==> (#[trigger] members[j]).relay_id != members[i].relay_id
    &&& stands(relays, members[i].relay_id, false)
}

pub open spec fn aggregate_is_sound(
    relays: Seq<RelayProfileView>,
    aggregate: AggregateRelayProfileView,
) -> bool {
    &&& stands(relays, aggregate.id, true)
    &&& aggregate.members.len() >= 1
    &&& forall|i: int|
        0 <= i < aggregate.members.len() ==> #[trigger] member_is_sound(
            relays,
            aggregate.members,
            i,
        )
}

proof fn lemma_bad_member(
    relays: Seq<RelayProfileView>,
    members: Seq<AggregateRelayMemberView>,
    from: int,
)
    requires
        0 <= from <= members.len(),
    ensures
        match bad_member(relays, members, from) {
            Some(i) => from <= i < members.len() && !member_is_sound(relays, members, i)
                && forall|j: int|
                from <= j < i ==> #[trigger] member_is_sound(relays, members, j),
            None => forall|j: int|
                from <= j < members.len() ==> #[trigger] member_is_sound(relays, members, j),
        },
    decreases members.len() - from,
{
    if from < members.len() {
        lemma_stands(relays, members[from].relay_id, false);
        lemma_bad_member(relays, members, from + 1);
    }
}

proof fn lemma_stands(relays: Seq<RelayProfileView>, id: Seq<char>, aggregate: bool)
    ensures
        stands(relays, id, aggregate) == super::validate::has_relay(relays, id, aggregate),
{
    if stands(relays, id, aggregate) {
        let place = choose|place: int| stands_at(relays, place, id, aggregate);
        assert(relays[place].id == id);
    }
    if super::validate::has_relay(relays, id, aggregate) {
        let place = choose|i: int|
            0 <= i < relays.len() && (#[trigger] relays[i]).id == id && (relays[i].relay_mode
                == RelayMode::Aggregate) == aggregate;
        assert(stands_at(relays, place, id, aggregate));
    }
}

/// What an aggregate is told of: that no relay is its own, that it has no member, or its first
/// member that is not as it should be; a sound one is told of nothing.
pub proof fn faults_of_an_aggregate_are_told(
    relays: Seq<RelayProfileView>,
    aggregate: AggregateRelayProfileView,
    i: int,
)
    ensures
        fault_of_aggregate(relays, aggregate) is None <==> aggregate_is_sound(relays, aggregate),
        !stands(relays, aggregate.id, true) ==> fault_of_aggregate(relays, aggregate) == Some(
            "Aggregate has no matching provider profile: "@ + aggregate.id,
        ),
        stands(relays, aggregate.id, true) && aggregate.members.len() == 0 ==> fault_of_aggregate(
            relays,
            aggregate,
        ) == Some("Aggregate must have a member: "@ + aggregate.id),
        stands(relays, aggregate.id, true) && 0 <= i < aggregate.members.len() && !member_is_sound(
            relays,
            aggregate.members,
            i,
        ) && (forall|j: int|
            0 <= j < i ==> #[trigger] member_is_sound(relays, aggregate.members, j))
            ==> fault_of_aggregate(relays, aggregate) == Some(
            "Invalid or duplicate aggregate member: "@ + aggregate.members[i].relay_id,
        ),
{
    lemma_stands(relays, aggregate.id, true);
    lemma_bad_member(relays, aggregate.members, 0);
}

proof fn lemma_fault_of_aggregates(settings: RelaySettingsView, from: int)
    requires
        0 <= from <= settings.aggregate_relay_profiles.len(),
    ensures
        fault_of_aggregates(settings, from) is None <==> forall|i: int|
            from <= i < settings.aggregate_relay_profiles.len() ==> aggregate_is_sound(
                settings.relay_profiles,
                #[trigger] settings.aggregate_relay_profiles[i],
            ),
    decreases settings.aggregate_relay_profiles.len() - from,
{
    if from < settings.aggregate_relay_profiles.len() {
        faults_of_an_aggregate_are_told(
            settings.relay_profiles,
            settings.aggregate_relay_profiles[from],
            0,
        );
        lemma_fault_of_aggregates(settings, from + 1);
    }
}

/// Settings are stored exactly where every relay has an id of its own, the active relay stands among
/// them, and every aggregate is sound.
pub proof fn sound_settings_are_stored(settings: RelaySettingsView)
    ensures
        fault_of_settings(settings) is None <==> {
            let relays = settings.relay_profiles;
            &&& forall|i: int| 0 <= i < relays.len() ==> (#[trigger] relays[i]).id.len() >= 1
            &&& forall|i: int, j: int|
                0 <= i < j < relays.len() ==> (#[trigger] relays[i]).id != (#[trigger] relays[j]).id
            &&& stands(relays, settings.active_relay_id, true) || stands(
                relays,
                settings.active_relay_id,
                false,
            )
            &&& forall|i: int|
                0 <= i < settings.aggregate_relay_profiles.len() ==> aggregate_is_sound(
                    relays,
                    #[trigger] settings.aggregate_relay_profiles[i],
                )
        },
{
    let relays = settings.relay_profiles;
    let id = settings.active_relay_id;
    lemma_relay_position(relays, id);
    lemma_fault_of_aggregates(settings, 0);
    match relay_position(relays, id) {
        Some(p) => {
            assert(stands_at(relays, p, id, relays[p].relay_mode == RelayMode::Aggregate));
            assert(stands(relays, id, true) || stands(relays, id, false));
        },
        None => {
            assert forall|place: int, aggregate: bool| !stands_at(relays, place, id, aggregate) by {
                if 0 <= place < relays.len() {
                    assert(relays[place].id != id);
                }
            }
        },
    }
}

/// Two relays with one id are told of first, a missing active relay after them, and then the first
/// aggregate that is not sound.
pub proof fn first_fault_of_settings_is_told(settings: RelaySettingsView, i: int)
    ensures
        ({
            let relays = settings.relay_profiles;
            let aggregates = settings.aggregate_relay_profiles;
            let told = fault_of_settings(settings);
            let distinct = super::validate::ids_are_distinct(relays);
            let active = stands(relays, settings.active_relay_id, true) || stands(
                relays,
                settings.active_relay_id,
                false,
            );
            &&& !distinct ==> told == Some("Duplicate or empty provider id"@)
            &&& distinct && !active ==> told == Some("Active provider does not exist"@)
            &&& distinct && active && 0 <= i < aggregates.len() && !aggregate_is_sound(
                relays,
                aggregates[i],
            ) && (forall|j: int|
                0 <= j < i ==> aggregate_is_sound(relays, #[trigger] aggregates[j])) ==> told
                == fault_of_aggregate(relays, aggregates[i])
        }),
{
    let relays = settings.relay_profiles;
    let id = settings.active_relay_id;
    lemma_relay_position(relays, id);
    match relay_position(relays, id) {
        Some(p) => {
            assert(stands_at(relays, p, id, relays[p].relay_mode == RelayMode::Aggregate));
        },
        None => {
            assert forall|place: int, aggregate: bool| !stands_at(relays, place, id, aggregate) by {
                if 0 <= place < relays.len() {
                    assert(relays[place].id != id);
                }
            }
        },
    }
    let aggregates = settings.aggregate_relay_profiles;
    if 0 <= i < aggregates.len() && !aggregate_is_sound(relays, aggregates[i]) && (forall|j: int|
        0 <= j < i ==> aggregate_is_sound(relays, #[trigger] aggregates[j])) {
        lemma_first_bad_aggregate(settings, 0, i);
    }
}

proof fn lemma_first_bad_aggregate(settings: RelaySettingsView, from: int, i: int)
    requires
        0 <= from <= i < settings.aggregate_relay_profiles.len(),
        !aggregate_is_sound(settings.relay_profiles, settings.aggregate_relay_profiles[i]),
        forall|j: int|
            0 <= j < i ==> aggregate_is_sound(
                settings.relay_profiles,
                #[trigger] settings.aggregate_relay_profiles[j],
            ),
    ensures
        fault_of_aggregates(settings, from) == fault_of_aggregate(
            settings.relay_profiles,
            settings.aggregate_relay_profiles[i],
        ),
    decreases i - from,
{
    faults_of_an_aggregate_are_told(
        settings.relay_profiles,
        settings.aggregate_relay_profiles[from],
        0,
    );
    if from < i {
        lemma_first_bad_aggregate(settings, from + 1, i);
    }
}

/// A key holds a secret exactly where one of the known words occurs in it, in any letter case, or
/// "token" ends it.
pub proof fn secrets_are_known_by_their_keys(key: Seq<char>, before: Seq<char>, after: Seq<char>)
    ensures
        lowered(key) == before + "apikey"@ + after ==> is_secret(key),
        lowered(key) == before + "apisecret"@ + after ==> is_secret(key),
        lowered(key) == before + "password"@ + after ==> is_secret(key),
        lowered(key) == before + "authcontents"@ + after ==> is_secret(key),
        lowered(key) == before + "configcontents"@ + after ==> is_secret(key),
        lowered(key) == before + "token"@ ==> is_secret(key),
        is_secret(key) ==> {
            let low = lowered(key);
            ||| has_suffix(low, "token"@)
            ||| exists|i: int| #[trigger] occurs_at(low, "apikey"@, i)
            ||| exists|i: int| #[trigger] occurs_at(low, "apisecret"@, i)
            ||| exists|i: int| #[trigger] occurs_at(low, "password"@, i)
            ||| exists|i: int| #[trigger] occurs_at(low, "authcontents"@, i)
            ||| exists|i: int| #[trigger] occurs_at(low, "configcontents"@, i)
        },
{
    let low = lowered(key);
    lemma_part(low, before, "apikey"@, after);
    lemma_part(low, before, "apisecret"@, after);
    lemma_part(low, before, "password"@, after);
    lemma_part(low, before, "authcontents"@, after);
    lemma_part(low, before, "configcontents"@, after);
    if low == before + "token"@ {
        assert(low.skip(low.len() - "token"@.len()) =~= "token"@);
    }
}

/// A text stands at a place of another.
pub open spec fn occurs_at(s: Seq<char>, part: Seq<char>, i: int) -> bool {
    0 <= i && i + part.len() <= s.len() && s.subrange(i, i + part.len()) == part
}

proof fn lemma_part(s: Seq<char>, before: Seq<char>, part: Seq<char>, after: Seq<char>)
    ensures
        s == before + part + after ==> has_part(s, part),
        has_part(s, part) ==> exists|i: int| #[trigger] occurs_at(s, part, i),
{
    if s == before + part + after {
        let i = before.len() as int;
        assert(s.subrange(i, i + part.len()) =~= part);
    }
    if has_part(s, part) {
        let i = choose|i: int|
            0 <= i <= s.len() - part.len() && #[trigger] s.subrange(i, i + part.len()) == part;
        assert(occurs_at(s, part, i));
    }
}

/// A value that is shown has the fields and items that it has, in their places; what holds no secret
/// is shown as it is.
pub proof fn only_secrets_are_hidden(value: JsonView, key: Seq<char>, i: int)
    ensures
        !(value is Array) && !(value is Object) ==> redacted(value) == value,
        value is Object ==> {
            &&& redacted(value) is Object
            &&& (redacted(value).field(key) is Some) == (value.field(key) is Some)
            &&& value.field(key) is Some && !is_secret(key) ==> redacted(value).field(key) == Some(
                redacted(value.field(key)->0),
            )
            &&& value.field(key) is Some && is_secret(key) && value.field(key)
                != Some(JsonView::Null) && value.field(key) != Some(JsonView::Text(""@))
                ==> redacted(value).field(key) == Some(JsonView::Text("[redacted]"@))
            &&& value.field(key) == Some(JsonView::Null) ==> redacted(value).field(key) == Some(
                JsonView::Null,
            )
            &&& value.field(key) == Some(JsonView::Text(""@)) ==> redacted(value).field(key)
                == Some(JsonView::Text(""@))
        },
        value matches JsonView::Array(items) ==> {
            &&& redacted(value) is Array
            &&& redacted(value)->Array_0.len() == items.len()
            &&& 0 <= i < items.len() ==> redacted(value)->Array_0[i] == redacted(items[i])
        },
{
    assert(hidden(JsonView::Null) == JsonView::Null);
    assert(hidden(JsonView::Text(""@)) == JsonView::Text(""@));
    if value is Object && value.field(key) is Some {
        assert(redacted(value).field(key) is Some);
    }
}

/// An object takes over every field of a change and keeps its others.
pub proof fn changes_are_taken_over(target: JsonView, patch: JsonView, key: Seq<char>)
    requires
        target is Object,
        patch is Object,
    ensures
        merged_object(target, patch) is Object,
        patch.field(key) is Some ==> merged_object(target, patch).field(key) == patch.field(key),
        patch.field(key) is None ==> merged_object(target, patch).field(key) == target.field(key),
{
}

/// A change is made exactly where it is an object without a field that is unknown; else the first of
/// those, in their order, is told of.
pub proof fn unknown_settings_are_refused(target: JsonView, patch: JsonView, key: Seq<char>)
    requires
        target is Object,
    ensures
        !(patch is Object) ==> patched(target, patch) == Err::<JsonView, Seq<char>>(
            "patch must be an object"@,
        ),
        patch is Object && (forall|k: Seq<char>| #[trigger]
            patch.field(k) is Some ==> target.field(k) is Some) ==> patched(target, patch) == Ok::<
            JsonView,
            Seq<char>,
        >(merged_object(target, patch)),
        patch is Object && patch.field(key) is Some && target.field(key) is None ==> patched(
            target,
            patch,
        ) is Err,
        patch is Object && is_least(
            key,
            Set::new(|k: Seq<char>| patch.field(k) is Some && target.field(k) is None),
        ) ==> patched(target, patch) == Err::<JsonView, Seq<char>>("Unknown setting: "@ + key),
{
    if patch is Object {
        let unknown = unknown_fields(target, patch, seq![]);
        let lacking = Set::new(|k: Seq<char>| patch.field(k) is Some && target.field(k) is None);
        assert(unknown =~= lacking);
        if forall|k: Seq<char>| #[trigger] patch.field(k) is Some ==> target.field(k) is Some {
            assert(unknown =~= Set::<Seq<char>>::empty());
        }
        if patch.field(key) is Some && target.field(key) is None {
            assert(unknown.contains(key));
        }
        if is_least(key, lacking) {
            crate::text::lemma_least_text(key, unknown);
            assert(unknown.contains(key));
        }
    }
}

/// The fields that a relay may get though it has none yet.
pub open spec fn may_be_added(key: Seq<char>) -> bool {
    seq![
        "model"@,
        "baseUrl"@,
        "apiKey"@,
        "userAgent"@,
        "modelRoutes"@,
        "modelWindows"@,
        "modelVlm"@,
        "vlmApiKey"@,
        "sub2apiMultiplier"@,
    ].contains(key)
}

proof fn lemma_may_be_added(key: Seq<char>)
    ensures
        may_be_added(key) == super::changes::is_optional_field(key),
{
    let list = seq![
        "model"@,
        "baseUrl"@,
        "apiKey"@,
        "userAgent"@,
        "modelRoutes"@,
        "modelWindows"@,
        "modelVlm"@,
        "vlmApiKey"@,
        "sub2apiMultiplier"@,
    ];
    assert(list[0] == "model"@ && list[1] == "baseUrl"@ && list[2] == "apiKey"@);
    assert(list[3] == "userAgent"@ && list[4] == "modelRoutes"@ && list[5] == "modelWindows"@);
    assert(list[6] == "modelVlm"@ && list[7] == "vlmApiKey"@ && list[8] == "sub2apiMultiplier"@);
}

/// A change of a relay is made exactly where each of its fields is one that the relay has or may get;
/// else the first other one, in their order, is told of.
pub proof fn unknown_relay_fields_are_refused(relay: JsonView, patch: JsonView, key: Seq<char>)
    requires
        relay is Object,
        patch is Object,
    ensures
        (forall|k: Seq<char>| #[trigger]
            patch.field(k) is Some ==> relay.field(k) is Some || may_be_added(k)) ==> patched_relay(
            relay,
            patch,
        ) == Ok::<JsonView, Seq<char>>(merged_object(relay, patch)),
        patch.field(key) is Some && relay.field(key) is None && !may_be_added(key)
            ==> patched_relay(relay, patch) is Err,
        is_least(
            key,
            Set::new(
                |k: Seq<char>|
                    patch.field(k) is Some && relay.field(k) is None && !may_be_added(k),
            ),
        ) ==> patched_relay(relay, patch) == Err::<JsonView, Seq<char>>(
            "Unknown provider field: "@ + key,
        ),
{
    let unknown = super::changes::unknown_relay_fields(relay, patch);
    let lacking = Set::new(
        |k: Seq<char>| patch.field(k) is Some && relay.field(k) is None && !may_be_added(k),
    );
    assert forall|k: Seq<char>| unknown.contains(k) == lacking.contains(k) by {
        lemma_may_be_added(k);
    }
    assert(unknown =~= lacking);
    if forall|k: Seq<char>| #[trigger]
        patch.field(k) is Some ==> relay.field(k) is Some || may_be_added(k) {
        assert(unknown =~= Set::<Seq<char>>::empty());
    }
    if patch.field(key) is Some && relay.field(key) is None && !may_be_added(key) {
        assert(unknown.contains(key));
    }
    if is_least(key, lacking) {
        crate::text::lemma_least_text(key, unknown);
        assert(unknown.contains(key));
    }
}

/// A switch makes the named relay the active one, and the active aggregate where it is one, else none;
/// nothing else changes. A relay that is not there, or that is no aggregate where one is asked for,
/// is refused.
pub proof fn switching_changes_the_active_relay_only(
    settings: RelaySettingsView,
    place: int,
    aggregate_only: bool,
)
    requires
        0 <= place < settings.relay_profiles.len(),
        forall|j: int|
            0 <= j < place ==> (#[trigger] settings.relay_profiles[j]).id
                != settings.relay_profiles[place].id,
    ensures
        ({
            let relay = settings.relay_profiles[place];
            let aggregate = relay.relay_mode == RelayMode::Aggregate;
            match switched(settings, relay.id, aggregate_only) {
                Ok(after) => {
                    &&& aggregate_only ==> aggregate
                    &&& after.active_relay_id == relay.id
                    &&& aggregate ==> after.active_aggregate_relay_id == relay.id
                    &&& !aggregate ==> after.active_aggregate_relay_id.len() == 0
                    &&& after.relay_profiles == settings.relay_profiles
                    &&& after.aggregate_relay_profiles == settings.aggregate_relay_profiles
                    &&& after.relay_profiles_enabled == settings.relay_profiles_enabled
                },
                Err(message) => aggregate_only && !aggregate && message
                    == "Selected provider is not an aggregate"@,
            }
        }),
{
    lemma_relay_position(settings.relay_profiles, settings.relay_profiles[place].id);
}

/// A relay that is not there cannot be switched to.
pub proof fn strangers_cannot_be_switched_to(
    settings: RelaySettingsView,
    id: Seq<char>,
    aggregate_only: bool,
)
    requires
        forall|j: int|
            0 <= j < settings.relay_profiles.len() ==> (#[trigger] settings.relay_profiles[j]).id
                != id,
    ensures
        switched(settings, id, aggregate_only) == Err::<RelaySettingsView, Seq<char>>(
            "Provider not found"@,
        ),
{
    lemma_relay_position(settings.relay_profiles, id);
}

/// The named relays come first, in the order in which they are named.
pub proof fn named_relays_come_first(
    relays: Seq<RelayProfileView>,
    ids: Seq<Seq<char>>,
    i: int,
)
    requires
        reordered(relays, ids) is Ok,
        0 <= i < ids.len(),
    ensures
        reordered(relays, ids)->Ok_0.len() >= ids.len(),
        reordered(relays, ids)->Ok_0[i].id == ids[i],
        relays.contains(reordered(relays, ids)->Ok_0[i]),
{
    lemma_picked(relays, ids, ids.len() as int);
    lemma_relay_position(relays, ids[i]);
}

/// Where a relay that is not named stands among those.
proof fn lemma_unnamed_place(
    relays: Seq<RelayProfileView>,
    ids: Seq<Seq<char>>,
    n: int,
    i: int,
) -> (place: int)
    requires
        0 <= i < n <= relays.len(),
        !ids.contains(relays[i].id),
    ensures
        place == unnamed(relays, ids, i).len(),
        place < unnamed(relays, ids, n).len(),
        unnamed(relays, ids, n)[place] == relays[i],
    decreases n,
{
    if n > i + 1 {
        lemma_unnamed_place(relays, ids, n - 1, i)
    } else {
        unnamed(relays, ids, i).len() as int
    }
}

proof fn lemma_unnamed_grows(relays: Seq<RelayProfileView>, ids: Seq<Seq<char>>, m: int, n: int)
    requires
        0 <= m <= n <= relays.len(),
    ensures
        unnamed(relays, ids, m).len() <= unnamed(relays, ids, n).len(),
    decreases n,
{
    if m < n {
        lemma_unnamed_grows(relays, ids, m, n - 1);
    }
}

/// The relays that are not named follow, in the order that they had.
pub proof fn other_relays_keep_their_order(
    relays: Seq<RelayProfileView>,
    ids: Seq<Seq<char>>,
    i: int,
    j: int,
) -> (places: (int, int))
    requires
        reordered(relays, ids) is Ok,
        0 <= i < j < relays.len(),
        !ids.contains(relays[i].id),
        !ids.contains(relays[j].id),
    ensures
        ids.len() <= places.0 < places.1 < reordered(relays, ids)->Ok_0.len(),
        reordered(relays, ids)->Ok_0[places.0] == relays[i],
        reordered(relays, ids)->Ok_0[places.1] == relays[j],
{
    lemma_picked(relays, ids, ids.len() as int);
    let a = lemma_unnamed_place(relays, ids, relays.len() as int, i);
    let b = lemma_unnamed_place(relays, ids, relays.len() as int, j);
    lemma_unnamed_grows(relays, ids, i + 1, j);
    (ids.len() + a, ids.len() + b)
}

/// The first name that was named before, or that no relay has, is told of.
pub proof fn bad_orders_are_refused(relays: Seq<RelayProfileView>, ids: Seq<Seq<char>>, i: int)
    requires
        0 <= i < ids.len(),
        forall|k: int, l: int|
            0 <= k < l < i ==> (#[trigger] ids[k]) != (#[trigger] ids[l]),
        forall|k: int|
            0 <= k < i ==> exists|p: int|
                0 <= p < relays.len() && (#[trigger] relays[p]).id == #[trigger] ids[k],
    ensures
        (exists|k: int| 0 <= k < i && #[trigger] ids[k] == ids[i]) ==> reordered(relays, ids)
            == Err::<Seq<RelayProfileView>, Seq<char>>("Duplicate provider id: "@ + ids[i]),
        (forall|k: int| 0 <= k < i ==> #[trigger] ids[k] != ids[i]) && (forall|p: int|
            0 <= p < relays.len() ==> (#[trigger] relays[p]).id != ids[i]) ==> reordered(
            relays,
            ids,
        ) == Err::<Seq<RelayProfileView>, Seq<char>>("Unknown provider in order"@),
{
    lemma_picks(relays, ids, i);
    lemma_relay_position(relays, ids[i]);
    if picked(relays, ids, i + 1) is Err {
        lemma_picked_error(relays, ids, i + 1, ids.len() as int);
    }
}

proof fn lemma_picks(relays: Seq<RelayProfileView>, ids: Seq<Seq<char>>, n: int)
    requires
        0 <= n <= ids.len(),
        forall|k: int, l: int|
            0 <= k < l < n ==> (#[trigger] ids[k]) != (#[trigger] ids[l]),
        forall|k: int|
            0 <= k < n ==> exists|p: int|
                0 <= p < relays.len() && (#[trigger] relays[p]).id == #[trigger] ids[k],
    ensures
        picked(relays, ids, n) is Ok,
    decreases n,
{
    if n > 0 {
        lemma_picks(relays, ids, n - 1);
        lemma_relay_position(relays, ids[n - 1]);
        assert(exists|p: int| 0 <= p < relays.len() && (#[trigger] relays[p]).id == ids[n - 1]);
    }
}

/// Names that are all known and different give an order.
pub proof fn good_orders_are_taken(relays: Seq<RelayProfileView>, ids: Seq<Seq<char>>)
    requires
        forall|k: int, l: int|
            0 <= k < l < ids.len() ==> (#[trigger] ids[k]) != (#[trigger] ids[l]),
        forall|k: int|
            0 <= k < ids.len() ==> exists|p: int|
                0 <= p < relays.len() && (#[trigger] relays[p]).id == #[trigger] ids[k],
    ensures
        reordered(relays, ids) is Ok,
{
    lemma_picks(relays, ids, ids.len() as int);
}

/// A changed relay takes the place of the old one, and an aggregate of its id takes its name where it
/// is an aggregate; every other relay and aggregate stays.
pub proof fn changed_relay_takes_its_place(
    settings: RelaySettingsView,
    id: Seq<char>,
    relay: RelayProfileView,
    i: int,
)
    requires
        with_relay(settings, id, relay) is Some,
    ensures
        ({
            let after = with_relay(settings, id, relay)->0;
            let relays = settings.relay_profiles;
            let aggregates = settings.aggregate_relay_profiles;
            &&& after.relay_profiles.len() == relays.len()
            &&& 0 <= i < relays.len() && relays[i].id != id ==> after.relay_profiles[i] == relays[i]
            &&& 0 <= i < relays.len() && relays[i].id == id && (forall|j: int|
                0 <= j < i ==> (#[trigger] relays[j]).id != id) ==> after.relay_profiles[i] == relay
            &&& after.aggregate_relay_profiles.len() == aggregates.len()
            &&& 0 <= i < aggregates.len() && aggregates[i].id != id
                ==> after.aggregate_relay_profiles[i] == aggregates[i]
            &&& relay.relay_mode != RelayMode::Aggregate ==> after.aggregate_relay_profiles
                == aggregates
            &&& relay.relay_mode == RelayMode::Aggregate && 0 <= i < aggregates.len()
                && aggregates[i].id == id && (forall|j: int|
                0 <= j < i ==> (#[trigger] aggregates[j]).id != id) ==> {
                &&& after.aggregate_relay_profiles[i].name == relay.name
                &&& after.aggregate_relay_profiles[i].id == id
                &&& after.aggregate_relay_profiles[i].members == aggregates[i].members
                &&& after.aggregate_relay_profiles[i].strategy == aggregates[i].strategy
            }
            &&& after.active_relay_id == settings.active_relay_id
            &&& after.active_aggregate_relay_id == settings.active_aggregate_relay_id
            &&& after.relay_profiles_enabled == settings.relay_profiles_enabled
        }),
{
    lemma_relay_position(settings.relay_profiles, id);
    lemma_aggregate_position(settings.aggregate_relay_profiles, id, 0);
}

/// A changed aggregate takes the place of the old one, and the relay of its id takes the new name and
/// nothing else; every other relay and aggregate stays.
pub proof fn changed_aggregate_takes_its_place(
    settings: RelaySettingsView,
    id: Seq<char>,
    aggregate: AggregateRelayProfileView,
    name: Option<JsonView>,
    i: int,
)
    requires
        with_aggregate(settings, id, aggregate, name) is Ok,
    ensures
        ({
            let after = with_aggregate(settings, id, aggregate, name)->Ok_0;
            let relays = settings.relay_profiles;
            let aggregates = settings.aggregate_relay_profiles;
            &&& after.aggregate_relay_profiles.len() == aggregates.len()
            &&& 0 <= i < aggregates.len() && aggregates[i].id != id
                ==> after.aggregate_relay_profiles[i] == aggregates[i]
            &&& 0 <= i < aggregates.len() && aggregates[i].id == id && (forall|j: int|
                0 <= j < i ==> (#[trigger] aggregates[j]).id != id)
                ==> after.aggregate_relay_profiles[i] == aggregate
            &&& after.relay_profiles.len() == relays.len()
            &&& 0 <= i < relays.len() && relays[i].id != id ==> after.relay_profiles[i] == relays[i]
            &&& name is None ==> after.relay_profiles == relays
            &&& name is Some && 0 <= i < relays.len() && relays[i].id == id && (forall|j: int|
                0 <= j < i ==> (#[trigger] relays[j]).id != id) ==> {
                &&& name == Some(JsonView::Text(after.relay_profiles[i].name))
                &&& after.relay_profiles[i] == (RelayProfileView {
                    name: after.relay_profiles[i].name,
                    ..relays[i]
                })
            }
            &&& after.active_relay_id == settings.active_relay_id
            &&& after.active_aggregate_relay_id == settings.active_aggregate_relay_id
            &&& after.relay_profiles_enabled == settings.relay_profiles_enabled
        }),
{
    lemma_relay_position(settings.relay_profiles, id);
    lemma_aggregate_position(settings.aggregate_relay_profiles, id, 0);
}

/// A change of an aggregate is refused where there is none of that id, where the new name is no text,
/// and where a new name has no relay to go to.
pub proof fn changes_of_aggregates_are_refused(
    settings: RelaySettingsView,
    id: Seq<char>,
    aggregate: AggregateRelayProfileView,
    name: Option<JsonView>,
)
    ensures
        ({
            let after = with_aggregate(settings, id, aggregate, name);
            let known = exists|i: int|
                0 <= i < settings.aggregate_relay_profiles.len() && (
                #[trigger] settings.aggregate_relay_profiles[i]).id == id;
            let placed = exists|i: int|
                0 <= i < settings.relay_profiles.len() && (
                #[trigger] settings.relay_profiles[i]).id == id;
            &&& !known ==> after == Err::<RelaySettingsView, Seq<char>>("Aggregate not found"@)
            &&& known && name is Some && !(name->0 is Text) ==> after == Err::<
                RelaySettingsView,
                Seq<char>,
            >("name must be a string"@)
            &&& known && name is Some && name->0 is Text && !placed ==> after == Err::<
                RelaySettingsView,
                Seq<char>,
            >("Aggregate profile not found"@)
            &&& known && (name is None || (name->0 is Text && placed)) ==> after is Ok
        }),
{
    lemma_relay_position(settings.relay_profiles, id);
    lemma_aggregate_position(settings.aggregate_relay_profiles, id, 0);
}

} // verus!
