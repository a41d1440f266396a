//! What settings must hold before a command stores them.
use vstd::prelude::*;

use crate::settings::active::{find_relay, relay_position};
use crate::settings::backend::{BackendSettings, RelaySettingsView};
use crate::settings::types::{
    AggregateRelayMember, AggregateRelayMemberView, AggregateRelayProfile,
    AggregateRelayProfileView, RelayMode, RelayProfile, RelayProfileView, relay_profile_views,
    aggregate_relay_member_views,
};
use crate::text::{concat, same_text};

verus! {

/// Every relay has an id, and no two have the same.
pub open spec fn ids_are_distinct(relays: Seq<RelayProfileView>) -> bool {
    &&& forall|i: int| 0 <= i < relays.len() ==> (#[trigger] relays[i]).id.len() > 0
    &&& forall|i: int, j: int|
        0 <= i < j < relays.len() ==> (#[trigger] relays[i]).id != (#[trigger] relays[j]).id
}

/// A relay with an id is, or is not, an aggregate.
pub open spec fn has_relay(relays: Seq<RelayProfileView>, id: Seq<char>, aggregate: bool) -> bool {
    exists|i: int|
        0 <= i < relays.len() && (#[trigger] relays[i]).id == id && (relays[i].relay_mode
            == RelayMode::Aggregate) == aggregate
}

/// A member counts for something, is named once, and is a relay that is no aggregate.
pub open spec fn is_good_member(
    relays: Seq<RelayProfileView>,
    members: Seq<AggregateRelayMemberView>,
    i: int,
) -> bool {
    &&& members[i].weight > 0
    &&& forall|j: int| 0 <= j < i ==> (#[trigger] members[j]).relay_id != members[i].relay_id
    &&& has_relay(relays, members[i].relay_id, false)
}

/// The first member, from one on, that is not as it should be.
pub open spec fn bad_member(
    relays: Seq<RelayProfileView>,
    members: Seq<AggregateRelayMemberView>,
    from: int,
) -> Option<int>
    decreases members.len() - from,
{
    if from >= members.len() {
        None
    } else if is_good_member(relays, members, from) {
        bad_member(relays, members, from + 1)
    } else {
        Some(from)
    }
}

/// What is wrong with an aggregate.
pub open spec fn fault_of_aggregate(
    relays: Seq<RelayProfileView>,
    aggregate: AggregateRelayProfileView,
) -> Option<Seq<char>> {
    if !has_relay(relays, aggregate.id, true) {
        Some("Aggregate has no matching provider profile: "@ + aggregate.id)
    } else if aggregate.members.len() == 0 {
        Some("Aggregate must have a member: "@ + aggregate.id)
    } else {
        match bad_member(relays, aggregate.members, 0) {
            Some(i) => Some(
                "Invalid or duplicate aggregate member: "@ + aggregate.members[i].relay_id,
            ),
            None => None,
        }
    }
}

/// What is wrong with the aggregates from one on; the first fault counts.
pub open spec fn fault_of_aggregates(settings: RelaySettingsView, from: int) -> Option<Seq<char>>
    decreases settings.aggregate_relay_profiles.len() - from,
{
    if from >= settings.aggregate_relay_profiles.len() {
        None
    } else {
        match fault_of_aggregate(
            settings.relay_profiles,
            settings.aggregate_relay_profiles[from],
        ) {
            Some(fault) => Some(fault),
            None => fault_of_aggregates(settings, from + 1),
        }
    }
}

/// What is wrong with settings.
pub open spec fn fault_of_settings(settings: RelaySettingsView) -> Option<Seq<char>> {
    if !ids_are_distinct(settings.relay_profiles) {
        Some("Duplicate or empty provider id"@)
    } else if relay_position(settings.relay_profiles, settings.active_relay_id) is None {
        Some("Active provider does not exist"@)
    } else {
        fault_of_aggregates(settings, 0)
    }
}

pub open spec fn fault(r: Result<(), String>) -> Option<Seq<char>> {
    match r {
        Ok(_) => None,
        Err(message) => Some(message@),
    }
}

fn distinct_ids(relays: &Vec<RelayProfile>) -> (r: bool)
    ensures
        r == ids_are_distinct(relay_profile_views(relays@)),
{
    let ghost views = relay_profile_views(relays@);
    for i in 0..relays.len()
        invariant
            views == relay_profile_views(relays@),
            forall|k: int| 0 <= k < i ==> (#[trigger] views[k]).id.len() > 0,
            forall|k: int, l: int|
                0 <= k < l < i ==> (#[trigger] views[k]).id != (#[trigger] views[l]).id,
    {
        assert(views[i as int] == relays@[i as int]@);
        if relays[i].id.as_str().is_empty() {
            return false;
        }
        for j in 0..i
            invariant
                i < relays@.len(),
                views == relay_profile_views(relays@),
                forall|k: int| 0 <= k < j ==> (#[trigger] views[k]).id != views[i as int].id,
        {
            assert(views[j as int] == relays@[j as int]@);
            assert(views[i as int] == relays@[i as int]@);
            if same_text(relays[j].id.as_str(), relays[i].id.as_str()) {
                return false;
            }
        }
    }
    true
}

fn exists_relay(relays: &Vec<RelayProfile>, id: &str, aggregate: bool) -> (r: bool)
    ensures
        r == has_relay(relay_profile_views(relays@), id@, aggregate),
{
    let ghost views = relay_profile_views(relays@);
    for i in 0..relays.len()
        invariant
            views == relay_profile_views(relays@),
            forall|j: int|
                0 <= j < i ==> !((#[trigger] views[j]).id == id@ && (views[j].relay_mode
                    == RelayMode::Aggregate) == aggregate),
    {
        assert(views[i as int] == relays@[i as int]@);
        if same_text(relays[i].id.as_str(), id) && (relays[i].relay_mode == RelayMode::Aggregate)
            == aggregate {
            return true;
        }
    }
    false
}

fn good_member(
    relays: &Vec<RelayProfile>,
    members: &Vec<AggregateRelayMember>,
    i: usize,
) -> (r: bool)
    requires
        i < members@.len(),
    ensures
        r == is_good_member(
            relay_profile_views(relays@),
            aggregate_relay_member_views(members@),
            i as int,
        ),
{
    let ghost views = aggregate_relay_member_views(members@);
    assert(views[i as int] == members@[i as int]@);
    if members[i].weight == 0 {
        return false;
    }
    for j in 0..i
        invariant
            i < members@.len(),
            views == aggregate_relay_member_views(members@),
            forall|k: int| 0 <= k < j ==> (#[trigger] views[k]).relay_id != views[i as int].relay_id,
    {
        assert(views[j as int] == members@[j as int]@);
        assert(views[i as int] == members@[i as int]@);
        if same_text(members[j].relay_id.as_str(), members[i].relay_id.as_str()) {
            return false;
        }
    }
    exists_relay(relays, members[i].relay_id.as_str(), false)
}

fn validate_aggregate(relays: &Vec<RelayProfile>, aggregate: &AggregateRelayProfile) -> (r: Result<
    (),
    String,
>)
    ensures
        fault(r) == fault_of_aggregate(relay_profile_views(relays@), aggregate@),
{
    if !exists_relay(relays, aggregate.id.as_str(), true) {
        return Err(
            concat("Aggregate has no matching provider profile: ", aggregate.id.as_str()),
        );
    }
    if aggregate.members.len() == 0 {
        return Err(concat("Aggregate must have a member: ", aggregate.id.as_str()));
    }
    for i in 0..aggregate.members.len()
        invariant
            bad_member(relay_profile_views(relays@), aggregate@.members, 0) == bad_member(
                relay_profile_views(relays@),
                aggregate@.members,
                i as int,
            ),
            has_relay(relay_profile_views(relays@), aggregate@.id, true),
            aggregate@.members.len() > 0,
    {
        assert(aggregate@.members[i as int] == aggregate.members@[i as int]@);
        if !good_member(relays, &aggregate.members, i) {
            return Err(
                concat(
                    "Invalid or duplicate aggregate member: ",
                    aggregate.members[i].relay_id.as_str(),
                ),
            );
        }
    }
    Ok(())
}

/// Checks settings before they are stored.
pub fn validate(settings: &BackendSettings) -> (r: Result<(), String>)
    ensures
        fault(r) == fault_of_settings(settings@.relays),
{
    if !distinct_ids(&settings.relays.relay_profiles) {
        return Err("Duplicate or empty provider id".to_owned());
    }
    if find_relay(
        &settings.relays.relay_profiles,
        settings.relays.active_relay_id.as_str(),
    ).is_none() {
        return Err("Active provider does not exist".to_owned());
    }
    for i in 0..settings.relays.aggregate_relay_profiles.len()
        invariant
            fault_of_aggregates(settings@.relays, 0) == fault_of_aggregates(
                settings@.relays,
                i as int,
            ),
            ids_are_distinct(settings@.relays.relay_profiles),
            relay_position(
                settings@.relays.relay_profiles,
                settings@.relays.active_relay_id,
            ) is Some,
    {
        assert(settings@.relays.aggregate_relay_profiles[i as int]
            == settings.relays.aggregate_relay_profiles@[i as int]@);
        match validate_aggregate(
            &settings.relays.relay_profiles,
            &settings.relays.aggregate_relay_profiles[i],
        ) {
            Ok(_) => {},
            Err(message) => {
                return Err(message);
            },
        }
    }
    Ok(())
}

} // verus!
