//! Which relay is in use, and what it takes from the members of an aggregate.
use vstd::prelude::*;

use super::active::{
    aggregate_position, distinct_models, lemma_relay_position, member_positions, model_entries,
    models_at, names_openai, relay_position, widest, window_of, with_context_of, with_models,
    with_names, RelayFactsView,
};
use super::backend::RelaySettingsView;
use super::types::{
    AggregateRelayMemberView, AggregateRelayProfileView, RelayMode, RelayProfileView,
    RelayProtocol, RelaySessionProvider,
};
use crate::text::{is_any, joined, lemma_trimmed_twice, parsed_u64, pieces, trimmed};
use crate::text_laws::{is_core, pieces_hold_no_separator, trimming_takes_white_space_only};

verus! {

/// A context window counts where its text, trimmed, is a positive number.
pub proof fn windows_are_positive_numbers(text: Seq<char>, n: u64)
    ensures
        (window_of(text) == Some(n)) == (parsed_u64(trimmed(text)) == Some(n) && n > 0),
{
}

/// Of some relays the widest has a window at least as large as that of each other that has one, and
/// of those with that window it is the first; there is none where no relay has a window.
pub proof fn widest_relay_comes_first(positions: Seq<int>, relays: Seq<RelayProfileView>)
    ensures
        match widest(positions, relays) {
            Some(best) => {
                &&& window_of(relays[best].context_window) is Some
                &&& forall|k: int|
                    0 <= k < positions.len() && window_of(
                        relays[#[trigger] positions[k]].context_window,
                    ) is Some ==> window_of(relays[positions[k]].context_window)->0 <= window_of(
                        relays[best].context_window,
                    )->0
                &&& exists|at: int| is_first_of_its_width(positions, relays, best, at)
            },
            None => forall|k: int|
                0 <= k < positions.len() ==> window_of(
                    relays[#[trigger] positions[k]].context_window,
                ) is None,
        },
    decreases positions.len(),
{
    if positions.len() > 0 {
        let shorter = positions.drop_last();
        let last = positions.last();
        widest_relay_comes_first(shorter, relays);
        assert forall|k: int| 0 <= k < shorter.len() implies shorter[k] == #[trigger] positions[k] by {
        }
        match (widest(shorter, relays), window_of(relays[last].context_window)) {
            (None, Some(_)) => {
                assert(is_first_of_its_width(positions, relays, last, positions.len() - 1));
            },
            (Some(best), window) => {
                if window is Some && window->0 > window_of(relays[best].context_window)->0 {
                    assert(is_first_of_its_width(positions, relays, last, positions.len() - 1));
                } else {
                    let at = choose|at: int| is_first_of_its_width(shorter, relays, best, at);
                    assert(is_first_of_its_width(positions, relays, best, at));
                }
            },
            _ => {},
        }
    }
}

/// A relay stands at a place before which no other has a window as large.
pub open spec fn is_first_of_its_width(
    positions: Seq<int>,
    relays: Seq<RelayProfileView>,
    best: int,
    at: int,
) -> bool {
    &&& 0 <= at < positions.len()
    &&& positions[at] == best
    &&& forall|k: int|
        0 <= k < at && window_of(relays[#[trigger] positions[k]].context_window) is Some
            ==> window_of(relays[positions[k]].context_window)->0 < window_of(
            relays[best].context_window,
        )->0
}

/// The relays of the members stand in the order of the members, and each member that has a relay is
/// among them.
pub proof fn members_keep_their_order(
    members: Seq<AggregateRelayMemberView>,
    relays: Seq<RelayProfileView>,
    i: int,
)
    requires
        0 <= i < members.len(),
    ensures
        ({
            let before = member_positions(members.take(i), relays);
            let all = member_positions(members, relays);
            let place = relay_position(relays, members[i].relay_id);
            &&& before.len() <= i
            &&& place is Some ==> before.len() < all.len() && all[before.len() as int] == place->0
                && relays[place->0].id == members[i].relay_id
            &&& forall|k: int|
                0 <= k < all.len() ==> 0 <= #[trigger] all[k] < relays.len() && exists|j: int|
                    0 <= j < members.len() && (#[trigger] members[j]).relay_id == relays[all[k]].id
        }),
    decreases members.len(),
{
    let shorter = members.drop_last();
    lemma_members_have_relays(members, relays);
    lemma_relay_position(relays, members[i].relay_id);
    if i < shorter.len() {
        members_keep_their_order(shorter, relays, i);
        assert(shorter.take(i) =~= members.take(i));
        assert(shorter[i] == members[i]);
    } else {
        assert(members.take(i) =~= shorter);
        lemma_positions_are_few(shorter, relays);
    }
}

proof fn lemma_positions_are_few(
    members: Seq<AggregateRelayMemberView>,
    relays: Seq<RelayProfileView>,
)
    ensures
        member_positions(members, relays).len() <= members.len(),
    decreases members.len(),
{
    if members.len() > 0 {
        lemma_positions_are_few(members.drop_last(), relays);
    }
}

proof fn lemma_members_have_relays(
    members: Seq<AggregateRelayMemberView>,
    relays: Seq<RelayProfileView>,
)
    ensures
        forall|k: int|
            0 <= k < member_positions(members, relays).len() ==> 0 <= #[trigger] member_positions(
                members,
                relays,
            )[k] < relays.len() && exists|j: int|
                0 <= j < members.len() && (#[trigger] members[j]).relay_id
                    == relays[member_positions(members, relays)[k]].id,
    decreases members.len(),
{
    if members.len() > 0 {
        let shorter = members.drop_last();
        lemma_members_have_relays(shorter, relays);
        lemma_relay_position(relays, members.last().relay_id);
        let all = member_positions(members, relays);
        let before = member_positions(shorter, relays);
        assert forall|k: int| 0 <= k < all.len() implies 0 <= #[trigger] all[k] < relays.len()
            && exists|j: int|
            0 <= j < members.len() && (#[trigger] members[j]).relay_id == relays[all[k]].id by {
            if k < before.len() {
                assert(all[k] == before[k]);
                let j = choose|j: int|
                    0 <= j < shorter.len() && (#[trigger] shorter[j]).relay_id
                        == relays[before[k]].id;
                assert(members[j].relay_id == relays[all[k]].id);
            } else {
                assert(members[members.len() - 1].relay_id == relays[all[k]].id);
            }
        }
    }
}

/// Adding names to a list keeps what it has in front, adds each name that is not empty and not there
/// yet, once, and nothing else; the names come in the order in which they first came.
pub proof fn names_are_added_once(list: Seq<Seq<char>>, names: Seq<Seq<char>>, n: int)
    requires
        list.no_duplicates(),
        0 <= n <= names.len(),
    ensures
        ({
            let part = with_names(list, names.take(n));
            let all = with_names(list, names);
            &&& all.no_duplicates()
            &&& all.len() >= part.len()
            &&& all.take(part.len() as int) == part
            &&& all.len() >= list.len()
            &&& all.take(list.len() as int) == list
            &&& forall|name: Seq<char>| #[trigger]
                all.contains(name) == (list.contains(name) || (name.len() > 0 && names.contains(
                    name,
                )))
        }),
    decreases names.len(),
{
    let all = with_names(list, names);
    if names.len() == 0 {
        assert(names.take(n) =~= names);
        assert(all.take(list.len() as int) =~= list);
    } else {
        let shorter = names.drop_last();
        let last = names.last();
        let before = with_names(list, shorter);
        if n < names.len() {
            names_are_added_once(list, shorter, n);
            assert(shorter.take(n) =~= names.take(n));
        } else {
            names_are_added_once(list, shorter, shorter.len() as int);
            assert(names.take(n) =~= names);
            assert(shorter.take(shorter.len() as int) =~= shorter);
        }
        let part = with_names(list, names.take(n));
        if last.len() > 0 && !before.contains(last) {
            assert(all == before.push(last));
            assert(all.take(before.len() as int) =~= before);
            assert(all.take(list.len() as int) =~= before.take(list.len() as int));
            if n < names.len() {
                assert(all.take(part.len() as int) =~= before.take(part.len() as int));
            } else {
                assert(all.take(part.len() as int) =~= all);
            }
            assert(all.no_duplicates()) by {
                assert forall|i: int, j: int| 0 <= i < j < all.len() implies all[i] != all[j] by {
                    if j == before.len() {
                        assert(before[i] == all[i]);
                    }
                }
            }
        } else {
            assert(all == before);
            if n == names.len() {
                assert(all.take(part.len() as int) =~= all);
            }
        }
        assert forall|name: Seq<char>| #[trigger] all.contains(name) == (list.contains(name) || (
        name.len() > 0 && names.contains(name))) by {
            lemma_contains_last(names, name);
            if all != before {
                lemma_contains_last(all, name);
                assert(all.drop_last() =~= before);
            }
            assert(before.contains(name) == (list.contains(name) || (name.len() > 0
                && shorter.contains(name))));
        }
    }
}

proof fn lemma_contains_last(list: Seq<Seq<char>>, text: Seq<char>)
    requires
        list.len() > 0,
    ensures
        list.contains(text) == (list.drop_last().contains(text) || list.last() == text),
{
    let shorter = list.drop_last();
    if list.contains(text) {
        let i = choose|i: int| 0 <= i < list.len() && list[i] == text;
        if i < shorter.len() {
            assert(shorter[i] == text);
        }
    }
    if shorter.contains(text) {
        let i = choose|i: int| 0 <= i < shorter.len() && shorter[i] == text;
        assert(list[i] == text);
    }
    if list.last() == text {
        assert(list[list.len() - 1] == text);
    }
}

/// An aggregate has the models of its members, each once: those of the first member in front, in
/// their order, then what the next ones add.
pub proof fn aggregate_has_the_models_of_its_members(
    positions: Seq<int>,
    names: Seq<Seq<Seq<char>>>,
    n: int,
)
    requires
        0 <= n <= positions.len(),
    ensures
        ({
            let part = models_at(positions.take(n), names);
            let all = models_at(positions, names);
            &&& all.no_duplicates()
            &&& part.len() <= all.len()
            &&& all.take(part.len() as int) == part
            &&& forall|name: Seq<char>| #[trigger]
                all.contains(name) == (name.len() > 0 && exists|k: int|
                    0 <= k < positions.len() && names[#[trigger] positions[k]].contains(name))
        }),
    decreases positions.len(),
{
    let all = models_at(positions, names);
    if positions.len() == 0 {
        assert(positions.take(n) =~= positions);
    } else {
        let shorter = positions.drop_last();
        let before = models_at(shorter, names);
        let own = names[positions.last()];
        let added = distinct_models(own);
        aggregate_has_the_models_of_its_members(shorter, names, shorter.len() as int);
        assert(Seq::<Seq<char>>::empty().no_duplicates());
        names_are_added_once(Seq::empty(), own, own.len() as int);
        names_are_added_once(before, added, added.len() as int);
        if n < positions.len() {
            aggregate_has_the_models_of_its_members(shorter, names, n);
            assert(shorter.take(n) =~= positions.take(n));
            let part = models_at(positions.take(n), names);
            assert(all.take(part.len() as int) =~= all.take(before.len() as int).take(
                part.len() as int,
            ));
        } else {
            assert(positions.take(n) =~= positions);
            assert(all.take(all.len() as int) =~= all);
        }
        assert forall|name: Seq<char>| #[trigger] all.contains(name) == (name.len() > 0
            && exists|k: int|
            0 <= k < positions.len() && names[#[trigger] positions[k]].contains(name)) by {
            assert(added.contains(name) == (name.len() > 0 && own.contains(name)));
            assert(before.contains(name) == (name.len() > 0 && exists|k: int|
                0 <= k < shorter.len() && names[#[trigger] shorter[k]].contains(name)));
            if before.contains(name) {
                let k = choose|k: int|
                    0 <= k < shorter.len() && names[#[trigger] shorter[k]].contains(name);
                assert(names[positions[k]].contains(name));
            }
            if added.contains(name) {
                assert(names[positions[positions.len() - 1]].contains(name));
            }
            if name.len() > 0 && exists|k: int|
                0 <= k < positions.len() && names[#[trigger] positions[k]].contains(name) {
                let k = choose|k: int|
                    0 <= k < positions.len() && names[#[trigger] positions[k]].contains(name);
                if k < shorter.len() {
                    assert(names[shorter[k]].contains(name));
                }
            }
        }
    }
}

/// An aggregate lists the models line by line; it keeps its own first model where it is one of them,
/// and otherwise takes their first.
pub proof fn aggregate_lists_its_models(
    relay: RelayProfileView,
    own: Seq<Seq<char>>,
    models: Seq<Seq<char>>,
)
    ensures
        ({
            let after = with_models(relay, own, models);
            &&& models.len() == 0 ==> after == relay
            &&& models.len() > 0 ==> after.model_list == joined(models, "\n"@)
            &&& models.len() > 0 && own.len() > 0 && models.contains(own[0]) ==> after.model
                == own[0]
            &&& models.len() > 0 && (own.len() == 0 || !models.contains(own[0])) ==> after.model
                == models[0]
            &&& after.context_window == relay.context_window && after.auto_compact_limit
                == relay.auto_compact_limit && after.id == relay.id && after.api_key
                == relay.api_key && after.base_url == relay.base_url
        }),
{
}

/// A relay with a context window of its own keeps it; without one it takes that of another, with the
/// model and the model windows that it lacks. A compaction limit of its own stays; one that it lacks
/// comes with the window, or where both windows are the same number. Nothing else changes.
pub proof fn context_is_taken_where_it_is_missing(
    relay: RelayProfileView,
    source: RelayProfileView,
)
    ensures
        ({
            let after = with_context_of(relay, source);
            let own_window = trimmed(relay.context_window).len() > 0;
            let own_limit = trimmed(relay.auto_compact_limit).len() > 0;
            let same = parsed_u64(trimmed(relay.context_window)) == window_of(
                source.context_window,
            );
            &&& own_window ==> after.context_window == relay.context_window
            &&& !own_window ==> after.context_window == source.context_window
            &&& own_limit ==> after.auto_compact_limit == relay.auto_compact_limit
            &&& !own_limit && !own_window ==> after.auto_compact_limit == source.auto_compact_limit
            &&& !own_limit && own_window && same ==> after.auto_compact_limit
                == source.auto_compact_limit
            &&& !own_limit && own_window && !same ==> after.auto_compact_limit
                == relay.auto_compact_limit
            &&& own_window || trimmed(relay.model).len() > 0 ==> after.model == relay.model
            &&& !own_window && trimmed(relay.model).len() == 0 ==> after.model == source.model
            &&& own_window || trimmed(relay.model_windows).len() > 0 ==> after.model_windows
                == relay.model_windows
            &&& !own_window && trimmed(relay.model_windows).len() == 0 ==> after.model_windows
                == source.model_windows
            &&& after == RelayProfileView {
                context_window: after.context_window,
                auto_compact_limit: after.auto_compact_limit,
                model: after.model,
                model_windows: after.model_windows,
                ..relay
            }
        }),
{
}

/// The aggregate in use belongs to the active relay: that is an aggregate one, the aggregate has its
/// id, and no other aggregate was chosen.
pub proof fn aggregate_in_use_belongs_to_the_active_relay(settings: RelaySettingsView, p: int)
    requires
        relay_position(settings.relay_profiles, settings.active_relay_id) == Some(p),
    ensures
        ({
            let chosen = trimmed(settings.active_aggregate_relay_id);
            let usable = settings.relay_profiles[p].relay_mode == RelayMode::Aggregate && (
            chosen.len() == 0 || chosen == settings.active_relay_id);
            let defined = exists|i: int|
                0 <= i < settings.aggregate_relay_profiles.len() && (
                #[trigger] settings.aggregate_relay_profiles[i]).id == settings.active_relay_id;
            &&& settings.active_aggregate() is Some == (usable && defined)
            &&& settings.active_aggregate() is Some ==> settings.active_aggregate()->0.id
                == settings.active_relay_id && settings.aggregate_relay_profiles.contains(
                settings.active_aggregate()->0,
            )
        }),
{
    lemma_relay_position(settings.relay_profiles, settings.active_relay_id);
    lemma_aggregate_position(settings.aggregate_relay_profiles, settings.active_relay_id, 0);
}

/// Without an active relay there is no aggregate in use.
pub proof fn no_relay_no_aggregate(settings: RelaySettingsView)
    requires
        forall|j: int|
            0 <= j < settings.relay_profiles.len() ==> (#[trigger] settings.relay_profiles[j]).id
                != settings.active_relay_id,
    ensures
        settings.active_aggregate() is None,
{
    lemma_relay_position(settings.relay_profiles, settings.active_relay_id);
}

/// The first aggregate with an id is the one that counts.
pub proof fn lemma_aggregate_position(
    aggregates: Seq<AggregateRelayProfileView>,
    id: Seq<char>,
    from: int,
)
    requires
        0 <= from,
    ensures
        match aggregate_position(aggregates, id, from) {
            Some(i) => from <= i < aggregates.len() && aggregates[i].id == id && forall|j: int|
                from <= j < i ==> (#[trigger] aggregates[j]).id != id,
            None => forall|j: int|
                from <= j < aggregates.len() ==> (#[trigger] aggregates[j]).id != id,
        },
    decreases aggregates.len() - from,
{
    if from < aggregates.len() && aggregates[from].id != id {
        lemma_aggregate_position(aggregates, id, from + 1);
    }
}

/// A relay that is no aggregate is in use as it stands in the list.
pub proof fn plain_relay_is_in_use_as_it_stands(
    settings: RelaySettingsView,
    facts: RelayFactsView,
    p: int,
)
    requires
        relay_position(settings.relay_profiles, settings.active_relay_id) == Some(p),
        settings.relay_profiles[p].relay_mode != RelayMode::Aggregate,
        settings.relay_profiles.len() > 1 || settings.active_relay_id != "default"@ || (
        settings.relay_api_key.len() == 0 && settings.relay_base_url.len() == 0),
    ensures
        settings.active_relay(facts) == settings.relay_profiles[p],
{
    lemma_relay_position(settings.relay_profiles, settings.active_relay_id);
}

/// An aggregate in use keeps its id and everything but its models, its context settings and a
/// borrowed sign-in. It borrows the sign-in of the official relay where its sessions are OpenAI's
/// and it has none of its own.
pub proof fn aggregate_in_use_takes_from_its_members(
    settings: RelaySettingsView,
    facts: RelayFactsView,
    p: int,
)
    requires
        relay_position(settings.relay_profiles, settings.active_relay_id) == Some(p),
        settings.active_aggregate() is Some,
        settings.relay_profiles.len() > 1,
    ensures
        ({
            let relay = settings.relay_profiles[p];
            let aggregate = settings.active_aggregate()->0;
            let after = settings.active_relay(facts);
            let positions = member_positions(aggregate.members, settings.relay_profiles);
            let models = models_at(positions, facts.model_names);
            let named = with_models(relay, distinct_models(facts.model_names[p]), models);
            let best = widest(positions, settings.relay_profiles);
            let filled = if best is Some {
                with_context_of(named, settings.relay_profiles[best->0])
            } else {
                named
            };
            &&& after == RelayProfileView { auth_contents: after.auth_contents, ..filled }
            &&& aggregate.session_provider == RelaySessionProvider::Custom || facts.chatgpt_auth[p]
                ==> after.auth_contents == relay.auth_contents
            &&& forall|o: int|
                aggregate.session_provider == RelaySessionProvider::Openai
                    && !facts.chatgpt_auth[p] && is_first_sign_in(settings, facts, o)
                    ==> after.auth_contents == (
                #[trigger] settings.relay_profiles[o]).auth_contents
        }),
{
    lemma_relay_position(settings.relay_profiles, settings.active_relay_id);
    assert forall|o: int|
        settings.active_aggregate()->0.session_provider == RelaySessionProvider::Openai
            && !facts.chatgpt_auth[p] && is_first_sign_in(settings, facts, o) implies settings.active_relay(
        facts,
    ).auth_contents == (#[trigger] settings.relay_profiles[o]).auth_contents by {
        lemma_sign_in(settings, facts, 0, o);
    }
}

pub open spec fn holds_sign_in(
    settings: RelaySettingsView,
    facts: RelayFactsView,
    o: int,
) -> bool {
    settings.relay_profiles[o].id == "default"@ && settings.relay_profiles[o].relay_mode
        == RelayMode::Official && facts.chatgpt_auth[o]
}

pub open spec fn is_first_sign_in(
    settings: RelaySettingsView,
    facts: RelayFactsView,
    o: int,
) -> bool {
    &&& 0 <= o < settings.relay_profiles.len()
    &&& holds_sign_in(settings, facts, o)
    &&& forall|j: int| 0 <= j < o ==> !#[trigger] holds_sign_in(settings, facts, j)
}

proof fn lemma_sign_in(settings: RelaySettingsView, facts: RelayFactsView, from: int, o: int)
    requires
        0 <= from <= o,
        is_first_sign_in(settings, facts, o),
    ensures
        settings.official_sign_in(facts, from) == Some(o),
    decreases o - from,
{
    if from < o {
        assert(!holds_sign_in(settings, facts, from));
        lemma_sign_in(settings, facts, from + 1, o);
    }
}

/// Where no relay has the active id, a relay is made of the single address and key, under that id or
/// the default one.
pub proof fn unknown_relay_is_made_of_the_single_address(
    settings: RelaySettingsView,
    facts: RelayFactsView,
)
    requires
        forall|j: int|
            0 <= j < settings.relay_profiles.len() ==> (#[trigger] settings.relay_profiles[j]).id
                != settings.active_relay_id,
        settings.active_relay_id != "default"@,
    ensures
        ({
            let relay = settings.active_relay(facts);
            &&& settings.active_relay_id.len() > 0 ==> relay.id == settings.active_relay_id
            &&& settings.active_relay_id.len() == 0 ==> relay.id == "default"@
            &&& relay.base_url == settings.relay_base_url && relay.upstream_base_url
                == settings.relay_base_url
            &&& relay.api_key == settings.relay_api_key
            &&& relay.relay_mode == RelayMode::Official
            &&& !relay.official_mix_api_key
            &&& relay.config_contents.len() == 0 && relay.auth_contents.len() == 0
        }),
{
    lemma_relay_position(settings.relay_profiles, settings.active_relay_id);
}

/// Settings with one untouched relay and a single address or key use that address and key, mixed
/// into the official sign-in.
pub proof fn single_relay_is_used(settings: RelaySettingsView, facts: RelayFactsView)
    requires
        settings.active_relay_id == "default"@,
        settings.relay_profiles == seq![RelayProfileView::default()],
        settings.relay_api_key.len() > 0 || settings.relay_base_url.len() > 0,
    ensures
        ({
            let relay = settings.active_relay(facts);
            &&& relay.id == "default"@
            &&& relay.base_url == settings.relay_base_url && relay.upstream_base_url
                == settings.relay_base_url
            &&& relay.api_key == settings.relay_api_key
            &&& relay.relay_mode == RelayMode::MixedApi
            &&& relay.official_mix_api_key
        }),
{
}

/// Sessions belong to the provider that the aggregate in use names; without one, to OpenAI exactly
/// where the configuration of the relay in use says so.
pub proof fn sessions_have_their_provider(settings: RelaySettingsView, facts: RelayFactsView)
    ensures
        settings.active_aggregate() is Some ==> settings.session_provider(facts)
            == settings.active_aggregate()->0.session_provider,
        settings.active_aggregate() is None ==> (settings.session_provider(facts)
            == RelaySessionProvider::Openai) == names_openai(
            settings.active_relay(facts).config_contents,
        ),
{
}

/// Requests pass the proxy for each of these reasons, and for no other.
pub proof fn proxy_has_its_reasons(settings: RelaySettingsView, facts: RelayFactsView)
    ensures
        ({
            let relay = settings.active_relay(facts);
            let routed = exists|i: int|
                0 <= i < relay.model_routes.len() && trimmed(
                    (#[trigger] relay.model_routes[i]).model,
                ).len() > 0 && trimmed(relay.model_routes[i].target_relay_id).len() > 0;
            settings.uses_proxy(facts) == (settings.active_aggregate() is Some || relay.protocol
                == RelayProtocol::ChatCompletions || routed || (relay.relay_mode
                == RelayMode::PureApi && relay.no_auth) || settings.session_provider(facts)
                == RelaySessionProvider::Openai)
        }),
{
}

/// The model entries of a relay are its own model and, trimmed, what its list names: no entry of the
/// list holds a comma or a line end.
pub proof fn own_model_comes_first(relay: RelayProfileView)
    ensures
        model_entries(relay).len() > 1,
        model_entries(relay)[0] == relay.model,
        forall|i: int|
            1 <= i < model_entries(relay).len() ==> trimmed(#[trigger] model_entries(relay)[i])
                == model_entries(relay)[i],
        forall|i: int, j: int|
            1 <= i < model_entries(relay).len() && 0 <= j < model_entries(relay)[i].len() ==> {
                let c = #[trigger] model_entries(relay)[i][j];
                c != ',' && c != '\n' && c != '\r'
            },
{
    let separators = seq!['\r', '\n', ','];
    let separator = is_any(separators);
    let listed = pieces(relay.model_list, separator);
    let entries = model_entries(relay);
    assert(separators[0] == '\r' && separators[1] == '\n' && separators[2] == ',');
    pieces_hold_no_separator(relay.model_list, separator);
    assert forall|i: int| 1 <= i < entries.len() implies trimmed(#[trigger] entries[i])
        == entries[i] by {
        lemma_trimmed_twice(listed[i - 1]);
    }
    assert forall|i: int, j: int| 1 <= i < entries.len() && 0 <= j < entries[i].len() implies {
        let c = #[trigger] entries[i][j];
        c != ',' && c != '\n' && c != '\r'
    } by {
        let piece = listed[i - 1];
        trimming_takes_white_space_only(piece);
        let (from, to) = choose|from: int, to: int|
            (#[trigger] is_core(piece, from, to)) && trimmed(piece) == piece.subrange(from, to);
        assert(entries[i][j] == listed[i - 1][from + j]);
        assert(!separator(listed[i - 1][from + j]));
    }
}

} // verus!
