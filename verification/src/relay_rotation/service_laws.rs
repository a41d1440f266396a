//! Who serves, who is tried next, and who rests.
use vstd::prelude::*;

use super::requests::{
    circle_after, cooldowns_told, event_recorded, fallbacks, outcome_recorded, ready_selector,
    relays_with_ids, request_choice,
};
use super::selector::{
    aggregate_fault, last_relay_position, lemma_schedule, member_fault, member_relays, schedule,
    selector_for, RelayRequestOutcome, RotationEvent, SelectionErrorView, SelectorView,
};
use crate::settings::active::{lemma_relay_position, relay_position, RelayFactsView};
use crate::settings::backend::RelaySettingsView;
use crate::settings::types::{
    AggregateRelayMemberView, AggregateRelayProfileView, AggregateRelayStrategy, RelayMode,
    RelayProfileView,
};
use crate::text::trimmed;
use crate::time::Instant;

verus! {

/// No two members of an aggregate are the same relay.
pub open spec fn members_differ(aggregate: AggregateRelayProfileView) -> bool {
    forall|i: int, j: int|
        0 <= i < j < aggregate.members.len() ==> (#[trigger] aggregate.members[i]).relay_id != (
        #[trigger] aggregate.members[j]).relay_id
}

proof fn lemma_position_of(selector: SelectorView, relay_id: Seq<char>, from: int)
    requires
        0 <= from,
    ensures
        match selector.member_position(relay_id, from) {
            Some(i) => from <= i < selector.aggregate.members.len()
                && selector.aggregate.members[i].relay_id == relay_id && forall|j: int|
                from <= j < i ==> (#[trigger] selector.aggregate.members[j]).relay_id != relay_id,
            None => forall|j: int|
                from <= j < selector.aggregate.members.len() ==> (
                #[trigger] selector.aggregate.members[j]).relay_id != relay_id,
        },
    decreases selector.aggregate.members.len() - from,
{
    if from < selector.aggregate.members.len() && selector.member_id(from) != relay_id {
        lemma_position_of(selector, relay_id, from + 1);
    }
}

proof fn lemma_once_round(a: int, n: int)
    requires
        0 <= a < 2 * n,
    ensures
        a % n == (if a < n {
            a
        } else {
            a - n
        }),
{
    if a < n {
        vstd::arithmetic::div_mod::lemma_small_mod(a as nat, n as nat);
    } else {
        vstd::arithmetic::div_mod::lemma_small_mod((a - n) as nat, n as nat);
        vstd::arithmetic::div_mod::lemma_mod_add_multiples_vanish(a - n, n);
    }
}

/// After a member the others are tried, each once, beginning with the one that follows it in the
/// circle and each followed by its own follower; the member itself is not tried.
pub proof fn others_are_tried_in_a_circle(aggregate: AggregateRelayProfileView, i: int)
    requires
        members_differ(aggregate),
        0 <= i < aggregate.members.len(),
    ensures
        ({
            let n = aggregate.members.len() as int;
            let failed = aggregate.members[i].relay_id;
            let tried = circle_after(aggregate, failed);
            &&& tried.len() == n - 1
            &&& !tried.contains(failed)
            &&& tried.no_duplicates()
            &&& forall|j: int|
                0 <= j < n && j != i ==> tried.contains((#[trigger] aggregate.members[j]).relay_id)
            &&& n > 1 ==> tried[0] == aggregate.members[if i + 1 < n {
                i + 1
            } else {
                0
            }].relay_id
            &&& forall|k: int|
                0 <= k < n - 1 ==> #[trigger] tried[k] == aggregate.members[if i + 1 + k < n {
                    i + 1 + k
                } else {
                    i + 1 + k - n
                }].relay_id
        }),
{
    let n = aggregate.members.len() as int;
    let failed = aggregate.members[i].relay_id;
    let view = SelectorView::fresh(aggregate, None);
    lemma_position_of(view, failed, 0);
    assert(view.member_position(failed, 0) == Some(i)) by {
        let p = view.member_position(failed, 0);
        assert(aggregate.members[i].relay_id == failed);
        if p is Some && p->0 != i {
            let q = p->0;
            if q < i {
                assert(aggregate.members[q].relay_id != aggregate.members[i].relay_id);
            }
        }
    }
    let tried = circle_after(aggregate, failed);
    assert forall|k: int| 0 <= k < n - 1 implies #[trigger] tried[k] == aggregate.members[if i + 1
        + k < n {
        i + 1 + k
    } else {
        i + 1 + k - n
    }].relay_id by {
        lemma_once_round(i + 1 + k, n);
    }
    assert forall|k: int| 0 <= k < n - 1 implies #[trigger] tried[k] != failed by {
        let at = if i + 1 + k < n {
            i + 1 + k
        } else {
            i + 1 + k - n
        };
        assert(at != i);
        assert(aggregate.members[at].relay_id != aggregate.members[i].relay_id);
    }
    assert forall|k: int, l: int| 0 <= k < l < n - 1 implies tried[k] != tried[l] by {
        let a = if i + 1 + k < n {
            i + 1 + k
        } else {
            i + 1 + k - n
        };
        let b = if i + 1 + l < n {
            i + 1 + l
        } else {
            i + 1 + l - n
        };
        assert(a != b);
        assert(aggregate.members[a].relay_id != aggregate.members[b].relay_id);
    }
    assert forall|j: int| 0 <= j < n && j != i implies tried.contains(
        (#[trigger] aggregate.members[j]).relay_id,
    ) by {
        let k = if j > i {
            j - i - 1
        } else {
            j + n - i - 1
        };
        assert(tried[k] == aggregate.members[j].relay_id);
    }
}

/// After a relay that is no member all but the last member are tried, from the first on.
pub proof fn strangers_are_followed_by_the_first(
    aggregate: AggregateRelayProfileView,
    relay_id: Seq<char>,
    k: int,
)
    requires
        forall|i: int|
            0 <= i < aggregate.members.len() ==> (#[trigger] aggregate.members[i]).relay_id
                != relay_id,
        0 <= k < aggregate.members.len() - 1,
    ensures
        circle_after(aggregate, relay_id).len() == aggregate.members.len() - 1,
        circle_after(aggregate, relay_id)[k] == aggregate.members[k].relay_id,
{
    let view = SelectorView::fresh(aggregate, None);
    lemma_position_of(view, relay_id, 0);
    if view.member_position(relay_id, 0) is Some {
        let p = view.member_position(relay_id, 0)->0;
        assert(aggregate.members[p].relay_id == relay_id);
    }
    lemma_once_round(k, aggregate.members.len() as int);
}

/// The relays found for some ids are the first relays that have them, in the order of the ids; they
/// are found exactly where each id has a relay.
pub proof fn relays_are_found_by_their_ids(
    settings: RelaySettingsView,
    aggregate_id: Seq<char>,
    ids: Seq<Seq<char>>,
)
    ensures
        match relays_with_ids(settings, aggregate_id, ids) {
            Ok(relays) => relays.len() == ids.len() && forall|i: int|
                0 <= i < ids.len() ==> (#[trigger] relays[i]).id == ids[i]
                    && settings.relay_profiles.contains(relays[i]),
            Err(_) => exists|i: int|
                0 <= i < ids.len() && forall|j: int|
                    0 <= j < settings.relay_profiles.len() ==> (
                    #[trigger] settings.relay_profiles[j]).id != #[trigger] ids[i],
        },
    decreases ids.len(),
{
    if ids.len() > 0 {
        let shorter = ids.drop_last();
        relays_are_found_by_their_ids(settings, aggregate_id, shorter);
        lemma_relay_position(settings.relay_profiles, ids.last());
        match relays_with_ids(settings, aggregate_id, shorter) {
            Err(_) => {
                let i = choose|i: int|
                    0 <= i < shorter.len() && forall|j: int|
                        0 <= j < settings.relay_profiles.len() ==> (
                        #[trigger] settings.relay_profiles[j]).id != #[trigger] shorter[i];
                assert(ids[i] == shorter[i]);
            },
            Ok(before) => {
                match relay_position(settings.relay_profiles, ids.last()) {
                    Some(p) => {
                        let relays = before.push(settings.relay_profiles[p]);
                        assert forall|i: int| 0 <= i < ids.len() implies (#[trigger] relays[i]).id
                            == ids[i] && settings.relay_profiles.contains(relays[i]) by {
                            if i < before.len() {
                                assert(relays[i] == before[i]);
                                assert(shorter[i] == ids[i]);
                            }
                        }
                    },
                    None => {
                        assert(ids[ids.len() - 1] == ids.last());
                    },
                }
            },
        }
    }
}

/// The first relay with an id is the one that counts.
pub proof fn first_relay_with_an_id_counts(relays: Seq<RelayProfileView>, id: Seq<char>, i: int)
    requires
        0 <= i < relays.len(),
        relays[i].id == id,
        forall|j: int| 0 <= j < i ==> (#[trigger] relays[j]).id != id,
    ensures
        relay_position(relays, id) == Some(i),
{
    lemma_relay_position(relays, id);
    let p = relay_position(relays, id);
    assert(relays[i].id == id);
    if p is Some && p->0 != i && p->0 < i {
        assert(relays[p->0].id != id);
    }
}

/// Relays that are tried after a failure in an aggregate in use, with their ids in the circle's
/// order; without an aggregate there are none.
pub proof fn fallbacks_follow_the_circle(
    slot: Option<SelectorView>,
    settings: RelaySettingsView,
    relay_id: Seq<char>,
    now: Instant,
)
    ensures
        settings.active_aggregate() is None ==> fallbacks(slot, settings, relay_id, now) == (
            slot,
            Ok::<Seq<RelayProfileView>, SelectionErrorView>(Seq::empty()),
        ),
        settings.active_aggregate() is Some && settings.active_aggregate()->0.strategy
            != AggregateRelayStrategy::PriorityFallback ==> {
            let circle = circle_after(settings.active_aggregate()->0, relay_id);
            let (after, found) = fallbacks(slot, settings, relay_id, now);
            &&& after == slot
            &&& found is Ok ==> found->Ok_0.len() == circle.len() && forall|i: int|
                0 <= i < circle.len() ==> (#[trigger] found->Ok_0[i]).id == circle[i]
        },
{
    if let Some(aggregate) = settings.active_aggregate() {
        relays_are_found_by_their_ids(settings, aggregate.id, circle_after(aggregate, relay_id));
    }
}

/// Where the `k`th of the available members stands.
pub open spec fn places_rise(
    selector: SelectorView,
    ids: Seq<Seq<char>>,
    places: Seq<int>,
    from: int,
) -> bool {
    &&& places.len() == ids.len()
    &&& forall|k: int|
        0 <= k < ids.len() ==> from <= #[trigger] places[k] < selector.aggregate.members.len()
            && selector.aggregate.members[places[k]].relay_id == ids[k]
    &&& forall|k: int, l: int| 0 <= k < l < ids.len() ==> places[k] < places[l]
}

/// The places of the members from one on that do not rest.
pub open spec fn available_places(selector: SelectorView, now: Instant, from: int) -> Seq<int>
    decreases selector.aggregate.members.len() - from,
{
    if from >= selector.aggregate.members.len() {
        Seq::empty()
    } else if is_resting(selector, selector.aggregate.members[from].relay_id, now) {
        available_places(selector, now, from + 1)
    } else {
        seq![from] + available_places(selector, now, from + 1)
    }
}

proof fn lemma_places_of_available(selector: SelectorView, now: Instant, from: int)
    requires
        0 <= from,
    ensures
        selector.available_from(now, from).len() == available_places(selector, now, from).len(),
        forall|k: int|
            0 <= k < available_places(selector, now, from).len() ==> {
                let place = #[trigger] available_places(selector, now, from)[k];
                &&& from <= place < selector.aggregate.members.len()
                &&& selector.aggregate.members[place].relay_id == selector.available_from(
                    now,
                    from,
                )[k]
                &&& !is_resting(selector, selector.aggregate.members[place].relay_id, now)
            },
    decreases selector.aggregate.members.len() - from,
{
    if from < selector.aggregate.members.len() {
        lemma_places_of_available(selector, now, from + 1);
        let places = available_places(selector, now, from);
        let rest = available_places(selector, now, from + 1);
        if !is_resting(selector, selector.aggregate.members[from].relay_id, now) {
            assert forall|k: int| 0 <= k < places.len() implies {
                let place = #[trigger] places[k];
                &&& from <= place < selector.aggregate.members.len()
                &&& selector.aggregate.members[place].relay_id == selector.available_from(
                    now,
                    from,
                )[k]
                &&& !is_resting(selector, selector.aggregate.members[place].relay_id, now)
            } by {
                if k > 0 {
                    assert(places[k] == rest[k - 1]);
                }
            }
        }
    }
}

proof fn lemma_places_rise(selector: SelectorView, now: Instant, from: int, k: int, l: int)
    requires
        0 <= from,
        0 <= k < l < available_places(selector, now, from).len(),
    ensures
        available_places(selector, now, from)[k] < available_places(selector, now, from)[l],
    decreases selector.aggregate.members.len() - from,
{
    lemma_places_of_available(selector, now, from + 1);
    let places = available_places(selector, now, from);
    let rest = available_places(selector, now, from + 1);
    if is_resting(selector, selector.aggregate.members[from].relay_id, now) {
        lemma_places_rise(selector, now, from + 1, k, l);
    } else {
        assert(places[l] == rest[l - 1]);
        if k > 0 {
            assert(places[k] == rest[k - 1]);
            lemma_places_rise(selector, now, from + 1, k - 1, l - 1);
        }
    }
}

proof fn lemma_available_is_placed(selector: SelectorView, now: Instant, from: int, j: int)
    requires
        0 <= from <= j < selector.aggregate.members.len(),
        !is_resting(selector, selector.aggregate.members[j].relay_id, now),
    ensures
        available_places(selector, now, from).contains(j),
    decreases j - from,
{
    let places = available_places(selector, now, from);
    if from == j {
        assert(places[0] == j);
    } else {
        lemma_available_is_placed(selector, now, from + 1, j);
        let rest = available_places(selector, now, from + 1);
        let k = choose|k: int| 0 <= k < rest.len() && rest[k] == j;
        if is_resting(selector, selector.aggregate.members[from].relay_id, now) {
            assert(places[k] == j);
        } else {
            assert(places[k + 1] == j);
        }
    }
}

/// A relay rests until its cooldown is over.
pub open spec fn is_resting(selector: SelectorView, relay_id: Seq<char>, now: Instant) -> bool {
    selector.cooldowns.contains_key(relay_id) && selector.cooldowns[relay_id].nanos > now.nanos
}

/// After a member of a priority aggregate those of lower priority are tried, in their order, all
/// that do not rest and no other; after a relay that is no member none is.
pub proof fn lower_priorities_are_tried(
    selector: SelectorView,
    i: int,
    now: Instant,
)
    requires
        members_differ(selector.aggregate),
        0 <= i < selector.aggregate.members.len(),
    ensures
        ({
            let ids = selector.fallbacks_after(selector.aggregate.members[i].relay_id, now);
            &&& exists|places: Seq<int>| #[trigger] places_rise(selector, ids, places, i + 1)
            &&& forall|j: int|
                i < j < selector.aggregate.members.len() ==> ids.contains(
                    (#[trigger] selector.aggregate.members[j]).relay_id,
                ) == !is_resting(selector, selector.aggregate.members[j].relay_id, now)
            &&& forall|j: int|
                0 <= j <= i ==> !ids.contains((#[trigger] selector.aggregate.members[j]).relay_id)
        }),
{
    let failed = selector.aggregate.members[i].relay_id;
    lemma_position_of(selector, failed, 0);
    let p = selector.member_position(failed, 0);
    assert(p == Some(i)) by {
        assert(selector.aggregate.members[i].relay_id == failed);
        if p is Some && p->0 != i {
            let q = p->0;
            if q < i {
                assert(selector.aggregate.members[q].relay_id
                    != selector.aggregate.members[i].relay_id);
            }
        }
    }
    let ids = selector.fallbacks_after(failed, now);
    let places = available_places(selector, now, i + 1);
    lemma_places_of_available(selector, now, i + 1);
    assert forall|k: int, l: int| 0 <= k < l < ids.len() implies places[k] < places[l] by {
        lemma_places_rise(selector, now, i + 1, k, l);
    }
    assert(places_rise(selector, ids, places, i + 1));
    assert forall|j: int| i < j < selector.aggregate.members.len() implies ids.contains(
        (#[trigger] selector.aggregate.members[j]).relay_id,
    ) == !is_resting(selector, selector.aggregate.members[j].relay_id, now) by {
        let id = selector.aggregate.members[j].relay_id;
        if !is_resting(selector, id, now) {
            lemma_available_is_placed(selector, now, i + 1, j);
            let k = choose|k: int| 0 <= k < places.len() && places[k] == j;
            assert(selector.aggregate.members[places[k]].relay_id == ids[k]);
        }
        if ids.contains(id) {
            let k = choose|k: int| 0 <= k < ids.len() && ids[k] == id;
            let at = places[k];
            assert(selector.aggregate.members[at].relay_id == id);
        }
    }
    assert forall|j: int| 0 <= j <= i implies !ids.contains(
        (#[trigger] selector.aggregate.members[j]).relay_id,
    ) by {
        let id = selector.aggregate.members[j].relay_id;
        if ids.contains(id) {
            let k = choose|k: int| 0 <= k < ids.len() && ids[k] == id;
            let at = places[k];
            assert(at >= i + 1);
            assert(selector.aggregate.members[j].relay_id
                != selector.aggregate.members[at].relay_id);
        }
    }
}

pub proof fn strangers_have_no_lower_priorities(
    selector: SelectorView,
    relay_id: Seq<char>,
    now: Instant,
)
    requires
        forall|i: int|
            0 <= i < selector.aggregate.members.len() ==> (
            #[trigger] selector.aggregate.members[i]).relay_id != relay_id,
    ensures
        selector.fallbacks_after(relay_id, now).len() == 0,
{
    lemma_position_of(selector, relay_id, 0);
    if let Some(p) = selector.member_position(relay_id, 0) {
        assert(selector.aggregate.members[p].relay_id == relay_id);
    }
}

proof fn lemma_last_relay(relays: Seq<RelayProfileView>, id: Seq<char>)
    ensures
        match last_relay_position(relays, id) {
            Some(p) => 0 <= p < relays.len() && relays[p].id == id && forall|j: int|
                p < j < relays.len() ==> (#[trigger] relays[j]).id != id,
            None => forall|j: int| 0 <= j < relays.len() ==> (#[trigger] relays[j]).id != id,
        },
    decreases relays.len(),
{
    if relays.len() > 0 && relays.last().id != id {
        lemma_last_relay(relays.drop_last(), id);
        let shorter = relays.drop_last();
        assert forall|j: int| 0 <= j < shorter.len() implies shorter[j] == #[trigger] relays[j] by {
        }
    }
}

/// A relay serves in an aggregate where it has an address, and a key, unless it is one that signs in
/// with a key alone and says that it needs none.
pub open spec fn serves(relay: RelayProfileView) -> bool {
    trimmed(relay.base_url).len() > 0 && (trimmed(relay.api_key).len() > 0 || (relay.relay_mode
        == RelayMode::PureApi && relay.no_auth))
}

/// Whether the relay of a member, the last with its id, can serve.
#[verifier::opaque]
pub open spec fn member_serves(
    relays: Seq<RelayProfileView>,
    member: AggregateRelayMemberView,
) -> bool {
    exists|p: int|
        0 <= p < relays.len() && (#[trigger] relays[p]).id == member.relay_id && serves(relays[p])
            && forall|j: int| p < j < relays.len() ==> (#[trigger] relays[j]).id != member.relay_id
}

proof fn lemma_member_serves(
    relays: Seq<RelayProfileView>,
    member: AggregateRelayMemberView,
)
    ensures
        member_serves(relays, member) == (last_relay_position(relays, member.relay_id) is Some
            && serves(relays[last_relay_position(relays, member.relay_id)->0])),
{
    reveal(member_serves);
    lemma_last_relay(relays, member.relay_id);
    let p = last_relay_position(relays, member.relay_id);
    if member_serves(relays, member) {
        let q = choose|q: int|
            0 <= q < relays.len() && (#[trigger] relays[q]).id == member.relay_id && serves(
                relays[q],
            ) && forall|j: int|
                q < j < relays.len() ==> (#[trigger] relays[j]).id != member.relay_id;
        assert(relays[q].id == member.relay_id);
        assert(relays[p->0].id == member.relay_id);
    } else if p is Some {
        assert(relays[p->0].id == member.relay_id);
    }
}

proof fn lemma_member_fault(
    relays: Seq<RelayProfileView>,
    aggregate: AggregateRelayProfileView,
    from: int,
)
    requires
        0 <= from,
    ensures
        member_fault(relays, aggregate, from) is None == (forall|i: int|
            from <= i < aggregate.members.len() ==> member_serves(
                relays,
                #[trigger] aggregate.members[i],
            )),
    decreases aggregate.members.len() - from,
{
    if from < aggregate.members.len() {
        lemma_member_serves(relays, aggregate.members[from]);
        lemma_member_fault(relays, aggregate, from + 1);
        if forall|i: int|
            from <= i < aggregate.members.len() ==> member_serves(
                relays,
                #[trigger] aggregate.members[i],
            ) {
            assert(member_serves(relays, aggregate.members[from]));
        }
    }
}

pub open spec fn is_known(relays: Seq<RelayProfileView>, id: Seq<char>) -> bool {
    exists|p: int| 0 <= p < relays.len() && (#[trigger] relays[p]).id == id
}

/// An aggregate can be used where it has members and the relay of each can serve; else the first
/// member that cannot is told.
pub proof fn faults_are_told(
    relays: Seq<RelayProfileView>,
    aggregate: AggregateRelayProfileView,
    i: int,
)
    ensures
        aggregate_fault(relays, aggregate) is None == (aggregate.members.len() > 0 && forall|j: int|
            0 <= j < aggregate.members.len() ==> member_serves(
                relays,
                #[trigger] aggregate.members[j],
            )),
        aggregate.members.len() == 0 ==> aggregate_fault(relays, aggregate) == Some(
            SelectionErrorView::EmptyAggregateMembers { aggregate_id: aggregate.id },
        ),
        0 <= i < aggregate.members.len() && (forall|j: int|
            0 <= j < i ==> member_serves(relays, #[trigger] aggregate.members[j]))
            && !member_serves(relays, aggregate.members[i]) ==> {
            let id = aggregate.members[i].relay_id;
            aggregate_fault(relays, aggregate) == Some(
                if is_known(relays, id) {
                    SelectionErrorView::InvalidMemberRelay {
                        aggregate_id: aggregate.id,
                        relay_id: id,
                    }
                } else {
                    SelectionErrorView::UnknownMemberRelay {
                        aggregate_id: aggregate.id,
                        relay_id: id,
                    }
                },
            )
        },
{
    lemma_member_fault(relays, aggregate, 0);
    if 0 <= i < aggregate.members.len() && (forall|j: int|
        0 <= j < i ==> member_serves(relays, #[trigger] aggregate.members[j])) && !member_serves(
        relays,
        aggregate.members[i],
    ) {
        lemma_fault_at(relays, aggregate, 0, i);
    }
}

proof fn lemma_fault_at(
    relays: Seq<RelayProfileView>,
    aggregate: AggregateRelayProfileView,
    from: int,
    i: int,
)
    requires
        0 <= from <= i < aggregate.members.len(),
        forall|j: int| 0 <= j < i ==> member_serves(relays, #[trigger] aggregate.members[j]),
        !member_serves(relays, aggregate.members[i]),
    ensures
        ({
            let id = aggregate.members[i].relay_id;
            member_fault(relays, aggregate, from) == Some(
                if is_known(relays, id) {
                    SelectionErrorView::InvalidMemberRelay {
                        aggregate_id: aggregate.id,
                        relay_id: id,
                    }
                } else {
                    SelectionErrorView::UnknownMemberRelay {
                        aggregate_id: aggregate.id,
                        relay_id: id,
                    }
                },
            )
        }),
    decreases i - from,
{
    let member = aggregate.members[from];
    lemma_member_serves(relays, member);
    if from < i {
        assert(member_serves(relays, aggregate.members[from]));
        lemma_fault_at(relays, aggregate, from + 1, i);
    } else {
        lemma_last_relay(relays, member.relay_id);
        let p = last_relay_position(relays, member.relay_id);
        if p is Some {
            assert(relays[p->0].id == member.relay_id);
        }
    }
}

/// How long a member rests after an outcome: not at all after a success, half an hour when there
/// were too many requests, an hour when payment is due, three minutes when a gateway failed, and ten
/// minutes after anything else.
pub proof fn rests_have_their_lengths(status: u16)
    ensures
        ({
            let rest = RelayRequestOutcome::HttpStatus(status).rest();
            &&& 200 <= status <= 299 ==> rest is None
            &&& status == 429 ==> rest == Some(1800u64)
            &&& status == 402 ==> rest == Some(3600u64)
            &&& status == 502 || status == 503 ==> rest == Some(180u64)
            &&& !(200 <= status <= 299) && status != 429 && status != 402 && status != 502 && status
                != 503 ==> rest == Some(600u64)
            &&& RelayRequestOutcome::TransportFailure.rest() == Some(600u64)
        }),
{
}

/// A failure of a member that does not rest counts one more; the one that sends it to rest starts
/// the count again, and the rest lasts as long as that outcome says, which is remembered. No other
/// member changes.
pub proof fn failures_count_up_to_a_rest(
    selector: SelectorView,
    relay_id: Seq<char>,
    outcome: RelayRequestOutcome,
    now: Instant,
    other: Seq<char>,
)
    requires
        selector.aggregate.strategy == AggregateRelayStrategy::PriorityFallback,
        selector.has_member(relay_id),
        !is_resting(selector, relay_id, now),
        outcome.rest() is Some,
        now.nanos + outcome.rest()->0 * 1_000_000_000 <= u64::MAX,
        other != relay_id,
    ensures
        ({
            let (after, rests) = selector.after_outcome(relay_id, outcome, now);
            let count = selector.failures_of(relay_id) + 1;
            &&& rests == (count >= 3)
            &&& !rests ==> after.failures_of(relay_id) == count && after.cooldowns
                == selector.cooldowns && after.reasons == selector.reasons
            &&& rests ==> after.failures_of(relay_id) == 0 && after.cooldowns.contains_key(relay_id)
                && after.cooldowns[relay_id].nanos == now.nanos + outcome.rest()->0 * 1_000_000_000
                && after.reasons.contains_key(relay_id) && after.reasons[relay_id] == outcome
            &&& after.failures_of(other) == selector.failures_of(other)
            &&& after.cooldowns.contains_key(other) == selector.cooldowns.contains_key(other)
            &&& selector.cooldowns.contains_key(other) ==> after.cooldowns[other]
                == selector.cooldowns[other]
            &&& after.aggregate == selector.aggregate && after.request_index
                == selector.request_index && after.conversations == selector.conversations
        }),
{
}

/// Outcomes of relays that are no members change nothing, and outcomes in other aggregates only
/// count as events; there a failure is told.
pub proof fn other_outcomes_are_events(
    selector: SelectorView,
    relay_id: Seq<char>,
    outcome: RelayRequestOutcome,
    now: Instant,
)
    ensures
        selector.aggregate.strategy == AggregateRelayStrategy::PriorityFallback
            && !selector.has_member(relay_id) ==> selector.after_outcome(relay_id, outcome, now)
            == (selector, false),
        selector.aggregate.strategy != AggregateRelayStrategy::PriorityFallback
            ==> selector.after_outcome(relay_id, outcome, now) == (
            selector.after_event(
                if outcome.rest() is Some {
                    RotationEvent::Failure
                } else {
                    RotationEvent::Success
                },
            ),
            outcome.rest() is Some,
        ),
{
}

/// Rests that are over are forgotten, the others stay, and so does everything else.
pub proof fn only_rests_that_are_over_are_forgotten(
    selector: SelectorView,
    now: Instant,
    id: Seq<char>,
)
    ensures
        ({
            let after = selector.pruned(now);
            &&& after.cooldowns.contains_key(id) == is_resting(selector, id, now)
            &&& after.cooldowns.contains_key(id) ==> after.cooldowns[id] == selector.cooldowns[id]
            &&& after.failures == selector.failures && after.reasons == selector.reasons
                && after.conversations == selector.conversations && after.request_index
                == selector.request_index && after.failover_index == selector.failover_index
                && after.weighted_index == selector.weighted_index
        }),
{
}

/// A member put back into service does not rest and has no failures; why it rested stays known.
pub proof fn reset_puts_everyone_back(selector: SelectorView, id: Seq<char>, now: Instant)
    ensures
        !is_resting(selector.reset(), id, now),
        selector.reset().failures_of(id) == 0,
        selector.reset().reasons == selector.reasons,
        selector.reset().conversations == selector.conversations,
{
}

/// The status tells of each member in its place its failures, how long it still rests, in seconds
/// rounded up, and why it rested last.
pub proof fn status_tells_of_each_member(selector: SelectorView, now: Instant, i: int)
    requires
        0 <= i < selector.aggregate.members.len(),
    ensures
        ({
            let status = selector.status(now);
            let id = selector.aggregate.members[i].relay_id;
            let told = status.members[i];
            &&& status.aggregate_id == Some(selector.aggregate.id)
            &&& status.members.len() == selector.aggregate.members.len()
            &&& told.relay_id == id
            &&& told.consecutive_failures == selector.failures_of(id)
            &&& told.failure_threshold == 3
            &&& !is_resting(selector, id, now) ==> told.cooldown_remaining_seconds == 0
            &&& is_resting(selector, id, now) ==> {
                let millis = (selector.cooldowns[id].nanos - now.nanos) / 1_000_000;
                told.cooldown_remaining_seconds * 1000 >= millis && (told.cooldown_remaining_seconds
                    - 1) * 1000 < millis
            }
            &&& selector.reasons.contains_key(id) ==> told.last_cooldown_reason == Some(
                selector.reasons[id],
            )
            &&& !selector.reasons.contains_key(id) ==> told.last_cooldown_reason is None
        }),
{
}

/// The weighted schedule gives each member, in its order, as many places in a row as its weight
/// says, and at least one.
pub proof fn schedule_follows_the_members(
    members: Seq<AggregateRelayMemberView>,
    m: int,
    offset: int,
)
    requires
        0 <= m < members.len(),
        0 <= offset,
        offset < members[m].weight || offset == 0,
    ensures
        schedule(members.take(m)).len() + offset < schedule(members).len(),
        schedule(members)[schedule(members.take(m)).len() + offset] == members[m].relay_id,
        schedule(members.take(m + 1)).len() == schedule(members.take(m)).len() + if members[m].weight
            == 0 {
            1
        } else {
            members[m].weight as int
        },
{
    lemma_schedule(members, m, offset);
}

/// A selector is kept while the aggregate stays the same, and in a priority aggregate the relays of
/// its members too; otherwise a new one is made.
pub proof fn selectors_are_kept_while_they_fit(
    selector: SelectorView,
    settings: RelaySettingsView,
    aggregate: AggregateRelayProfileView,
)
    requires
        settings.active_aggregate() == Some(aggregate),
    ensures
        selector.aggregate == aggregate && selector.priority_members is None ==> ready_selector(
            Some(selector),
            settings,
            aggregate,
        ) == Ok::<SelectorView, SelectionErrorView>(selector),
        selector.aggregate == aggregate && selector.priority_members == Some(
            member_relays(aggregate.members, settings.relay_profiles),
        ) ==> ready_selector(Some(selector), settings, aggregate) == Ok::<
            SelectorView,
            SelectionErrorView,
        >(selector),
        selector.aggregate != aggregate || (selector.priority_members is Some
            && selector.priority_members->0 != member_relays(
            aggregate.members,
            settings.relay_profiles,
        )) ==> ready_selector(Some(selector), settings, aggregate) == selector_for(settings),
        selector_for(settings) is Ok ==> selector_for(settings)->Ok_0.aggregate == aggregate
            && selector_for(settings)->Ok_0.failover_index == 0
            && selector_for(settings)->Ok_0.request_index == 0
            && selector_for(settings)->Ok_0.weighted_index == 0 && selector_for(
            settings,
        )->Ok_0.cooldowns == Map::<Seq<char>, Instant>::empty() && (selector_for(
            settings,
        )->Ok_0.priority_members is Some) == (aggregate.strategy
            == AggregateRelayStrategy::PriorityFallback),
{
}

/// A request that is served gets the relay that a member names; a request without an aggregate gets
/// the relay in use, and the selector is let go.
pub proof fn served_requests_get_a_members_relay(
    slot: Option<SelectorView>,
    settings: RelaySettingsView,
    facts: RelayFactsView,
    conversation: Option<Seq<char>>,
    now: Instant,
)
    ensures
        settings.active_aggregate() is None ==> request_choice(
            slot,
            settings,
            facts,
            conversation,
            now,
        ) == (
            None::<SelectorView>,
            Ok::<RelayProfileView, SelectionErrorView>(settings.active_relay(facts)),
        ),
        settings.active_aggregate() is Some && request_choice(
            slot,
            settings,
            facts,
            conversation,
            now,
        ).1 is Ok ==> {
            let relay = request_choice(slot, settings, facts, conversation, now).1->Ok_0;
            let selector = ready_selector(
                slot,
                settings,
                settings.active_aggregate()->0,
            )->Ok_0;
            &&& settings.relay_profiles.contains(relay)
            &&& relay.id == selector.pruned(now).next(conversation, now).1
        },
{
    if let Some(aggregate) = settings.active_aggregate() {
        if let Ok(selector) = ready_selector(slot, settings, aggregate) {
            let id = selector.pruned(now).next(conversation, now).1;
            lemma_relay_position(settings.relay_profiles, id);
        }
    }
}

/// Events and outcomes without an aggregate let the selector go; an event makes no selector.
pub proof fn reports_without_an_aggregate(
    slot: Option<SelectorView>,
    settings: RelaySettingsView,
    relay_id: Seq<char>,
    outcome: RelayRequestOutcome,
    event: RotationEvent,
    now: Instant,
    reset: bool,
)
    ensures
        settings.active_aggregate() is None ==> outcome_recorded(
            slot,
            settings,
            relay_id,
            outcome,
            now,
        ) == (None::<SelectorView>, false) && event_recorded(slot, settings, event) is None,
        settings.active_aggregate() is Some && slot is Some ==> event_recorded(
            slot,
            settings,
            event,
        ) == Some(slot->0.after_event(event)),
        slot is None ==> event_recorded(slot, settings, event) is None,
        settings.active_aggregate() is None ==> cooldowns_told(slot, settings, reset, now).0 == slot
            && cooldowns_told(slot, settings, reset, now).1.members.len() == 0,
{
}

/// A choice, and a look at the next one, give the first relay of the member that is chosen; an
/// aggregate with a fault gives the fault and changes nothing.
pub proof fn chosen_members_give_their_relays(
    selector: SelectorView,
    settings: RelaySettingsView,
    conversation: Option<Seq<char>>,
    now: Instant,
)
    ensures
        ({
            let fault = aggregate_fault(settings.relay_profiles, selector.aggregate);
            let (after, given) = selector.selected(settings, conversation, now);
            let shown = selector.peek_result(settings, now);
            &&& fault is Some ==> after == selector && given == Err::<
                RelayProfileView,
                SelectionErrorView,
            >(fault->0) && shown == Err::<RelayProfileView, SelectionErrorView>(fault->0)
            &&& fault is None ==> after == selector.pruned(now).next(conversation, now).0
            &&& given is Ok ==> settings.relay_profiles.contains(given->Ok_0) && given->Ok_0.id
                == selector.pruned(now).next(conversation, now).1
            &&& shown is Ok ==> settings.relay_profiles.contains(shown->Ok_0) && shown->Ok_0.id
                == selector.peeked(now)
        }),
{
    lemma_relay_position(
        settings.relay_profiles,
        selector.pruned(now).next(conversation, now).1,
    );
    lemma_relay_position(settings.relay_profiles, selector.peeked(now));
}

} // verus!
