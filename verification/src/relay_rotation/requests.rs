//! The rotation of requests: the one selector in use, kept as long as the settings fit it.
use vstd::prelude::*;

use super::selector::{
    aggregate_fault, chosen, relay_profile_by_id, selector_for, validate_aggregate_members,
    CooldownStatusView, RelayCooldownStatus, RelayRequestOutcome, RelayRotationSelector,
    RotationContext, RotationEvent, SelectionError, SelectionErrorView, SelectorView,
};
use crate::settings::active::{relay_position, RelayFacts, RelayFactsView};
use crate::settings::backend::{BackendSettings, RelaySettingsView};
use crate::settings::types::{
    relay_profile_views, AggregateRelayProfile, AggregateRelayProfileView, AggregateRelayStrategy,
    RelayProfile, RelayProfileView,
};
use crate::text::{option_text, same_text, texts};
use crate::time::{later, Duration, Instant};

verus! {

/// The selector in use, if there is one.
pub open spec fn slot_view(slot: Option<RelayRotationSelector>) -> Option<SelectorView> {
    match slot {
        Some(selector) => Some(selector@),
        None => None,
    }
}

pub open spec fn slot_is_valid(slot: Option<RelayRotationSelector>) -> bool {
    slot is Some ==> slot->0.is_valid()
}

/// The selector for the settings: the one in use, if it fits them, else a new one.
pub open spec fn ready_selector(
    slot: Option<SelectorView>,
    settings: RelaySettingsView,
    aggregate: AggregateRelayProfileView,
) -> Result<SelectorView, SelectionErrorView> {
    match slot {
        Some(selector) if selector.fits(settings, aggregate) => Ok(selector),
        _ => selector_for(settings),
    }
}

fn ready(
    slot: &mut Option<RelayRotationSelector>,
    settings: &BackendSettings,
    aggregate: &AggregateRelayProfile,
) -> (r: Result<(), SelectionError>)
    requires
        slot_is_valid(*old(slot)),
    ensures
        match r {
            Ok(_) => slot_view(*final(slot)) is Some && ready_selector(
                slot_view(*old(slot)),
                settings@.relays,
                aggregate@,
            ) == Ok::<SelectorView, SelectionErrorView>(slot_view(*final(slot))->0),
            Err(e) => *final(slot) == *old(slot) && ready_selector(
                slot_view(*old(slot)),
                settings@.relays,
                aggregate@,
            ) == Err::<SelectorView, SelectionErrorView>(e@),
        },
        slot_is_valid(*final(slot)),
{
    let fits = match slot {
        Some(selector) => selector.matches_settings(settings, aggregate),
        None => false,
    };
    if !fits {
        match RelayRotationSelector::from_settings(settings) {
            Ok(selector) => {
                *slot = Some(selector);
            },
            Err(e) => {
                return Err(e);
            },
        }
    }
    Ok(())
}

/// A choice for a request: the selector after it, and the relay. Without an aggregate the relay in
/// use serves.
pub open spec fn request_choice(
    slot: Option<SelectorView>,
    settings: RelaySettingsView,
    facts: RelayFactsView,
    conversation: Option<Seq<char>>,
    now: Instant,
) -> (Option<SelectorView>, Result<RelayProfileView, SelectionErrorView>) {
    match settings.active_aggregate() {
        None => (None, Ok(settings.active_relay(facts))),
        Some(aggregate) => match ready_selector(slot, settings, aggregate) {
            Err(e) => (slot, Err(e)),
            Ok(selector) => {
                let (after, r) = selector.selected(settings, conversation, now);
                (Some(after), r)
            },
        },
    }
}

/// Chooses the relay for a request.
pub fn select_relay_for_request(
    slot: &mut Option<RelayRotationSelector>,
    settings: &BackendSettings,
    facts: &RelayFacts,
    context: RotationContext,
    now: Instant,
) -> (r: Result<RelayProfile, SelectionError>)
    requires
        slot_is_valid(*old(slot)),
        facts@.covers(settings.relays.relay_profiles@.len()),
    ensures
        (slot_view(*final(slot)), chosen(r)) == request_choice(
            slot_view(*old(slot)),
            settings@.relays,
            facts@,
            option_text(context.conversation_id),
            now,
        ),
        slot_is_valid(*final(slot)),
{
    let aggregate = match settings.active_aggregate_relay_profile() {
        Some(aggregate) => aggregate,
        None => {
            *slot = None;
            return Ok(settings.active_relay_profile(facts));
        },
    };
    match ready(slot, settings, &aggregate) {
        Ok(_) => {},
        Err(e) => {
            return Err(e);
        },
    }
    match slot {
        Some(selector) => selector.select_at(settings, context, now),
        None => Err(SelectionError::NoActiveAggregate),
    }
}

/// A look at the next choice: the selector, and the relay.
pub open spec fn probe_choice(
    slot: Option<SelectorView>,
    settings: RelaySettingsView,
    facts: RelayFactsView,
    now: Instant,
) -> (Option<SelectorView>, Result<RelayProfileView, SelectionErrorView>) {
    match settings.active_aggregate() {
        None => (None, Ok(settings.active_relay(facts))),
        Some(aggregate) => match ready_selector(slot, settings, aggregate) {
            Err(e) => (slot, Err(e)),
            Ok(selector) => (Some(selector), selector.peek_result(settings, now)),
        },
    }
}

/// The relay that would serve the next request; the rotation does not move.
pub fn select_relay_for_probe(
    slot: &mut Option<RelayRotationSelector>,
    settings: &BackendSettings,
    facts: &RelayFacts,
    now: Instant,
) -> (r: Result<RelayProfile, SelectionError>)
    requires
        slot_is_valid(*old(slot)),
        facts@.covers(settings.relays.relay_profiles@.len()),
    ensures
        (slot_view(*final(slot)), chosen(r)) == probe_choice(
            slot_view(*old(slot)),
            settings@.relays,
            facts@,
            now,
        ),
        slot_is_valid(*final(slot)),
{
    let aggregate = match settings.active_aggregate_relay_profile() {
        Some(aggregate) => aggregate,
        None => {
            *slot = None;
            return Ok(settings.active_relay_profile(facts));
        },
    };
    match ready(slot, settings, &aggregate) {
        Ok(_) => {},
        Err(e) => {
            return Err(e);
        },
    }
    match slot {
        Some(selector) => selector.peek_at(settings, now),
        None => Err(SelectionError::NoActiveAggregate),
    }
}

/// The members of an aggregate after one, in a circle, without that one. After a relay that is no
/// member the circle starts at the first.
pub open spec fn circle_after(
    aggregate: AggregateRelayProfileView,
    relay_id: Seq<char>,
) -> Seq<Seq<char>> {
    let n = aggregate.members.len() as int;
    let start = match SelectorView::fresh(aggregate, None).member_position(relay_id, 0) {
        Some(i) => i + 1,
        None => 0,
    };
    Seq::new(
        (if n > 0 {
            n - 1
        } else {
            0
        }) as nat,
        |offset: int| aggregate.members[(start + offset) % n].relay_id,
    )
}

/// The relays with some ids, or the first that is not defined.
pub open spec fn relays_with_ids(
    settings: RelaySettingsView,
    aggregate_id: Seq<char>,
    ids: Seq<Seq<char>>,
) -> Result<Seq<RelayProfileView>, SelectionErrorView>
    decreases ids.len(),
{
    if ids.len() == 0 {
        Ok(Seq::empty())
    } else {
        match relays_with_ids(settings, aggregate_id, ids.drop_last()) {
            Err(e) => Err(e),
            Ok(before) => match relay_position(settings.relay_profiles, ids.last()) {
                Some(p) => Ok(before.push(settings.relay_profiles[p])),
                None => Err(
                    SelectionErrorView::UnknownMemberRelay { aggregate_id, relay_id: ids.last() },
                ),
            },
        }
    }
}

/// The relays to try after one that failed, and the selector.
pub open spec fn fallbacks(
    slot: Option<SelectorView>,
    settings: RelaySettingsView,
    relay_id: Seq<char>,
    now: Instant,
) -> (Option<SelectorView>, Result<Seq<RelayProfileView>, SelectionErrorView>) {
    match settings.active_aggregate() {
        None => (slot, Ok(Seq::empty())),
        Some(aggregate) => match aggregate_fault(settings.relay_profiles, aggregate) {
            Some(e) => (slot, Err(e)),
            None => if aggregate.strategy == AggregateRelayStrategy::PriorityFallback {
                match ready_selector(slot, settings, aggregate) {
                    Err(e) => (slot, Err(e)),
                    Ok(selector) => (
                        Some(selector),
                        relays_with_ids(
                            settings,
                            aggregate.id,
                            selector.fallbacks_after(relay_id, now),
                        ),
                    ),
                }
            } else {
                (
                    slot,
                    relays_with_ids(settings, aggregate.id, circle_after(aggregate, relay_id)),
                )
            },
        },
    }
}

/// The relays that were found, or why they were not.
pub open spec fn found(r: Result<Vec<RelayProfile>, SelectionError>) -> Result<
    Seq<RelayProfileView>,
    SelectionErrorView,
> {
    match r {
        Ok(relays) => Ok(relay_profile_views(relays@)),
        Err(e) => Err(e@),
    }
}

fn ids_in_circle(aggregate: &AggregateRelayProfile, relay_id: &str) -> (r: Vec<String>)
    ensures
        texts(r@) == circle_after(aggregate@, relay_id@),
{
    let n = aggregate.members.len();
    let mut r: Vec<String> = Vec::new();
    let ghost circle = circle_after(aggregate@, relay_id@);
    if n == 0 {
        assert(texts(r@) =~= circle);
        return r;
    }
    let ghost view = SelectorView::fresh(aggregate@, None);
    let mut start: usize = 0;
    let mut i: usize = 0;
    while i < n
        invariant_except_break
            start == 0,
        invariant
            n == aggregate.members@.len(),
            i <= n,
            view == SelectorView::fresh(aggregate@, None),
            view.member_position(relay_id@, 0) == view.member_position(relay_id@, i as int),
        ensures
            start <= n,
            start == (match view.member_position(relay_id@, 0) {
                Some(p) => p + 1,
                None => 0,
            }),
        decreases n - i,
    {
        assert(view.aggregate.members[i as int] == aggregate.members@[i as int]@);
        if same_text(aggregate.members[i].relay_id.as_str(), relay_id) {
            start = i + 1;
            break ;
        }
        i = i + 1;
    }
    let mut at: usize = if start == n {
        0
    } else {
        start
    };
    proof {
        assert((start as int) % (n as int) == at) by (nonlinear_arith)
            requires
                start <= n,
                n > 0,
                at == (if start == n {
                    0int
                } else {
                    start as int
                }),
        {}
        assert(texts(r@) =~= circle.take(0));
    }
    for offset in 0..n - 1
        invariant
            n == aggregate.members@.len(),
            n > 0,
            at < n,
            at == (start + offset) % (n as int),
            start == (match view.member_position(relay_id@, 0) {
                Some(p) => p + 1,
                None => 0,
            }),
            view == SelectorView::fresh(aggregate@, None),
            circle == circle_after(aggregate@, relay_id@),
            texts(r@) == circle.take(offset as int),
    {
        let ghost before = texts(r@);
        assert(aggregate@.members[at as int] == aggregate.members@[at as int]@);
        let id = aggregate.members[at].relay_id.clone();
        r.push(id);
        proof {
            assert(circle[offset as int] == id@);
            assert(texts(r@) =~= before.push(id@));
            assert(circle.take(offset + 1) =~= circle.take(offset as int).push(id@));
            let here = start + offset;
            assert((here + 1) % (n as int) == (if at + 1 == n {
                0int
            } else {
                at + 1
            })) by (nonlinear_arith)
                requires
                    at == here % (n as int),
                    n > 0,
            {}
        }
        at = if at + 1 == n {
            0
        } else {
            at + 1
        };
    }
    assert(circle.take(n - 1) =~= circle);
    r
}

fn relays_by_ids(settings: &BackendSettings, aggregate_id: &str, ids: &Vec<String>) -> (r: Result<
    Vec<RelayProfile>,
    SelectionError,
>)
    ensures
        found(r) == relays_with_ids(settings@.relays, aggregate_id@, texts(ids@)),
{
    let mut relays: Vec<RelayProfile> = Vec::new();
    let ghost all = texts(ids@);
    assert(relay_profile_views(relays@) =~= Seq::empty());
    for i in 0..ids.len()
        invariant
            all == texts(ids@),
            relays_with_ids(settings@.relays, aggregate_id@, all.take(i as int)) == Ok::<
                Seq<RelayProfileView>,
                SelectionErrorView,
            >(relay_profile_views(relays@)),
    {
        proof {
            assert(all.take(i + 1).drop_last() =~= all.take(i as int));
            assert(all.take(i + 1).last() == ids@[i as int]@);
        }
        match relay_profile_by_id(settings, ids[i].as_str()) {
            Some(profile) => {
                let ghost before = relay_profile_views(relays@);
                relays.push(profile);
                assert(relay_profile_views(relays@) =~= before.push(profile@));
            },
            None => {
                let e = SelectionError::UnknownMemberRelay {
                    aggregate_id: aggregate_id.to_owned(),
                    relay_id: ids[i].clone(),
                };
                proof {
                    lemma_error_stays(settings@.relays, aggregate_id@, all, i + 1);
                }
                return Err(e);
            },
        }
    }
    assert(all.take(ids@.len() as int) =~= all);
    Ok(relays)
}

proof fn lemma_error_stays(
    settings: RelaySettingsView,
    aggregate_id: Seq<char>,
    ids: Seq<Seq<char>>,
    n: int,
)
    requires
        0 <= n <= ids.len(),
        relays_with_ids(settings, aggregate_id, ids.take(n)) is Err,
    ensures
        relays_with_ids(settings, aggregate_id, ids) == relays_with_ids(
            settings,
            aggregate_id,
            ids.take(n),
        ),
    decreases ids.len() - n,
{
    if n < ids.len() {
        assert(ids.take(n + 1).drop_last() =~= ids.take(n));
        lemma_error_stays(settings, aggregate_id, ids, n + 1);
    } else {
        assert(ids.take(n) =~= ids);
    }
}

/// The relays to try, in their order, after one that failed.
pub fn fallback_relays_after_at(
    slot: &mut Option<RelayRotationSelector>,
    settings: &BackendSettings,
    relay_id: &str,
    now: Instant,
) -> (r: Result<Vec<RelayProfile>, SelectionError>)
    requires
        slot_is_valid(*old(slot)),
    ensures
        (slot_view(*final(slot)), found(r)) == fallbacks(
            slot_view(*old(slot)),
            settings@.relays,
            relay_id@,
            now,
        ),
        slot_is_valid(*final(slot)),
{
    let aggregate = match settings.active_aggregate_relay_profile() {
        Some(aggregate) => aggregate,
        None => {
            let none: Vec<RelayProfile> = Vec::new();
            assert(relay_profile_views(none@) =~= Seq::empty());
            return Ok(none);
        },
    };
    match validate_aggregate_members(settings, &aggregate) {
        Ok(_) => {},
        Err(e) => {
            return Err(e);
        },
    }
    let ids = if aggregate.strategy == AggregateRelayStrategy::PriorityFallback {
        match ready(slot, settings, &aggregate) {
            Ok(_) => {},
            Err(e) => {
                return Err(e);
            },
        }
        match slot {
            Some(selector) => selector.priority_fallbacks_after(relay_id, now),
            None => Vec::new(),
        }
    } else {
        ids_in_circle(&aggregate, relay_id)
    };
    relays_by_ids(settings, aggregate.id.as_str(), &ids)
}

/// What the outcome of a request does to the selector in use, and what it tells.
pub open spec fn outcome_recorded(
    slot: Option<SelectorView>,
    settings: RelaySettingsView,
    relay_id: Seq<char>,
    outcome: RelayRequestOutcome,
    now: Instant,
) -> (Option<SelectorView>, bool) {
    match settings.active_aggregate() {
        None => (None, false),
        Some(aggregate) => match ready_selector(slot, settings, aggregate) {
            Err(_) => (slot, false),
            Ok(selector) => {
                let (after, told) = selector.after_outcome(relay_id, outcome, now);
                (Some(after), told)
            },
        },
    }
}

/// Takes the outcome of a request to a relay.
pub fn record_relay_request_outcome_at(
    slot: &mut Option<RelayRotationSelector>,
    settings: &BackendSettings,
    relay_id: &str,
    outcome: RelayRequestOutcome,
    now: Instant,
) -> (r: bool)
    requires
        slot_is_valid(*old(slot)),
        later(now, Duration { seconds: 3600 }) <= u64::MAX,
    ensures
        (slot_view(*final(slot)), r) == outcome_recorded(
            slot_view(*old(slot)),
            settings@.relays,
            relay_id@,
            outcome,
            now,
        ),
        slot_is_valid(*final(slot)),
{
    let aggregate = match settings.active_aggregate_relay_profile() {
        Some(aggregate) => aggregate,
        None => {
            *slot = None;
            return false;
        },
    };
    match ready(slot, settings, &aggregate) {
        Ok(_) => {},
        Err(_) => {
            return false;
        },
    }
    match slot {
        Some(selector) => selector.record_outcome_at(relay_id, outcome, now),
        None => false,
    }
}

/// What an event does to the selector in use; without an aggregate there is none.
pub open spec fn event_recorded(
    slot: Option<SelectorView>,
    settings: RelaySettingsView,
    event: RotationEvent,
) -> Option<SelectorView> {
    match (settings.active_aggregate(), slot) {
        (Some(_), Some(selector)) => Some(selector.after_event(event)),
        _ => None,
    }
}

pub fn record_relay_request_event(
    slot: &mut Option<RelayRotationSelector>,
    settings: &BackendSettings,
    event: RotationEvent,
)
    requires
        slot_is_valid(*old(slot)),
    ensures
        slot_view(*final(slot)) == event_recorded(slot_view(*old(slot)), settings@.relays, event),
        slot_is_valid(*final(slot)),
{
    if settings.active_aggregate_relay_profile().is_none() {
        *slot = None;
        return ;
    }
    match slot {
        Some(selector) => selector.record_event(event),
        None => {},
    }
}

pub fn record_relay_request_failure(
    slot: &mut Option<RelayRotationSelector>,
    settings: &BackendSettings,
)
    requires
        slot_is_valid(*old(slot)),
    ensures
        slot_view(*final(slot)) == event_recorded(
            slot_view(*old(slot)),
            settings@.relays,
            RotationEvent::Failure,
        ),
        slot_is_valid(*final(slot)),
{
    record_relay_request_event(slot, settings, RotationEvent::Failure);
}

pub open spec fn no_cooldowns() -> CooldownStatusView {
    CooldownStatusView { aggregate_id: None, members: Seq::empty() }
}

fn empty_cooldown_status() -> (r: RelayCooldownStatus)
    ensures
        r@ == no_cooldowns(),
{
    let r = RelayCooldownStatus { aggregate_id: None, members: Vec::new() };
    assert(r@ =~= no_cooldowns());
    r
}

/// How the members of the priority aggregate in use stand, and the selector; they may be put back
/// into service first. Other aggregates have no cooldowns to tell of.
pub open spec fn cooldowns_told(
    slot: Option<SelectorView>,
    settings: RelaySettingsView,
    reset: bool,
    now: Instant,
) -> (Option<SelectorView>, CooldownStatusView) {
    match settings.active_aggregate() {
        Some(aggregate) if aggregate.strategy == AggregateRelayStrategy::PriorityFallback =>
            match ready_selector(slot, settings, aggregate) {
                Err(_) => (None, no_cooldowns()),
                Ok(selector) => {
                    let before = if reset {
                        selector.reset()
                    } else {
                        selector
                    };
                    (Some(before.pruned(now)), before.pruned(now).status(now))
                },
            },
        _ => (slot, no_cooldowns()),
    }
}

fn tell_cooldowns(
    slot: &mut Option<RelayRotationSelector>,
    settings: &BackendSettings,
    reset: bool,
    now: Instant,
) -> (r: RelayCooldownStatus)
    requires
        slot_is_valid(*old(slot)),
    ensures
        (slot_view(*final(slot)), r@) == cooldowns_told(
            slot_view(*old(slot)),
            settings@.relays,
            reset,
            now,
        ),
        slot_is_valid(*final(slot)),
{
    let aggregate = match settings.active_aggregate_relay_profile() {
        Some(aggregate) => aggregate,
        None => {
            return empty_cooldown_status();
        },
    };
    if aggregate.strategy != AggregateRelayStrategy::PriorityFallback {
        return empty_cooldown_status();
    }
    match ready(slot, settings, &aggregate) {
        Ok(_) => {},
        Err(_) => {
            *slot = None;
            return empty_cooldown_status();
        },
    }
    match slot {
        Some(selector) => {
            if reset {
                selector.reset_priority_fallback_cooldowns();
            }
            selector.cooldown_status_at(now)
        },
        None => empty_cooldown_status(),
    }
}

pub fn priority_fallback_cooldown_status_at(
    slot: &mut Option<RelayRotationSelector>,
    settings: &BackendSettings,
    now: Instant,
) -> (r: RelayCooldownStatus)
    requires
        slot_is_valid(*old(slot)),
    ensures
        (slot_view(*final(slot)), r@) == cooldowns_told(
            slot_view(*old(slot)),
            settings@.relays,
            false,
            now,
        ),
        slot_is_valid(*final(slot)),
{
    tell_cooldowns(slot, settings, false, now)
}

/// Puts the members of the priority aggregate in use back into service.
pub fn reset_priority_fallback_cooldowns(
    slot: &mut Option<RelayRotationSelector>,
    settings: &BackendSettings,
    now: Instant,
) -> (r: RelayCooldownStatus)
    requires
        slot_is_valid(*old(slot)),
    ensures
        (slot_view(*final(slot)), r@) == cooldowns_told(
            slot_view(*old(slot)),
            settings@.relays,
            true,
            now,
        ),
        slot_is_valid(*final(slot)),
{
    tell_cooldowns(slot, settings, true, now)
}

/// Puts every member of the selector in use back into service, whatever the settings say.
pub fn reset_all_priority_fallback_cooldowns(
    slot: &mut Option<RelayRotationSelector>,
    now: Instant,
) -> (r: RelayCooldownStatus)
    requires
        slot_is_valid(*old(slot)),
    ensures
        (slot_view(*final(slot)), r@) == (match slot_view(*old(slot)) {
            Some(selector) => (
                Some(selector.reset().pruned(now)),
                selector.reset().pruned(now).status(now),
            ),
            None => (None, no_cooldowns()),
        }),
        slot_is_valid(*final(slot)),
{
    match slot {
        Some(selector) => {
            selector.reset_priority_fallback_cooldowns();
            selector.cooldown_status_at(now)
        },
        None => empty_cooldown_status(),
    }
}

} // verus!
