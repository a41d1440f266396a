//! What holds of a selector after any calls.
use vstd::prelude::*;

use super::selector::{
    aggregate_fault, RelayRequestOutcome, RotationEvent, SelectorView,
    PRIORITY_FALLBACK_FAILURE_THRESHOLD,
};
use crate::settings::backend::RelaySettingsView;
use crate::settings::types::{AggregateRelayProfileView, AggregateRelayStrategy, RelayProfileView};
use crate::time::Instant;

verus! {

/// A call that can change a selector.
pub enum SelectorCall {
    Select(RelaySettingsView, Option<Seq<char>>, Instant),
    Event(RotationEvent),
    Outcome(Seq<char>, RelayRequestOutcome, Instant),
    Status(Instant),
    Reset,
}

pub open spec fn after_call(selector: SelectorView, call: SelectorCall) -> SelectorView {
    match call {
        SelectorCall::Select(settings, conversation, now) => selector.selected(
            settings,
            conversation,
            now,
        ).0,
        SelectorCall::Event(event) => selector.after_event(event),
        SelectorCall::Outcome(relay_id, outcome, now) => selector.after_outcome(
            relay_id,
            outcome,
            now,
        ).0,
        SelectorCall::Status(now) => selector.pruned(now),
        SelectorCall::Reset => selector.reset(),
    }
}

/// A selector after some calls, one after the other.
pub open spec fn after_calls(selector: SelectorView, calls: Seq<SelectorCall>) -> SelectorView
    decreases calls.len(),
{
    if calls.len() == 0 {
        selector
    } else {
        after_call(after_calls(selector, calls.drop_last()), calls.last())
    }
}

/// No call changes the aggregate.
pub proof fn calls_keep_the_aggregate(selector: SelectorView, calls: Seq<SelectorCall>)
    ensures
        after_calls(selector, calls).aggregate == selector.aggregate,
    decreases calls.len(),
{
    if calls.len() > 0 {
        calls_keep_the_aggregate(selector, calls.drop_last());
    }
}

pub open spec fn is_failure(call: SelectorCall) -> bool {
    match call {
        SelectorCall::Event(event) => event == RotationEvent::Failure,
        SelectorCall::Outcome(_, outcome, _) => outcome.event() == RotationEvent::Failure,
        _ => false,
    }
}

/// How many of some calls told of a failure.
pub open spec fn failures_in(calls: Seq<SelectorCall>) -> nat
    decreases calls.len(),
{
    if calls.len() == 0 {
        0
    } else {
        failures_in(calls.drop_last()) + if is_failure(calls.last()) {
            1nat
        } else {
            0nat
        }
    }
}

/// A failover aggregate serves with the member that as many failures lead to, in a circle; successes
/// and choices do not move it.
pub proof fn failover_follows_the_failures(
    selector: SelectorView,
    calls: Seq<SelectorCall>,
    conversation: Option<Seq<char>>,
    now: Instant,
)
    requires
        selector.aggregate.strategy == AggregateRelayStrategy::Failover,
        selector.counts_are_valid(),
    ensures
        after_calls(selector, calls).failover_index == (selector.failover_index + failures_in(
            calls,
        )) % selector.aggregate.members.len() as int,
        after_calls(selector, calls).pruned(now).next(conversation, now).1 == selector.member_id(
            (selector.failover_index + failures_in(calls))
                % selector.aggregate.members.len() as int,
        ),
    decreases calls.len(),
{
    let len = selector.aggregate.members.len() as int;
    calls_keep_the_aggregate(selector, calls);
    if calls.len() == 0 {
        vstd::arithmetic::div_mod::lemma_small_mod(selector.failover_index as nat, len as nat);
    } else {
        let before = calls.drop_last();
        failover_follows_the_failures(selector, before, conversation, now);
        calls_keep_the_aggregate(selector, before);
        lemma_turn(selector.failover_index + failures_in(before), len);
    }
}

/// A turn in a circle.
pub(super) proof fn lemma_turn(a: int, len: int)
    requires
        a >= 0,
        len > 0,
    ensures
        (a % len + 1) % len == (a + 1) % len,
{
    vstd::arithmetic::div_mod::lemma_add_mod_noop(a, 1, len);
    if len > 1 {
        vstd::arithmetic::div_mod::lemma_small_mod(1, len as nat);
    } else {
        assert(a % len == 0 && (a + 1) % len == 0 && (a % len + 1) % len == 0);
    }
}

/// The calls without the events among them.
pub open spec fn without_events(calls: Seq<SelectorCall>) -> Seq<SelectorCall>
    decreases calls.len(),
{
    if calls.len() == 0 {
        Seq::empty()
    } else if calls.last() is Event {
        without_events(calls.drop_last())
    } else {
        without_events(calls.drop_last()).push(calls.last())
    }
}

/// An aggregate with another strategy than failover does not heed events: it stands as if none had
/// been recorded.
pub proof fn only_failover_heeds_events(selector: SelectorView, calls: Seq<SelectorCall>)
    requires
        selector.aggregate.strategy != AggregateRelayStrategy::Failover,
    ensures
        after_calls(selector, calls) == after_calls(selector, without_events(calls)),
    decreases calls.len(),
{
    if calls.len() > 0 {
        let before = calls.drop_last();
        only_failover_heeds_events(selector, before);
        calls_keep_the_aggregate(selector, before);
        if !(calls.last() is Event) {
            assert(without_events(calls).drop_last() =~= without_events(before));
        }
    }
}

/// Failures are counted for members of a priority aggregate, and a member that failed often enough
/// rests with its count at nothing.
pub open spec fn counts_only_members(selector: SelectorView) -> bool {
    forall|id: Seq<char>| #[trigger]
        selector.failures.contains_key(id) ==> selector.has_member(id)
            && selector.aggregate.strategy == AggregateRelayStrategy::PriorityFallback
            && selector.failures[id] < PRIORITY_FALLBACK_FAILURE_THRESHOLD
}

proof fn lemma_counts_only_members(selector: SelectorView, calls: Seq<SelectorCall>)
    requires
        counts_only_members(selector),
    ensures
        counts_only_members(after_calls(selector, calls)),
    decreases calls.len(),
{
    if calls.len() > 0 {
        lemma_counts_only_members(selector, calls.drop_last());
        let before = after_calls(selector, calls.drop_last());
        let after = after_calls(selector, calls);
        assert(after.aggregate == before.aggregate);
        assert forall|id: Seq<char>| #[trigger] after.failures.contains_key(id) implies after.has_member(
            id,
        ) && after.aggregate.strategy == AggregateRelayStrategy::PriorityFallback
            && after.failures[id] < PRIORITY_FALLBACK_FAILURE_THRESHOLD by {
            if before.failures.contains_key(id) {
                assert(before.has_member(id));
            }
            assert(after.has_member(id) == before.has_member(id));
        }
    }
}

/// After any calls on a fresh selector each relay has fewer failures in a row than send it to rest;
/// one that is no member, or any of another strategy, has none.
pub proof fn failure_counts_are_bounded(
    aggregate: AggregateRelayProfileView,
    priority_members: Option<Seq<RelayProfileView>>,
    calls: Seq<SelectorCall>,
    relay_id: Seq<char>,
)
    ensures
        ({
            let fresh = SelectorView::fresh(aggregate, priority_members);
            let after = after_calls(fresh, calls);
            &&& after.failures_of(relay_id) < PRIORITY_FALLBACK_FAILURE_THRESHOLD
            &&& !fresh.has_member(relay_id) || aggregate.strategy
                != AggregateRelayStrategy::PriorityFallback ==> after.failures_of(relay_id) == 0
        }),
{
    let fresh = SelectorView::fresh(aggregate, priority_members);
    let after = after_calls(fresh, calls);
    lemma_counts_only_members(fresh, calls);
    calls_keep_the_aggregate(fresh, calls);
    assert(after.has_member(relay_id) == fresh.has_member(relay_id));
}

/// A success of a member leaves every other relay as it was.
pub proof fn success_leaves_the_others(
    selector: SelectorView,
    relay_id: Seq<char>,
    outcome: RelayRequestOutcome,
    now: Instant,
    other: Seq<char>,
)
    requires
        selector.aggregate.strategy == AggregateRelayStrategy::PriorityFallback,
        selector.has_member(relay_id),
        outcome.rest() is None,
        other != relay_id,
    ensures
        ({
            let (after, rests) = selector.after_outcome(relay_id, outcome, now);
            &&& !rests
            &&& !after.cooldowns.contains_key(relay_id)
            &&& after.failures_of(relay_id) == 0
            &&& after.cooldowns.contains_key(other) == selector.cooldowns.contains_key(other)
            &&& selector.cooldowns.contains_key(other) ==> after.cooldowns[other]
                == selector.cooldowns[other]
            &&& after.failures_of(other) == selector.failures_of(other)
        }),
{
}

/// The conversation of a choice that was made; settings that do not fit the aggregate allow none.
pub open spec fn choice_of(aggregate: AggregateRelayProfileView, call: SelectorCall) -> Option<
    Option<Seq<char>>,
> {
    match call {
        SelectorCall::Select(settings, conversation, _) => if aggregate_fault(
            settings.relay_profiles,
            aggregate,
        ) is None {
            Some(conversation)
        } else {
            None
        },
        _ => None,
    }
}

/// Whether a choice was made for a conversation.
pub open spec fn has_come(
    aggregate: AggregateRelayProfileView,
    calls: Seq<SelectorCall>,
    id: Seq<char>,
) -> bool
    decreases calls.len(),
{
    calls.len() > 0 && (has_come(aggregate, calls.drop_last(), id) || choice_of(
        aggregate,
        calls.last(),
    ) == Some(Some(id)))
}

/// How many choices were made for new conversations, or for none.
pub open spec fn turns(aggregate: AggregateRelayProfileView, calls: Seq<SelectorCall>) -> nat
    decreases calls.len(),
{
    if calls.len() == 0 {
        0
    } else {
        let before = turns(aggregate, calls.drop_last());
        match choice_of(aggregate, calls.last()) {
            Some(Some(id)) if has_come(aggregate, calls.drop_last(), id) => before,
            Some(_) => before + 1,
            None => before,
        }
    }
}

/// How many such choices came before the first for a conversation.
pub open spec fn turn_of(
    aggregate: AggregateRelayProfileView,
    calls: Seq<SelectorCall>,
    id: Seq<char>,
) -> nat
    decreases calls.len(),
{
    if !has_come(aggregate, calls, id) {
        turns(aggregate, calls)
    } else if has_come(aggregate, calls.drop_last(), id) {
        turn_of(aggregate, calls.drop_last(), id)
    } else {
        turns(aggregate, calls.drop_last())
    }
}

spec fn is_in_turn(
    selector: SelectorView,
    aggregate: AggregateRelayProfileView,
    calls: Seq<SelectorCall>,
) -> bool {
    let len = aggregate.members.len() as int;
    &&& selector.aggregate == aggregate
    &&& selector.request_index == turns(aggregate, calls) as int % len
    &&& forall|id: Seq<char>| #[trigger]
        selector.conversations.contains_key(id) == has_come(aggregate, calls, id)
    &&& forall|id: Seq<char>| #[trigger]
        selector.conversations.contains_key(id) ==> selector.conversations[id] == selector.member_id(
            turn_of(aggregate, calls, id) as int % len,
        )
}

proof fn lemma_in_turn(
    aggregate: AggregateRelayProfileView,
    priority_members: Option<Seq<RelayProfileView>>,
    calls: Seq<SelectorCall>,
)
    requires
        aggregate.strategy == AggregateRelayStrategy::ConversationRoundRobin,
        aggregate.members.len() > 0,
    ensures
        is_in_turn(
            after_calls(SelectorView::fresh(aggregate, priority_members), calls),
            aggregate,
            calls,
        ),
    decreases calls.len(),
{
    let len = aggregate.members.len() as int;
    let fresh = SelectorView::fresh(aggregate, priority_members);
    if calls.len() == 0 {
        vstd::arithmetic::div_mod::lemma_small_mod(0, len as nat);
    } else {
        let shorter = calls.drop_last();
        lemma_in_turn(aggregate, priority_members, shorter);
        let before = after_calls(fresh, shorter);
        let after = after_calls(fresh, calls);
        lemma_turn(turns(aggregate, shorter) as int, len);
        assert forall|id: Seq<char>| #[trigger]
            after.conversations.contains_key(id) == has_come(aggregate, calls, id) by {
            assert(before.conversations.contains_key(id) == has_come(aggregate, shorter, id));
        }
        assert forall|id: Seq<char>| #[trigger]
            after.conversations.contains_key(id) implies after.conversations[id] == after.member_id(
            turn_of(aggregate, calls, id) as int % len,
        ) by {
            assert(after.conversations.contains_key(id) == has_come(aggregate, calls, id));
            assert(before.conversations.contains_key(id) == has_come(aggregate, shorter, id));
        }
    }
}

/// New conversations get the members in turn: after any calls on a fresh selector the choice for a
/// conversation is the member of the turn in which it first came, and a new one, or none, gets the
/// member of the next turn. Choices for a known conversation take no turn.
pub proof fn conversations_go_round(
    aggregate: AggregateRelayProfileView,
    priority_members: Option<Seq<RelayProfileView>>,
    calls: Seq<SelectorCall>,
    conversation: Option<Seq<char>>,
    now: Instant,
)
    requires
        aggregate.strategy == AggregateRelayStrategy::ConversationRoundRobin,
        aggregate.members.len() > 0,
    ensures
        ({
            let after = after_calls(SelectorView::fresh(aggregate, priority_members), calls);
            let turn = match conversation {
                Some(id) => turn_of(aggregate, calls, id),
                None => turns(aggregate, calls),
            };
            after.pruned(now).next(conversation, now).1 == aggregate.members[turn as int
                % aggregate.members.len() as int].relay_id
        }),
{
    lemma_in_turn(aggregate, priority_members, calls);
    if let Some(id) = conversation {
        let after = after_calls(SelectorView::fresh(aggregate, priority_members), calls);
        assert(after.conversations.contains_key(id) == has_come(aggregate, calls, id));
    }
}

proof fn lemma_conversation_stays(
    selector: SelectorView,
    calls: Seq<SelectorCall>,
    id: Seq<char>,
)
    requires
        selector.conversations.contains_key(id),
    ensures
        after_calls(selector, calls).conversations.contains_key(id),
        after_calls(selector, calls).conversations[id] == selector.conversations[id],
    decreases calls.len(),
{
    if calls.len() > 0 {
        lemma_conversation_stays(selector, calls.drop_last(), id);
    }
}

/// A conversation stays with its member, whatever calls come between two choices for it, and the
/// second choice does not move the rotation.
pub proof fn conversation_keeps_its_member(
    selector: SelectorView,
    conversation: Seq<char>,
    now: Instant,
    between: Seq<SelectorCall>,
    later_on: Instant,
)
    requires
        selector.aggregate.strategy == AggregateRelayStrategy::ConversationRoundRobin,
    ensures
        ({
            let (chosen, relay_id) = selector.pruned(now).next(Some(conversation), now);
            let after = after_calls(chosen, between).pruned(later_on);
            after.next(Some(conversation), later_on) == (after, relay_id)
        }),
{
    let (chosen, relay_id) = selector.pruned(now).next(Some(conversation), now);
    lemma_conversation_stays(chosen, between, conversation);
    calls_keep_the_aggregate(chosen, between);
}

} // verus!
