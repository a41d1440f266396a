//! What holds of the rotation as a whole.
use vstd::prelude::*;

use super::histories::lemma_turn;
use super::requests::probe_choice;
use super::selector::{
    schedule, weight_of, RelayRequestOutcome, SelectorView,
    PRIORITY_FALLBACK_FAILURE_THRESHOLD,
};
use crate::settings::active::RelayFactsView;
use crate::settings::backend::RelaySettingsView;
use crate::settings::types::{AggregateRelayMemberView, AggregateRelayStrategy};
use crate::time::{later, Duration, Instant};

verus! {

/// The selector after `n` choices that name no conversation.
pub open spec fn after_choices(selector: SelectorView, n: nat, now: Instant) -> SelectorView
    decreases n,
{
    if n == 0 {
        selector
    } else {
        after_choices(selector, (n - 1) as nat, now).next(None, now).0
    }
}

/// Requests in turn: the `n`th choice of a request rotation is the `n`th member from where it was,
/// in a circle.
pub proof fn requests_go_round(selector: SelectorView, n: nat, now: Instant)
    requires
        selector.aggregate.strategy == AggregateRelayStrategy::RequestRoundRobin,
        selector.counts_are_valid(),
    ensures
        after_choices(selector, n, now).aggregate == selector.aggregate,
        after_choices(selector, n, now).next(None, now).1 == selector.member_id(
            (selector.request_index + n) % selector.aggregate.members.len() as int,
        ),
        after_choices(selector, n, now).request_index == (selector.request_index + n)
            % selector.aggregate.members.len() as int,
    decreases n,
{
    let len = selector.aggregate.members.len() as int;
    if n == 0 {
        vstd::arithmetic::div_mod::lemma_small_mod(selector.request_index as nat, len as nat);
    } else {
        requests_go_round(selector, (n - 1) as nat, now);
        lemma_turn(selector.request_index + n - 1, len);
    }
}

/// How often a relay stands in a schedule.
pub open spec fn times(list: Seq<Seq<char>>, relay_id: Seq<char>) -> nat
    decreases list.len(),
{
    if list.len() == 0 {
        0
    } else {
        times(list.drop_last(), relay_id) + if list.last() == relay_id {
            1nat
        } else {
            0nat
        }
    }
}

/// The weights that the members with an id have together.
pub open spec fn weight_in(members: Seq<AggregateRelayMemberView>, relay_id: Seq<char>) -> nat
    decreases members.len(),
{
    if members.len() == 0 {
        0
    } else {
        weight_in(members.drop_last(), relay_id) + if members.last().relay_id == relay_id {
            weight_of(members.last())
        } else {
            0
        }
    }
}

proof fn lemma_times_of_sum(a: Seq<Seq<char>>, b: Seq<Seq<char>>, relay_id: Seq<char>)
    ensures
        times(a + b, relay_id) == times(a, relay_id) + times(b, relay_id),
    decreases b.len(),
{
    if b.len() == 0 {
        assert(a + b =~= a);
    } else {
        assert((a + b).drop_last() =~= a + b.drop_last());
        lemma_times_of_sum(a, b.drop_last(), relay_id);
    }
}

proof fn lemma_times_of_one(id: Seq<char>, n: nat, relay_id: Seq<char>)
    ensures
        times(Seq::new(n, |i: int| id), relay_id) == if id == relay_id {
            n
        } else {
            0
        },
    decreases n,
{
    let list = Seq::new(n, |i: int| id);
    if n > 0 {
        assert(list.drop_last() =~= Seq::new((n - 1) as nat, |i: int| id));
        lemma_times_of_one(id, (n - 1) as nat, relay_id);
    }
}

/// In one round of a weighted rotation each relay serves as often as its weight says, a weight of
/// nothing counting as one.
pub proof fn weighted_round_is_fair(members: Seq<AggregateRelayMemberView>, relay_id: Seq<char>)
    ensures
        times(schedule(members), relay_id) == weight_in(members, relay_id),
    decreases members.len(),
{
    if members.len() > 0 {
        let last = members.last();
        weighted_round_is_fair(members.drop_last(), relay_id);
        let block = Seq::new(weight_of(last), |i: int| last.relay_id);
        lemma_times_of_sum(schedule(members.drop_last()), block, relay_id);
        lemma_times_of_one(last.relay_id, weight_of(last), relay_id);
        assert(block =~= Seq::new(weight_of(last), |i: int| members.last().relay_id));
    }
}

/// A weighted rotation follows its schedule, in a circle.
pub proof fn weighted_choices_follow_the_schedule(selector: SelectorView, n: nat, now: Instant)
    requires
        selector.aggregate.strategy == AggregateRelayStrategy::WeightedRoundRobin,
        selector.counts_are_valid(),
    ensures
        after_choices(selector, n, now).aggregate == selector.aggregate,
        after_choices(selector, n, now).weighted_index == (selector.weighted_index + n) % schedule(
            selector.aggregate.members,
        ).len() as int,
        after_choices(selector, n, now).next(None, now).1 == schedule(
            selector.aggregate.members,
        )[(selector.weighted_index + n) % schedule(selector.aggregate.members).len() as int],
    decreases n,
{
    let len = schedule(selector.aggregate.members).len() as int;
    if n == 0 {
        vstd::arithmetic::div_mod::lemma_small_mod(selector.weighted_index as nat, len as nat);
    } else {
        weighted_choices_follow_the_schedule(selector, (n - 1) as nat, now);
        lemma_turn(selector.weighted_index + n - 1, len);
    }
}

proof fn lemma_first_available(selector: SelectorView, now: Instant, from: int)
    requires
        0 <= from <= selector.aggregate.members.len(),
    ensures
        match selector.first_available(now, from) {
            Some(i) => from <= i < selector.aggregate.members.len() && selector.is_available(
                selector.member_id(i),
                now,
            ) && forall|j: int|
                from <= j < i ==> !selector.is_available(#[trigger] selector.member_id(j), now),
            None => forall|j: int|
                from <= j < selector.aggregate.members.len() ==> !selector.is_available(
                    #[trigger] selector.member_id(j),
                    now,
                ),
        },
    decreases selector.aggregate.members.len() - from,
{
    if from < selector.aggregate.members.len() && !selector.is_available(
        selector.member_id(from),
        now,
    ) {
        lemma_first_available(selector, now, from + 1);
    }
}

/// A priority aggregate never serves with a member that rests while another does not, and of those
/// that do not rest it takes the first.
pub proof fn priority_choice_is_first_available(selector: SelectorView, now: Instant, i: int)
    requires
        0 <= i < selector.aggregate.members.len(),
        selector.is_available(selector.member_id(i), now),
    ensures
        selector.is_available(selector.priority_choice(now), now),
        exists|k: int|
            0 <= k <= i && selector.priority_choice(now) == #[trigger] selector.member_id(k),
{
    lemma_first_available(selector, now, 0);
    let k = selector.first_available(now, 0)->0;
    assert(selector.member_id(k) == selector.priority_choice(now));
}

proof fn lemma_earliest(selector: SelectorView, n: int)
    requires
        1 <= n <= selector.aggregate.members.len(),
    ensures
        0 <= selector.earliest(n) < n,
        forall|j: int|
            0 <= j < n ==> selector.cooldowns[selector.member_id(selector.earliest(n))].nanos
                <= selector.cooldowns[#[trigger] selector.member_id(j)].nanos,
    decreases n,
{
    if n > 1 {
        lemma_earliest(selector, n - 1);
    }
}

/// Where every member rests, the one that is back first serves.
pub proof fn priority_choice_is_back_first(selector: SelectorView, now: Instant, i: int)
    requires
        forall|j: int|
            0 <= j < selector.aggregate.members.len() ==> !selector.is_available(
                #[trigger] selector.member_id(j),
                now,
            ),
        0 <= i < selector.aggregate.members.len(),
    ensures
        selector.cooldowns[selector.priority_choice(now)].nanos
            <= selector.cooldowns[selector.member_id(i)].nanos,
{
    lemma_first_available(selector, now, 0);
    lemma_earliest(selector, selector.aggregate.members.len() as int);
    assert(selector.member_id(i) == selector.member_id(i));
}

proof fn lemma_available_from(selector: SelectorView, now: Instant, from: int, k: int)
    requires
        0 <= k < selector.available_from(now, from).len(),
        0 <= from,
    ensures
        selector.is_available(selector.available_from(now, from)[k], now),
    decreases selector.aggregate.members.len() - from,
{
    if selector.is_available(selector.member_id(from), now) {
        if k > 0 {
            lemma_available_from(selector, now, from + 1, k - 1);
        }
    } else {
        lemma_available_from(selector, now, from + 1, k);
    }
}

proof fn lemma_member_position(selector: SelectorView, relay_id: Seq<char>, from: int)
    requires
        0 <= from,
    ensures
        selector.member_position(relay_id, from) is Some ==> from <= selector.member_position(
            relay_id,
            from,
        )->0 < selector.aggregate.members.len(),
    decreases selector.aggregate.members.len() - from,
{
    if from < selector.aggregate.members.len() && selector.member_id(from) != relay_id {
        lemma_member_position(selector, relay_id, from + 1);
    }
}

/// No member that rests is tried after a failure, so that a round of failures ends.
pub proof fn fallbacks_do_not_rest(
    selector: SelectorView,
    relay_id: Seq<char>,
    now: Instant,
    k: int,
)
    requires
        0 <= k < selector.fallbacks_after(relay_id, now).len(),
    ensures
        selector.is_available(selector.fallbacks_after(relay_id, now)[k], now),
{
    lemma_member_position(selector, relay_id, 0);
    let i = selector.member_position(relay_id, 0)->0;
    lemma_available_from(selector, now, i + 1, k);
}

/// A member rests after the third failure in a row, and not before: a success in between starts the
/// count again.
pub proof fn third_failure_sends_to_rest(
    selector: SelectorView,
    relay_id: Seq<char>,
    outcome: RelayRequestOutcome,
    now: Instant,
)
    requires
        selector.aggregate.strategy == AggregateRelayStrategy::PriorityFallback,
        selector.counts_are_valid(),
        selector.has_member(relay_id),
        selector.is_available(relay_id, now),
        outcome.rest() is Some,
        later(now, Duration { seconds: 3600 }) <= u64::MAX,
    ensures
        selector.after_outcome(relay_id, outcome, now).1 == (selector.failures_of(relay_id) + 1
            == PRIORITY_FALLBACK_FAILURE_THRESHOLD),
        selector.after_outcome(relay_id, outcome, now).1 == !selector.after_outcome(
            relay_id,
            outcome,
            now,
        ).0.is_available(relay_id, now),
        selector.after_outcome(relay_id, outcome, now).0.counts_are_valid(),
{
}

/// After a success a member is in service, with no failure counted.
pub proof fn success_ends_a_rest(
    selector: SelectorView,
    relay_id: Seq<char>,
    outcome: RelayRequestOutcome,
    now: Instant,
)
    requires
        selector.aggregate.strategy == AggregateRelayStrategy::PriorityFallback,
        selector.has_member(relay_id),
        outcome.rest() is None,
    ensures
        selector.after_outcome(relay_id, outcome, now).0.is_available(relay_id, now),
        selector.after_outcome(relay_id, outcome, now).0.failures_of(relay_id) == 0,
{
}

/// A failure while a member rests does not make its rest longer.
pub proof fn failures_do_not_prolong_a_rest(
    selector: SelectorView,
    relay_id: Seq<char>,
    outcome: RelayRequestOutcome,
    now: Instant,
)
    requires
        selector.aggregate.strategy == AggregateRelayStrategy::PriorityFallback,
        !selector.is_available(relay_id, now),
        outcome.rest() is Some,
    ensures
        selector.after_outcome(relay_id, outcome, now) == (selector, false),
{
}

/// A look at the next choice does not move the rotation: looking again shows the same relay.
pub proof fn probing_does_not_rotate(
    slot: Option<SelectorView>,
    settings: RelaySettingsView,
    facts: RelayFactsView,
    now: Instant,
)
    requires
        settings.active_aggregate() is Some,
    ensures
        probe_choice(probe_choice(slot, settings, facts, now).0, settings, facts, now)
            == probe_choice(slot, settings, facts, now),
{
}

/// What a look shows is what the next request without a conversation gets.
pub proof fn probe_shows_the_next_choice(selector: SelectorView, now: Instant)
    requires
        selector.counts_are_valid(),
    ensures
        selector.pruned(now).next(None, now).1 == selector.peeked(now),
{
    let pruned = selector.pruned(now);
    if selector.aggregate.strategy == AggregateRelayStrategy::PriorityFallback {
        lemma_same_first_available(selector, now, 0);
        lemma_first_available(selector, now, 0);
        if selector.first_available(now, 0) is None {
            lemma_same_earliest(selector, now, selector.aggregate.members.len() as int);
        }
    }
}

proof fn lemma_same_first_available(selector: SelectorView, now: Instant, from: int)
    ensures
        selector.pruned(now).first_available(now, from) == selector.first_available(now, from),
    decreases selector.aggregate.members.len() - from,
{
    if from < selector.aggregate.members.len() {
        lemma_same_first_available(selector, now, from + 1);
    }
}

proof fn lemma_same_earliest(selector: SelectorView, now: Instant, n: int)
    requires
        1 <= n <= selector.aggregate.members.len(),
        forall|j: int|
            0 <= j < selector.aggregate.members.len() ==> !selector.is_available(
                #[trigger] selector.member_id(j),
                now,
            ),
    ensures
        selector.pruned(now).earliest(n) == selector.earliest(n),
    decreases n,
{
    if n > 1 {
        lemma_same_earliest(selector, now, n - 1);
        lemma_earliest(selector, n - 1);
        let pruned = selector.pruned(now);
        let before = selector.earliest(n - 1);
        assert(!selector.is_available(selector.member_id(n - 1), now));
        assert(!selector.is_available(selector.member_id(before), now));
        assert(pruned.cooldowns[pruned.member_id(n - 1)] == selector.cooldowns[selector.member_id(
            n - 1,
        )]);
        assert(pruned.cooldowns[pruned.member_id(before)] == selector.cooldowns[selector.member_id(
            before,
        )]);
    }
}

/// A choice keeps the selector valid.
pub proof fn choices_keep_the_selector_valid(
    selector: SelectorView,
    conversation: Option<Seq<char>>,
    now: Instant,
)
    requires
        selector.counts_are_valid(),
    ensures
        selector.pruned(now).next(conversation, now).0.counts_are_valid(),
{
    let len = selector.aggregate.members.len() as int;
    let total = schedule(selector.aggregate.members).len() as int;
    vstd::arithmetic::div_mod::lemma_mod_bound(selector.request_index + 1, len);
    vstd::arithmetic::div_mod::lemma_mod_bound(selector.weighted_index + 1, total);
}

} // verus!
