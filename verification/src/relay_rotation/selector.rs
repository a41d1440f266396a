//! The selector of an aggregate: where its rotation stands, and which members are cooling down.
use vstd::prelude::*;

use crate::settings::active::{find_relay, relay_position};
use crate::settings::backend::{BackendSettings, RelaySettingsView};
use crate::settings::types::{
    relay_profile_views, same_relay_profiles, AggregateRelayMemberView, AggregateRelayProfile,
    AggregateRelayProfileView, AggregateRelayStrategy, RelayProfile, RelayProfileView,
};
use crate::str_map::StrMap;
use crate::text::{concat3, concat5, option_text, same_text, texts, trim, trimmed};
use crate::time::{later, remaining_seconds, seconds_left, Duration, Instant};

verus! {

/// How many failures in a row send a member of a priority aggregate into its cooldown.
pub const PRIORITY_FALLBACK_FAILURE_THRESHOLD: u32 = 3;

#[derive(Clone, Debug, PartialEq, Eq)]
pub enum SelectionError {
    NoActiveAggregate,
    EmptyAggregateMembers { aggregate_id: String },
    UnknownMemberRelay { aggregate_id: String, relay_id: String },
    InvalidMemberRelay { aggregate_id: String, relay_id: String },
}

pub enum SelectionErrorView {
    NoActiveAggregate,
    EmptyAggregateMembers { aggregate_id: Seq<char> },
    UnknownMemberRelay { aggregate_id: Seq<char>, relay_id: Seq<char> },
    InvalidMemberRelay { aggregate_id: Seq<char>, relay_id: Seq<char> },
}

impl View for SelectionError {
    type V = SelectionErrorView;

    open spec fn view(&self) -> SelectionErrorView {
        match *self {
            SelectionError::NoActiveAggregate => SelectionErrorView::NoActiveAggregate,
            SelectionError::EmptyAggregateMembers { aggregate_id } =>
                SelectionErrorView::EmptyAggregateMembers { aggregate_id: aggregate_id@ },
            SelectionError::UnknownMemberRelay { aggregate_id, relay_id } =>
                SelectionErrorView::UnknownMemberRelay {
                    aggregate_id: aggregate_id@,
                    relay_id: relay_id@,
                },
            SelectionError::InvalidMemberRelay { aggregate_id, relay_id } =>
                SelectionErrorView::InvalidMemberRelay {
                    aggregate_id: aggregate_id@,
                    relay_id: relay_id@,
                },
        }
    }
}

impl SelectionErrorView {
    pub open spec fn text(self) -> Seq<char> {
        match self {
            SelectionErrorView::NoActiveAggregate => "未找到当前聚合供应商"@,
            SelectionErrorView::EmptyAggregateMembers { aggregate_id } => "聚合供应商「"@
                + aggregate_id + "」没有成员"@,
            SelectionErrorView::UnknownMemberRelay { aggregate_id, relay_id } => "聚合供应商「"@
                + aggregate_id + "」引用了不存在的供应商「"@ + relay_id + "」"@,
            SelectionErrorView::InvalidMemberRelay { aggregate_id, relay_id } => "聚合供应商「"@
                + aggregate_id + "」成员「"@ + relay_id + "」缺少 API Base URL 或 Key"@,
        }
    }
}

impl SelectionError {
    /// The error as the user reads it.
    pub fn describe(&self) -> (r: String)
        ensures
            r@ == self@.text(),
    {
        match self {
            SelectionError::NoActiveAggregate => "未找到当前聚合供应商".to_owned(),
            SelectionError::EmptyAggregateMembers { aggregate_id } => concat3(
                "聚合供应商「",
                aggregate_id.as_str(),
                "」没有成员",
            ),
            SelectionError::UnknownMemberRelay { aggregate_id, relay_id } => concat5(
                "聚合供应商「",
                aggregate_id.as_str(),
                "」引用了不存在的供应商「",
                relay_id.as_str(),
                "」",
            ),
            SelectionError::InvalidMemberRelay { aggregate_id, relay_id } => concat5(
                "聚合供应商「",
                aggregate_id.as_str(),
                "」成员「",
                relay_id.as_str(),
                "」缺少 API Base URL 或 Key",
            ),
        }
    }
}

/// What a request brings along for the choice.
#[derive(Clone, Debug, PartialEq, Eq, Default)]
pub struct RotationContext {
    pub conversation_id: Option<String>,
}

impl RotationContext {
    pub fn for_conversation(conversation_id: &str) -> (r: Self)
        ensures
            option_text(r.conversation_id) == Some(conversation_id@),
    {
        RotationContext { conversation_id: Some(conversation_id.to_owned()) }
    }
}

#[derive(Clone, Copy, Debug, PartialEq, Eq, Structural)]
pub enum RotationEvent {
    Success,
    Failure,
}

#[derive(Clone, Copy, Debug, PartialEq, Eq, Structural)]
pub enum RelayRequestOutcome {
    HttpStatus(u16),
    TransportFailure,
}

impl RelayRequestOutcome {
    /// How many seconds a member rests after an outcome; none after a success.
    pub open spec fn rest(self) -> Option<u64> {
        match self {
            RelayRequestOutcome::HttpStatus(status) => if 200 <= status < 300 {
                None
            } else if status == 429 {
                Some(1800)
            } else if status == 402 {
                Some(3600)
            } else if status == 502 || status == 503 {
                Some(180)
            } else {
                Some(600)
            },
            RelayRequestOutcome::TransportFailure => Some(600),
        }
    }

    pub fn cooldown_duration(self) -> (r: Option<Duration>)
        ensures
            r == (match self.rest() {
                Some(seconds) => Some(Duration { seconds }),
                None => None,
            }),
    {
        match self {
            RelayRequestOutcome::HttpStatus(status) => {
                if status >= 200 && status < 300 {
                    None
                } else if status == 429 {
                    Some(Duration::from_secs(30 * 60))
                } else if status == 402 {
                    Some(Duration::from_secs(60 * 60))
                } else if status == 502 || status == 503 {
                    Some(Duration::from_secs(3 * 60))
                } else {
                    Some(Duration::from_secs(10 * 60))
                }
            },
            RelayRequestOutcome::TransportFailure => Some(Duration::from_secs(10 * 60)),
        }
    }

    pub open spec fn event(self) -> RotationEvent {
        if self.rest() is Some {
            RotationEvent::Failure
        } else {
            RotationEvent::Success
        }
    }

    pub fn rotation_event(self) -> (r: RotationEvent)
        ensures
            r == self.event(),
    {
        if self.cooldown_duration().is_some() {
            RotationEvent::Failure
        } else {
            RotationEvent::Success
        }
    }
}

/// How a member of a priority aggregate stands.
#[derive(Clone, Debug, PartialEq, Eq)]
pub struct RelayCooldownMemberStatus {
    pub relay_id: String,
    pub consecutive_failures: u32,
    pub failure_threshold: u32,
    pub cooldown_remaining_seconds: u64,
    pub last_cooldown_reason: Option<RelayRequestOutcome>,
}

#[verifier::ext_equal]
pub struct MemberStatusView {
    pub relay_id: Seq<char>,
    pub consecutive_failures: u32,
    pub failure_threshold: u32,
    pub cooldown_remaining_seconds: u64,
    pub last_cooldown_reason: Option<RelayRequestOutcome>,
}

impl View for RelayCooldownMemberStatus {
    type V = MemberStatusView;

    open spec fn view(&self) -> MemberStatusView {
        MemberStatusView {
            relay_id: self.relay_id@,
            consecutive_failures: self.consecutive_failures,
            failure_threshold: self.failure_threshold,
            cooldown_remaining_seconds: self.cooldown_remaining_seconds,
            last_cooldown_reason: self.last_cooldown_reason,
        }
    }
}

#[derive(Clone, Debug, PartialEq, Eq)]
pub struct RelayCooldownStatus {
    pub aggregate_id: Option<String>,
    pub members: Vec<RelayCooldownMemberStatus>,
}

#[verifier::ext_equal]
pub struct CooldownStatusView {
    pub aggregate_id: Option<Seq<char>>,
    pub members: Seq<MemberStatusView>,
}

impl View for RelayCooldownStatus {
    type V = CooldownStatusView;

    open spec fn view(&self) -> CooldownStatusView {
        CooldownStatusView {
            aggregate_id: option_text(self.aggregate_id),
            members: Seq::new(self.members@.len(), |i: int| self.members@[i]@),
        }
    }
}

/// Where the last relay with an id stands.
pub open spec fn last_relay_position(relays: Seq<RelayProfileView>, id: Seq<char>) -> Option<int>
    decreases relays.len(),
{
    if relays.len() == 0 {
        None
    } else if relays.last().id == id {
        Some(relays.len() - 1)
    } else {
        last_relay_position(relays.drop_last(), id)
    }
}

fn find_last_relay(relays: &Vec<RelayProfile>, id: &str) -> (r: Option<usize>)
    ensures
        match r {
            Some(i) => last_relay_position(relay_profile_views(relays@), id@) == Some(i as int) && i
                < relays@.len(),
            None => last_relay_position(relay_profile_views(relays@), id@) is None,
        },
{
    let ghost views = relay_profile_views(relays@);
    let mut n = relays.len();
    assert(views.take(n as int) =~= views);
    while n > 0
        invariant
            n <= relays@.len(),
            views == relay_profile_views(relays@),
            last_relay_position(views, id@) == last_relay_position(views.take(n as int), id@),
        decreases n,
    {
        assert(views.take(n as int).drop_last() =~= views.take(n - 1));
        assert(views.take(n as int).last() == relays@[n - 1]@);
        if same_text(relays[n - 1].id.as_str(), id) {
            return Some(n - 1);
        }
        n = n - 1;
    }
    None
}

/// A relay can serve: it has an address, and a key or no need of one.
pub open spec fn can_serve(relay: RelayProfileView) -> bool {
    trimmed(relay.base_url).len() > 0 && (trimmed(relay.api_key).len() > 0 || relay.needs_no_auth())
}

/// What is wrong with the members of an aggregate, from one of them on; the first fault counts.
pub open spec fn member_fault(
    relays: Seq<RelayProfileView>,
    aggregate: AggregateRelayProfileView,
    from: int,
) -> Option<SelectionErrorView>
    decreases aggregate.members.len() - from,
{
    if from >= aggregate.members.len() {
        None
    } else {
        let relay_id = aggregate.members[from].relay_id;
        match last_relay_position(relays, relay_id) {
            None => Some(
                SelectionErrorView::UnknownMemberRelay { aggregate_id: aggregate.id, relay_id },
            ),
            Some(p) => if can_serve(relays[p]) {
                member_fault(relays, aggregate, from + 1)
            } else {
                Some(
                    SelectionErrorView::InvalidMemberRelay { aggregate_id: aggregate.id, relay_id },
                )
            },
        }
    }
}

pub open spec fn aggregate_fault(
    relays: Seq<RelayProfileView>,
    aggregate: AggregateRelayProfileView,
) -> Option<SelectionErrorView> {
    if aggregate.members.len() == 0 {
        Some(SelectionErrorView::EmptyAggregateMembers { aggregate_id: aggregate.id })
    } else {
        member_fault(relays, aggregate, 0)
    }
}

pub open spec fn fault_of<T>(r: Result<T, SelectionError>) -> Option<SelectionErrorView> {
    match r {
        Ok(_) => None,
        Err(e) => Some(e@),
    }
}

pub fn validate_aggregate_members(
    settings: &BackendSettings,
    aggregate: &AggregateRelayProfile,
) -> (r: Result<(), SelectionError>)
    ensures
        fault_of(r) == aggregate_fault(settings@.relays.relay_profiles, aggregate@),
{
    if aggregate.members.len() == 0 {
        return Err(
            SelectionError::EmptyAggregateMembers { aggregate_id: aggregate.id.clone() },
        );
    }
    for i in 0..aggregate.members.len()
        invariant
            member_fault(settings@.relays.relay_profiles, aggregate@, 0) == member_fault(
                settings@.relays.relay_profiles,
                aggregate@,
                i as int,
            ),
            aggregate@.members.len() > 0,
    {
        let relay_id = &aggregate.members[i].relay_id;
        assert(aggregate@.members[i as int] == aggregate.members@[i as int]@);
        match find_last_relay(&settings.relays.relay_profiles, relay_id.as_str()) {
            None => {
                return Err(
                    SelectionError::UnknownMemberRelay {
                        aggregate_id: aggregate.id.clone(),
                        relay_id: relay_id.clone(),
                    },
                );
            },
            Some(p) => {
                let relay = &settings.relays.relay_profiles[p];
                assert(settings@.relays.relay_profiles[p as int] == relay@);
                if trim(relay.base_url.as_str()).is_empty() || (trim(
                    relay.api_key.as_str(),
                ).is_empty() && !relay.uses_no_auth()) {
                    return Err(
                        SelectionError::InvalidMemberRelay {
                            aggregate_id: aggregate.id.clone(),
                            relay_id: relay_id.clone(),
                        },
                    );
                }
            },
        }
    }
    Ok(())
}

/// A selector of an aggregate.
#[derive(Debug)]
pub struct RelayRotationSelector {
    aggregate: AggregateRelayProfile,
    priority_member_profiles: Option<Vec<RelayProfile>>,
    failover_index: usize,
    request_index: usize,
    weighted_member: usize,
    weighted_offset: u32,
    conversation_assignments: StrMap<String>,
    cooldowns: StrMap<Instant>,
    consecutive_failures: StrMap<u32>,
    last_cooldown_reasons: StrMap<RelayRequestOutcome>,
}

#[verifier::ext_equal]
pub struct SelectorView {
    pub aggregate: AggregateRelayProfileView,
    /// The relays of the members when the selector was made, for a priority aggregate.
    pub priority_members: Option<Seq<RelayProfileView>>,
    pub failover_index: int,
    pub request_index: int,
    /// The place in the weighted schedule.
    pub weighted_index: int,
    pub conversations: Map<Seq<char>, Seq<char>>,
    /// Until when a member rests.
    pub cooldowns: Map<Seq<char>, Instant>,
    pub failures: Map<Seq<char>, u32>,
    pub reasons: Map<Seq<char>, RelayRequestOutcome>,
}

pub open spec fn weight_of(member: AggregateRelayMemberView) -> nat {
    if member.weight == 0 {
        1
    } else {
        member.weight as nat
    }
}

/// The order in which a weighted aggregate serves: each member as often as its weight, and at least
/// once.
pub open spec fn schedule(members: Seq<AggregateRelayMemberView>) -> Seq<Seq<char>>
    decreases members.len(),
{
    if members.len() == 0 {
        Seq::empty()
    } else {
        schedule(members.drop_last()) + Seq::new(
            weight_of(members.last()),
            |i: int| members.last().relay_id,
        )
    }
}

pub(super) proof fn lemma_schedule(members: Seq<AggregateRelayMemberView>, m: int, offset: int)
    requires
        0 <= m < members.len(),
        0 <= offset < weight_of(members[m]),
    ensures
        schedule(members.take(m)).len() + offset < schedule(members).len(),
        schedule(members)[schedule(members.take(m)).len() + offset] == members[m].relay_id,
        schedule(members.take(m + 1)).len() == schedule(members.take(m)).len() + weight_of(
            members[m],
        ),
    decreases members.len(),
{
    let before = members.drop_last();
    assert(members.take(m + 1).drop_last() =~= members.take(m));
    if m < members.len() - 1 {
        lemma_schedule(before, m, offset);
        assert(before.take(m) =~= members.take(m));
    } else {
        assert(members.take(m) =~= before);
    }
}

impl View for RelayRotationSelector {
    type V = SelectorView;

    closed spec fn view(&self) -> SelectorView {
        SelectorView {
            aggregate: self.aggregate@,
            priority_members: match self.priority_member_profiles {
                Some(relays) => Some(relay_profile_views(relays@)),
                None => None,
            },
            failover_index: self.failover_index as int,
            request_index: self.request_index as int,
            weighted_index: schedule(self.aggregate@.members.take(self.weighted_member as int)).len()
                + self.weighted_offset,
            conversations: self.conversation_assignments@.map_values(|s: String| s@),
            cooldowns: self.cooldowns@,
            failures: self.consecutive_failures@,
            reasons: self.last_cooldown_reasons@,
        }
    }
}

/// The profile that was chosen, or why none was.
pub open spec fn chosen(r: Result<RelayProfile, SelectionError>) -> Result<
    RelayProfileView,
    SelectionErrorView,
> {
    match r {
        Ok(profile) => Ok(profile@),
        Err(e) => Err(e@),
    }
}

impl SelectorView {
    pub open spec fn fresh(
        aggregate: AggregateRelayProfileView,
        priority_members: Option<Seq<RelayProfileView>>,
    ) -> SelectorView {
        SelectorView {
            aggregate,
            priority_members,
            failover_index: 0,
            request_index: 0,
            weighted_index: 0,
            conversations: Map::empty(),
            cooldowns: Map::empty(),
            failures: Map::empty(),
            reasons: Map::empty(),
        }
    }

    /// The member whose turn it is stands in the aggregate, and no member has failed so often in a
    /// row that it should rest.
    pub open spec fn counts_are_valid(self) -> bool {
        &&& self.aggregate.members.len() > 0
        &&& 0 <= self.failover_index < self.aggregate.members.len()
        &&& 0 <= self.request_index < self.aggregate.members.len()
        &&& 0 <= self.weighted_index < schedule(self.aggregate.members).len()
        &&& forall|id: Seq<char>| #[trigger]
            self.failures.contains_key(id) ==> self.failures[id]
                < PRIORITY_FALLBACK_FAILURE_THRESHOLD
    }

    pub open spec fn member_id(self, i: int) -> Seq<char> {
        self.aggregate.members[i].relay_id
    }

    pub open spec fn is_available(self, relay_id: Seq<char>, now: Instant) -> bool {
        !self.cooldowns.contains_key(relay_id) || self.cooldowns[relay_id].nanos <= now.nanos
    }

    /// The selector without the cooldowns that are over.
    pub open spec fn pruned(self, now: Instant) -> SelectorView {
        SelectorView {
            cooldowns: Map::new(
                |id: Seq<char>|
                    self.cooldowns.contains_key(id) && self.cooldowns[id].nanos > now.nanos,
                |id: Seq<char>| self.cooldowns[id],
            ),
            ..self
        }
    }

    /// The first member from one on that does not rest.
    pub open spec fn first_available(self, now: Instant, from: int) -> Option<int>
        decreases self.aggregate.members.len() - from,
    {
        if from >= self.aggregate.members.len() {
            None
        } else if self.is_available(self.member_id(from), now) {
            Some(from)
        } else {
            self.first_available(now, from + 1)
        }
    }

    /// Of the first `n` members the first whose cooldown ends earliest.
    pub open spec fn earliest(self, n: int) -> int
        decreases n,
    {
        if n <= 1 {
            0
        } else {
            let before = self.earliest(n - 1);
            if self.cooldowns[self.member_id(n - 1)].nanos < self.cooldowns[self.member_id(
                before,
            )].nanos {
                n - 1
            } else {
                before
            }
        }
    }

    /// The member of highest priority that does not rest, or, where all rest, the one that is back
    /// first.
    pub open spec fn priority_choice(self, now: Instant) -> Seq<char> {
        match self.first_available(now, 0) {
            Some(i) => self.member_id(i),
            None => self.member_id(self.earliest(self.aggregate.members.len() as int)),
        }
    }

    pub open spec fn after_request(self) -> SelectorView {
        SelectorView {
            request_index: (self.request_index + 1) % self.aggregate.members.len() as int,
            ..self
        }
    }

    /// The member that serves, and the selector after it: the rotation of each strategy.
    pub open spec fn next(self, conversation: Option<Seq<char>>, now: Instant) -> (
        SelectorView,
        Seq<char>,
    ) {
        match self.aggregate.strategy {
            AggregateRelayStrategy::Failover => (self, self.member_id(self.failover_index)),
            AggregateRelayStrategy::PriorityFallback => (self, self.priority_choice(now)),
            AggregateRelayStrategy::ConversationRoundRobin => match conversation {
                None => (self.after_request(), self.member_id(self.request_index)),
                Some(id) => if self.conversations.contains_key(id) {
                    (self, self.conversations[id])
                } else {
                    (
                        SelectorView {
                            conversations: self.conversations.insert(
                                id,
                                self.member_id(self.request_index),
                            ),
                            ..self.after_request()
                        },
                        self.member_id(self.request_index),
                    )
                },
            },
            AggregateRelayStrategy::RequestRoundRobin => (
                self.after_request(),
                self.member_id(self.request_index),
            ),
            AggregateRelayStrategy::WeightedRoundRobin => (
                SelectorView {
                    weighted_index: (self.weighted_index + 1) % schedule(
                        self.aggregate.members,
                    ).len() as int,
                    ..self
                },
                schedule(self.aggregate.members)[self.weighted_index],
            ),
        }
    }

    /// The member that would serve, without a turn of the rotation.
    pub open spec fn peeked(self, now: Instant) -> Seq<char> {
        match self.aggregate.strategy {
            AggregateRelayStrategy::Failover => self.member_id(self.failover_index),
            AggregateRelayStrategy::PriorityFallback => self.priority_choice(now),
            AggregateRelayStrategy::ConversationRoundRobin => self.member_id(self.request_index),
            AggregateRelayStrategy::RequestRoundRobin => self.member_id(self.request_index),
            AggregateRelayStrategy::WeightedRoundRobin => schedule(
                self.aggregate.members,
            )[self.weighted_index],
        }
    }

    /// The relay of a member, or the error that there is none.
    pub open spec fn relay_of(self, settings: RelaySettingsView, relay_id: Seq<char>) -> Result<
        RelayProfileView,
        SelectionErrorView,
    > {
        match relay_position(settings.relay_profiles, relay_id) {
            Some(p) => Ok(settings.relay_profiles[p]),
            None => Err(
                SelectionErrorView::UnknownMemberRelay { aggregate_id: self.aggregate.id, relay_id },
            ),
        }
    }

    /// A choice: the selector after it, and the relay. Settings that do not fit the aggregate leave
    /// the selector alone.
    pub open spec fn selected(
        self,
        settings: RelaySettingsView,
        conversation: Option<Seq<char>>,
        now: Instant,
    ) -> (SelectorView, Result<RelayProfileView, SelectionErrorView>) {
        match aggregate_fault(settings.relay_profiles, self.aggregate) {
            Some(e) => (self, Err(e)),
            None => {
                let (after, relay_id) = self.pruned(now).next(conversation, now);
                (after, self.relay_of(settings, relay_id))
            },
        }
    }

    pub open spec fn peek_result(self, settings: RelaySettingsView, now: Instant) -> Result<
        RelayProfileView,
        SelectionErrorView,
    > {
        match aggregate_fault(settings.relay_profiles, self.aggregate) {
            Some(e) => Err(e),
            None => self.relay_of(settings, self.peeked(now)),
        }
    }
}

/// A copy of the first relay with an id.
pub fn relay_profile_by_id(settings: &BackendSettings, relay_id: &str) -> (r: Option<RelayProfile>)
    ensures
        match r {
            Some(profile) => relay_position(settings@.relays.relay_profiles, relay_id@) is Some && profile@
                == settings@.relays.relay_profiles[relay_position(
                settings@.relays.relay_profiles,
                relay_id@,
            )->0],
            None => relay_position(settings@.relays.relay_profiles, relay_id@) is None,
        },
{
    match find_relay(&settings.relays.relay_profiles, relay_id) {
        Some(p) => {
            assert(settings@.relays.relay_profiles[p as int] == settings.relays.relay_profiles@[p as int]@);
            Some(settings.relays.relay_profiles[p].copy())
        },
        None => None,
    }
}

impl RelayRotationSelector {
    /// What the fields keep among themselves.
    pub closed spec fn fields_are_valid(self) -> bool {
        &&& self.weighted_member < self.aggregate.members@.len()
        &&& self.weighted_offset < weight_of(self.aggregate.members@[self.weighted_member as int]@)
    }

    pub open spec fn is_valid(self) -> bool {
        self@.counts_are_valid() && self.fields_are_valid()
    }

    fn relay_of(&self, settings: &BackendSettings, relay_id: &str) -> (r: Result<
        RelayProfile,
        SelectionError,
    >)
        ensures
            chosen(r) == self@.relay_of(settings@.relays, relay_id@),
    {
        match relay_profile_by_id(settings, relay_id) {
            Some(profile) => Ok(profile),
            None => Err(
                SelectionError::UnknownMemberRelay {
                    aggregate_id: self.aggregate.id.clone(),
                    relay_id: relay_id.to_owned(),
                },
            ),
        }
    }

    fn is_available(&self, relay_id: &str, now: Instant) -> (r: bool)
        ensures
            r == self@.is_available(relay_id@, now),
    {
        match self.cooldowns.get(relay_id) {
            Some(until) => until.nanos <= now.nanos,
            None => true,
        }
    }

    fn member_id_at(&self, i: usize) -> (r: String)
        requires
            i < self.aggregate.members@.len(),
        ensures
            r@ == self@.member_id(i as int),
    {
        assert(self@.aggregate.members[i as int] == self.aggregate.members@[i as int]@);
        self.aggregate.members[i].relay_id.clone()
    }

    fn select_priority_fallback(&self, now: Instant) -> (r: String)
        requires
            self@.aggregate.members.len() > 0,
        ensures
            r@ == self@.priority_choice(now),
    {
        let n = self.aggregate.members.len();
        for i in 0..n
            invariant
                n == self.aggregate.members@.len(),
                self@.first_available(now, 0) == self@.first_available(now, i as int),
                forall|j: int|
                    0 <= j < i ==> !self@.is_available(#[trigger] self@.member_id(j), now),
        {
            assert(self@.aggregate.members[i as int] == self.aggregate.members@[i as int]@);
            if self.is_available(self.aggregate.members[i].relay_id.as_str(), now) {
                return self.member_id_at(i);
            }
        }
        let mut best: usize = 0;
        for i in 1..n
            invariant
                n == self.aggregate.members@.len(),
                best < n,
                best == self@.earliest(i as int),
                forall|j: int|
                    0 <= j < n ==> !self@.is_available(#[trigger] self@.member_id(j), now),
        {
            assert(self@.aggregate.members[i as int] == self.aggregate.members@[i as int]@);
            assert(self@.aggregate.members[best as int] == self.aggregate.members@[best as int]@);
            assert(!self@.is_available(self@.member_id(i as int), now));
            assert(!self@.is_available(self@.member_id(best as int), now));
            let this = self.cooldowns.get(self.aggregate.members[i].relay_id.as_str());
            let that = self.cooldowns.get(self.aggregate.members[best].relay_id.as_str());
            if let (Some(a), Some(b)) = (this, that) {
                if a.nanos < b.nanos {
                    best = i;
                }
            }
        }
        self.member_id_at(best)
    }

    fn prune_expired_cooldowns(&mut self, now: Instant)
        ensures
            final(self)@ == old(self)@.pruned(now),
            old(self).fields_are_valid() ==> final(self).fields_are_valid(),
    {
        prune(&mut self.cooldowns, now);
        assert(self@ == old(self)@.pruned(now));
    }
}

/// Removes the moments that have passed.
fn prune(map: &mut StrMap<Instant>, now: Instant)
    ensures
        final(map)@ == Map::new(
            |k: Seq<char>| old(map)@.contains_key(k) && old(map)@[k].nanos > now.nanos,
            |k: Seq<char>| old(map)@[k],
        ),
{
    let keys = map.keys();
    let ghost start = map@;
    for i in 0..keys.len()
        invariant
            start == old(map)@,
            forall|k: Seq<char>| #[trigger] start.contains_key(k) == texts(keys@).contains(k),
            forall|k: Seq<char>| #[trigger]
                map@.contains_key(k) ==> start.contains_key(k) && map@[k] == start[k],
            forall|k: Seq<char>| #[trigger]
                start.contains_key(k) && start[k].nanos > now.nanos ==> map@.contains_key(k),
            forall|j: int|
                0 <= j < i && map@.contains_key(#[trigger] texts(keys@)[j])
                    ==> map@[texts(keys@)[j]].nanos > now.nanos,
    {
        let key = keys[i].as_str();
        assert(texts(keys@)[i as int] == key@);
        let over = match map.get(key) {
            Some(until) => until.nanos <= now.nanos,
            None => false,
        };
        if over {
            map.remove(key);
        }
    }
    proof {
        let kept = Map::new(
            |k: Seq<char>| old(map)@.contains_key(k) && old(map)@[k].nanos > now.nanos,
            |k: Seq<char>| old(map)@[k],
        );
        assert forall|k: Seq<char>| map@.contains_key(k) == kept.contains_key(k) by {
            if map@.contains_key(k) {
                assert(start.contains_key(k));
                assert(texts(keys@).contains(k));
                let j = choose|j: int| 0 <= j < texts(keys@).len() && texts(keys@)[j] == k;
                assert(map@[texts(keys@)[j]].nanos > now.nanos);
            }
            if kept.contains_key(k) {
                assert(start.contains_key(k));
            }
        }
        assert(map@ =~= kept);
    }
}

impl SelectorView {
    /// What an event does to the rotation: only the failure of a failover aggregate moves it on.
    pub open spec fn after_event(self, event: RotationEvent) -> SelectorView {
        if event == RotationEvent::Failure && self.aggregate.strategy
            == AggregateRelayStrategy::Failover {
            SelectorView {
                failover_index: (self.failover_index + 1) % self.aggregate.members.len() as int,
                ..self
            }
        } else {
            self
        }
    }

    pub open spec fn has_member(self, relay_id: Seq<char>) -> bool {
        exists|i: int|
            0 <= i < self.aggregate.members.len() && (#[trigger] self.aggregate.members[i]).relay_id
                == relay_id
    }

    pub open spec fn failures_of(self, relay_id: Seq<char>) -> u32 {
        if self.failures.contains_key(relay_id) {
            self.failures[relay_id]
        } else {
            0
        }
    }

    /// What an outcome does to the selector, and whether it counts as one failure more to be told:
    /// in a priority aggregate, whether it sent the member into its cooldown.
    ///
    /// A success ends a cooldown and forgets the failures. A failure of a member that rests changes
    /// nothing. The third failure in a row sends the member to rest.
    pub open spec fn after_outcome(
        self,
        relay_id: Seq<char>,
        outcome: RelayRequestOutcome,
        now: Instant,
    ) -> (SelectorView, bool) {
        if self.aggregate.strategy != AggregateRelayStrategy::PriorityFallback {
            (self.after_event(outcome.event()), outcome.rest() is Some)
        } else if !self.has_member(relay_id) {
            (self, false)
        } else {
            match outcome.rest() {
                None => (
                    SelectorView {
                        cooldowns: self.cooldowns.remove(relay_id),
                        failures: self.failures.remove(relay_id),
                        ..self
                    },
                    false,
                ),
                Some(seconds) => if !self.is_available(relay_id, now) {
                    (self, false)
                } else if self.failures_of(relay_id) + 1 < PRIORITY_FALLBACK_FAILURE_THRESHOLD {
                    (
                        SelectorView {
                            failures: self.failures.insert(
                                relay_id,
                                (self.failures_of(relay_id) + 1) as u32,
                            ),
                            ..self
                        },
                        false,
                    )
                } else {
                    (
                        SelectorView {
                            cooldowns: self.cooldowns.insert(
                                relay_id,
                                Instant { nanos: later(now, Duration { seconds }) as u64 },
                            ),
                            reasons: self.reasons.insert(relay_id, outcome),
                            failures: self.failures.remove(relay_id),
                            ..self
                        },
                        true,
                    )
                },
            }
        }
    }

    /// The selector with every member back in service. Why members rested last stays known.
    pub open spec fn reset(self) -> SelectorView {
        SelectorView { cooldowns: Map::empty(), failures: Map::empty(), ..self }
    }

    pub open spec fn member_status(self, relay_id: Seq<char>, now: Instant) -> MemberStatusView {
        MemberStatusView {
            relay_id,
            consecutive_failures: self.failures_of(relay_id),
            failure_threshold: PRIORITY_FALLBACK_FAILURE_THRESHOLD,
            cooldown_remaining_seconds: if self.cooldowns.contains_key(relay_id) {
                seconds_left(self.cooldowns[relay_id], now)
            } else {
                0
            },
            last_cooldown_reason: if self.reasons.contains_key(relay_id) {
                Some(self.reasons[relay_id])
            } else {
                None
            },
        }
    }

    pub open spec fn status(self, now: Instant) -> CooldownStatusView {
        CooldownStatusView {
            aggregate_id: Some(self.aggregate.id),
            members: Seq::new(
                self.aggregate.members.len(),
                |i: int| self.member_status(self.member_id(i), now),
            ),
        }
    }

    /// The members from one on that do not rest, in their order.
    pub open spec fn available_from(self, now: Instant, from: int) -> Seq<Seq<char>>
        decreases self.aggregate.members.len() - from,
    {
        if from >= self.aggregate.members.len() {
            Seq::empty()
        } else if self.is_available(self.member_id(from), now) {
            seq![self.member_id(from)] + self.available_from(now, from + 1)
        } else {
            self.available_from(now, from + 1)
        }
    }

    /// Where the first member with an id stands.
    pub open spec fn member_position(self, relay_id: Seq<char>, from: int) -> Option<int>
        decreases self.aggregate.members.len() - from,
    {
        if from >= self.aggregate.members.len() {
            None
        } else if self.member_id(from) == relay_id {
            Some(from)
        } else {
            self.member_position(relay_id, from + 1)
        }
    }

    /// The members to try after one: those of lower priority that do not rest.
    pub open spec fn fallbacks_after(self, relay_id: Seq<char>, now: Instant) -> Seq<Seq<char>> {
        match self.member_position(relay_id, 0) {
            Some(i) => self.available_from(now, i + 1),
            None => Seq::empty(),
        }
    }
}

impl RelayRotationSelector {
    fn select_next_request(&mut self) -> (r: String)
        requires
            old(self).is_valid(),
        ensures
            final(self)@ == old(self)@.after_request(),
            r@ == old(self)@.member_id(old(self)@.request_index),
            final(self).is_valid(),
    {
        let relay_id = self.member_id_at(self.request_index);
        let n = self.aggregate.members.len();
        self.request_index = (self.request_index + 1) % n;
        proof {
            assert(self@.request_index == old(self)@.after_request().request_index);
            assert(self@ == old(self)@.after_request());
        }
        relay_id
    }

    fn select_for_conversation(&mut self, conversation_id: Option<String>) -> (r: String)
        requires
            old(self).is_valid(),
            old(self)@.aggregate.strategy == AggregateRelayStrategy::ConversationRoundRobin,
        ensures
            forall|now: Instant|
                (final(self)@, r@) == #[trigger] old(self)@.next(option_text(conversation_id), now),
            final(self).is_valid(),
    {
        match conversation_id {
            None => self.select_next_request(),
            Some(id) => {
                if let Some(relay_id) = self.conversation_assignments.get(id.as_str()) {
                    return relay_id.clone();
                }
                let relay_id = self.select_next_request();
                let ghost before = self@;
                self.conversation_assignments.insert(id, relay_id.clone());
                proof {
                    assert(self@.conversations =~= before.conversations.insert(id@, relay_id@));
                }
                relay_id
            },
        }
    }

    fn select_next_weighted(&mut self) -> (r: String)
        requires
            old(self).is_valid(),
            old(self)@.aggregate.strategy == AggregateRelayStrategy::WeightedRoundRobin,
        ensures
            forall|now: Instant, conversation: Option<Seq<char>>|
                (final(self)@, r@) == #[trigger] old(self)@.next(conversation, now),
            final(self).is_valid(),
    {
        let m = self.weighted_member;
        let offset = self.weighted_offset;
        let ghost members = self.aggregate@.members;
        let ghost total = schedule(members).len();
        let ghost index = self@.weighted_index;
        let relay_id = self.member_id_at(m);
        assert(members[m as int] == self.aggregate.members@[m as int]@);
        let weight = if self.aggregate.members[m].weight == 0 {
            1
        } else {
            self.aggregate.members[m].weight
        };
        proof {
            lemma_schedule(members, m as int, offset as int);
        }
        if offset + 1 < weight {
            self.weighted_offset = offset + 1;
            proof {
                lemma_schedule(members, m as int, offset + 1);
                assert(self@.weighted_index == index + 1);
                assert((index + 1) % (total as int) == index + 1) by (nonlinear_arith)
                    requires
                        0 <= index + 1 < total,
                {}
            }
        } else if m < self.aggregate.members.len() - 1 {
            self.weighted_member = m + 1;
            self.weighted_offset = 0;
            proof {
                assert(members[m + 1] == self.aggregate.members@[m + 1]@);
                lemma_schedule(members, m + 1, 0);
                assert(self@.weighted_index == index + 1);
                assert((index + 1) % (total as int) == index + 1) by (nonlinear_arith)
                    requires
                        0 <= index + 1 < total,
                {}
            }
        } else {
            self.weighted_member = 0;
            self.weighted_offset = 0;
            proof {
                assert(members.take(m + 1) =~= members);
                assert(members.take(0) =~= Seq::empty());
                assert(index + 1 == total);
                assert((index + 1) % (total as int) == 0) by (nonlinear_arith)
                    requires
                        index + 1 == total,
                        total > 0,
                {}
                assert(self@.weighted_index == 0);
                assert(members[0] == self.aggregate.members@[0]@);
            }
        }
        assert(self.fields_are_valid());
        assert(self@.failures == old(self)@.failures);
        assert(self@.counts_are_valid());
        relay_id
    }

    /// Chooses the member that serves a request.
    pub fn select_at(
        &mut self,
        settings: &BackendSettings,
        context: RotationContext,
        now: Instant,
    ) -> (r: Result<RelayProfile, SelectionError>)
        requires
            old(self).is_valid(),
        ensures
            (final(self)@, chosen(r)) == old(self)@.selected(
                settings@.relays,
                option_text(context.conversation_id),
                now,
            ),
            final(self).is_valid(),
    {
        match validate_aggregate_members(settings, &self.aggregate) {
            Ok(_) => {},
            Err(e) => {
                return Err(e);
            },
        }
        self.prune_expired_cooldowns(now);
        let ghost pruned = self@;
        let ghost conversation = option_text(context.conversation_id);
        let relay_id = match self.aggregate.strategy {
            AggregateRelayStrategy::Failover => self.member_id_at(self.failover_index),
            AggregateRelayStrategy::PriorityFallback => self.select_priority_fallback(now),
            AggregateRelayStrategy::ConversationRoundRobin => self.select_for_conversation(
                context.conversation_id,
            ),
            AggregateRelayStrategy::RequestRoundRobin => self.select_next_request(),
            AggregateRelayStrategy::WeightedRoundRobin => self.select_next_weighted(),
        };
        assert((self@, relay_id@) == pruned.next(conversation, now));
        self.relay_of(settings, relay_id.as_str())
    }

    /// The member that would serve a request.
    pub fn peek_at(&self, settings: &BackendSettings, now: Instant) -> (r: Result<
        RelayProfile,
        SelectionError,
    >)
        requires
            self.is_valid(),
        ensures
            chosen(r) == self@.peek_result(settings@.relays, now),
    {
        match validate_aggregate_members(settings, &self.aggregate) {
            Ok(_) => {},
            Err(e) => {
                return Err(e);
            },
        }
        let relay_id = match self.aggregate.strategy {
            AggregateRelayStrategy::Failover => self.member_id_at(self.failover_index),
            AggregateRelayStrategy::PriorityFallback => self.select_priority_fallback(now),
            AggregateRelayStrategy::ConversationRoundRobin => self.member_id_at(
                self.request_index,
            ),
            AggregateRelayStrategy::RequestRoundRobin => self.member_id_at(self.request_index),
            AggregateRelayStrategy::WeightedRoundRobin => {
                proof {
                    let m = self.weighted_member as int;
                    assert(self@.aggregate.members[m] == self.aggregate.members@[m]@);
                    lemma_schedule(self@.aggregate.members, m, self.weighted_offset as int);
                }
                self.member_id_at(self.weighted_member)
            },
        };
        self.relay_of(settings, relay_id.as_str())
    }

    pub fn record_event(&mut self, event: RotationEvent)
        requires
            old(self).is_valid(),
        ensures
            final(self)@ == old(self)@.after_event(event),
            final(self).is_valid(),
    {
        if event == RotationEvent::Failure && self.aggregate.strategy
            == AggregateRelayStrategy::Failover {
            let n = self.aggregate.members.len();
            self.failover_index = (self.failover_index + 1) % n;
        }
    }

    fn has_member(&self, relay_id: &str) -> (r: bool)
        ensures
            r == self@.has_member(relay_id@),
    {
        for i in 0..self.aggregate.members.len()
            invariant
                forall|j: int|
                    0 <= j < i ==> (#[trigger] self@.aggregate.members[j]).relay_id != relay_id@,
        {
            assert(self@.aggregate.members[i as int] == self.aggregate.members@[i as int]@);
            if same_text(self.aggregate.members[i].relay_id.as_str(), relay_id) {
                return true;
            }
        }
        false
    }

    pub fn consecutive_failures(&self, relay_id: &str) -> (r: u32)
        ensures
            r == self@.failures_of(relay_id@),
    {
        match self.consecutive_failures.get(relay_id) {
            Some(n) => *n,
            None => 0,
        }
    }

    /// Takes the outcome of a request to a member.
    pub fn record_outcome_at(
        &mut self,
        relay_id: &str,
        outcome: RelayRequestOutcome,
        now: Instant,
    ) -> (r: bool)
        requires
            old(self).is_valid(),
            later(now, Duration { seconds: 3600 }) <= u64::MAX,
        ensures
            (final(self)@, r) == old(self)@.after_outcome(relay_id@, outcome, now),
            final(self).is_valid(),
    {
        if self.aggregate.strategy != AggregateRelayStrategy::PriorityFallback {
            self.record_event(outcome.rotation_event());
            return outcome.cooldown_duration().is_some();
        }
        if !self.has_member(relay_id) {
            return false;
        }
        let duration = match outcome.cooldown_duration() {
            Some(duration) => duration,
            None => {
                self.cooldowns.remove(relay_id);
                self.consecutive_failures.remove(relay_id);
                return false;
            },
        };
        if !self.is_available(relay_id, now) {
            return false;
        }
        let failures = self.consecutive_failures(relay_id) + 1;
        if failures >= PRIORITY_FALLBACK_FAILURE_THRESHOLD {
            let until = now.after(duration);
            self.cooldowns.insert(relay_id.to_owned(), until);
            self.last_cooldown_reasons.insert(relay_id.to_owned(), outcome);
            self.consecutive_failures.remove(relay_id);
            return true;
        }
        self.consecutive_failures.insert(relay_id.to_owned(), failures);
        false
    }

    pub fn cooldown_until(&self, relay_id: &str) -> (r: Option<Instant>)
        ensures
            r == (if self@.cooldowns.contains_key(relay_id@) {
                Some(self@.cooldowns[relay_id@])
            } else {
                None
            }),
    {
        match self.cooldowns.get(relay_id) {
            Some(until) => Some(*until),
            None => None,
        }
    }

    fn member_status(&self, relay_id: &str, now: Instant) -> (r: RelayCooldownMemberStatus)
        ensures
            r@ == self@.member_status(relay_id@, now),
    {
        RelayCooldownMemberStatus {
            relay_id: relay_id.to_owned(),
            consecutive_failures: self.consecutive_failures(relay_id),
            failure_threshold: PRIORITY_FALLBACK_FAILURE_THRESHOLD,
            cooldown_remaining_seconds: match self.cooldowns.get(relay_id) {
                Some(until) => remaining_seconds(*until, now),
                None => 0,
            },
            last_cooldown_reason: match self.last_cooldown_reasons.get(relay_id) {
                Some(outcome) => Some(*outcome),
                None => None,
            },
        }
    }

    /// How the members stand; cooldowns that are over are forgotten.
    pub fn cooldown_status_at(&mut self, now: Instant) -> (r: RelayCooldownStatus)
        requires
            old(self).is_valid(),
        ensures
            final(self)@ == old(self)@.pruned(now),
            r@ == old(self)@.pruned(now).status(now),
            final(self).is_valid(),
    {
        self.prune_expired_cooldowns(now);
        let mut members: Vec<RelayCooldownMemberStatus> = Vec::new();
        for i in 0..self.aggregate.members.len()
            invariant
                members@.len() == i,
                forall|j: int|
                    0 <= j < i ==> (#[trigger] members@[j])@ == self@.member_status(
                        self@.member_id(j),
                        now,
                    ),
        {
            assert(self@.aggregate.members[i as int] == self.aggregate.members@[i as int]@);
            members.push(
                self.member_status(self.aggregate.members[i].relay_id.as_str(), now),
            );
        }
        let r = RelayCooldownStatus { aggregate_id: Some(self.aggregate.id.clone()), members };
        assert(r@ =~= self@.status(now));
        r
    }

    pub fn reset_priority_fallback_cooldowns(&mut self)
        requires
            old(self).is_valid(),
        ensures
            final(self)@ == old(self)@.reset(),
            final(self).is_valid(),
    {
        self.cooldowns.clear();
        self.consecutive_failures.clear();
    }

    /// The members to try after one that failed.
    pub fn priority_fallbacks_after(&self, relay_id: &str, now: Instant) -> (r: Vec<String>)
        ensures
            texts(r@) == self@.fallbacks_after(relay_id@, now),
    {
        let n = self.aggregate.members.len();
        let mut start: Option<usize> = None;
        let mut i: usize = 0;
        while i < n
            invariant_except_break
                start is None,
            invariant
                n == self.aggregate.members@.len(),
                i <= n,
                self@.member_position(relay_id@, 0) == self@.member_position(relay_id@, i as int),
            ensures
                match start {
                    Some(s) => s < n && self@.member_position(relay_id@, 0) == Some(s as int),
                    None => self@.member_position(relay_id@, 0) is None,
                },
            decreases n - i,
        {
            assert(self@.aggregate.members[i as int] == self.aggregate.members@[i as int]@);
            if same_text(self.aggregate.members[i].relay_id.as_str(), relay_id) {
                start = Some(i);
                break ;
            }
            i = i + 1;
        }
        let mut r: Vec<String> = Vec::new();
        if let Some(s) = start {
            let ghost all = self@.available_from(now, s + 1);
            assert(texts(r@) + all =~= all);
            for k in s + 1..n
                invariant
                    n == self.aggregate.members@.len(),
                    all == texts(r@) + self@.available_from(now, k as int),
            {
                assert(self@.aggregate.members[k as int] == self.aggregate.members@[k as int]@);
                if self.is_available(self.aggregate.members[k].relay_id.as_str(), now) {
                    let ghost before = texts(r@);
                    let id = self.aggregate.members[k].relay_id.clone();
                    r.push(id);
                    proof {
                        assert(texts(r@) =~= before.push(id@));
                        let rest = self@.available_from(now, k + 1);
                        assert(before + (seq![id@] + rest) =~= texts(r@) + rest);
                    }
                }
            }
            assert(texts(r@) + Seq::<Seq<char>>::empty() =~= texts(r@));
        } else {
            assert(texts(r@) =~= Seq::empty());
        }
        r
    }
}

/// The relays of the members that are defined.
pub open spec fn member_relays(
    members: Seq<AggregateRelayMemberView>,
    relays: Seq<RelayProfileView>,
) -> Seq<RelayProfileView>
    decreases members.len(),
{
    if members.len() == 0 {
        Seq::empty()
    } else {
        let before = member_relays(members.drop_last(), relays);
        match relay_position(relays, members.last().relay_id) {
            Some(p) => before.push(relays[p]),
            None => before,
        }
    }
}

fn relays_of_members(settings: &BackendSettings, aggregate: &AggregateRelayProfile) -> (r: Vec<
    RelayProfile,
>)
    ensures
        relay_profile_views(r@) == member_relays(aggregate@.members, settings@.relays.relay_profiles),
{
    let mut r: Vec<RelayProfile> = Vec::new();
    let ghost members = aggregate@.members;
    assert(relay_profile_views(r@) =~= Seq::empty());
    for i in 0..aggregate.members.len()
        invariant
            members == aggregate@.members,
            relay_profile_views(r@) == member_relays(
                members.take(i as int),
                settings@.relays.relay_profiles,
            ),
    {
        proof {
            assert(members.take(i + 1).drop_last() =~= members.take(i as int));
            assert(members.take(i + 1).last() == aggregate.members@[i as int]@);
        }
        if let Some(profile) = relay_profile_by_id(
            settings,
            aggregate.members[i].relay_id.as_str(),
        ) {
            let ghost before = relay_profile_views(r@);
            r.push(profile);
            assert(relay_profile_views(r@) =~= before.push(profile@));
        }
    }
    assert(members.take(members.len() as int) =~= members);
    r
}

/// The selector for the aggregate in use.
pub open spec fn selector_for(settings: RelaySettingsView) -> Result<
    SelectorView,
    SelectionErrorView,
> {
    match settings.active_aggregate() {
        None => Err(SelectionErrorView::NoActiveAggregate),
        Some(aggregate) => match aggregate_fault(settings.relay_profiles, aggregate) {
            Some(e) => Err(e),
            None => Ok(
                SelectorView::fresh(
                    aggregate,
                    if aggregate.strategy == AggregateRelayStrategy::PriorityFallback {
                        Some(member_relays(aggregate.members, settings.relay_profiles))
                    } else {
                        None
                    },
                ),
            ),
        },
    }
}

impl SelectorView {
    /// Whether the selector was made for these settings.
    pub open spec fn fits(
        self,
        settings: RelaySettingsView,
        aggregate: AggregateRelayProfileView,
    ) -> bool {
        &&& self.aggregate == aggregate
        &&& self.priority_members is Some ==> self.priority_members->0 == member_relays(
            aggregate.members,
            settings.relay_profiles,
        )
    }
}

impl RelayRotationSelector {
    pub fn from_settings(settings: &BackendSettings) -> (r: Result<Self, SelectionError>)
        ensures
            match r {
                Ok(selector) => selector_for(settings@.relays) == Ok::<SelectorView, SelectionErrorView>(
                    selector@,
                ) && selector.is_valid(),
                Err(e) => selector_for(settings@.relays) == Err::<SelectorView, SelectionErrorView>(e@),
            },
    {
        let aggregate = match settings.active_aggregate_relay_profile() {
            Some(aggregate) => aggregate,
            None => {
                return Err(SelectionError::NoActiveAggregate);
            },
        };
        match validate_aggregate_members(settings, &aggregate) {
            Ok(_) => {},
            Err(e) => {
                return Err(e);
            },
        }
        let priority_member_profiles = if aggregate.strategy
            == AggregateRelayStrategy::PriorityFallback {
            Some(relays_of_members(settings, &aggregate))
        } else {
            None
        };
        let r = RelayRotationSelector {
            aggregate,
            priority_member_profiles,
            failover_index: 0,
            request_index: 0,
            weighted_member: 0,
            weighted_offset: 0,
            conversation_assignments: StrMap::new(),
            cooldowns: StrMap::new(),
            consecutive_failures: StrMap::new(),
            last_cooldown_reasons: StrMap::new(),
        };
        proof {
            let members = r@.aggregate.members;
            assert(members[0] == r.aggregate.members@[0]@);
            lemma_schedule(members, 0, 0);
            assert(members.take(0) =~= Seq::empty());
            assert(r@.conversations =~= Map::empty());
            assert(r@.weighted_index == 0);
        }
        Ok(r)
    }

    pub fn matches_settings(
        &self,
        settings: &BackendSettings,
        active_aggregate: &AggregateRelayProfile,
    ) -> (r: bool)
        ensures
            r == self@.fits(settings@.relays, active_aggregate@),
    {
        if !self.aggregate.same(active_aggregate) {
            return false;
        }
        match &self.priority_member_profiles {
            None => true,
            Some(previous) => {
                let current = relays_of_members(settings, active_aggregate);
                same_relay_profiles(previous, &current)
            },
        }
    }
}

} // verus!
