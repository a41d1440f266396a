//! Which relay is in use, and with what.
use vstd::prelude::*;

use super::backend::{BackendSettings, RelaySettingsView};
use super::types::{
    aggregate_relay_profile_views, relay_profile_views, AggregateRelayMemberView,
    AggregateRelayProfile, AggregateRelayProfileView, RelayMode, RelayProfile, RelayProfileView,
    RelayProtocol, RelaySessionProvider,
};
use crate::text::{
    join, joined, parse_u64, parsed_u64, pieces, is_any, same_text, split_any, texts, trim, trimmed,
};
use crate::toml::{document_text, parse_document, parsed_toml, root_text};

verus! {

/// What is known of the relays besides the settings: for each relay, whether its auth contents are
/// a ChatGPT sign-in, and the name of each of its model entries without a suffix.
#[derive(Debug)]
pub struct RelayFacts {
    pub chatgpt_auth: Vec<bool>,
    pub model_names: Vec<Vec<String>>,
}

#[verifier::ext_equal]
pub struct RelayFactsView {
    pub chatgpt_auth: Seq<bool>,
    pub model_names: Seq<Seq<Seq<char>>>,
}

impl View for RelayFacts {
    type V = RelayFactsView;

    open spec fn view(&self) -> RelayFactsView {
        RelayFactsView {
            chatgpt_auth: self.chatgpt_auth@,
            model_names: Seq::new(
                self.model_names@.len(),
                |i: int| texts(self.model_names@[i]@),
            ),
        }
    }
}

impl RelayFactsView {
    /// The facts cover so many relays.
    pub open spec fn covers(self, n: nat) -> bool {
        self.chatgpt_auth.len() == n && self.model_names.len() == n
    }
}

/// Where the first relay with an id stands.
pub open spec fn relay_position(relays: Seq<RelayProfileView>, id: Seq<char>) -> Option<int>
    decreases relays.len(),
{
    if relays.len() == 0 {
        None
    } else {
        match relay_position(relays.drop_last(), id) {
            Some(i) => Some(i),
            None => if relays.last().id == id {
                Some(relays.len() - 1)
            } else {
                None
            },
        }
    }
}

/// The position is the first with that id.
pub proof fn lemma_relay_position(relays: Seq<RelayProfileView>, id: Seq<char>)
    ensures
        match relay_position(relays, id) {
            Some(i) => 0 <= i < relays.len() && relays[i].id == id && forall|j: int|
                0 <= j < i ==> (#[trigger] relays[j]).id != id,
            None => forall|j: int| 0 <= j < relays.len() ==> (#[trigger] relays[j]).id != id,
        },
    decreases relays.len(),
{
    if relays.len() > 0 {
        lemma_relay_position(relays.drop_last(), id);
        assert forall|j: int| 0 <= j < relays.len() - 1 implies relays.drop_last()[j]
            == #[trigger] relays[j] by {}
    }
}

proof fn lemma_relay_position_prefix(relays: Seq<RelayProfileView>, id: Seq<char>, n: int)
    requires
        0 <= n <= relays.len(),
        relay_position(relays.take(n), id) is Some,
    ensures
        relay_position(relays, id) == relay_position(relays.take(n), id),
    decreases relays.len() - n,
{
    if n < relays.len() {
        assert(relays.take(n + 1).drop_last() =~= relays.take(n));
        lemma_relay_position_prefix(relays, id, n + 1);
    } else {
        assert(relays.take(n) =~= relays);
    }
}

pub fn find_relay(relays: &Vec<RelayProfile>, id: &str) -> (r: Option<usize>)
    ensures
        match r {
            Some(i) => relay_position(relay_profile_views(relays@), id@) == Some(i as int) && i
                < relays@.len(),
            None => relay_position(relay_profile_views(relays@), id@) is None,
        },
{
    let ghost views = relay_profile_views(relays@);
    for i in 0..relays.len()
        invariant
            views == relay_profile_views(relays@),
            relay_position(views.take(i as int), id@) is None,
    {
        assert(views.take(i + 1).drop_last() =~= views.take(i as int));
        assert(views.take(i + 1).last() == relays@[i as int]@);
        if same_text(relays[i].id.as_str(), id) {
            proof {
                lemma_relay_position_prefix(views, id@, i + 1);
            }
            return Some(i);
        }
    }
    assert(views.take(relays@.len() as int) =~= views);
    None
}

/// Where the first aggregate with an id stands.
pub open spec fn aggregate_position(
    aggregates: Seq<AggregateRelayProfileView>,
    id: Seq<char>,
    from: int,
) -> Option<int>
    decreases aggregates.len() - from,
{
    if from >= aggregates.len() {
        None
    } else if aggregates[from].id == id {
        Some(from)
    } else {
        aggregate_position(aggregates, id, from + 1)
    }
}

pub fn find_aggregate(aggregates: &Vec<AggregateRelayProfile>, id: &str) -> (r: Option<usize>)
    ensures
        match r {
            Some(i) => aggregate_position(aggregate_relay_profile_views(aggregates@), id@, 0)
                == Some(i as int) && i < aggregates@.len(),
            None => aggregate_position(
                aggregate_relay_profile_views(aggregates@),
                id@,
                0,
            ) is None,
        },
{
    let ghost views = aggregate_relay_profile_views(aggregates@);
    for i in 0..aggregates.len()
        invariant
            views == aggregate_relay_profile_views(aggregates@),
            aggregate_position(views, id@, 0) == aggregate_position(views, id@, i as int),
    {
        assert(views[i as int] == aggregates@[i as int]@);
        if same_text(aggregates[i].id.as_str(), id) {
            return Some(i);
        }
    }
    None
}

impl RelaySettingsView {
    /// The aggregate in use: the active relay is an aggregate, and the aggregate of its id is
    /// defined and is the one that was chosen, if any was.
    pub open spec fn active_aggregate(self) -> Option<AggregateRelayProfileView> {
        match relay_position(self.relay_profiles, self.active_relay_id) {
            None => None,
            Some(p) => {
                let relay = self.relay_profiles[p];
                let chosen = trimmed(self.active_aggregate_relay_id);
                if relay.relay_mode != RelayMode::Aggregate || (chosen.len() > 0 && chosen
                    != relay.id) {
                    None
                } else {
                    match aggregate_position(self.aggregate_relay_profiles, relay.id, 0) {
                        Some(i) => Some(self.aggregate_relay_profiles[i]),
                        None => None,
                    }
                }
            },
        }
    }
}

/// The view of an aggregate, where there is one.
pub open spec fn aggregate_view(aggregate: Option<AggregateRelayProfile>) -> Option<
    AggregateRelayProfileView,
> {
    match aggregate {
        Some(a) => Some(a@),
        None => None,
    }
}

impl BackendSettings {
    pub fn active_aggregate_relay_profile(&self) -> (r: Option<AggregateRelayProfile>)
        ensures
            aggregate_view(r) == self@.relays.active_aggregate(),
    {
        let p = match find_relay(&self.relays.relay_profiles, self.relays.active_relay_id.as_str()) {
            Some(p) => p,
            None => {
                return None;
            },
        };
        let relay = &self.relays.relay_profiles[p];
        assert(self@.relays.relay_profiles[p as int] == relay@);
        if relay.relay_mode != RelayMode::Aggregate {
            return None;
        }
        let chosen = trim(self.relays.active_aggregate_relay_id.as_str());
        if !chosen.is_empty() && !same_text(chosen, relay.id.as_str()) {
            return None;
        }
        match find_aggregate(&self.relays.aggregate_relay_profiles, relay.id.as_str()) {
            Some(i) => {
                assert(self@.relays.aggregate_relay_profiles[i as int]
                    == self.relays.aggregate_relay_profiles@[i as int]@);
                Some(self.relays.aggregate_relay_profiles[i].copy())
            },
            None => None,
        }
    }
}

/// The model entries of a relay: its model, and what its list names.
pub open spec fn model_entries(relay: RelayProfileView) -> Seq<Seq<char>> {
    let listed = pieces(relay.model_list, is_any(seq!['\r', '\n', ',']));
    seq![relay.model] + Seq::new(listed.len(), |i: int| trimmed(listed[i]))
}

pub fn relay_profile_model_entries(profile: &RelayProfile) -> (r: Vec<String>)
    ensures
        texts(r@) == model_entries(profile@),
{
    let separators: Vec<char> = vec!['\r', '\n', ','];
    assert(separators@ =~= seq!['\r', '\n', ',']);
    let listed = split_any(profile.model_list.as_str(), separators.as_slice());
    let mut r: Vec<String> = vec![profile.model.clone()];
    let ghost all = model_entries(profile@);
    let ghost parts = texts(listed@);
    assert(texts(r@) =~= all.take(1));
    for i in 0..listed.len()
        invariant
            parts == texts(listed@),
            all == seq![profile@.model] + Seq::new(parts.len(), |i: int| trimmed(parts[i])),
            texts(r@) == all.take(i + 1),
    {
        let ghost before = texts(r@);
        let entry = trim(listed[i].as_str());
        assert(parts[i as int] == listed@[i as int]@);
        r.push(entry.to_owned());
        assert(texts(r@) =~= before.push(entry@));
        assert(all.take(i + 2) =~= all.take(i + 1).push(entry@));
    }
    assert(all.take(all.len() as int) =~= all);
    r
}

/// A list with a text added, unless it is there already.
pub open spec fn with_new(list: Seq<Seq<char>>, text: Seq<char>) -> Seq<Seq<char>> {
    if list.contains(text) {
        list
    } else {
        list.push(text)
    }
}

/// A list with the names that are not empty added, each once, in their order.
pub open spec fn with_names(list: Seq<Seq<char>>, names: Seq<Seq<char>>) -> Seq<Seq<char>>
    decreases names.len(),
{
    if names.len() == 0 {
        list
    } else {
        let before = with_names(list, names.drop_last());
        if names.last().len() > 0 {
            with_new(before, names.last())
        } else {
            before
        }
    }
}

/// The models of a relay, given the names of its entries.
pub open spec fn distinct_models(names: Seq<Seq<char>>) -> Seq<Seq<char>> {
    with_names(Seq::empty(), names)
}

pub fn contains_text(list: &Vec<String>, text: &str) -> (r: bool)
    ensures
        r == texts(list@).contains(text@),
{
    for i in 0..list.len()
        invariant
            forall|j: int| 0 <= j < i ==> (#[trigger] texts(list@)[j]) != text@,
    {
        assert(texts(list@)[i as int] == list@[i as int]@);
        if same_text(list[i].as_str(), text) {
            return true;
        }
    }
    false
}

fn add_names(list: &mut Vec<String>, names: &Vec<String>)
    ensures
        texts(final(list)@) == with_names(texts(old(list)@), texts(names@)),
{
    let ghost all = texts(names@);
    let ghost start = texts(list@);
    for i in 0..names.len()
        invariant
            all == texts(names@),
            start == texts(old(list)@),
            texts(list@) == with_names(start, all.take(i as int)),
    {
        proof {
            assert(all.take(i + 1).drop_last() =~= all.take(i as int));
            assert(all.take(i + 1).last() == names@[i as int]@);
        }
        if !names[i].as_str().is_empty() && !contains_text(list, names[i].as_str()) {
            let ghost before = texts(list@);
            list.push(names[i].clone());
            assert(texts(list@) =~= before.push(names@[i as int]@));
        }
    }
    assert(all.take(names@.len() as int) =~= all);
}

/// The models of a relay, given the names of its entries.
pub fn relay_profile_models(names: &Vec<String>) -> (r: Vec<String>)
    ensures
        texts(r@) == distinct_models(texts(names@)),
{
    let mut r: Vec<String> = Vec::new();
    assert(texts(r@) =~= Seq::empty());
    add_names(&mut r, names);
    r
}

/// Where the relays of an aggregate stand, without those that are not defined.
pub open spec fn member_positions(
    members: Seq<AggregateRelayMemberView>,
    relays: Seq<RelayProfileView>,
) -> Seq<int>
    decreases members.len(),
{
    if members.len() == 0 {
        Seq::empty()
    } else {
        let before = member_positions(members.drop_last(), relays);
        match relay_position(relays, members.last().relay_id) {
            Some(p) => before.push(p),
            None => before,
        }
    }
}

/// The models that the relays at some positions have, each once.
pub open spec fn models_at(positions: Seq<int>, names: Seq<Seq<Seq<char>>>) -> Seq<Seq<char>>
    decreases positions.len(),
{
    if positions.len() == 0 {
        Seq::empty()
    } else {
        with_names(
            models_at(positions.drop_last(), names),
            distinct_models(names[positions.last()]),
        )
    }
}

/// The size of a context window, where it is a positive number.
pub open spec fn window_of(text: Seq<char>) -> Option<u64> {
    match parsed_u64(trimmed(text)) {
        Some(n) => if n > 0 {
            Some(n)
        } else {
            None
        },
        None => None,
    }
}

/// Of the relays at some positions the first with the largest context window.
pub open spec fn widest(positions: Seq<int>, relays: Seq<RelayProfileView>) -> Option<int>
    decreases positions.len(),
{
    if positions.len() == 0 {
        None
    } else {
        let p = positions.last();
        match (widest(positions.drop_last(), relays), window_of(relays[p].context_window)) {
            (best, None) => best,
            (None, Some(_)) => Some(p),
            (Some(b), Some(n)) => if n > window_of(relays[b].context_window)->0 {
                Some(p)
            } else {
                Some(b)
            },
        }
    }
}

/// A relay with the models of an aggregate: its own first model stays, if the aggregate has it.
pub open spec fn with_models(
    relay: RelayProfileView,
    own: Seq<Seq<char>>,
    models: Seq<Seq<char>>,
) -> RelayProfileView {
    if models.len() == 0 {
        relay
    } else {
        RelayProfileView {
            model: if own.len() > 0 && models.contains(own[0]) {
                own[0]
            } else {
                models[0]
            },
            model_list: joined(models, "\n"@),
            ..relay
        }
    }
}

pub open spec fn is_blank(text: Seq<char>) -> bool {
    trimmed(text).len() == 0
}

/// A relay with what it lacks of its context settings taken from another. A relay that sets its
/// own window takes the compaction limit only where the windows are the same.
pub open spec fn with_context_of(relay: RelayProfileView, source: RelayProfileView) -> RelayProfileView {
    let inherits = is_blank(relay.context_window);
    let agrees = parsed_u64(trimmed(relay.context_window)) == window_of(source.context_window);
    RelayProfileView {
        context_window: if inherits {
            source.context_window
        } else {
            relay.context_window
        },
        auto_compact_limit: if is_blank(relay.auto_compact_limit) && (inherits || agrees) {
            source.auto_compact_limit
        } else {
            relay.auto_compact_limit
        },
        model: if inherits && is_blank(relay.model) {
            source.model
        } else {
            relay.model
        },
        model_windows: if inherits && is_blank(relay.model_windows) {
            source.model_windows
        } else {
            relay.model_windows
        },
        ..relay
    }
}

impl RelaySettingsView {
    /// The relay at a position; an aggregate one has the models of its members, and what it lacks
    /// of the context settings from the member with the widest window.
    pub open spec fn with_aggregate_context(self, p: int, facts: RelayFactsView) -> RelayProfileView {
        let relay = self.relay_profiles[p];
        match self.active_aggregate() {
            Some(aggregate) if relay.relay_mode == RelayMode::Aggregate => {
                let positions = member_positions(aggregate.members, self.relay_profiles);
                let named = with_models(
                    relay,
                    distinct_models(facts.model_names[p]),
                    models_at(positions, facts.model_names),
                );
                match widest(positions, self.relay_profiles) {
                    Some(best) => with_context_of(named, self.relay_profiles[best]),
                    None => named,
                }
            },
            _ => relay,
        }
    }

    /// Where the official relay that holds a ChatGPT sign-in stands.
    pub open spec fn official_sign_in(self, facts: RelayFactsView, from: int) -> Option<int>
        decreases self.relay_profiles.len() - from,
    {
        if from >= self.relay_profiles.len() {
            None
        } else if self.relay_profiles[from].id == "default"@ && self.relay_profiles[from].relay_mode
            == RelayMode::Official && facts.chatgpt_auth[from] {
            Some(from)
        } else {
            self.official_sign_in(facts, from + 1)
        }
    }

    /// Settings from before there was a list of relays: only the single address and key are set.
    pub open spec fn has_single_relay(self) -> bool {
        &&& self.active_relay_id == "default"@
        &&& self.relay_profiles.len() == 1
        &&& self.relay_profiles[0] == RelayProfileView::default()
        &&& self.relay_api_key.len() > 0 || self.relay_base_url.len() > 0
    }

    /// The relay in use. An aggregate whose sessions are OpenAI's borrows the ChatGPT sign-in of
    /// the official relay, where it has none of its own.
    pub open spec fn active_relay(self, facts: RelayFactsView) -> RelayProfileView {
        if self.has_single_relay() {
            RelayProfileView::plain(
                "default"@,
                self.relay_base_url,
                self.relay_base_url,
                self.relay_api_key,
                RelayMode::MixedApi,
                true,
            )
        } else {
            match relay_position(self.relay_profiles, self.active_relay_id) {
                Some(p) => {
                    let relay = self.with_aggregate_context(p, facts);
                    let borrows = self.active_aggregate() is Some
                        && self.active_aggregate()->0.session_provider
                        == RelaySessionProvider::Openai && !facts.chatgpt_auth[p];
                    match self.official_sign_in(facts, 0) {
                        Some(o) if borrows => RelayProfileView {
                            auth_contents: self.relay_profiles[o].auth_contents,
                            ..relay
                        },
                        _ => relay,
                    }
                },
                None => RelayProfileView::plain(
                    if self.active_relay_id.len() == 0 {
                        "default"@
                    } else {
                        self.active_relay_id
                    },
                    self.relay_base_url,
                    self.relay_base_url,
                    self.relay_api_key,
                    RelayMode::Official,
                    false,
                ),
            }
        }
    }
}

pub open spec fn as_positions(list: Seq<usize>) -> Seq<int> {
    Seq::new(list.len(), |i: int| list[i] as int)
}

fn context_window(text: &str) -> (r: Option<u64>)
    ensures
        r == window_of(text@),
{
    match parse_u64(trim(text)) {
        Some(n) => if n > 0 {
            Some(n)
        } else {
            None
        },
        None => None,
    }
}

fn models_of_relays(positions: &Vec<usize>, facts: &RelayFacts) -> (r: Vec<String>)
    requires
        forall|j: int|
            0 <= j < positions@.len() ==> #[trigger] positions@[j] < facts@.model_names.len(),
    ensures
        texts(r@) == models_at(as_positions(positions@), facts@.model_names),
{
    let mut models: Vec<String> = Vec::new();
    let ghost all = as_positions(positions@);
    let ghost names = facts@.model_names;
    assert(texts(models@) =~= Seq::empty());
    for i in 0..positions.len()
        invariant
            all == as_positions(positions@),
            names == facts@.model_names,
            forall|j: int|
                0 <= j < positions@.len() ==> #[trigger] positions@[j] < facts@.model_names.len(),
            texts(models@) == models_at(all.take(i as int), names),
    {
        let m = positions[i];
        proof {
            assert(all.take(i + 1).drop_last() =~= all.take(i as int));
            assert(all.take(i + 1).last() == m);
            assert(names[m as int] == texts(facts.model_names@[m as int]@));
        }
        let member_models = relay_profile_models(&facts.model_names[m]);
        add_names(&mut models, &member_models);
    }
    assert(all.take(all.len() as int) =~= all);
    models
}

fn take_models(profile: RelayProfile, own: &Vec<String>, models: &Vec<String>) -> (r: RelayProfile)
    ensures
        r@ == with_models(profile@, texts(own@), texts(models@)),
{
    if models.len() == 0 {
        return profile;
    }
    let keeps = own.len() > 0 && contains_text(models, own[0].as_str());
    proof {
        if own@.len() > 0 {
            assert(texts(own@)[0] == own@[0]@);
        }
        assert(texts(models@)[0] == models@[0]@);
    }
    let model = if keeps {
        own[0].clone()
    } else {
        models[0].clone()
    };
    let model_list = join(models, "\n");
    rename_models(profile, model, model_list)
}

fn rename_models(profile: RelayProfile, model: String, model_list: String) -> (r: RelayProfile)
    ensures
        r@ == (RelayProfileView { model: model@, model_list: model_list@, ..profile@ }),
{
    RelayProfile { model, model_list, ..profile }
}

fn take_context(profile: RelayProfile, source: &RelayProfile) -> (r: RelayProfile)
    ensures
        r@ == with_context_of(profile@, source@),
{
    let inherits = trim(profile.context_window.as_str()).is_empty();
    let agrees = match (
        parse_u64(trim(profile.context_window.as_str())),
        context_window(source.context_window.as_str()),
    ) {
        (Some(a), Some(b)) => a == b,
        (None, None) => true,
        _ => false,
    };
    let limit = if trim(profile.auto_compact_limit.as_str()).is_empty() && (inherits || agrees) {
        source.auto_compact_limit.clone()
    } else {
        profile.auto_compact_limit.clone()
    };
    let model = if inherits && trim(profile.model.as_str()).is_empty() {
        source.model.clone()
    } else {
        profile.model.clone()
    };
    let windows = if inherits && trim(profile.model_windows.as_str()).is_empty() {
        source.model_windows.clone()
    } else {
        profile.model_windows.clone()
    };
    let window = if inherits {
        source.context_window.clone()
    } else {
        profile.context_window.clone()
    };
    RelayProfile {
        context_window: window,
        auto_compact_limit: limit,
        model,
        model_windows: windows,
        ..profile
    }
}

impl BackendSettings {
    fn members_of(&self, aggregate: &AggregateRelayProfile) -> (r: Vec<usize>)
        ensures
            as_positions(r@) == member_positions(aggregate@.members, self@.relays.relay_profiles),
            forall|i: int| 0 <= i < r@.len() ==> #[trigger] r@[i] < self.relays.relay_profiles@.len(),
    {
        let mut r: Vec<usize> = Vec::new();
        let ghost members = aggregate@.members;
        assert(as_positions(r@) =~= Seq::empty());
        for i in 0..aggregate.members.len()
            invariant
                members == aggregate@.members,
                as_positions(r@) == member_positions(members.take(i as int), self@.relays.relay_profiles),
                forall|j: int| 0 <= j < r@.len() ==> #[trigger] r@[j] < self.relays.relay_profiles@.len(),
        {
            proof {
                assert(members.take(i + 1).drop_last() =~= members.take(i as int));
                assert(members.take(i + 1).last() == aggregate.members@[i as int]@);
            }
            if let Some(p) = find_relay(
                &self.relays.relay_profiles,
                aggregate.members[i].relay_id.as_str(),
            ) {
                let ghost before = as_positions(r@);
                r.push(p);
                assert(as_positions(r@) =~= before.push(p as int));
            }
        }
        assert(members.take(members.len() as int) =~= members);
        r
    }

    fn apply_aggregate_context_fallback(&self, p: usize, facts: &RelayFacts) -> (r: RelayProfile)
        requires
            p < self.relays.relay_profiles@.len(),
            facts@.covers(self.relays.relay_profiles@.len()),
        ensures
            r@ == self@.relays.with_aggregate_context(p as int, facts@),
    {
        let profile = self.relays.relay_profiles[p].copy();
        assert(self@.relays.relay_profiles[p as int] == profile@);
        if profile.relay_mode != RelayMode::Aggregate {
            return profile;
        }
        let aggregate = match self.active_aggregate_relay_profile() {
            Some(aggregate) => aggregate,
            None => {
                return profile;
            },
        };
        let own = relay_profile_models(&facts.model_names[p]);
        let positions = self.members_of(&aggregate);
        let models = models_of_relays(&positions, facts);
        let named = take_models(profile, &own, &models);
        match self.widest_of(&positions) {
            Some(best) => {
                assert(self@.relays.relay_profiles[best as int] == self.relays.relay_profiles@[best as int]@);
                take_context(named, &self.relays.relay_profiles[best])
            },
            None => named,
        }
    }

    fn widest_of(&self, positions: &Vec<usize>) -> (r: Option<usize>)
        requires
            forall|j: int|
                0 <= j < positions@.len() ==> #[trigger] positions@[j] < self.relays.relay_profiles@.len(),
        ensures
            match r {
                Some(b) => b < self.relays.relay_profiles@.len() && widest(
                    as_positions(positions@),
                    self@.relays.relay_profiles,
                ) == Some(b as int),
                None => widest(as_positions(positions@), self@.relays.relay_profiles) is None,
            },
    {
        let mut best: Option<(usize, u64)> = None;
        let ghost all = as_positions(positions@);
        for i in 0..positions.len()
            invariant
                all == as_positions(positions@),
                forall|j: int|
                    0 <= j < positions@.len() ==> #[trigger] positions@[j]
                        < self.relays.relay_profiles@.len(),
                match best {
                    Some((b, n)) => b < self.relays.relay_profiles@.len() && widest(
                        all.take(i as int),
                        self@.relays.relay_profiles,
                    ) == Some(b as int) && window_of(
                        self@.relays.relay_profiles[b as int].context_window,
                    ) == Some(n),
                    None => widest(all.take(i as int), self@.relays.relay_profiles) is None,
                },
        {
            let m = positions[i];
            proof {
                assert(all.take(i + 1).drop_last() =~= all.take(i as int));
                assert(all.take(i + 1).last() == m);
                assert(self@.relays.relay_profiles[m as int] == self.relays.relay_profiles@[m as int]@);
            }
            if let Some(n) = context_window(self.relays.relay_profiles[m].context_window.as_str()) {
                best = match best {
                    None => Some((m, n)),
                    Some((b, wide)) => if n > wide {
                        Some((m, n))
                    } else {
                        Some((b, wide))
                    },
                };
            }
        }
        assert(all.take(all.len() as int) =~= all);
        match best {
            Some((b, _)) => Some(b),
            None => None,
        }
    }

    fn find_official_sign_in(&self, facts: &RelayFacts) -> (r: Option<usize>)
        requires
            facts@.covers(self.relays.relay_profiles@.len()),
        ensures
            match r {
                Some(i) => self@.relays.official_sign_in(facts@, 0) == Some(i as int) && i
                    < self.relays.relay_profiles@.len(),
                None => self@.relays.official_sign_in(facts@, 0) is None,
            },
    {
        for i in 0..self.relays.relay_profiles.len()
            invariant
                facts@.covers(self.relays.relay_profiles@.len()),
                self@.relays.official_sign_in(facts@, 0) == self@.relays.official_sign_in(facts@, i as int),
        {
            assert(self@.relays.relay_profiles[i as int] == self.relays.relay_profiles@[i as int]@);
            if same_text(self.relays.relay_profiles[i].id.as_str(), "default")
                && self.relays.relay_profiles[i].relay_mode == RelayMode::Official
                && facts.chatgpt_auth[i] {
                return Some(i);
            }
        }
        None
    }

    /// The relay in use.
    pub fn active_relay_profile(&self, facts: &RelayFacts) -> (r: RelayProfile)
        requires
            facts@.covers(self.relays.relay_profiles@.len()),
        ensures
            r@ == self@.relays.active_relay(facts@),
    {
        if same_text(self.relays.active_relay_id.as_str(), "default") && self.relays.relay_profiles.len() == 1
            && self.relays.relay_profiles[0].same(&RelayProfile::default()) && (
        !self.relays.relay_api_key.as_str().is_empty() || !self.relays.relay_base_url.as_str().is_empty()) {
            assert(self@.relays.relay_profiles[0] == self.relays.relay_profiles@[0]@);
            return RelayProfile::plain(
                "default".to_owned(),
                self.relays.relay_base_url.clone(),
                self.relays.relay_base_url.clone(),
                self.relays.relay_api_key.clone(),
                RelayMode::MixedApi,
                true,
            );
        }
        assert(!self@.relays.has_single_relay()) by {
            if self.relays.relay_profiles@.len() == 1 {
                assert(self@.relays.relay_profiles[0] == self.relays.relay_profiles@[0]@);
            }
        }
        if let Some(p) = find_relay(&self.relays.relay_profiles, self.relays.active_relay_id.as_str()) {
            let mut profile = self.apply_aggregate_context_fallback(p, facts);
            if let Some(aggregate) = self.active_aggregate_relay_profile() {
                if aggregate.session_provider == RelaySessionProvider::Openai
                    && !facts.chatgpt_auth[p] {
                    if let Some(official) = self.find_official_sign_in(facts) {
                        assert(self@.relays.relay_profiles[official as int]
                            == self.relays.relay_profiles@[official as int]@);
                        profile.auth_contents = self.relays.relay_profiles[official].auth_contents.clone();
                    }
                }
            }
            assert(profile@ == self@.relays.active_relay(facts@));
            return profile;
        }
        let id = if self.relays.active_relay_id.as_str().is_empty() {
            "default".to_owned()
        } else {
            self.relays.active_relay_id.clone()
        };
        RelayProfile::plain(
            id,
            self.relays.relay_base_url.clone(),
            self.relays.relay_base_url.clone(),
            self.relays.relay_api_key.clone(),
            RelayMode::Official,
            false,
        )
    }
}

/// Whether a configuration text names OpenAI as its provider.
pub open spec fn names_openai(contents: Seq<char>) -> bool {
    match parsed_toml(contents) {
        Ok(config) => root_text(config, "model_provider"@) is Some && trimmed(
            root_text(config, "model_provider"@)->0,
        ) == "openai"@,
        Err(_) => false,
    }
}

fn provider_is_openai(contents: &str) -> (r: bool)
    ensures
        r == names_openai(contents@),
{
    match parse_document(contents) {
        Ok(doc) => match document_text(&doc, "model_provider") {
            Some(provider) => same_text(trim(provider.as_str()), "openai"),
            None => false,
        },
        Err(_) => false,
    }
}

impl RelaySettingsView {
    /// The provider that the sessions belong to: as the aggregate in use says, or else the
    /// configuration of the relay in use.
    pub open spec fn session_provider(self, facts: RelayFactsView) -> RelaySessionProvider {
        match self.active_aggregate() {
            Some(aggregate) => aggregate.session_provider,
            None => if names_openai(self.active_relay(facts).config_contents) {
                RelaySessionProvider::Openai
            } else {
                RelaySessionProvider::Custom
            },
        }
    }

    /// Whether requests have to pass the proxy: for an aggregate, a relay that speaks chat, routes
    /// models or needs no key, and for OpenAI's sessions.
    pub open spec fn uses_proxy(self, facts: RelayFactsView) -> bool {
        let relay = self.active_relay(facts);
        self.active_aggregate() is Some || relay.protocol == RelayProtocol::ChatCompletions
            || relay.routes_models() || relay.needs_no_auth() || self.session_provider(facts)
            == RelaySessionProvider::Openai
    }
}

impl BackendSettings {
    pub fn active_relay_session_provider(&self, facts: &RelayFacts) -> (r: RelaySessionProvider)
        requires
            facts@.covers(self.relays.relay_profiles@.len()),
        ensures
            r == self@.relays.session_provider(facts@),
    {
        if let Some(aggregate) = self.active_aggregate_relay_profile() {
            return aggregate.session_provider;
        }
        if provider_is_openai(self.active_relay_profile(facts).config_contents.as_str()) {
            RelaySessionProvider::Openai
        } else {
            RelaySessionProvider::Custom
        }
    }

    pub fn active_relay_uses_protocol_proxy(&self, facts: &RelayFacts) -> (r: bool)
        requires
            facts@.covers(self.relays.relay_profiles@.len()),
        ensures
            r == self@.relays.uses_proxy(facts@),
    {
        if self.active_aggregate_relay_profile().is_some() {
            return true;
        }
        let relay = self.active_relay_profile(facts);
        relay.protocol == RelayProtocol::ChatCompletions || relay.has_model_routes()
            || relay.uses_no_auth() || self.active_relay_session_provider(facts)
            == RelaySessionProvider::Openai
    }
}

} // verus!
