//! Settings brought into order before they are used or stored.
use vstd::prelude::*;

use super::backend::{
    AppSettings, AppSettingsView, BackendSettings, BackendSettingsView, LooksSettings,
    LooksSettingsView, RelaySettings, RelaySettingsView, StepwiseSettings, StepwiseSettingsView,
    WeixinSettings, WeixinSettingsView,
};
use super::defaults::{
    clamp_image_overlay_opacity, clamp_stepwise_max_input_chars, clamp_stepwise_max_items,
    clamp_stepwise_max_output_tokens, clamp_stepwise_timeout_ms, clamped,
    default_weixin_connect_base_url, dream_skin_theme, filled, fit_mode, normalize_codex_extra_args,
    normalize_dream_skin_theme, normalize_image_overlay_fit_mode, normalize_stepwise_protocol,
    normalize_weixin_connect_sandbox, stepwise_protocol, weixin_base_url, weixin_sandbox,
};
use super::skin::{DreamSkinThemeConfig, DreamSkinThemeConfigView};
use super::types::{
    aggregate_relay_member_views, aggregate_relay_profile_views, relay_profile_views,
    AggregateRelayMember, AggregateRelayMemberView, AggregateRelayProfile,
    AggregateRelayProfileView, RelayProfile, RelayProfileView,
};
use crate::text::{
    concat, ends_with, has_prefix, has_suffix, join, joined, lemma_trimmed_twice,
    lemma_trimmed_word, lines, lines_of, same_text,
    starts_with, texts, trim, trim_end_of, trimmed, trimmed_end_of,
};

verus! {

/// A configuration text without the space around it, and with a line feed at its end.
pub open spec fn config_text(s: Seq<char>) -> Seq<char> {
    if trimmed(s).len() == 0 {
        Seq::empty()
    } else {
        trimmed(s) + "\n"@
    }
}

pub fn normalize_text_config(contents: &str) -> (r: String)
    ensures
        r@ == config_text(contents@),
{
    let text = trim(contents);
    if text.is_empty() {
        let r = String::new();
        assert(r@ =~= Seq::empty());
        r
    } else {
        concat(text, "\n")
    }
}

/// A table that belongs to the context of a session.
pub open spec fn is_context_header(header: Seq<char>) -> bool {
    has_prefix(header, "[mcp_servers."@) || has_prefix(header, "[skills."@) || has_prefix(
        header,
        "[plugins."@,
    )
}

pub fn is_context_table_header(header: &str) -> (r: bool)
    ensures
        r == is_context_header(header@),
{
    starts_with(header, "[mcp_servers.") || starts_with(header, "[skills.") || starts_with(
        header,
        "[plugins.",
    )
}

pub open spec fn is_header(line: Seq<char>) -> bool {
    has_prefix(line, "["@) && has_suffix(line, "]"@)
}

/// Whether the line before the `n`th stands in a context table: the last header up to it says so.
pub open spec fn in_context(lines: Seq<Seq<char>>, n: int) -> bool
    decreases n,
{
    if n <= 0 {
        false
    } else if is_header(trimmed(lines[n - 1])) {
        is_context_header(trimmed(lines[n - 1]))
    } else {
        in_context(lines, n - 1)
    }
}

/// Of the first `n` lines those in context tables, or the others.
pub open spec fn section_lines(lines: Seq<Seq<char>>, n: int, context: bool) -> Seq<Seq<char>>
    decreases n,
{
    if n <= 0 {
        Seq::empty()
    } else {
        let before = section_lines(lines, n - 1, context);
        if in_context(lines, n) == context {
            before.push(lines[n - 1])
        } else {
            before
        }
    }
}

/// The context tables of a configuration, or the rest of it.
pub open spec fn config_section(config: Seq<char>, context: bool) -> Seq<char> {
    let lines = lines_of(config);
    config_text(joined(section_lines(lines, lines.len() as int, context), "\n"@))
}

/// Parts the context tables of a configuration from the rest.
pub fn split_context_config_sections(config: &str) -> (r: (String, String))
    ensures
        r.0@ == config_section(config@, false),
        r.1@ == config_section(config@, true),
{
    let list = lines(config);
    let ghost all = lines_of(config@);
    let mut common: Vec<String> = Vec::new();
    let mut context: Vec<String> = Vec::new();
    let mut inside = false;
    proof {
        assert(texts(common@) =~= section_lines(all, 0, false));
        assert(texts(context@) =~= section_lines(all, 0, true));
    }
    for i in 0..list.len()
        invariant
            all == texts(list@),
            inside == in_context(all, i as int),
            texts(common@) == section_lines(all, i as int, false),
            texts(context@) == section_lines(all, i as int, true),
    {
        assert(all[i as int] == list@[i as int]@);
        let line = trim(list[i].as_str());
        if starts_with(line, "[") && ends_with(line, "]") {
            inside = is_context_table_header(line);
        }
        if inside {
            let ghost before = texts(context@);
            context.push(list[i].clone());
            assert(texts(context@) =~= before.push(all[i as int]));
        } else {
            let ghost before = texts(common@);
            common.push(list[i].clone());
            assert(texts(common@) =~= before.push(all[i as int]));
        }
    }
    let common_text = join(&common, "\n");
    let context_text = join(&context, "\n");
    (normalize_text_config(common_text.as_str()), normalize_text_config(context_text.as_str()))
}

/// Sections of a configuration in one text, a blank line between them.
pub fn join_config_sections(sections: &Vec<String>) -> (r: String)
    ensures
        r@ == config_text(joined(filled(texts(sections@)), "\n\n"@)),
{
    let parts = normalize_codex_extra_args(sections.as_slice());
    let text = join(&parts, "\n\n");
    normalize_text_config(text.as_str())
}

/// The first place of a relay among members.
pub open spec fn member_place(
    members: Seq<AggregateRelayMemberView>,
    relay_id: Seq<char>,
    from: int,
) -> Option<int>
    decreases members.len() - from,
{
    if from >= members.len() {
        None
    } else if members[from].relay_id == relay_id {
        Some(from)
    } else {
        member_place(members, relay_id, from + 1)
    }
}

/// Members sorted out by the first `n` relays: those that found their place, and those left over.
pub open spec fn sorted_out(
    members: Seq<AggregateRelayMemberView>,
    relays: Seq<RelayProfileView>,
    n: int,
) -> (Seq<AggregateRelayMemberView>, Seq<AggregateRelayMemberView>)
    decreases n,
{
    if n <= 0 {
        (Seq::empty(), members)
    } else {
        let (placed, left) = sorted_out(members, relays, n - 1);
        match member_place(left, relays[n - 1].id, 0) {
            Some(i) => (placed.push(left[i]), left.remove(i)),
            None => (placed, left),
        }
    }
}

/// The members of an aggregate in the order of the relays, those without a relay last.
pub open spec fn ordered_members(
    members: Seq<AggregateRelayMemberView>,
    relays: Seq<RelayProfileView>,
) -> Seq<AggregateRelayMemberView> {
    let (placed, left) = sorted_out(members, relays, relays.len() as int);
    placed + left
}

pub open spec fn with_ordered_members(
    aggregate: AggregateRelayProfileView,
    relays: Seq<RelayProfileView>,
) -> AggregateRelayProfileView {
    AggregateRelayProfileView { members: ordered_members(aggregate.members, relays), ..aggregate }
}

pub open spec fn all_ordered(
    aggregates: Seq<AggregateRelayProfileView>,
    relays: Seq<RelayProfileView>,
) -> Seq<AggregateRelayProfileView> {
    Seq::new(aggregates.len(), |i: int| with_ordered_members(aggregates[i], relays))
}

fn find_member(members: &Vec<AggregateRelayMember>, relay_id: &str) -> (r: Option<usize>)
    ensures
        match r {
            Some(i) => member_place(aggregate_relay_member_views(members@), relay_id@, 0) == Some(
                i as int,
            ) && i < members@.len(),
            None => member_place(aggregate_relay_member_views(members@), relay_id@, 0) is None,
        },
{
    let ghost views = aggregate_relay_member_views(members@);
    for i in 0..members.len()
        invariant
            views == aggregate_relay_member_views(members@),
            member_place(views, relay_id@, 0) == member_place(views, relay_id@, i as int),
    {
        assert(views[i as int] == members@[i as int]@);
        if same_text(members[i].relay_id.as_str(), relay_id) {
            return Some(i);
        }
    }
    None
}

fn order_members(members: &Vec<AggregateRelayMember>, relays: &Vec<RelayProfile>) -> (r: Vec<
    AggregateRelayMember,
>)
    ensures
        aggregate_relay_member_views(r@) == ordered_members(
            aggregate_relay_member_views(members@),
            relay_profile_views(relays@),
        ),
{
    let ghost all = aggregate_relay_member_views(members@);
    let ghost views = relay_profile_views(relays@);
    let mut left = super::types::copy_aggregate_relay_members(members);
    let mut placed: Vec<AggregateRelayMember> = Vec::new();
    assert(aggregate_relay_member_views(placed@) =~= Seq::empty());
    for n in 0..relays.len()
        invariant
            views == relay_profile_views(relays@),
            sorted_out(all, views, n as int) == (
                aggregate_relay_member_views(placed@),
                aggregate_relay_member_views(left@),
            ),
    {
        assert(views[n as int] == relays@[n as int]@);
        if let Some(i) = find_member(&left, relays[n].id.as_str()) {
            let ghost placed_before = aggregate_relay_member_views(placed@);
            let ghost left_before = aggregate_relay_member_views(left@);
            let member = left.remove(i);
            placed.push(member);
            proof {
                assert(aggregate_relay_member_views(placed@) =~= placed_before.push(
                    left_before[i as int],
                ));
                assert(aggregate_relay_member_views(left@) =~= left_before.remove(i as int));
            }
        }
    }
    let ghost first = aggregate_relay_member_views(placed@);
    let ghost second = aggregate_relay_member_views(left@);
    placed.append(&mut left);
    assert(aggregate_relay_member_views(placed@) =~= first + second);
    placed
}

/// The aggregates with their members in the order of the relays.
pub fn normalize_aggregate_member_order(
    aggregates: &Vec<AggregateRelayProfile>,
    relays: &Vec<RelayProfile>,
) -> (r: Vec<AggregateRelayProfile>)
    ensures
        aggregate_relay_profile_views(r@) == all_ordered(
            aggregate_relay_profile_views(aggregates@),
            relay_profile_views(relays@),
        ),
{
    let mut r: Vec<AggregateRelayProfile> = Vec::new();
    for i in 0..aggregates.len()
        invariant
            r@.len() == i,
            forall|j: int|
                0 <= j < i ==> (#[trigger] r@[j])@ == with_ordered_members(
                    aggregates@[j]@,
                    relay_profile_views(relays@),
                ),
    {
        let members = order_members(&aggregates[i].members, relays);
        let aggregate = aggregates[i].copy();
        let ghost before = aggregate@;
        let ordered = AggregateRelayProfile { members, ..aggregate };
        assert(ordered@ == with_ordered_members(before, relay_profile_views(relays@)));
        r.push(ordered);
    }
    assert(aggregate_relay_profile_views(r@) =~= all_ordered(
        aggregate_relay_profile_views(aggregates@),
        relay_profile_views(relays@),
    ));
    r
}

/// Members that were sorted out neither come nor go.
proof fn lemma_sorting_keeps_the_members(
    members: Seq<AggregateRelayMemberView>,
    relays: Seq<RelayProfileView>,
    n: int,
)
    requires
        n <= relays.len(),
    ensures
        ({
            let (placed, left) = sorted_out(members, relays, n);
            (placed + left).to_multiset() == members.to_multiset()
        }),
    decreases n,
{
    if n <= 0 {
        assert(Seq::<AggregateRelayMemberView>::empty() + members =~= members);
    } else {
        lemma_sorting_keeps_the_members(members, relays, n - 1);
        let (placed, left) = sorted_out(members, relays, n - 1);
        lemma_place_of_member(left, relays[n - 1].id, 0);
        if let Some(i) = member_place(left, relays[n - 1].id, 0) {
            broadcast use vstd::seq_lib::group_to_multiset_ensures;

            vstd::seq_lib::lemma_multiset_commutative(placed, left);
            vstd::seq_lib::lemma_multiset_commutative(placed.push(left[i]), left.remove(i));
            assert(placed.push(left[i]).to_multiset() =~= placed.to_multiset().insert(left[i]));
            assert(left.remove(i).to_multiset() =~= left.to_multiset().remove(left[i]));
            assert(left.to_multiset().contains(left[i])) by {
                assert(left.contains(left[i]));
            }
            assert((placed.push(left[i]) + left.remove(i)).to_multiset() =~= (placed
                + left).to_multiset());
        }
    }
}

/// Putting members into order neither adds nor drops one.
pub proof fn ordering_keeps_the_members(
    members: Seq<AggregateRelayMemberView>,
    relays: Seq<RelayProfileView>,
)
    ensures
        ordered_members(members, relays).to_multiset() == members.to_multiset(),
{
    lemma_sorting_keeps_the_members(members, relays, relays.len() as int);
}

pub(super) proof fn lemma_place_of_member(
    members: Seq<AggregateRelayMemberView>,
    relay_id: Seq<char>,
    from: int,
)
    requires
        0 <= from,
    ensures
        match member_place(members, relay_id, from) {
            Some(i) => from <= i < members.len() && members[i].relay_id == relay_id,
            None => forall|i: int|
                from <= i < members.len() ==> (#[trigger] members[i]).relay_id != relay_id,
        },
    decreases members.len() - from,
{
    if from < members.len() && members[from].relay_id != relay_id {
        lemma_place_of_member(members, relay_id, from + 1);
    }
}

pub(super) proof fn lemma_first_place(
    members: Seq<AggregateRelayMemberView>,
    relay_id: Seq<char>,
    from: int,
    i: int,
)
    requires
        0 <= from <= i < members.len(),
        members[i].relay_id == relay_id,
        forall|j: int| from <= j < i ==> (#[trigger] members[j]).relay_id != relay_id,
    ensures
        member_place(members, relay_id, from) == Some(i),
    decreases i - from,
{
    if from < i {
        assert(members[from].relay_id != relay_id);
        lemma_first_place(members, relay_id, from + 1, i);
    }
}

/// What is placed stays placed, and what is placed later was left over before.
pub(super) proof fn lemma_sorted_out_later(
    members: Seq<AggregateRelayMemberView>,
    relays: Seq<RelayProfileView>,
    n: int,
    k: int,
)
    requires
        0 <= n <= k <= relays.len(),
    ensures
        ({
            let (placed, left) = sorted_out(members, relays, n);
            let (placed_later, left_later) = sorted_out(members, relays, k);
            &&& placed.len() <= placed_later.len()
            &&& placed_later.take(placed.len() as int) == placed
            &&& forall|i: int|
                placed.len() <= i < placed_later.len() ==> left.contains(
                    #[trigger] placed_later[i],
                )
            &&& forall|i: int|
                0 <= i < left_later.len() ==> left.contains(#[trigger] left_later[i])
        }),
    decreases k - n,
{
    let (placed, left) = sorted_out(members, relays, n);
    if k == n {
        assert(placed.take(placed.len() as int) =~= placed);
    } else {
        lemma_sorted_out_later(members, relays, n, k - 1);
        let (placed_before, left_before) = sorted_out(members, relays, k - 1);
        let (placed_later, left_later) = sorted_out(members, relays, k);
        lemma_place_of_member(left_before, relays[k - 1].id, 0);
        if let Some(p) = member_place(left_before, relays[k - 1].id, 0) {
            assert(placed_later.take(placed.len() as int) =~= placed_before.take(
                placed.len() as int,
            ));
            assert forall|i: int| placed.len() <= i < placed_later.len() implies left.contains(
                #[trigger] placed_later[i],
            ) by {
                if i < placed_before.len() {
                    assert(placed_later[i] == placed_before[i]);
                } else {
                    assert(placed_later[i] == left_before[p]);
                }
            }
            assert forall|i: int| 0 <= i < left_later.len() implies left.contains(
                #[trigger] left_later[i],
            ) by {
                if i < p {
                    assert(left_later[i] == left_before[i]);
                } else {
                    assert(left_later[i] == left_before[i + 1]);
                }
            }
        }
    }
}

proof fn lemma_ordered_sort_out(
    members: Seq<AggregateRelayMemberView>,
    relays: Seq<RelayProfileView>,
    n: int,
)
    requires
        0 <= n <= relays.len(),
    ensures
        ({
            let placed = sorted_out(members, relays, n).0;
            let ordered = ordered_members(members, relays);
            sorted_out(ordered, relays, n) == (placed, ordered.skip(placed.len() as int))
        }),
    decreases n,
{
    let ordered = ordered_members(members, relays);
    if n == 0 {
        assert(ordered.skip(0) =~= ordered);
    } else {
        lemma_ordered_sort_out(members, relays, n - 1);
        lemma_sorted_out_later(members, relays, n - 1, relays.len() as int);
        lemma_sorted_out_later(members, relays, n, relays.len() as int);
        let id = relays[n - 1].id;
        let (placed, left) = sorted_out(members, relays, n - 1);
        let now = sorted_out(members, relays, n).0;
        let (all_placed, all_left) = sorted_out(members, relays, relays.len() as int);
        let rest = ordered.skip(placed.len() as int);
        lemma_place_of_member(left, id, 0);
        lemma_place_of_member(rest, id, 0);
        match member_place(left, id, 0) {
            Some(p) => {
                assert(all_placed.take(now.len() as int)[placed.len() as int] == left[p]);
                assert(rest[0] == left[p]);
                assert(member_place(rest, id, 0) == Some(0int));
                assert(rest.remove(0) =~= ordered.skip(now.len() as int));
            },
            None => {
                assert forall|i: int| 0 <= i < rest.len() implies (#[trigger] rest[i]).relay_id
                    != id by {
                    let at = i + placed.len();
                    if at < all_placed.len() {
                        assert(rest[i] == all_placed[at]);
                    } else {
                        assert(rest[i] == all_left[at - all_placed.len()]);
                    }
                    assert(left.contains(rest[i]));
                }
                assert(member_place(rest, id, 0) is None);
            },
        }
    }
}

/// Members in order stay as they are.
pub proof fn ordered_members_stay(
    members: Seq<AggregateRelayMemberView>,
    relays: Seq<RelayProfileView>,
)
    ensures
        ordered_members(ordered_members(members, relays), relays) == ordered_members(
            members,
            relays,
        ),
{
    let ordered = ordered_members(members, relays);
    let (placed, left) = sorted_out(members, relays, relays.len() as int);
    lemma_ordered_sort_out(members, relays, relays.len() as int);
    assert(placed + ordered.skip(placed.len() as int) =~= ordered);
}

/// An address without the space around it and the slashes at its end.
pub open spec fn plain_url(s: Seq<char>) -> Seq<char> {
    trimmed_end_of(trimmed(s), '/')
}

pub fn normalize_url(text: &str) -> (r: String)
    ensures
        r@ == plain_url(text@),
{
    trim_end_of(trim(text), '/').to_owned()
}

/// A text without the space around it, or another one where nothing is left.
pub open spec fn filled_or(s: Seq<char>, other: Seq<char>) -> Seq<char> {
    if trimmed(s).len() == 0 {
        other
    } else {
        trimmed(s)
    }
}

impl RelaySettingsView {
    /// The context tables of the settings: the stored ones, and those among the common ones.
    pub open spec fn context_tables(self) -> Seq<char> {
        config_text(
            joined(
                filled(
                    seq![
                        self.relay_context_config_contents,
                        config_section(self.relay_common_config_contents, true),
                    ],
                ),
                "\n\n"@,
            ),
        )
    }

    /// The relays in order, given the configuration texts and the relays themselves in order.
    pub open spec fn in_order(
        self,
        common: Seq<char>,
        context: Seq<char>,
        relays: Seq<RelayProfileView>,
    ) -> RelaySettingsView {
        RelaySettingsView {
            relay_common_config_contents: common,
            relay_context_config_contents: context,
            relay_profiles: relays,
            aggregate_relay_profiles: all_ordered(self.aggregate_relay_profiles, relays),
            ..self
        }
    }
}

impl LooksSettingsView {
    /// A skin that was never configured takes its id from the theme, unless that is the default.
    pub open spec fn skin_for_theme(self, windows: bool) -> DreamSkinThemeConfigView {
        let theme = dream_skin_theme(self.codex_app_dream_skin_theme);
        if self.codex_app_dream_skin_theme_config == DreamSkinThemeConfigView::for_system(windows)
            && theme != "pink"@ {
            DreamSkinThemeConfigView { id: theme, ..self.codex_app_dream_skin_theme_config }
        } else {
            self.codex_app_dream_skin_theme_config
        }
    }

    pub open spec fn in_order(self, windows: bool) -> LooksSettingsView {
        LooksSettingsView {
            codex_app_image_overlay_opacity: clamped(
                self.codex_app_image_overlay_opacity as int,
                1,
                100,
            ) as u8,
            codex_app_image_overlay_fit_mode: fit_mode(self.codex_app_image_overlay_fit_mode),
            codex_app_dream_skin_theme: dream_skin_theme(self.codex_app_dream_skin_theme),
            codex_app_dream_skin_theme_config: self.skin_for_theme(windows),
            codex_app_dream_skin_image_path: trimmed(self.codex_app_dream_skin_image_path),
            ..self
        }
    }
}

impl StepwiseSettingsView {
    pub open spec fn in_order(self) -> StepwiseSettingsView {
        StepwiseSettingsView {
            codex_app_stepwise_base_url: plain_url(self.codex_app_stepwise_base_url),
            codex_app_stepwise_api_key: trimmed(self.codex_app_stepwise_api_key),
            codex_app_stepwise_api_key_env: filled_or(
                self.codex_app_stepwise_api_key_env,
                "CODEX_STEPWISE_API_KEY"@,
            ),
            codex_app_stepwise_protocol: stepwise_protocol(self.codex_app_stepwise_protocol),
            codex_app_stepwise_model: trimmed(self.codex_app_stepwise_model),
            codex_app_stepwise_max_items: clamped(
                self.codex_app_stepwise_max_items as int,
                0,
                6,
            ) as u8,
            codex_app_stepwise_max_input_chars: clamped(
                self.codex_app_stepwise_max_input_chars as int,
                1000,
                24000,
            ) as u32,
            codex_app_stepwise_max_output_tokens: clamped(
                self.codex_app_stepwise_max_output_tokens as int,
                100,
                4000,
            ) as u32,
            codex_app_stepwise_timeout_ms: clamped(
                self.codex_app_stepwise_timeout_ms as int,
                1000,
                60000,
            ) as u64,
            ..self
        }
    }
}

impl WeixinSettingsView {
    pub open spec fn in_order(self) -> WeixinSettingsView {
        WeixinSettingsView {
            weixin_connect_base_url: if plain_url(self.weixin_connect_base_url).len() == 0 {
                weixin_base_url()
            } else {
                plain_url(self.weixin_connect_base_url)
            },
            weixin_connect_token: trimmed(self.weixin_connect_token),
            weixin_connect_account_id: trimmed(self.weixin_connect_account_id),
            weixin_connect_allow_from: trimmed(self.weixin_connect_allow_from),
            weixin_connect_route_tag: trimmed(self.weixin_connect_route_tag),
            weixin_connect_work_dir: trimmed(self.weixin_connect_work_dir),
            weixin_connect_model: trimmed(self.weixin_connect_model),
            weixin_connect_sandbox: weixin_sandbox(self.weixin_connect_sandbox),
            weixin_connect_codex_path: trimmed(self.weixin_connect_codex_path),
            ..self
        }
    }
}

impl BackendSettingsView {
    /// The settings in order, given their two configuration texts and their relays in order.
    pub open spec fn in_order(
        self,
        common: Seq<char>,
        context: Seq<char>,
        relays: Seq<RelayProfileView>,
        windows: bool,
    ) -> BackendSettingsView {
        BackendSettingsView {
            app: AppSettingsView { ccs_db_path: trimmed(self.app.ccs_db_path), ..self.app },
            stepwise: self.stepwise.in_order(),
            looks: self.looks.in_order(windows),
            weixin: self.weixin.in_order(),
            relays: self.relays.in_order(common, context, relays),
        }
    }
}

/// The two configuration texts of the settings, parted: the common one, and the context tables.
pub fn config_texts(settings: &BackendSettings) -> (r: (String, String))
    ensures
        r.0@ == config_section(settings@.relays.relay_common_config_contents, false),
        r.1@ == settings@.relays.context_tables(),
{
    let (common, extracted) = split_context_config_sections(
        settings.relays.relay_common_config_contents.as_str(),
    );
    let sections: Vec<String> = vec![settings.relays.relay_context_config_contents.clone(), extracted];
    assert(texts(sections@) =~= seq![
        settings@.relays.relay_context_config_contents,
        config_section(settings@.relays.relay_common_config_contents, true),
    ]);
    (common, join_config_sections(&sections))
}

fn trimmed_text(text: &str) -> (r: String)
    ensures
        r@ == trimmed(text@),
{
    trim(text).to_owned()
}

pub fn filled_text_or(text: &str, other: &str) -> (r: String)
    ensures
        r@ == filled_or(text@, other@),
{
    let text = trim(text);
    if text.is_empty() {
        other.to_owned()
    } else {
        text.to_owned()
    }
}

fn order_skin(looks: &LooksSettings, windows: bool) -> (r: DreamSkinThemeConfig)
    ensures
        r@ == looks@.skin_for_theme(windows),
{
    let theme = normalize_dream_skin_theme(looks.codex_app_dream_skin_theme.as_str());
    let config = looks.codex_app_dream_skin_theme_config.copy();
    if config.same(&DreamSkinThemeConfig::for_system(windows)) && !same_text(theme.as_str(), "pink") {
        let ghost before = config@;
        let renamed = DreamSkinThemeConfig { id: theme, ..config };
        assert(renamed@ == DreamSkinThemeConfigView { id: theme@, ..before });
        renamed
    } else {
        config
    }
}

fn order_relays(
    settings: RelaySettings,
    common: String,
    context: String,
    relays: Vec<RelayProfile>,
) -> (r: RelaySettings)
    ensures
        r@ == settings@.in_order(common@, context@, relay_profile_views(relays@)),
{
    let aggregates = normalize_aggregate_member_order(&settings.aggregate_relay_profiles, &relays);
    RelaySettings {
        relay_common_config_contents: common,
        relay_context_config_contents: context,
        relay_profiles: relays,
        aggregate_relay_profiles: aggregates,
        ..settings
    }
}

fn order_looks(looks: LooksSettings, windows: bool) -> (r: LooksSettings)
    ensures
        r@ == looks@.in_order(windows),
{
    let skin = order_skin(&looks, windows);
    let fit = normalize_image_overlay_fit_mode(looks.codex_app_image_overlay_fit_mode.as_str());
    let theme = normalize_dream_skin_theme(looks.codex_app_dream_skin_theme.as_str());
    let image_path = trimmed_text(looks.codex_app_dream_skin_image_path.as_str());
    LooksSettings {
        codex_app_image_overlay_opacity: clamp_image_overlay_opacity(
            looks.codex_app_image_overlay_opacity,
        ),
        codex_app_image_overlay_fit_mode: fit,
        codex_app_dream_skin_theme: theme,
        codex_app_dream_skin_theme_config: skin,
        codex_app_dream_skin_image_path: image_path,
        ..looks
    }
}

fn order_stepwise(stepwise: StepwiseSettings) -> (r: StepwiseSettings)
    ensures
        r@ == stepwise@.in_order(),
{
    let base_url = normalize_url(stepwise.codex_app_stepwise_base_url.as_str());
    let key = trimmed_text(stepwise.codex_app_stepwise_api_key.as_str());
    let key_env = filled_text_or(
        stepwise.codex_app_stepwise_api_key_env.as_str(),
        "CODEX_STEPWISE_API_KEY",
    );
    let protocol = normalize_stepwise_protocol(stepwise.codex_app_stepwise_protocol.as_str());
    let model = trimmed_text(stepwise.codex_app_stepwise_model.as_str());
    StepwiseSettings {
        codex_app_stepwise_base_url: base_url,
        codex_app_stepwise_api_key: key,
        codex_app_stepwise_api_key_env: key_env,
        codex_app_stepwise_protocol: protocol,
        codex_app_stepwise_model: model,
        codex_app_stepwise_max_items: clamp_stepwise_max_items(
            stepwise.codex_app_stepwise_max_items,
        ),
        codex_app_stepwise_max_input_chars: clamp_stepwise_max_input_chars(
            stepwise.codex_app_stepwise_max_input_chars,
        ),
        codex_app_stepwise_max_output_tokens: clamp_stepwise_max_output_tokens(
            stepwise.codex_app_stepwise_max_output_tokens,
        ),
        codex_app_stepwise_timeout_ms: clamp_stepwise_timeout_ms(
            stepwise.codex_app_stepwise_timeout_ms,
        ),
        ..stepwise
    }
}

fn order_weixin(weixin: WeixinSettings) -> (r: WeixinSettings)
    ensures
        r@ == weixin@.in_order(),
{
    let given_url = normalize_url(weixin.weixin_connect_base_url.as_str());
    let base_url = if given_url.as_str().is_empty() {
        default_weixin_connect_base_url()
    } else {
        given_url
    };
    let token = trimmed_text(weixin.weixin_connect_token.as_str());
    let account_id = trimmed_text(weixin.weixin_connect_account_id.as_str());
    let allow_from = trimmed_text(weixin.weixin_connect_allow_from.as_str());
    let route_tag = trimmed_text(weixin.weixin_connect_route_tag.as_str());
    let work_dir = trimmed_text(weixin.weixin_connect_work_dir.as_str());
    let model = trimmed_text(weixin.weixin_connect_model.as_str());
    let sandbox = normalize_weixin_connect_sandbox(weixin.weixin_connect_sandbox.as_str());
    let codex_path = trimmed_text(weixin.weixin_connect_codex_path.as_str());
    WeixinSettings {
        weixin_connect_base_url: base_url,
        weixin_connect_token: token,
        weixin_connect_account_id: account_id,
        weixin_connect_allow_from: allow_from,
        weixin_connect_route_tag: route_tag,
        weixin_connect_work_dir: work_dir,
        weixin_connect_model: model,
        weixin_connect_sandbox: sandbox,
        weixin_connect_codex_path: codex_path,
        ..weixin
    }
}

fn order_app(app: AppSettings) -> (r: AppSettings)
    ensures
        r@ == (AppSettingsView { ccs_db_path: trimmed(app@.ccs_db_path), ..app@ }),
{
    let ccs_db_path = trimmed_text(app.ccs_db_path.as_str());
    AppSettings { ccs_db_path, ..app }
}

/// Brings settings into order. The configuration texts and the relays come in order already: the
/// texts are those of `config_texts`, as the configuration's own rules have them. What a fresh skin
/// is depends on the system.
pub fn normalize_settings_config_sections(
    settings: BackendSettings,
    common: String,
    context: String,
    relays: Vec<RelayProfile>,
    windows: bool,
) -> (r: BackendSettings)
    ensures
        r@ == settings@.in_order(common@, context@, relay_profile_views(relays@), windows),
{
    BackendSettings {
        app: order_app(settings.app),
        stepwise: order_stepwise(settings.stepwise),
        looks: order_looks(settings.looks, windows),
        weixin: order_weixin(settings.weixin),
        relays: order_relays(settings.relays, common, context, relays),
    }
}

/// An address that is cut stays as it is, where cutting its slashes left no space at its end.
proof fn lemma_plain_url_stays(s: Seq<char>)
    requires
        trimmed(plain_url(s)) == plain_url(s),
    ensures
        plain_url(plain_url(s)) == plain_url(s),
{
    lemma_end_is_cut(trimmed(s), '/');
}

proof fn lemma_end_is_cut(s: Seq<char>, c: char)
    ensures
        trimmed_end_of(trimmed_end_of(s, c), c) == trimmed_end_of(s, c),
    decreases s.len(),
{
    if s.len() > 0 && s.last() == c {
        lemma_end_is_cut(s.drop_last(), c);
    }
}

/// Settings of the stepwise assistant that are in order stay as they are, where cutting the slashes
/// off the address left no space at its end.
pub proof fn ordered_stepwise_settings_stay(stepwise: StepwiseSettingsView)
    requires
        trimmed(plain_url(stepwise.codex_app_stepwise_base_url)) == plain_url(
            stepwise.codex_app_stepwise_base_url,
        ),
    ensures
        stepwise.in_order().in_order() == stepwise.in_order(),
{
    lemma_plain_url_stays(stepwise.codex_app_stepwise_base_url);
    lemma_trimmed_twice(stepwise.codex_app_stepwise_api_key);
    lemma_trimmed_twice(stepwise.codex_app_stepwise_api_key_env);
    lemma_trimmed_twice(stepwise.codex_app_stepwise_protocol);
    lemma_trimmed_twice(stepwise.codex_app_stepwise_model);
    reveal_strlit("CODEX_STEPWISE_API_KEY");
    lemma_trimmed_word("CODEX_STEPWISE_API_KEY"@);
    reveal_strlit("chat_completions");
    lemma_trimmed_word("chat_completions"@);
}

/// Settings of the looks that are in order stay as they are.
pub proof fn ordered_looks_stay(looks: LooksSettingsView, windows: bool)
    ensures
        looks.in_order(windows).in_order(windows) == looks.in_order(windows),
{
    lemma_trimmed_twice(looks.codex_app_dream_skin_theme);
    lemma_trimmed_twice(looks.codex_app_dream_skin_image_path);
    reveal_strlit("pink");
    lemma_trimmed_word("pink"@);
}

/// Settings of the WeChat connection that are in order stay as they are, where cutting the slashes
/// off the address left no space at its end.
pub proof fn ordered_weixin_settings_stay(weixin: WeixinSettingsView)
    requires
        trimmed(plain_url(weixin.weixin_connect_base_url)) == plain_url(
            weixin.weixin_connect_base_url,
        ),
    ensures
        weixin.in_order().in_order() == weixin.in_order(),
{
    lemma_plain_url_stays(weixin.weixin_connect_base_url);
    reveal_strlit("https://ilinkai.weixin.qq.com");
    lemma_trimmed_word(weixin_base_url());
    assert(plain_url(weixin_base_url()) == weixin_base_url());
    lemma_trimmed_twice(weixin.weixin_connect_token);
    lemma_trimmed_twice(weixin.weixin_connect_account_id);
    lemma_trimmed_twice(weixin.weixin_connect_allow_from);
    lemma_trimmed_twice(weixin.weixin_connect_route_tag);
    lemma_trimmed_twice(weixin.weixin_connect_work_dir);
    lemma_trimmed_twice(weixin.weixin_connect_model);
    lemma_trimmed_twice(weixin.weixin_connect_sandbox);
    lemma_trimmed_twice(weixin.weixin_connect_codex_path);
    reveal_strlit("read-only");
    lemma_trimmed_word("read-only"@);
}

} // verus!
