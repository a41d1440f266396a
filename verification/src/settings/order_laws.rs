//! What settings are after they were brought into order.
use vstd::prelude::*;

use super::backend::{LooksSettingsView, RelaySettingsView, StepwiseSettingsView, WeixinSettingsView};
use super::defaults::{dream_skin_theme, fit_mode, stepwise_protocol, style_preset, weixin_sandbox};
use super::normalize::{
    lemma_place_of_member, config_section, in_context, is_context_header, is_header, member_place,
    ordered_members, plain_url, section_lines, sorted_out,
};
use super::skin::DreamSkinThemeConfigView;
use super::tokens::{
    config_token, earlier_token, has_place_for_token, missing_token, provider_id, session_provider,
    token_of, transport_provider, with_token,
};
use super::types::{AggregateRelayMemberView, RelayMode, RelayProfileView};
use crate::text::{has_prefix, joined, lines_of, trimmed};
use crate::toml::{inner_item, item_at, root_text, table_text, TomlView};

verus! {

/// Between two bounds: a number that lies there stays, one below is raised, one above is lowered.
pub open spec fn is_between(after: int, before: int, low: int, high: int) -> bool {
    &&& low <= after <= high
    &&& low <= before <= high ==> after == before
    &&& before < low ==> after == low
    &&& before > high ==> after == high
}

/// The numbers of the stepwise assistant lie between their bounds, its texts are trimmed, its
/// protocol is a known one, and its switches stay.
pub proof fn stepwise_settings_are_ordered(before: StepwiseSettingsView)
    ensures
        ({
            let after = before.in_order();
            &&& is_between(
                after.codex_app_stepwise_max_items as int,
                before.codex_app_stepwise_max_items as int,
                0,
                6,
            )
            &&& is_between(
                after.codex_app_stepwise_max_input_chars as int,
                before.codex_app_stepwise_max_input_chars as int,
                1000,
                24000,
            )
            &&& is_between(
                after.codex_app_stepwise_max_output_tokens as int,
                before.codex_app_stepwise_max_output_tokens as int,
                100,
                4000,
            )
            &&& is_between(
                after.codex_app_stepwise_timeout_ms as int,
                before.codex_app_stepwise_timeout_ms as int,
                1000,
                60000,
            )
            &&& after.codex_app_stepwise_api_key == trimmed(before.codex_app_stepwise_api_key)
            &&& after.codex_app_stepwise_model == trimmed(before.codex_app_stepwise_model)
            &&& trimmed(before.codex_app_stepwise_api_key_env).len() > 0
                ==> after.codex_app_stepwise_api_key_env == trimmed(
                before.codex_app_stepwise_api_key_env,
            )
            &&& trimmed(before.codex_app_stepwise_api_key_env).len() == 0
                ==> after.codex_app_stepwise_api_key_env == "CODEX_STEPWISE_API_KEY"@
            &&& after.codex_app_stepwise_protocol == stepwise_protocol(
                before.codex_app_stepwise_protocol,
            )
            &&& after.codex_app_stepwise_base_url == plain_url(before.codex_app_stepwise_base_url)
            &&& after.codex_app_stepwise_enabled == before.codex_app_stepwise_enabled
            &&& after.codex_app_stepwise_direct_send == before.codex_app_stepwise_direct_send
        }),
{
}

/// Known words stay, trimmed where they may be, and others give way to the default.
pub proof fn words_are_known_ones(s: Seq<char>)
    ensures
        ({
            let t = trimmed(s);
            let protocol = t == "chat_completions"@ || t == "responses"@ || t
                == "anthropic_messages"@ || t == "auto"@;
            let fits = s == "fill"@ || s == "fit"@ || s == "stretch"@ || s == "tile"@ || s
                == "center"@;
            let theme = t == "pink"@ || t == "luckyGod"@ || t == "redWhite"@ || t == "clearGlass"@
                || t == "inspiration"@ || t == "purpleNight"@ || t == "miku"@ || t == "blackGold"@;
            let sandbox = t == "workspace-write"@ || t == "danger-full-access"@;
            &&& protocol ==> stepwise_protocol(s) == t
            &&& !protocol ==> stepwise_protocol(s) == "chat_completions"@
            &&& fits ==> fit_mode(s) == s
            &&& !fits ==> fit_mode(s) == "fit"@
            &&& theme ==> dream_skin_theme(s) == t
            &&& !theme ==> dream_skin_theme(s) == "pink"@
            &&& sandbox ==> weixin_sandbox(s) == t
            &&& !sandbox ==> weixin_sandbox(s) == "read-only"@
        }),
{
}

/// A theme with a layout of its own, other than the original one, keeps it; else the layout goes
/// with the theme's id.
pub proof fn layouts_go_with_themes(id: Seq<char>, named: Seq<char>)
    ensures
        ({
            let own = trimmed(named);
            let t = trimmed(id);
            let r = style_preset(id, named);
            &&& own.len() > 0 && own != "dream-original"@ ==> r == own
            &&& own.len() == 0 || own == "dream-original"@ ==> {
                &&& t == "caishen-lite"@ || t == "caishen-max"@ || t == "caishen-readable"@ || t
                    == "export-night"@ || t == "global-founder-bright"@ || t
                    == "mythic-guardian-noir"@ || t == "glass-vision"@ ==> r == t
                &&& t == "codex-snow-skin"@ ==> r == "codex-snow"@
                &&& t == "preset-midnight-aurora"@ ==> r == "midnight-aurora"@
                &&& t == "preset-amber-dusk"@ ==> r == "amber-dusk"@
                &&& t == "preset-forest-mist"@ ==> r == "forest-mist"@
                &&& t == "preset-cyber-neon"@ ==> r == "cyber-neon"@
                &&& t == "preset-sakura-dawn"@ ==> r == "sakura-dawn"@
                &&& r == t || r == "codex-snow"@ || r == "midnight-aurora"@ || r == "amber-dusk"@
                    || r == "forest-mist"@ || r == "cyber-neon"@ || r == "sakura-dawn"@ || r
                    == "dream-original"@
            }
        }),
{
    reveal_strlit("caishen-lite");
    reveal_strlit("caishen-max");
    reveal_strlit("caishen-readable");
    reveal_strlit("export-night");
    reveal_strlit("global-founder-bright");
    reveal_strlit("mythic-guardian-noir");
    reveal_strlit("glass-vision");
    reveal_strlit("codex-snow-skin");
    reveal_strlit("preset-midnight-aurora");
    reveal_strlit("preset-amber-dusk");
    reveal_strlit("preset-forest-mist");
    reveal_strlit("preset-cyber-neon");
    reveal_strlit("preset-sakura-dawn");
    assert("caishen-lite"@.len() == 12 && "caishen-lite"@[0] == 'c');
    assert("caishen-max"@.len() == 11);
    assert("caishen-readable"@.len() == 16);
    assert("export-night"@.len() == 12 && "export-night"@[0] == 'e');
    assert("global-founder-bright"@.len() == 21);
    assert("mythic-guardian-noir"@.len() == 20);
    assert("glass-vision"@.len() == 12 && "glass-vision"@[0] == 'g');
    assert("codex-snow-skin"@.len() == 15);
    assert("preset-midnight-aurora"@.len() == 22);
    assert("preset-amber-dusk"@.len() == 17 && "preset-amber-dusk"@[7] == 'a');
    assert("preset-forest-mist"@.len() == 18 && "preset-forest-mist"@[7] == 'f');
    assert("preset-cyber-neon"@.len() == 17 && "preset-cyber-neon"@[7] == 'c');
    assert("preset-sakura-dawn"@.len() == 18 && "preset-sakura-dawn"@[7] == 's');
}

/// The looks have an opacity between one and a hundred, a known fit and theme, and a trimmed path. A
/// skin that was never configured takes the theme's name, unless that is the default one; any other
/// skin stays.
pub proof fn looks_are_ordered(before: LooksSettingsView, windows: bool)
    ensures
        ({
            let after = before.in_order(windows);
            let skin = before.codex_app_dream_skin_theme_config;
            let fresh = skin == DreamSkinThemeConfigView::for_system(windows);
            let theme = dream_skin_theme(before.codex_app_dream_skin_theme);
            &&& is_between(
                after.codex_app_image_overlay_opacity as int,
                before.codex_app_image_overlay_opacity as int,
                1,
                100,
            )
            &&& after.codex_app_image_overlay_fit_mode == fit_mode(
                before.codex_app_image_overlay_fit_mode,
            )
            &&& after.codex_app_dream_skin_theme == theme
            &&& after.codex_app_dream_skin_image_path == trimmed(
                before.codex_app_dream_skin_image_path,
            )
            &&& !fresh || theme == "pink"@ ==> after.codex_app_dream_skin_theme_config == skin
            &&& fresh && theme != "pink"@ ==> after.codex_app_dream_skin_theme_config == (
            DreamSkinThemeConfigView { id: theme, ..skin })
            &&& after.codex_app_image_overlay_enabled == before.codex_app_image_overlay_enabled
                && after.codex_app_image_overlay_path == before.codex_app_image_overlay_path
                && after.codex_app_dream_skin_enabled == before.codex_app_dream_skin_enabled
                && after.codex_app_dream_skin_paused == before.codex_app_dream_skin_paused
        }),
{
}

/// The texts of the WeChat connection are trimmed, its address loses its slashes or gives way to the
/// default one, its sandbox is a known one, and its switch stays.
pub proof fn weixin_settings_are_ordered(before: WeixinSettingsView)
    ensures
        ({
            let after = before.in_order();
            let url = plain_url(before.weixin_connect_base_url);
            &&& url.len() > 0 ==> after.weixin_connect_base_url == url
            &&& url.len() == 0 ==> after.weixin_connect_base_url
                == "https://ilinkai.weixin.qq.com"@
            &&& after.weixin_connect_token == trimmed(before.weixin_connect_token)
            &&& after.weixin_connect_account_id == trimmed(before.weixin_connect_account_id)
            &&& after.weixin_connect_allow_from == trimmed(before.weixin_connect_allow_from)
            &&& after.weixin_connect_route_tag == trimmed(before.weixin_connect_route_tag)
            &&& after.weixin_connect_work_dir == trimmed(before.weixin_connect_work_dir)
            &&& after.weixin_connect_model == trimmed(before.weixin_connect_model)
            &&& after.weixin_connect_codex_path == trimmed(before.weixin_connect_codex_path)
            &&& after.weixin_connect_sandbox == weixin_sandbox(before.weixin_connect_sandbox)
            &&& after.weixin_connect_enabled == before.weixin_connect_enabled
        }),
{
}

/// The relays take the texts and relays that they are given, and nothing else of them changes but
/// the order of the aggregates' members.
pub proof fn relays_are_ordered(
    before: RelaySettingsView,
    common: Seq<char>,
    context: Seq<char>,
    relays: Seq<RelayProfileView>,
)
    ensures
        ({
            let after = before.in_order(common, context, relays);
            &&& after.relay_common_config_contents == common
            &&& after.relay_context_config_contents == context
            &&& after.relay_profiles == relays
            &&& after.aggregate_relay_profiles.len() == before.aggregate_relay_profiles.len()
            &&& forall|i: int|
                0 <= i < before.aggregate_relay_profiles.len() ==> {
                    let aggregate = before.aggregate_relay_profiles[i];
                    let ordered = #[trigger] after.aggregate_relay_profiles[i];
                    ordered.members == ordered_members(aggregate.members, relays) && ordered.id
                        == aggregate.id && ordered.name == aggregate.name && ordered.strategy
                        == aggregate.strategy && ordered.session_provider
                        == aggregate.session_provider && ordered.code_mode_host
                        == aggregate.code_mode_host
                }
            &&& after.active_relay_id == before.active_relay_id && after.active_aggregate_relay_id
                == before.active_aggregate_relay_id && after.relay_base_url
                == before.relay_base_url && after.relay_api_key == before.relay_api_key
                && after.relay_profiles_enabled == before.relay_profiles_enabled
                && after.relay_test_model == before.relay_test_model && after.relay_launch
                == before.relay_launch
        }),
{
}

/// A text that ends with a header line is one of a section only by the last header before it: a
/// line stands in a context table where that header is one of a context table.
pub open spec fn last_header_is_context(lines: Seq<Seq<char>>, n: int) -> bool {
    exists|h: int|
        0 <= h < n && is_header(trimmed(#[trigger] lines[h])) && is_context_header(
            trimmed(lines[h]),
        ) && forall|j: int| h < j < n ==> !is_header(trimmed(#[trigger] lines[j]))
}

/// Which line belongs to a context table is decided by the last header up to it, the line itself
/// counting.
pub proof fn last_header_decides(lines: Seq<Seq<char>>, n: int)
    requires
        0 <= n <= lines.len(),
    ensures
        in_context(lines, n) == last_header_is_context(lines, n),
    decreases n,
{
    if n > 0 {
        let line = lines[n - 1];
        last_header_decides(lines, n - 1);
        if is_header(trimmed(line)) {
            if is_context_header(trimmed(line)) {
                assert(is_header(trimmed(lines[n - 1])));
                assert(last_header_is_context(lines, n));
            } else if last_header_is_context(lines, n) {
                let h = choose|h: int|
                    0 <= h < n && is_header(trimmed(#[trigger] lines[h])) && is_context_header(
                        trimmed(lines[h]),
                    ) && forall|j: int| h < j < n ==> !is_header(trimmed(#[trigger] lines[j]));
                assert(h == n - 1 || !is_header(trimmed(lines[n - 1])));
            }
        } else {
            if last_header_is_context(lines, n - 1) {
                let h = choose|h: int|
                    0 <= h < n - 1 && is_header(trimmed(#[trigger] lines[h])) && is_context_header(
                        trimmed(lines[h]),
                    ) && forall|j: int| h < j < n - 1 ==> !is_header(trimmed(#[trigger] lines[j]));
                assert(is_header(trimmed(lines[h])));
                assert(last_header_is_context(lines, n));
            }
            if last_header_is_context(lines, n) {
                let h = choose|h: int|
                    0 <= h < n && is_header(trimmed(#[trigger] lines[h])) && is_context_header(
                        trimmed(lines[h]),
                    ) && forall|j: int| h < j < n ==> !is_header(trimmed(#[trigger] lines[j]));
                assert(h < n - 1);
                assert(is_header(trimmed(lines[h])));
                assert(last_header_is_context(lines, n - 1));
            }
        }
    }
}

/// A header stands in brackets; one of a context table names servers, skills or plugins.
pub proof fn headers_are_in_brackets(line: Seq<char>)
    ensures
        is_header(line) == (line.len() > 0 && line[0] == '[' && line.last() == ']'),
        is_context_header(line) == (has_prefix(line, "[mcp_servers."@) || has_prefix(
            line,
            "[skills."@,
        ) || has_prefix(line, "[plugins."@)),
{
    reveal_strlit("[");
    reveal_strlit("]");
    if line.len() > 0 {
        assert(line.take(1) =~= seq![line[0]]);
        assert(line.skip(line.len() - 1) =~= seq![line.last()]);
        assert("["@ =~= seq!['[']);
        assert("]"@ =~= seq![']']);
        if line.take(1) == "["@ {
            assert(line.take(1)[0] == "["@[0]);
        }
        if line.skip(line.len() - 1) == "]"@ {
            assert(line.skip(line.len() - 1)[0] == "]"@[0]);
        }
    }
}

/// Every line goes to one of the two sections, in its order.
pub proof fn lines_are_parted(lines: Seq<Seq<char>>, n: int)
    requires
        0 <= n < lines.len(),
    ensures
        section_lines(lines, n, true).len() + section_lines(lines, n, false).len() == n,
        section_lines(lines, n + 1, last_header_is_context(lines, n + 1)) == section_lines(
            lines,
            n,
            last_header_is_context(lines, n + 1),
        ).push(lines[n]),
        section_lines(lines, n + 1, !last_header_is_context(lines, n + 1)) == section_lines(
            lines,
            n,
            !last_header_is_context(lines, n + 1),
        ),
    decreases n,
{
    last_header_decides(lines, n + 1);
    if n > 0 {
        lines_are_parted(lines, n - 1);
    }
}

/// A section is its lines, line by line, trimmed, with a line feed at its end; an empty one is
/// empty.
pub proof fn sections_end_with_a_line_feed(config: Seq<char>, context: bool)
    ensures
        ({
            let lines = lines_of(config);
            let text = trimmed(joined(section_lines(lines, lines.len() as int, context), "\n"@));
            &&& text.len() == 0 ==> config_section(config, context).len() == 0
            &&& text.len() > 0 ==> config_section(config, context) == text + "\n"@
        }),
{
}

/// The relays that found a member among the first `n`.
pub open spec fn ranks(
    members: Seq<AggregateRelayMemberView>,
    relays: Seq<RelayProfileView>,
    n: int,
) -> Seq<int>
    decreases n,
{
    if n <= 0 {
        Seq::empty()
    } else {
        let before = ranks(members, relays, n - 1);
        let left = sorted_out(members, relays, n - 1).1;
        if exists|i: int| 0 <= i < left.len() && (#[trigger] left[i]).relay_id == relays[n - 1].id {
            before.push(n - 1)
        } else {
            before
        }
    }
}

/// Members follow relays whose places rise.
pub open spec fn follow(
    members: Seq<AggregateRelayMemberView>,
    relays: Seq<RelayProfileView>,
    places: Seq<int>,
) -> bool {
    &&& places.len() <= members.len()
    &&& forall|k: int|
        0 <= k < places.len() ==> 0 <= #[trigger] places[k] < relays.len() && members[k].relay_id
            == relays[places[k]].id
    &&& forall|k: int, l: int| 0 <= k < l < places.len() ==> places[k] < places[l]
}

pub open spec fn all_differ(members: Seq<AggregateRelayMemberView>) -> bool {
    forall|i: int, j: int|
        0 <= i < j < members.len() ==> (#[trigger] members[i]).relay_id != (
        #[trigger] members[j]).relay_id
}

proof fn lemma_ranks(
    members: Seq<AggregateRelayMemberView>,
    relays: Seq<RelayProfileView>,
    n: int,
)
    requires
        0 <= n <= relays.len(),
    ensures
        ({
            let (placed, left) = sorted_out(members, relays, n);
            let places = ranks(members, relays, n);
            &&& places.len() == placed.len()
            &&& follow(placed, relays, places)
            &&& forall|k: int| 0 <= k < places.len() ==> #[trigger] places[k] < n
            &&& all_differ(members) ==> all_differ(left) && forall|i: int, r: int|
                0 <= i < left.len() && 0 <= r < n ==> (#[trigger] left[i]).relay_id != (
                #[trigger] relays[r]).id
        }),
    decreases n,
{
    if n > 0 {
        lemma_ranks(members, relays, n - 1);
        let (placed, left) = sorted_out(members, relays, n - 1);
        let places = ranks(members, relays, n - 1);
        let id = relays[n - 1].id;
        lemma_place_of_member(left, id, 0);
        let (placed_now, left_now) = sorted_out(members, relays, n);
        let places_now = ranks(members, relays, n);
        match member_place(left, id, 0) {
            Some(p) => {
                assert(left[p].relay_id == id);
                assert forall|k: int| 0 <= k < places_now.len() implies 0 <= #[trigger] places_now[k]
                    < n && placed_now[k].relay_id == relays[places_now[k]].id by {
                    if k < places.len() {
                        assert(places_now[k] == places[k]);
                        assert(placed_now[k] == placed[k]);
                    }
                }
                assert forall|k: int, l: int| 0 <= k < l < places_now.len() implies places_now[k]
                    < places_now[l] by {
                    assert(places_now[k] == places[k]);
                    if l < places.len() {
                        assert(places_now[l] == places[l]);
                    }
                }
                if all_differ(members) {
                    assert forall|i: int| 0 <= i < left_now.len() implies exists|o: int|
                        0 <= o < left.len() && o != p && left[o] == #[trigger] left_now[i] by {
                        let o = if i < p {
                            i
                        } else {
                            i + 1
                        };
                        assert(left[o] == left_now[i]);
                    }
                    assert forall|i: int, r: int|
                        0 <= i < left_now.len() && 0 <= r < n implies (
                    #[trigger] left_now[i]).relay_id != (#[trigger] relays[r]).id by {
                        let o = choose|o: int|
                            0 <= o < left.len() && o != p && left[o] == left_now[i];
                        if r == n - 1 {
                            if o < p {
                                assert(left[o].relay_id != left[p].relay_id);
                            } else {
                                assert(left[p].relay_id != left[o].relay_id);
                            }
                        } else {
                            assert(left[o].relay_id != relays[r].id);
                        }
                    }
                    assert forall|i: int, k: int| 0 <= i < k < left_now.len() implies (
                    #[trigger] left_now[i]).relay_id != (#[trigger] left_now[k]).relay_id by {
                        let a = if i < p {
                            i
                        } else {
                            i + 1
                        };
                        let b = if k < p {
                            k
                        } else {
                            k + 1
                        };
                        assert(left[a].relay_id != left[b].relay_id);
                    }
                }
            },
            None => {
                assert(!(exists|i: int|
                    0 <= i < left.len() && (#[trigger] left[i]).relay_id == id));
            },
        }
    }
}

/// From one on the members have no relay.
pub open spec fn have_no_relay(
    members: Seq<AggregateRelayMemberView>,
    relays: Seq<RelayProfileView>,
    from: int,
) -> bool {
    forall|i: int, r: int|
        from <= i < members.len() && 0 <= r < relays.len() ==> (#[trigger] members[i]).relay_id != (
        #[trigger] relays[r]).id
}

/// The members of an aggregate that have a relay come in the order of the relays; where no member is
/// there twice, those after them have no relay at all.
pub proof fn members_follow_the_relays(
    members: Seq<AggregateRelayMemberView>,
    relays: Seq<RelayProfileView>,
)
    ensures
        exists|places: Seq<int>|
            (#[trigger] follow(ordered_members(members, relays), relays, places)) && (all_differ(
                members,
            ) ==> have_no_relay(ordered_members(members, relays), relays, places.len() as int)),
{
    let n = relays.len() as int;
    let (placed, left) = sorted_out(members, relays, n);
    let places = ranks(members, relays, n);
    let ordered = ordered_members(members, relays);
    lemma_ranks(members, relays, n);
    assert forall|k: int| 0 <= k < places.len() implies 0 <= #[trigger] places[k] < relays.len()
        && ordered[k].relay_id == relays[places[k]].id by {
        assert(ordered[k] == placed[k]);
    }
    assert(follow(ordered, relays, places));
    if all_differ(members) {
        assert forall|i: int, r: int|
            places.len() <= i < ordered.len() && 0 <= r < relays.len() implies (
        #[trigger] ordered[i]).relay_id != (#[trigger] relays[r]).id by {
            assert(ordered[i] == left[i - placed.len()]);
        }
        assert(have_no_relay(ordered, relays, places.len() as int));
    }
}

/// The first relay whose id a member has takes the first such member to the front of the order.
pub proof fn first_relay_takes_its_member(
    members: Seq<AggregateRelayMemberView>,
    relays: Seq<RelayProfileView>,
    i: int,
)
    requires
        relays.len() > 0,
        0 <= i < members.len(),
        members[i].relay_id == relays[0].id,
        forall|j: int| 0 <= j < i ==> (#[trigger] members[j]).relay_id != relays[0].id,
    ensures
        ordered_members(members, relays).len() > 0,
        ordered_members(members, relays)[0] == members[i],
{
    super::normalize::lemma_place_of_member(members, relays[0].id, 0);
    let p = member_place(members, relays[0].id, 0);
    assert(members[i].relay_id == relays[0].id);
    assert(p == Some(i)) by {
        if p is Some && p->0 != i {
            if p->0 < i {
                assert(members[p->0].relay_id != relays[0].id);
            } else {
                super::normalize::lemma_first_place(members, relays[0].id, 0, i);
            }
        }
    }
    assert(sorted_out(members, relays, 0) == (Seq::<AggregateRelayMemberView>::empty(), members));
    assert(sorted_out(members, relays, 1).0 =~= seq![members[i]]);
    super::normalize::lemma_sorted_out_later(members, relays, 1, relays.len() as int);
    let placed = sorted_out(members, relays, relays.len() as int).0;
    assert(placed.take(1)[0] == members[i]);
    assert(ordered_members(members, relays)[0] == placed[0]);
}

/// The provider in use is the trimmed text of the configuration, where that is not blank.
pub proof fn provider_in_use_is_named(config: Map<Seq<char>, TomlView>)
    ensures
        ({
            let named = root_text(config, "model_provider"@);
            &&& provider_id(config) is Some == (named is Some && trimmed(named->0).len() > 0)
            &&& provider_id(config) is Some ==> provider_id(config)->0 == trimmed(named->0)
            &&& provider_id(config) is Some ==> session_provider(config) == provider_id(config)->0
            &&& provider_id(config) is None ==> session_provider(config) == "codex-plus-relay"@
            &&& session_provider(config) == "openai"@ ==> transport_provider(
                session_provider(config),
            ) == "custom"@
            &&& session_provider(config) != "openai"@ ==> transport_provider(
                session_provider(config),
            ) == session_provider(config)
        }),
{
}

/// The token in use is that of the provider in use; where OpenAI has none, that of the custom one.
/// A token is a text, trimmed, with something in it.
pub proof fn token_in_use_is_the_providers(config: Map<Seq<char>, TomlView>)
    ensures
        ({
            let id = provider_id(config);
            let own = table_text(config, "model_providers"@, id->0, "experimental_bearer_token"@);
            let custom = table_text(
                config,
                "model_providers"@,
                "custom"@,
                "experimental_bearer_token"@,
            );
            &&& id is None ==> token_of(config) is None
            &&& id is Some && own is Some && trimmed(own->0).len() > 0 ==> token_of(config) == Some(
                trimmed(own->0),
            )
            &&& id is Some && (own is None || trimmed(own->0).len() == 0) && id->0 != "openai"@
                ==> token_of(config) is None
            &&& id == Some("openai"@) && (own is None || trimmed(own->0).len() == 0) && custom is Some
                && trimmed(custom->0).len() > 0 ==> token_of(config) == Some(trimmed(custom->0))
            &&& id == Some("openai"@) && (own is None || trimmed(own->0).len() == 0) && (custom is None
                || trimmed(custom->0).len() == 0) ==> token_of(config) is None
        }),
{
}

/// A relay lacks a token where it is an official one with a key of its own and its configuration has
/// none; then it gets its key, or else the token that the last such relay of its id had.
pub proof fn lacking_tokens_are_found(relay: RelayProfileView, previous: Seq<RelayProfileView>)
    ensures
        ({
            let mixed = relay.relay_mode == RelayMode::Official && relay.official_mix_api_key;
            let lacks = mixed && config_token(relay.config_contents) is None;
            let key = trimmed(relay.api_key);
            &&& !lacks ==> missing_token(relay, previous) is None
            &&& lacks && key.len() > 0 ==> missing_token(relay, previous) == Some(key)
            &&& lacks && key.len() == 0 ==> missing_token(relay, previous) == earlier_token(
                previous,
                relay.id,
            )
        }),
{
}

/// Whether a relay had a token that counts for an id.
pub open spec fn had_token(relay: RelayProfileView, id: Seq<char>) -> bool {
    relay.relay_mode == RelayMode::Official && relay.official_mix_api_key && relay.id == id
        && config_token(relay.config_contents) is Some
}

/// The token from before is that of the last relay that had one under the id.
pub proof fn last_token_from_before_counts(
    previous: Seq<RelayProfileView>,
    id: Seq<char>,
    i: int,
)
    ensures
        0 <= i < previous.len() && had_token(previous[i], id) && (forall|j: int|
            i < j < previous.len() ==> !had_token(#[trigger] previous[j], id)) ==> earlier_token(
            previous,
            id,
        ) == config_token(previous[i].config_contents),
        (forall|j: int| 0 <= j < previous.len() ==> !had_token(#[trigger] previous[j], id))
            ==> earlier_token(previous, id) is None,
    decreases previous.len(),
{
    if previous.len() > 0 {
        let shorter = previous.drop_last();
        last_token_from_before_counts(shorter, id, i);
        if 0 <= i < previous.len() - 1 && (forall|j: int|
            i < j < previous.len() ==> !had_token(#[trigger] previous[j], id)) {
            assert(!had_token(previous[previous.len() - 1], id));
            assert forall|j: int| i < j < shorter.len() implies !had_token(
                #[trigger] shorter[j],
                id,
            ) by {
                assert(!had_token(previous[j], id));
            }
        }
        if forall|j: int| 0 <= j < previous.len() ==> !had_token(#[trigger] previous[j], id) {
            assert(!had_token(previous[previous.len() - 1], id));
            assert forall|j: int| 0 <= j < shorter.len() implies !had_token(
                #[trigger] shorter[j],
                id,
            ) by {
                assert(!had_token(previous[j], id));
            }
        }
    }
}

/// Setting a token names the session's provider and sets the token of the provider that requests go
/// through; everything else in the configuration stays.
pub proof fn setting_a_token_changes_nothing_else(
    config: Map<Seq<char>, TomlView>,
    token: Seq<char>,
    key: Seq<char>,
    other: Seq<char>,
)
    requires
        has_place_for_token(config),
    ensures
        ({
            let after = with_token(config, token);
            let transport = transport_provider(session_provider(config));
            &&& root_text(after, "model_provider"@) == Some(session_provider(config))
            &&& key != "model_provider"@ && key != "model_providers"@ ==> item_at(after, key)
                == item_at(config, key)
            &&& other != transport ==> inner_item(after, "model_providers"@, other) == inner_item(
                config,
                "model_providers"@,
                other,
            )
            &&& inner_item(after, "model_providers"@, transport) is Some
            &&& inner_item(after, "model_providers"@, transport)->0.entries().contains_key(
                "experimental_bearer_token"@,
            )
            &&& inner_item(after, "model_providers"@, transport)->0.entries()[
            "experimental_bearer_token"@] == TomlView::Text(trimmed(token))
        }),
{
    reveal_strlit("model_provider");
    reveal_strlit("model_providers");
    assert("model_provider"@.len() == 14 && "model_providers"@.len() == 15);
}

} // verus!
