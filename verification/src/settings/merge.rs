//! A change of stored settings, field by field.
use vstd::prelude::*;

use super::backend::BackendSettings;
use super::defaults::{
    clamp_image_overlay_opacity, clamp_stepwise_max_input_chars, clamp_stepwise_max_items,
    clamp_stepwise_max_output_tokens, clamp_stepwise_timeout_ms, clamped, dream_skin_theme, filled,
    fit_mode, normalize_codex_extra_args, normalize_dream_skin_theme,
    normalize_image_overlay_fit_mode, normalize_stepwise_protocol, stepwise_protocol,
};
use super::normalize::{filled_or, filled_text_or, normalize_url, plain_url};
use crate::json::{array_view, Json, JsonView};
use crate::text::{same_text, texts, trim, trimmed};

verus! {

/// How a field of the settings is taken over.
#[derive(Clone, Copy, Debug, PartialEq, Eq, Structural)]
pub enum FieldKind {
    Flag,
    Text,
    Trimmed,
    Url,
    KeyEnv,
    Protocol,
    MaxItems,
    MaxInputChars,
    MaxOutputTokens,
    TimeoutMs,
    Opacity,
    FitMode,
    Theme,
    LaunchMode,
    TestModel,
    Args,
    List,
    /// Any value, where it was found to be a valid one.
    Whole(bool),
}

/// The texts among the items of a list.
pub open spec fn text_items(items: Seq<JsonView>) -> Seq<Seq<char>>
    decreases items.len(),
{
    if items.len() == 0 {
        Seq::empty()
    } else {
        match items.last().text() {
            Some(text) => text_items(items.drop_last()).push(text),
            None => text_items(items.drop_last()),
        }
    }
}

pub open spec fn text_values(list: Seq<Seq<char>>) -> JsonView {
    JsonView::Array(Seq::new(list.len(), |i: int| JsonView::Text(list[i])))
}

/// A number, if it fits, between two bounds.
pub open spec fn bounded(value: JsonView, most: int, low: int, high: int) -> Option<JsonView> {
    match value.natural() {
        Some(n) => if n <= most {
            Some(JsonView::Integer(clamped(n as int, low, high)))
        } else {
            None
        },
        None => None,
    }
}

/// What a field becomes for a given value; nothing, where the value does not do.
pub open spec fn taken_value(value: JsonView, kind: FieldKind) -> Option<JsonView> {
    match kind {
        FieldKind::Flag => if value is Bool {
            Some(value)
        } else {
            None
        },
        FieldKind::MaxItems => bounded(value, u8::MAX as int, 0, 6),
        FieldKind::MaxInputChars => bounded(value, u32::MAX as int, 1000, 24000),
        FieldKind::MaxOutputTokens => bounded(value, u32::MAX as int, 100, 4000),
        FieldKind::TimeoutMs => bounded(value, u64::MAX as int, 1000, 60000),
        FieldKind::Opacity => bounded(value, u8::MAX as int, 1, 100),
        FieldKind::Args => match value.items() {
            Some(items) => Some(text_values(filled(text_items(items)))),
            None => None,
        },
        FieldKind::List => if value is Array {
            Some(value)
        } else {
            None
        },
        FieldKind::Whole(valid) => if valid {
            Some(value)
        } else {
            None
        },
        _ => match value.text() {
            Some(text) => match taken_text(text, kind) {
                Some(taken) => Some(JsonView::Text(taken)),
                None => None,
            },
            None => None,
        },
    }
}

/// What a text field becomes for a given text.
pub open spec fn taken_text(text: Seq<char>, kind: FieldKind) -> Option<Seq<char>> {
    match kind {
        FieldKind::Text => Some(text),
        FieldKind::Trimmed => Some(trimmed(text)),
        FieldKind::Url => Some(plain_url(text)),
        FieldKind::KeyEnv => Some(filled_or(text, "CODEX_STEPWISE_API_KEY"@)),
        FieldKind::Protocol => Some(stepwise_protocol(text)),
        FieldKind::FitMode => Some(fit_mode(text)),
        FieldKind::Theme => Some(dream_skin_theme(text)),
        FieldKind::LaunchMode => if text == "patch"@ || text == "relay"@ {
            Some(text)
        } else {
            None
        },
        FieldKind::TestModel => Some(filled_or(text, "gpt-5.4-mini"@)),
        _ => None,
    }
}

/// Settings with one field taken over from a change, if the change has it.
#[verifier::opaque]
pub open spec fn merged_field(
    target: JsonView,
    source: JsonView,
    key: Seq<char>,
    kind: FieldKind,
) -> JsonView {
    match source.field(key) {
        Some(value) => match taken_value(value, kind) {
            Some(taken) => target.with(key, taken),
            None => target,
        },
        None => target,
    }
}

/// What is known of a change besides its fields: whether its strategy is a known one, whether its
/// skin is a valid one, and its relays as they are to be stored.
#[derive(Debug)]
pub struct ParsedChange {
    pub zed_strategy_is_known: bool,
    pub skin_is_valid: bool,
    pub relay_profiles: Json,
}

/// Switches and paths of the app, taken over.
pub open spec fn merged_app_fields(
    target: JsonView,
    source: JsonView,
    parsed: ParsedChange,
) -> JsonView {
    let t0 = merged_field(target, source, "codexAppPath"@, FieldKind::Text);
    let t1 = merged_field(t0, source, "codexExtraArgs"@, FieldKind::Args);
    let t2 = merged_field(t1, source, "providerSyncEnabled"@, FieldKind::Flag);
    let t3 = merged_field(t2, source, "ccsDbPath"@, FieldKind::Trimmed);
    let t4 = merged_field(t3, source, "relayProfilesEnabled"@, FieldKind::Flag);
    let t5 = merged_field(t4, source, "enhancementsEnabled"@, FieldKind::Flag);
    let t6 = merged_field(t5, source, "codexAppPluginMarketplaceUnlock"@, FieldKind::Flag);
    let t7 = merged_field(t6, source, "codexAppModelWhitelistUnlock"@, FieldKind::Flag);
    let t8 = merged_field(t7, source, "codexAppSessionDelete"@, FieldKind::Flag);
    let t9 = merged_field(t8, source, "codexAppMarkdownExport"@, FieldKind::Flag);
    let t10 = merged_field(t9, source, "codexAppPasteFix"@, FieldKind::Flag);
    let t11 = merged_field(t10, source, "codexAppForceChineseLocale"@, FieldKind::Flag);
    let t12 = merged_field(t11, source, "codexAppFastStartup"@, FieldKind::Flag);
    let t13 = merged_field(t12, source, "codexAppThreadIdBadge"@, FieldKind::Flag);
    let t14 = merged_field(t13, source, "codexAppConversationView"@, FieldKind::Flag);
    let t15 = merged_field(t14, source, "codexAppThreadScrollRestore"@, FieldKind::Flag);
    let t16 = merged_field(t15, source, "codexAppZedRemoteOpen"@, FieldKind::Flag);
    let t17 = merged_field(t16, source, "zedRemoteOpenStrategy"@, FieldKind::Whole(parsed.zed_strategy_is_known));
    let t18 = merged_field(t17, source, "zedRemoteProjectRegistryEnabled"@, FieldKind::Flag);
    let t19 = merged_field(t18, source, "zedRemoteSyncToZedSettings"@, FieldKind::Flag);
    let t20 = merged_field(t19, source, "codexAppUpstreamWorktreeCreate"@, FieldKind::Flag);
    let t21 = merged_field(t20, source, "codexAppNativeMenuPlacement"@, FieldKind::Flag);
    let t22 = merged_field(t21, source, "codexAppNativeMenuLocalization"@, FieldKind::Flag);
    let t23 = merged_field(t22, source, "codexAppServiceTierControls"@, FieldKind::Flag);
    let t24 = merged_field(t23, source, "codexAppPetRealMouseLook"@, FieldKind::Flag);
    let t25 = merged_field(t24, source, "codexGoalsEnabled"@, FieldKind::Flag);
    t25
}

fn merge_app_fields(target: &mut Json, source: &Json, parsed: &ParsedChange)
    ensures
        final(target)@ == merged_app_fields(old(target)@, source@, *parsed),
{
    merge_field(target, source, "codexAppPath", FieldKind::Text);
    merge_field(target, source, "codexExtraArgs", FieldKind::Args);
    merge_field(target, source, "providerSyncEnabled", FieldKind::Flag);
    merge_field(target, source, "ccsDbPath", FieldKind::Trimmed);
    merge_field(target, source, "relayProfilesEnabled", FieldKind::Flag);
    merge_field(target, source, "enhancementsEnabled", FieldKind::Flag);
    merge_field(target, source, "codexAppPluginMarketplaceUnlock", FieldKind::Flag);
    merge_field(target, source, "codexAppModelWhitelistUnlock", FieldKind::Flag);
    merge_field(target, source, "codexAppSessionDelete", FieldKind::Flag);
    merge_field(target, source, "codexAppMarkdownExport", FieldKind::Flag);
    merge_field(target, source, "codexAppPasteFix", FieldKind::Flag);
    merge_field(target, source, "codexAppForceChineseLocale", FieldKind::Flag);
    merge_field(target, source, "codexAppFastStartup", FieldKind::Flag);
    merge_field(target, source, "codexAppThreadIdBadge", FieldKind::Flag);
    merge_field(target, source, "codexAppConversationView", FieldKind::Flag);
    merge_field(target, source, "codexAppThreadScrollRestore", FieldKind::Flag);
    merge_field(target, source, "codexAppZedRemoteOpen", FieldKind::Flag);
    merge_field(target, source, "zedRemoteOpenStrategy", FieldKind::Whole(parsed.zed_strategy_is_known));
    merge_field(target, source, "zedRemoteProjectRegistryEnabled", FieldKind::Flag);
    merge_field(target, source, "zedRemoteSyncToZedSettings", FieldKind::Flag);
    merge_field(target, source, "codexAppUpstreamWorktreeCreate", FieldKind::Flag);
    merge_field(target, source, "codexAppNativeMenuPlacement", FieldKind::Flag);
    merge_field(target, source, "codexAppNativeMenuLocalization", FieldKind::Flag);
    merge_field(target, source, "codexAppServiceTierControls", FieldKind::Flag);
    merge_field(target, source, "codexAppPetRealMouseLook", FieldKind::Flag);
    merge_field(target, source, "codexGoalsEnabled", FieldKind::Flag);
}

/// The fields of the stepwise assistant, taken over.
pub open spec fn merged_stepwise_fields(
    target: JsonView,
    source: JsonView,
    parsed: ParsedChange,
) -> JsonView {
    let t0 = merged_field(target, source, "codexAppStepwiseEnabled"@, FieldKind::Flag);
    let t1 = merged_field(t0, source, "codexAppStepwiseDirectSend"@, FieldKind::Flag);
    let t2 = merged_field(t1, source, "codexAppStepwiseBaseUrl"@, FieldKind::Url);
    let t3 = merged_field(t2, source, "codexAppStepwiseApiKey"@, FieldKind::Trimmed);
    let t4 = merged_field(t3, source, "codexAppStepwiseApiKeyEnv"@, FieldKind::KeyEnv);
    let t5 = merged_field(t4, source, "codexAppStepwiseProtocol"@, FieldKind::Protocol);
    let t6 = merged_field(t5, source, "codexAppStepwiseModel"@, FieldKind::Trimmed);
    let t7 = merged_field(t6, source, "codexAppStepwiseMaxItems"@, FieldKind::MaxItems);
    let t8 = merged_field(t7, source, "codexAppStepwiseMaxInputChars"@, FieldKind::MaxInputChars);
    let t9 = merged_field(t8, source, "codexAppStepwiseMaxOutputTokens"@, FieldKind::MaxOutputTokens);
    let t10 = merged_field(t9, source, "codexAppStepwiseTimeoutMs"@, FieldKind::TimeoutMs);
    t10
}

fn merge_stepwise_fields(target: &mut Json, source: &Json, parsed: &ParsedChange)
    ensures
        final(target)@ == merged_stepwise_fields(old(target)@, source@, *parsed),
{
    merge_field(target, source, "codexAppStepwiseEnabled", FieldKind::Flag);
    merge_field(target, source, "codexAppStepwiseDirectSend", FieldKind::Flag);
    merge_field(target, source, "codexAppStepwiseBaseUrl", FieldKind::Url);
    merge_field(target, source, "codexAppStepwiseApiKey", FieldKind::Trimmed);
    merge_field(target, source, "codexAppStepwiseApiKeyEnv", FieldKind::KeyEnv);
    merge_field(target, source, "codexAppStepwiseProtocol", FieldKind::Protocol);
    merge_field(target, source, "codexAppStepwiseModel", FieldKind::Trimmed);
    merge_field(target, source, "codexAppStepwiseMaxItems", FieldKind::MaxItems);
    merge_field(target, source, "codexAppStepwiseMaxInputChars", FieldKind::MaxInputChars);
    merge_field(target, source, "codexAppStepwiseMaxOutputTokens", FieldKind::MaxOutputTokens);
    merge_field(target, source, "codexAppStepwiseTimeoutMs", FieldKind::TimeoutMs);
}

/// The fields of the overlay and the skin, taken over.
pub open spec fn merged_looks_fields(
    target: JsonView,
    source: JsonView,
    parsed: ParsedChange,
) -> JsonView {
    let t0 = merged_field(target, source, "codexAppImageOverlayEnabled"@, FieldKind::Flag);
    let t1 = merged_field(t0, source, "codexAppImageOverlayPath"@, FieldKind::Text);
    let t2 = merged_field(t1, source, "codexAppImageOverlayOpacity"@, FieldKind::Opacity);
    let t3 = merged_field(t2, source, "codexAppImageOverlayFitMode"@, FieldKind::FitMode);
    let t4 = merged_field(t3, source, "codexAppDreamSkinEnabled"@, FieldKind::Flag);
    let t5 = merged_field(t4, source, "codexAppDreamSkinPaused"@, FieldKind::Flag);
    let t6 = merged_field(t5, source, "codexAppDreamSkinTheme"@, FieldKind::Theme);
    let t7 = merged_field(t6, source, "codexAppDreamSkinThemeConfig"@, FieldKind::Whole(parsed.skin_is_valid));
    let t8 = merged_field(t7, source, "codexAppDreamSkinImagePath"@, FieldKind::Trimmed);
    t8
}

fn merge_looks_fields(target: &mut Json, source: &Json, parsed: &ParsedChange)
    ensures
        final(target)@ == merged_looks_fields(old(target)@, source@, *parsed),
{
    merge_field(target, source, "codexAppImageOverlayEnabled", FieldKind::Flag);
    merge_field(target, source, "codexAppImageOverlayPath", FieldKind::Text);
    merge_field(target, source, "codexAppImageOverlayOpacity", FieldKind::Opacity);
    merge_field(target, source, "codexAppImageOverlayFitMode", FieldKind::FitMode);
    merge_field(target, source, "codexAppDreamSkinEnabled", FieldKind::Flag);
    merge_field(target, source, "codexAppDreamSkinPaused", FieldKind::Flag);
    merge_field(target, source, "codexAppDreamSkinTheme", FieldKind::Theme);
    merge_field(target, source, "codexAppDreamSkinThemeConfig", FieldKind::Whole(parsed.skin_is_valid));
    merge_field(target, source, "codexAppDreamSkinImagePath", FieldKind::Trimmed);
}

/// The fields of the connection, taken over.
pub open spec fn merged_weixin_fields(
    target: JsonView,
    source: JsonView,
    parsed: ParsedChange,
) -> JsonView {
    let t0 = merged_field(target, source, "weixinConnectEnabled"@, FieldKind::Flag);
    let t1 = merged_field(t0, source, "weixinConnectBaseUrl"@, FieldKind::Trimmed);
    let t2 = merged_field(t1, source, "weixinConnectToken"@, FieldKind::Trimmed);
    let t3 = merged_field(t2, source, "weixinConnectAccountId"@, FieldKind::Trimmed);
    let t4 = merged_field(t3, source, "weixinConnectAllowFrom"@, FieldKind::Trimmed);
    let t5 = merged_field(t4, source, "weixinConnectRouteTag"@, FieldKind::Trimmed);
    let t6 = merged_field(t5, source, "weixinConnectWorkDir"@, FieldKind::Trimmed);
    let t7 = merged_field(t6, source, "weixinConnectModel"@, FieldKind::Trimmed);
    let t8 = merged_field(t7, source, "weixinConnectSandbox"@, FieldKind::Trimmed);
    let t9 = merged_field(t8, source, "weixinConnectCodexPath"@, FieldKind::Trimmed);
    t9
}

fn merge_weixin_fields(target: &mut Json, source: &Json, parsed: &ParsedChange)
    ensures
        final(target)@ == merged_weixin_fields(old(target)@, source@, *parsed),
{
    merge_field(target, source, "weixinConnectEnabled", FieldKind::Flag);
    merge_field(target, source, "weixinConnectBaseUrl", FieldKind::Trimmed);
    merge_field(target, source, "weixinConnectToken", FieldKind::Trimmed);
    merge_field(target, source, "weixinConnectAccountId", FieldKind::Trimmed);
    merge_field(target, source, "weixinConnectAllowFrom", FieldKind::Trimmed);
    merge_field(target, source, "weixinConnectRouteTag", FieldKind::Trimmed);
    merge_field(target, source, "weixinConnectWorkDir", FieldKind::Trimmed);
    merge_field(target, source, "weixinConnectModel", FieldKind::Trimmed);
    merge_field(target, source, "weixinConnectSandbox", FieldKind::Trimmed);
    merge_field(target, source, "weixinConnectCodexPath", FieldKind::Trimmed);
}

/// The fields of the relays but the relays themselves, taken over.
pub open spec fn merged_relay_fields(
    target: JsonView,
    source: JsonView,
    parsed: ParsedChange,
) -> JsonView {
    let t0 = merged_field(target, source, "launchMode"@, FieldKind::LaunchMode);
    let t1 = merged_field(t0, source, "relayBaseUrl"@, FieldKind::Text);
    let t2 = merged_field(t1, source, "relayApiKey"@, FieldKind::Text);
    let t3 = merged_field(t2, source, "relayCommonConfigContents"@, FieldKind::Text);
    let t4 = merged_field(t3, source, "relayContextConfigContents"@, FieldKind::Text);
    let t5 = merged_field(t4, source, "activeRelayId"@, FieldKind::Text);
    let t6 = merged_field(t5, source, "aggregateRelayProfiles"@, FieldKind::List);
    let t7 = merged_field(t6, source, "activeAggregateRelayId"@, FieldKind::Text);
    let t8 = merged_field(t7, source, "relayTestModel"@, FieldKind::TestModel);
    t8
}

fn merge_relay_fields(target: &mut Json, source: &Json, parsed: &ParsedChange)
    ensures
        final(target)@ == merged_relay_fields(old(target)@, source@, *parsed),
{
    merge_field(target, source, "launchMode", FieldKind::LaunchMode);
    merge_field(target, source, "relayBaseUrl", FieldKind::Text);
    merge_field(target, source, "relayApiKey", FieldKind::Text);
    merge_field(target, source, "relayCommonConfigContents", FieldKind::Text);
    merge_field(target, source, "relayContextConfigContents", FieldKind::Text);
    merge_field(target, source, "activeRelayId", FieldKind::Text);
    merge_field(target, source, "aggregateRelayProfiles", FieldKind::List);
    merge_field(target, source, "activeAggregateRelayId", FieldKind::Text);
    merge_field(target, source, "relayTestModel", FieldKind::TestModel);
}

/// The relays, where the change has any.
pub open spec fn merged_relays(target: JsonView, source: JsonView, parsed: ParsedChange) -> JsonView {
    if source.items_field("relayProfiles"@) is Some {
        target.with("relayProfiles"@, parsed.relay_profiles@)
    } else {
        target
    }
}

/// Fields of older versions.
pub open spec fn is_retired(key: Seq<char>) -> bool {
    key == "codexAppPluginAutoExpand"@ || key == "computerUseGuardEnabled"@
}

/// Stored settings after a change: each known field of the change that does is taken over, retired
/// fields go, and everything else stays.
pub open spec fn merged_settings(
    target: JsonView,
    source: JsonView,
    parsed: ParsedChange,
) -> JsonView {
    let current = target.without("codexAppPluginAutoExpand"@).without("computerUseGuardEnabled"@);
    let app = merged_app_fields(current, source, parsed);
    let stepwise = merged_stepwise_fields(app, source, parsed);
    let looks = merged_looks_fields(stepwise, source, parsed);
    let weixin = merged_weixin_fields(looks, source, parsed);
    let relay = merged_relay_fields(weixin, source, parsed);
    merged_relays(relay, source, parsed)
}

fn take_text(text: &str, kind: FieldKind) -> (r: Option<String>)
    ensures
        crate::text::option_text(r) == taken_text(text@, kind),
{
    match kind {
        FieldKind::Text => Some(text.to_owned()),
        FieldKind::Trimmed => Some(trim(text).to_owned()),
        FieldKind::Url => Some(normalize_url(text)),
        FieldKind::KeyEnv => Some(filled_text_or(text, "CODEX_STEPWISE_API_KEY")),
        FieldKind::Protocol => Some(normalize_stepwise_protocol(text)),
        FieldKind::FitMode => Some(normalize_image_overlay_fit_mode(text)),
        FieldKind::Theme => Some(normalize_dream_skin_theme(text)),
        FieldKind::LaunchMode => if same_text(text, "patch") || same_text(text, "relay") {
            Some(text.to_owned())
        } else {
            None
        },
        FieldKind::TestModel => Some(filled_text_or(text, "gpt-5.4-mini")),
        _ => None,
    }
}

fn take_args(items: &Vec<Json>) -> (r: Json)
    ensures
        r@ == text_values(filled(text_items(array_view(items@)))),
{
    let ghost views = array_view(items@);
    let mut args: Vec<String> = Vec::new();
    assert(texts(args@) =~= text_items(views.take(0)));
    for i in 0..items.len()
        invariant
            views == array_view(items@),
            texts(args@) == text_items(views.take(i as int)),
    {
        proof {
            assert(views.take(i + 1).drop_last() =~= views.take(i as int));
            assert(views.take(i + 1).last() == items@[i as int]@);
        }
        if let Some(text) = items[i].as_text() {
            let ghost before = texts(args@);
            args.push(text.to_owned());
            assert(texts(args@) =~= before.push(text@));
        }
    }
    assert(views.take(views.len() as int) =~= views);
    let kept = normalize_codex_extra_args(args.as_slice());
    let mut values: Vec<Json> = Vec::new();
    for i in 0..kept.len()
        invariant
            values@.len() == i,
            forall|j: int| 0 <= j < i ==> (#[trigger] values@[j])@ == JsonView::Text(kept@[j]@),
    {
        values.push(Json::text(kept[i].as_str()));
    }
    proof {
        let list = texts(kept@);
        assert(array_view(values@) =~= Seq::new(list.len(), |i: int| JsonView::Text(list[i])));
    }
    Json::array(values)
}

/// The number of a value, if it is at most so much.
fn natural_up_to(value: &Json, most: u64) -> (r: Option<u64>)
    ensures
        r == (match value@.natural() {
            Some(n) => if n <= most {
                Some(n)
            } else {
                None
            },
            None => None,
        }),
{
    match value.as_u64() {
        Some(n) => if n <= most {
            Some(n)
        } else {
            None
        },
        None => None,
    }
}

fn take_number(value: &Json, kind: FieldKind) -> (r: Option<u64>)
    requires
        kind == FieldKind::MaxItems || kind == FieldKind::MaxInputChars || kind
            == FieldKind::MaxOutputTokens || kind == FieldKind::TimeoutMs || kind
            == FieldKind::Opacity,
    ensures
        match r {
            Some(n) => taken_value(value@, kind) == Some(JsonView::Integer(n as int)),
            None => taken_value(value@, kind) is None,
        },
{
    match kind {
        FieldKind::MaxItems => match natural_up_to(value, 255) {
            Some(n) => Some(clamp_stepwise_max_items(n as u8) as u64),
            None => None,
        },
        FieldKind::MaxInputChars => match natural_up_to(value, 4294967295) {
            Some(n) => Some(clamp_stepwise_max_input_chars(n as u32) as u64),
            None => None,
        },
        FieldKind::MaxOutputTokens => match natural_up_to(value, 4294967295) {
            Some(n) => Some(clamp_stepwise_max_output_tokens(n as u32) as u64),
            None => None,
        },
        FieldKind::Opacity => match natural_up_to(value, 255) {
            Some(n) => Some(clamp_image_overlay_opacity(n as u8) as u64),
            None => None,
        },
        _ => match value.as_u64() {
            Some(n) => Some(clamp_stepwise_timeout_ms(n)),
            None => None,
        },
    }
}

fn take_value(value: &Json, kind: FieldKind) -> (r: Option<Json>)
    ensures
        match r {
            Some(taken) => taken_value(value@, kind) == Some(taken@),
            None => taken_value(value@, kind) is None,
        },
{
    match kind {
        FieldKind::Flag => match value.as_bool() {
            Some(flag) => Some(Json::Bool(flag)),
            None => None,
        },
        FieldKind::MaxItems | FieldKind::MaxInputChars | FieldKind::MaxOutputTokens
        | FieldKind::TimeoutMs | FieldKind::Opacity => match take_number(value, kind) {
            Some(n) => Some(Json::Unsigned(n)),
            None => None,
        },
        FieldKind::Args => match value.as_array() {
            Some(items) => Some(take_args(items)),
            None => None,
        },
        FieldKind::List => match value.as_array() {
            Some(_) => Some(value.copy()),
            None => None,
        },
        FieldKind::Whole(valid) => if valid {
            Some(value.copy())
        } else {
            None
        },
        _ => match value.as_text() {
            Some(text) => match take_text(text, kind) {
                Some(taken) => Some(Json::Text(taken)),
                None => None,
            },
            None => None,
        },
    }
}

fn merge_field(target: &mut Json, source: &Json, key: &str, kind: FieldKind)
    ensures
        final(target)@ == merged_field(old(target)@, source@, key@, kind),
{
    proof {
        reveal(merged_field);
    }
    if let Some(value) = source.get(key) {
        if let Some(taken) = take_value(value, kind) {
            target.put(key, taken);
        }
    }
}

/// Takes a change over into stored settings.
pub fn merge_known_setting_fields(target: &mut Json, source: &Json, parsed: &ParsedChange)
    ensures
        final(target)@ == merged_settings(old(target)@, source@, *parsed),
{
    target.remove("codexAppPluginAutoExpand");
    target.remove("computerUseGuardEnabled");
    merge_app_fields(target, source, parsed);
    merge_stepwise_fields(target, source, parsed);
    merge_looks_fields(target, source, parsed);
    merge_weixin_fields(target, source, parsed);
    merge_relay_fields(target, source, parsed);
    if source.array_at("relayProfiles").is_some() {
        target.put("relayProfiles", parsed.relay_profiles.copy());
    }
}

/// Writes the configuration texts, as they were brought into order, into stored settings.
pub fn store_config_texts(raw: &mut Json, settings: &BackendSettings)
    ensures
        final(raw)@ == old(raw)@.with_text(
            "relayCommonConfigContents"@,
            settings@.relays.relay_common_config_contents,
        ).with_text(
            "relayContextConfigContents"@,
            settings@.relays.relay_context_config_contents,
        ),
{
    raw.put_text(
        "relayCommonConfigContents",
        settings.relays.relay_common_config_contents.as_str(),
    );
    raw.put_text(
        "relayContextConfigContents",
        settings.relays.relay_context_config_contents.as_str(),
    );
}

/// A field that a step takes over does not touch another.
proof fn lemma_merged_field(
    target: JsonView,
    source: JsonView,
    key: Seq<char>,
    kind: FieldKind,
    other: Seq<char>,
)
    ensures
        other != key || source.field(key) is None ==> merged_field(
            target,
            source,
            key,
            kind,
        ).field(other) == target.field(other),
{
    reveal(merged_field);
}

/// The known fields among these.
pub open spec fn is_app_field(key: Seq<char>) -> bool {
    key == "codexAppPath"@
        || key == "codexExtraArgs"@
        || key == "providerSyncEnabled"@
        || key == "ccsDbPath"@
        || key == "relayProfilesEnabled"@
        || key == "enhancementsEnabled"@
        || key == "codexAppPluginMarketplaceUnlock"@
        || key == "codexAppModelWhitelistUnlock"@
        || key == "codexAppSessionDelete"@
        || key == "codexAppMarkdownExport"@
        || key == "codexAppPasteFix"@
        || key == "codexAppForceChineseLocale"@
        || key == "codexAppFastStartup"@
        || key == "codexAppThreadIdBadge"@
        || key == "codexAppConversationView"@
        || key == "codexAppThreadScrollRestore"@
        || key == "codexAppZedRemoteOpen"@
        || key == "zedRemoteOpenStrategy"@
        || key == "zedRemoteProjectRegistryEnabled"@
        || key == "zedRemoteSyncToZedSettings"@
        || key == "codexAppUpstreamWorktreeCreate"@
        || key == "codexAppNativeMenuPlacement"@
        || key == "codexAppNativeMenuLocalization"@
        || key == "codexAppServiceTierControls"@
        || key == "codexAppPetRealMouseLook"@
        || key == "codexGoalsEnabled"@
}

pub(super) proof fn lemma_app_fields(
    target: JsonView,
    source: JsonView,
    parsed: ParsedChange,
    key: Seq<char>,
)
    requires
        !is_app_field(key) || source.field(key) is None,
    ensures
        merged_app_fields(target, source, parsed).field(key) == target.field(key),
{
    let t0 = merged_field(target, source, "codexAppPath"@, FieldKind::Text);
    lemma_merged_field(target, source, "codexAppPath"@, FieldKind::Text, key);
    let t1 = merged_field(t0, source, "codexExtraArgs"@, FieldKind::Args);
    lemma_merged_field(t0, source, "codexExtraArgs"@, FieldKind::Args, key);
    let t2 = merged_field(t1, source, "providerSyncEnabled"@, FieldKind::Flag);
    lemma_merged_field(t1, source, "providerSyncEnabled"@, FieldKind::Flag, key);
    let t3 = merged_field(t2, source, "ccsDbPath"@, FieldKind::Trimmed);
    lemma_merged_field(t2, source, "ccsDbPath"@, FieldKind::Trimmed, key);
    let t4 = merged_field(t3, source, "relayProfilesEnabled"@, FieldKind::Flag);
    lemma_merged_field(t3, source, "relayProfilesEnabled"@, FieldKind::Flag, key);
    let t5 = merged_field(t4, source, "enhancementsEnabled"@, FieldKind::Flag);
    lemma_merged_field(t4, source, "enhancementsEnabled"@, FieldKind::Flag, key);
    let t6 = merged_field(t5, source, "codexAppPluginMarketplaceUnlock"@, FieldKind::Flag);
    lemma_merged_field(t5, source, "codexAppPluginMarketplaceUnlock"@, FieldKind::Flag, key);
    let t7 = merged_field(t6, source, "codexAppModelWhitelistUnlock"@, FieldKind::Flag);
    lemma_merged_field(t6, source, "codexAppModelWhitelistUnlock"@, FieldKind::Flag, key);
    let t8 = merged_field(t7, source, "codexAppSessionDelete"@, FieldKind::Flag);
    lemma_merged_field(t7, source, "codexAppSessionDelete"@, FieldKind::Flag, key);
    let t9 = merged_field(t8, source, "codexAppMarkdownExport"@, FieldKind::Flag);
    lemma_merged_field(t8, source, "codexAppMarkdownExport"@, FieldKind::Flag, key);
    let t10 = merged_field(t9, source, "codexAppPasteFix"@, FieldKind::Flag);
    lemma_merged_field(t9, source, "codexAppPasteFix"@, FieldKind::Flag, key);
    let t11 = merged_field(t10, source, "codexAppForceChineseLocale"@, FieldKind::Flag);
    lemma_merged_field(t10, source, "codexAppForceChineseLocale"@, FieldKind::Flag, key);
    let t12 = merged_field(t11, source, "codexAppFastStartup"@, FieldKind::Flag);
    lemma_merged_field(t11, source, "codexAppFastStartup"@, FieldKind::Flag, key);
    let t13 = merged_field(t12, source, "codexAppThreadIdBadge"@, FieldKind::Flag);
    lemma_merged_field(t12, source, "codexAppThreadIdBadge"@, FieldKind::Flag, key);
    let t14 = merged_field(t13, source, "codexAppConversationView"@, FieldKind::Flag);
    lemma_merged_field(t13, source, "codexAppConversationView"@, FieldKind::Flag, key);
    let t15 = merged_field(t14, source, "codexAppThreadScrollRestore"@, FieldKind::Flag);
    lemma_merged_field(t14, source, "codexAppThreadScrollRestore"@, FieldKind::Flag, key);
    let t16 = merged_field(t15, source, "codexAppZedRemoteOpen"@, FieldKind::Flag);
    lemma_merged_field(t15, source, "codexAppZedRemoteOpen"@, FieldKind::Flag, key);
    let t17 = merged_field(t16, source, "zedRemoteOpenStrategy"@, FieldKind::Whole(parsed.zed_strategy_is_known));
    lemma_merged_field(t16, source, "zedRemoteOpenStrategy"@, FieldKind::Whole(parsed.zed_strategy_is_known), key);
    let t18 = merged_field(t17, source, "zedRemoteProjectRegistryEnabled"@, FieldKind::Flag);
    lemma_merged_field(t17, source, "zedRemoteProjectRegistryEnabled"@, FieldKind::Flag, key);
    let t19 = merged_field(t18, source, "zedRemoteSyncToZedSettings"@, FieldKind::Flag);
    lemma_merged_field(t18, source, "zedRemoteSyncToZedSettings"@, FieldKind::Flag, key);
    let t20 = merged_field(t19, source, "codexAppUpstreamWorktreeCreate"@, FieldKind::Flag);
    lemma_merged_field(t19, source, "codexAppUpstreamWorktreeCreate"@, FieldKind::Flag, key);
    let t21 = merged_field(t20, source, "codexAppNativeMenuPlacement"@, FieldKind::Flag);
    lemma_merged_field(t20, source, "codexAppNativeMenuPlacement"@, FieldKind::Flag, key);
    let t22 = merged_field(t21, source, "codexAppNativeMenuLocalization"@, FieldKind::Flag);
    lemma_merged_field(t21, source, "codexAppNativeMenuLocalization"@, FieldKind::Flag, key);
    let t23 = merged_field(t22, source, "codexAppServiceTierControls"@, FieldKind::Flag);
    lemma_merged_field(t22, source, "codexAppServiceTierControls"@, FieldKind::Flag, key);
    let t24 = merged_field(t23, source, "codexAppPetRealMouseLook"@, FieldKind::Flag);
    lemma_merged_field(t23, source, "codexAppPetRealMouseLook"@, FieldKind::Flag, key);
    let t25 = merged_field(t24, source, "codexGoalsEnabled"@, FieldKind::Flag);
    lemma_merged_field(t24, source, "codexGoalsEnabled"@, FieldKind::Flag, key);
}

/// The known fields among these.
pub open spec fn is_stepwise_field(key: Seq<char>) -> bool {
    key == "codexAppStepwiseEnabled"@
        || key == "codexAppStepwiseDirectSend"@
        || key == "codexAppStepwiseBaseUrl"@
        || key == "codexAppStepwiseApiKey"@
        || key == "codexAppStepwiseApiKeyEnv"@
        || key == "codexAppStepwiseProtocol"@
        || key == "codexAppStepwiseModel"@
        || key == "codexAppStepwiseMaxItems"@
        || key == "codexAppStepwiseMaxInputChars"@
        || key == "codexAppStepwiseMaxOutputTokens"@
        || key == "codexAppStepwiseTimeoutMs"@
}

pub(super) proof fn lemma_stepwise_fields(
    target: JsonView,
    source: JsonView,
    parsed: ParsedChange,
    key: Seq<char>,
)
    requires
        !is_stepwise_field(key) || source.field(key) is None,
    ensures
        merged_stepwise_fields(target, source, parsed).field(key) == target.field(key),
{
    let t0 = merged_field(target, source, "codexAppStepwiseEnabled"@, FieldKind::Flag);
    lemma_merged_field(target, source, "codexAppStepwiseEnabled"@, FieldKind::Flag, key);
    let t1 = merged_field(t0, source, "codexAppStepwiseDirectSend"@, FieldKind::Flag);
    lemma_merged_field(t0, source, "codexAppStepwiseDirectSend"@, FieldKind::Flag, key);
    let t2 = merged_field(t1, source, "codexAppStepwiseBaseUrl"@, FieldKind::Url);
    lemma_merged_field(t1, source, "codexAppStepwiseBaseUrl"@, FieldKind::Url, key);
    let t3 = merged_field(t2, source, "codexAppStepwiseApiKey"@, FieldKind::Trimmed);
    lemma_merged_field(t2, source, "codexAppStepwiseApiKey"@, FieldKind::Trimmed, key);
    let t4 = merged_field(t3, source, "codexAppStepwiseApiKeyEnv"@, FieldKind::KeyEnv);
    lemma_merged_field(t3, source, "codexAppStepwiseApiKeyEnv"@, FieldKind::KeyEnv, key);
    let t5 = merged_field(t4, source, "codexAppStepwiseProtocol"@, FieldKind::Protocol);
    lemma_merged_field(t4, source, "codexAppStepwiseProtocol"@, FieldKind::Protocol, key);
    let t6 = merged_field(t5, source, "codexAppStepwiseModel"@, FieldKind::Trimmed);
    lemma_merged_field(t5, source, "codexAppStepwiseModel"@, FieldKind::Trimmed, key);
    let t7 = merged_field(t6, source, "codexAppStepwiseMaxItems"@, FieldKind::MaxItems);
    lemma_merged_field(t6, source, "codexAppStepwiseMaxItems"@, FieldKind::MaxItems, key);
    let t8 = merged_field(t7, source, "codexAppStepwiseMaxInputChars"@, FieldKind::MaxInputChars);
    lemma_merged_field(t7, source, "codexAppStepwiseMaxInputChars"@, FieldKind::MaxInputChars, key);
    let t9 = merged_field(t8, source, "codexAppStepwiseMaxOutputTokens"@, FieldKind::MaxOutputTokens);
    lemma_merged_field(t8, source, "codexAppStepwiseMaxOutputTokens"@, FieldKind::MaxOutputTokens, key);
    let t10 = merged_field(t9, source, "codexAppStepwiseTimeoutMs"@, FieldKind::TimeoutMs);
    lemma_merged_field(t9, source, "codexAppStepwiseTimeoutMs"@, FieldKind::TimeoutMs, key);
}

/// The known fields among these.
pub open spec fn is_looks_field(key: Seq<char>) -> bool {
    key == "codexAppImageOverlayEnabled"@
        || key == "codexAppImageOverlayPath"@
        || key == "codexAppImageOverlayOpacity"@
        || key == "codexAppImageOverlayFitMode"@
        || key == "codexAppDreamSkinEnabled"@
        || key == "codexAppDreamSkinPaused"@
        || key == "codexAppDreamSkinTheme"@
        || key == "codexAppDreamSkinThemeConfig"@
        || key == "codexAppDreamSkinImagePath"@
}

pub(super) proof fn lemma_looks_fields(
    target: JsonView,
    source: JsonView,
    parsed: ParsedChange,
    key: Seq<char>,
)
    requires
        !is_looks_field(key) || source.field(key) is None,
    ensures
        merged_looks_fields(target, source, parsed).field(key) == target.field(key),
{
    let t0 = merged_field(target, source, "codexAppImageOverlayEnabled"@, FieldKind::Flag);
    lemma_merged_field(target, source, "codexAppImageOverlayEnabled"@, FieldKind::Flag, key);
    let t1 = merged_field(t0, source, "codexAppImageOverlayPath"@, FieldKind::Text);
    lemma_merged_field(t0, source, "codexAppImageOverlayPath"@, FieldKind::Text, key);
    let t2 = merged_field(t1, source, "codexAppImageOverlayOpacity"@, FieldKind::Opacity);
    lemma_merged_field(t1, source, "codexAppImageOverlayOpacity"@, FieldKind::Opacity, key);
    let t3 = merged_field(t2, source, "codexAppImageOverlayFitMode"@, FieldKind::FitMode);
    lemma_merged_field(t2, source, "codexAppImageOverlayFitMode"@, FieldKind::FitMode, key);
    let t4 = merged_field(t3, source, "codexAppDreamSkinEnabled"@, FieldKind::Flag);
    lemma_merged_field(t3, source, "codexAppDreamSkinEnabled"@, FieldKind::Flag, key);
    let t5 = merged_field(t4, source, "codexAppDreamSkinPaused"@, FieldKind::Flag);
    lemma_merged_field(t4, source, "codexAppDreamSkinPaused"@, FieldKind::Flag, key);
    let t6 = merged_field(t5, source, "codexAppDreamSkinTheme"@, FieldKind::Theme);
    lemma_merged_field(t5, source, "codexAppDreamSkinTheme"@, FieldKind::Theme, key);
    let t7 = merged_field(t6, source, "codexAppDreamSkinThemeConfig"@, FieldKind::Whole(parsed.skin_is_valid));
    lemma_merged_field(t6, source, "codexAppDreamSkinThemeConfig"@, FieldKind::Whole(parsed.skin_is_valid), key);
    let t8 = merged_field(t7, source, "codexAppDreamSkinImagePath"@, FieldKind::Trimmed);
    lemma_merged_field(t7, source, "codexAppDreamSkinImagePath"@, FieldKind::Trimmed, key);
}

/// The known fields among these.
pub open spec fn is_weixin_field(key: Seq<char>) -> bool {
    key == "weixinConnectEnabled"@
        || key == "weixinConnectBaseUrl"@
        || key == "weixinConnectToken"@
        || key == "weixinConnectAccountId"@
        || key == "weixinConnectAllowFrom"@
        || key == "weixinConnectRouteTag"@
        || key == "weixinConnectWorkDir"@
        || key == "weixinConnectModel"@
        || key == "weixinConnectSandbox"@
        || key == "weixinConnectCodexPath"@
}

pub(super) proof fn lemma_weixin_fields(
    target: JsonView,
    source: JsonView,
    parsed: ParsedChange,
    key: Seq<char>,
)
    requires
        !is_weixin_field(key) || source.field(key) is None,
    ensures
        merged_weixin_fields(target, source, parsed).field(key) == target.field(key),
{
    let t0 = merged_field(target, source, "weixinConnectEnabled"@, FieldKind::Flag);
    lemma_merged_field(target, source, "weixinConnectEnabled"@, FieldKind::Flag, key);
    let t1 = merged_field(t0, source, "weixinConnectBaseUrl"@, FieldKind::Trimmed);
    lemma_merged_field(t0, source, "weixinConnectBaseUrl"@, FieldKind::Trimmed, key);
    let t2 = merged_field(t1, source, "weixinConnectToken"@, FieldKind::Trimmed);
    lemma_merged_field(t1, source, "weixinConnectToken"@, FieldKind::Trimmed, key);
    let t3 = merged_field(t2, source, "weixinConnectAccountId"@, FieldKind::Trimmed);
    lemma_merged_field(t2, source, "weixinConnectAccountId"@, FieldKind::Trimmed, key);
    let t4 = merged_field(t3, source, "weixinConnectAllowFrom"@, FieldKind::Trimmed);
    lemma_merged_field(t3, source, "weixinConnectAllowFrom"@, FieldKind::Trimmed, key);
    let t5 = merged_field(t4, source, "weixinConnectRouteTag"@, FieldKind::Trimmed);
    lemma_merged_field(t4, source, "weixinConnectRouteTag"@, FieldKind::Trimmed, key);
    let t6 = merged_field(t5, source, "weixinConnectWorkDir"@, FieldKind::Trimmed);
    lemma_merged_field(t5, source, "weixinConnectWorkDir"@, FieldKind::Trimmed, key);
    let t7 = merged_field(t6, source, "weixinConnectModel"@, FieldKind::Trimmed);
    lemma_merged_field(t6, source, "weixinConnectModel"@, FieldKind::Trimmed, key);
    let t8 = merged_field(t7, source, "weixinConnectSandbox"@, FieldKind::Trimmed);
    lemma_merged_field(t7, source, "weixinConnectSandbox"@, FieldKind::Trimmed, key);
    let t9 = merged_field(t8, source, "weixinConnectCodexPath"@, FieldKind::Trimmed);
    lemma_merged_field(t8, source, "weixinConnectCodexPath"@, FieldKind::Trimmed, key);
}

/// The known fields among these.
pub open spec fn is_relay_field(key: Seq<char>) -> bool {
    key == "launchMode"@
        || key == "relayBaseUrl"@
        || key == "relayApiKey"@
        || key == "relayCommonConfigContents"@
        || key == "relayContextConfigContents"@
        || key == "activeRelayId"@
        || key == "aggregateRelayProfiles"@
        || key == "activeAggregateRelayId"@
        || key == "relayTestModel"@
}

pub(super) proof fn lemma_relay_fields(
    target: JsonView,
    source: JsonView,
    parsed: ParsedChange,
    key: Seq<char>,
)
    requires
        !is_relay_field(key) || source.field(key) is None,
    ensures
        merged_relay_fields(target, source, parsed).field(key) == target.field(key),
{
    let t0 = merged_field(target, source, "launchMode"@, FieldKind::LaunchMode);
    lemma_merged_field(target, source, "launchMode"@, FieldKind::LaunchMode, key);
    let t1 = merged_field(t0, source, "relayBaseUrl"@, FieldKind::Text);
    lemma_merged_field(t0, source, "relayBaseUrl"@, FieldKind::Text, key);
    let t2 = merged_field(t1, source, "relayApiKey"@, FieldKind::Text);
    lemma_merged_field(t1, source, "relayApiKey"@, FieldKind::Text, key);
    let t3 = merged_field(t2, source, "relayCommonConfigContents"@, FieldKind::Text);
    lemma_merged_field(t2, source, "relayCommonConfigContents"@, FieldKind::Text, key);
    let t4 = merged_field(t3, source, "relayContextConfigContents"@, FieldKind::Text);
    lemma_merged_field(t3, source, "relayContextConfigContents"@, FieldKind::Text, key);
    let t5 = merged_field(t4, source, "activeRelayId"@, FieldKind::Text);
    lemma_merged_field(t4, source, "activeRelayId"@, FieldKind::Text, key);
    let t6 = merged_field(t5, source, "aggregateRelayProfiles"@, FieldKind::List);
    lemma_merged_field(t5, source, "aggregateRelayProfiles"@, FieldKind::List, key);
    let t7 = merged_field(t6, source, "activeAggregateRelayId"@, FieldKind::Text);
    lemma_merged_field(t6, source, "activeAggregateRelayId"@, FieldKind::Text, key);
    let t8 = merged_field(t7, source, "relayTestModel"@, FieldKind::TestModel);
    lemma_merged_field(t7, source, "relayTestModel"@, FieldKind::TestModel, key);
}

/// The fields that a change can change.
pub open spec fn is_known_field(key: Seq<char>) -> bool {
    is_app_field(key) || is_stepwise_field(key) || is_looks_field(key) || is_weixin_field(key)
        || is_relay_field(key) || key == "relayProfiles"@
}

/// A field that a change does not have, or that is none of the known ones, stays as it is stored:
/// fields of another version survive a change.
pub proof fn other_fields_stay(
    target: JsonView,
    source: JsonView,
    parsed: ParsedChange,
    key: Seq<char>,
)
    requires
        !is_retired(key),
        !is_known_field(key) || source.field(key) is None,
    ensures
        merged_settings(target, source, parsed).field(key) == target.field(key),
{
    let current = target.without("codexAppPluginAutoExpand"@).without("computerUseGuardEnabled"@);
    lemma_app_fields(current, source, parsed, key);
    let app = merged_app_fields(current, source, parsed);
    lemma_stepwise_fields(app, source, parsed, key);
    let stepwise = merged_stepwise_fields(app, source, parsed);
    lemma_looks_fields(stepwise, source, parsed, key);
    let looks = merged_looks_fields(stepwise, source, parsed);
    lemma_weixin_fields(looks, source, parsed, key);
    let weixin = merged_weixin_fields(looks, source, parsed);
    lemma_relay_fields(weixin, source, parsed, key);
    let relay = merged_relay_fields(weixin, source, parsed);
    assert(merged_relays(relay, source, parsed).field(key) == relay.field(key));
}

} // verus!
