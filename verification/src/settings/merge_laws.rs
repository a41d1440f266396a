//! What a change of stored settings does to each field.
use vstd::prelude::*;

use super::merge::{
    is_app_field, is_looks_field, is_relay_field, is_stepwise_field, is_weixin_field,
    lemma_app_fields, lemma_looks_fields, lemma_relay_fields, lemma_stepwise_fields,
    lemma_weixin_fields, merged_app_fields, merged_field, merged_looks_fields, merged_relay_fields,
    merged_settings, merged_stepwise_fields, merged_weixin_fields, taken_value, text_items,
    FieldKind, ParsedChange,
};
use crate::json::JsonView;
use crate::text::trimmed;

verus! {

/// What is stored for a field after a change: the value of the change, as its kind has it, or what
/// was stored where the change has none that does.
pub open spec fn stored_after(
    before: Option<JsonView>,
    change: Option<JsonView>,
    kind: FieldKind,
) -> Option<JsonView> {
    match change {
        Some(value) => match taken_value(value, kind) {
            Some(taken) => Some(taken),
            None => before,
        },
        None => before,
    }
}

proof fn lemma_step(
    target: JsonView,
    source: JsonView,
    key: Seq<char>,
    kind: FieldKind,
    other: Seq<char>,
)
    requires
        target is Object,
    ensures
        merged_field(target, source, key, kind) is Object,
        other != key ==> merged_field(target, source, key, kind).field(other) == target.field(
            other,
        ),
        merged_field(target, source, key, kind).field(key) == stored_after(
            target.field(key),
            source.field(key),
            kind,
        ),
{
    reveal(merged_field);
}

/// How the names of the fields differ.
proof fn lemma_field_names()
    ensures
        "codexAppPath"@.len() == 12 && "codexAppPath"@[0] == 'c',
        "codexExtraArgs"@.len() == 14 && "codexExtraArgs"@[0] == 'c',
        "providerSyncEnabled"@.len() == 19 && "providerSyncEnabled"@[0] == 'p',
        "ccsDbPath"@.len() == 9,
        "relayProfilesEnabled"@.len() == 20 && "relayProfilesEnabled"@[0] == 'r',
        "enhancementsEnabled"@.len() == 19 && "enhancementsEnabled"@[0] == 'e',
        "codexAppPluginMarketplaceUnlock"@.len() == 31 && "codexAppPluginMarketplaceUnlock"@[0] == 'c' && "codexAppPluginMarketplaceUnlock"@[8] == 'P',
        "codexAppModelWhitelistUnlock"@.len() == 28 && "codexAppModelWhitelistUnlock"@[8] == 'M',
        "codexAppSessionDelete"@.len() == 21 && "codexAppSessionDelete"@[8] == 'S' && "codexAppSessionDelete"@[9] == 'e',
        "codexAppMarkdownExport"@.len() == 22 && "codexAppMarkdownExport"@[8] == 'M',
        "codexAppPasteFix"@.len() == 16,
        "codexAppForceChineseLocale"@.len() == 26 && "codexAppForceChineseLocale"@[0] == 'c' && "codexAppForceChineseLocale"@[8] == 'F',
        "codexAppFastStartup"@.len() == 19 && "codexAppFastStartup"@[0] == 'c',
        "codexAppThreadIdBadge"@.len() == 21 && "codexAppThreadIdBadge"@[8] == 'T',
        "codexAppConversationView"@.len() == 24 && "codexAppConversationView"@[8] == 'C',
        "codexAppThreadScrollRestore"@.len() == 27 && "codexAppThreadScrollRestore"@[8] == 'T',
        "codexAppZedRemoteOpen"@.len() == 21 && "codexAppZedRemoteOpen"@[8] == 'Z',
        "zedRemoteOpenStrategy"@.len() == 21 && "zedRemoteOpenStrategy"@[8] == 'e',
        "zedRemoteProjectRegistryEnabled"@.len() == 31 && "zedRemoteProjectRegistryEnabled"@[0] == 'z',
        "zedRemoteSyncToZedSettings"@.len() == 26 && "zedRemoteSyncToZedSettings"@[0] == 'z',
        "codexAppUpstreamWorktreeCreate"@.len() == 30 && "codexAppUpstreamWorktreeCreate"@[8] == 'U',
        "codexAppNativeMenuPlacement"@.len() == 27 && "codexAppNativeMenuPlacement"@[8] == 'N',
        "codexAppNativeMenuLocalization"@.len() == 30 && "codexAppNativeMenuLocalization"@[8] == 'N',
        "codexAppServiceTierControls"@.len() == 27 && "codexAppServiceTierControls"@[8] == 'S',
        "codexAppPetRealMouseLook"@.len() == 24 && "codexAppPetRealMouseLook"@[8] == 'P' && "codexAppPetRealMouseLook"@[9] == 'e',
        "codexGoalsEnabled"@.len() == 17,
        "codexAppStepwiseEnabled"@.len() == 23 && "codexAppStepwiseEnabled"@[2] == 'd' && "codexAppStepwiseEnabled"@[16] == 'E',
        "codexAppStepwiseDirectSend"@.len() == 26 && "codexAppStepwiseDirectSend"@[0] == 'c' && "codexAppStepwiseDirectSend"@[8] == 'S',
        "codexAppStepwiseBaseUrl"@.len() == 23 && "codexAppStepwiseBaseUrl"@[2] == 'd' && "codexAppStepwiseBaseUrl"@[16] == 'B',
        "codexAppStepwiseApiKey"@.len() == 22 && "codexAppStepwiseApiKey"@[8] == 'S',
        "codexAppStepwiseApiKeyEnv"@.len() == 25 && "codexAppStepwiseApiKeyEnv"@[16] == 'A',
        "codexAppStepwiseProtocol"@.len() == 24 && "codexAppStepwiseProtocol"@[8] == 'S' && "codexAppStepwiseProtocol"@[16] == 'P',
        "codexAppStepwiseModel"@.len() == 21 && "codexAppStepwiseModel"@[8] == 'S' && "codexAppStepwiseModel"@[9] == 't',
        "codexAppStepwiseMaxItems"@.len() == 24 && "codexAppStepwiseMaxItems"@[8] == 'S' && "codexAppStepwiseMaxItems"@[16] == 'M',
        "codexAppStepwiseMaxInputChars"@.len() == 29,
        "codexAppStepwiseMaxOutputTokens"@.len() == 31 && "codexAppStepwiseMaxOutputTokens"@[0] == 'c' && "codexAppStepwiseMaxOutputTokens"@[8] == 'S',
        "codexAppStepwiseTimeoutMs"@.len() == 25 && "codexAppStepwiseTimeoutMs"@[16] == 'T',
        "codexAppImageOverlayEnabled"@.len() == 27 && "codexAppImageOverlayEnabled"@[8] == 'I' && "codexAppImageOverlayEnabled"@[20] == 'E',
        "codexAppImageOverlayPath"@.len() == 24 && "codexAppImageOverlayPath"@[8] == 'I',
        "codexAppImageOverlayOpacity"@.len() == 27 && "codexAppImageOverlayOpacity"@[8] == 'I' && "codexAppImageOverlayOpacity"@[20] == 'O',
        "codexAppImageOverlayFitMode"@.len() == 27 && "codexAppImageOverlayFitMode"@[8] == 'I' && "codexAppImageOverlayFitMode"@[20] == 'F',
        "codexAppDreamSkinEnabled"@.len() == 24 && "codexAppDreamSkinEnabled"@[8] == 'D',
        "codexAppDreamSkinPaused"@.len() == 23 && "codexAppDreamSkinPaused"@[2] == 'd' && "codexAppDreamSkinPaused"@[16] == 'n',
        "codexAppDreamSkinTheme"@.len() == 22 && "codexAppDreamSkinTheme"@[8] == 'D',
        "codexAppDreamSkinThemeConfig"@.len() == 28 && "codexAppDreamSkinThemeConfig"@[8] == 'D',
        "codexAppDreamSkinImagePath"@.len() == 26 && "codexAppDreamSkinImagePath"@[0] == 'c' && "codexAppDreamSkinImagePath"@[8] == 'D',
        "weixinConnectEnabled"@.len() == 20 && "weixinConnectEnabled"@[0] == 'w' && "weixinConnectEnabled"@[13] == 'E',
        "weixinConnectBaseUrl"@.len() == 20 && "weixinConnectBaseUrl"@[0] == 'w' && "weixinConnectBaseUrl"@[13] == 'B',
        "weixinConnectToken"@.len() == 18 && "weixinConnectToken"@[13] == 'T',
        "weixinConnectAccountId"@.len() == 22 && "weixinConnectAccountId"@[8] == 'n' && "weixinConnectAccountId"@[14] == 'c',
        "weixinConnectAllowFrom"@.len() == 22 && "weixinConnectAllowFrom"@[8] == 'n' && "weixinConnectAllowFrom"@[14] == 'l',
        "weixinConnectRouteTag"@.len() == 21 && "weixinConnectRouteTag"@[8] == 'n',
        "weixinConnectWorkDir"@.len() == 20 && "weixinConnectWorkDir"@[0] == 'w' && "weixinConnectWorkDir"@[13] == 'W',
        "weixinConnectModel"@.len() == 18 && "weixinConnectModel"@[13] == 'M',
        "weixinConnectSandbox"@.len() == 20 && "weixinConnectSandbox"@[0] == 'w' && "weixinConnectSandbox"@[13] == 'S',
        "weixinConnectCodexPath"@.len() == 22 && "weixinConnectCodexPath"@[8] == 'n' && "weixinConnectCodexPath"@[14] == 'o',
        "launchMode"@.len() == 10,
        "relayBaseUrl"@.len() == 12 && "relayBaseUrl"@[0] == 'r',
        "relayApiKey"@.len() == 11,
        "relayCommonConfigContents"@.len() == 25 && "relayCommonConfigContents"@[16] == 'g',
        "relayContextConfigContents"@.len() == 26 && "relayContextConfigContents"@[0] == 'r',
        "activeRelayId"@.len() == 13 && "activeRelayId"@[0] == 'a',
        "aggregateRelayProfiles"@.len() == 22 && "aggregateRelayProfiles"@[8] == 'e',
        "activeAggregateRelayId"@.len() == 22 && "activeAggregateRelayId"@[8] == 'g',
        "relayTestModel"@.len() == 14 && "relayTestModel"@[0] == 'r',
        "relayProfiles"@.len() == 13 && "relayProfiles"@[0] == 'r',
        "codexAppPluginAutoExpand"@.len() == 24 && "codexAppPluginAutoExpand"@[8] == 'P' && "codexAppPluginAutoExpand"@[9] == 'l',
        "computerUseGuardEnabled"@.len() == 23 && "computerUseGuardEnabled"@[2] == 'm',
{
    reveal_strlit("codexAppPath");
    reveal_strlit("codexExtraArgs");
    reveal_strlit("providerSyncEnabled");
    reveal_strlit("ccsDbPath");
    reveal_strlit("relayProfilesEnabled");
    reveal_strlit("enhancementsEnabled");
    reveal_strlit("codexAppPluginMarketplaceUnlock");
    reveal_strlit("codexAppModelWhitelistUnlock");
    reveal_strlit("codexAppSessionDelete");
    reveal_strlit("codexAppMarkdownExport");
    reveal_strlit("codexAppPasteFix");
    reveal_strlit("codexAppForceChineseLocale");
    reveal_strlit("codexAppFastStartup");
    reveal_strlit("codexAppThreadIdBadge");
    reveal_strlit("codexAppConversationView");
    reveal_strlit("codexAppThreadScrollRestore");
    reveal_strlit("codexAppZedRemoteOpen");
    reveal_strlit("zedRemoteOpenStrategy");
    reveal_strlit("zedRemoteProjectRegistryEnabled");
    reveal_strlit("zedRemoteSyncToZedSettings");
    reveal_strlit("codexAppUpstreamWorktreeCreate");
    reveal_strlit("codexAppNativeMenuPlacement");
    reveal_strlit("codexAppNativeMenuLocalization");
    reveal_strlit("codexAppServiceTierControls");
    reveal_strlit("codexAppPetRealMouseLook");
    reveal_strlit("codexGoalsEnabled");
    reveal_strlit("codexAppStepwiseEnabled");
    reveal_strlit("codexAppStepwiseDirectSend");
    reveal_strlit("codexAppStepwiseBaseUrl");
    reveal_strlit("codexAppStepwiseApiKey");
    reveal_strlit("codexAppStepwiseApiKeyEnv");
    reveal_strlit("codexAppStepwiseProtocol");
    reveal_strlit("codexAppStepwiseModel");
    reveal_strlit("codexAppStepwiseMaxItems");
    reveal_strlit("codexAppStepwiseMaxInputChars");
    reveal_strlit("codexAppStepwiseMaxOutputTokens");
    reveal_strlit("codexAppStepwiseTimeoutMs");
    reveal_strlit("codexAppImageOverlayEnabled");
    reveal_strlit("codexAppImageOverlayPath");
    reveal_strlit("codexAppImageOverlayOpacity");
    reveal_strlit("codexAppImageOverlayFitMode");
    reveal_strlit("codexAppDreamSkinEnabled");
    reveal_strlit("codexAppDreamSkinPaused");
    reveal_strlit("codexAppDreamSkinTheme");
    reveal_strlit("codexAppDreamSkinThemeConfig");
    reveal_strlit("codexAppDreamSkinImagePath");
    reveal_strlit("weixinConnectEnabled");
    reveal_strlit("weixinConnectBaseUrl");
    reveal_strlit("weixinConnectToken");
    reveal_strlit("weixinConnectAccountId");
    reveal_strlit("weixinConnectAllowFrom");
    reveal_strlit("weixinConnectRouteTag");
    reveal_strlit("weixinConnectWorkDir");
    reveal_strlit("weixinConnectModel");
    reveal_strlit("weixinConnectSandbox");
    reveal_strlit("weixinConnectCodexPath");
    reveal_strlit("launchMode");
    reveal_strlit("relayBaseUrl");
    reveal_strlit("relayApiKey");
    reveal_strlit("relayCommonConfigContents");
    reveal_strlit("relayContextConfigContents");
    reveal_strlit("activeRelayId");
    reveal_strlit("aggregateRelayProfiles");
    reveal_strlit("activeAggregateRelayId");
    reveal_strlit("relayTestModel");
    reveal_strlit("relayProfiles");
    reveal_strlit("codexAppPluginAutoExpand");
    reveal_strlit("computerUseGuardEnabled");
}

/// How each field is taken over, of the switches and paths of the app.
pub open spec fn app_kind(key: Seq<char>, parsed: ParsedChange) -> Option<FieldKind> {
    if key == "codexAppPath"@ {
        Some(FieldKind::Text)
    } else if key == "codexExtraArgs"@ {
        Some(FieldKind::Args)
    } else if key == "providerSyncEnabled"@ {
        Some(FieldKind::Flag)
    } else if key == "ccsDbPath"@ {
        Some(FieldKind::Trimmed)
    } else if key == "relayProfilesEnabled"@ {
        Some(FieldKind::Flag)
    } else if key == "enhancementsEnabled"@ {
        Some(FieldKind::Flag)
    } else if key == "codexAppPluginMarketplaceUnlock"@ {
        Some(FieldKind::Flag)
    } else if key == "codexAppModelWhitelistUnlock"@ {
        Some(FieldKind::Flag)
    } else if key == "codexAppSessionDelete"@ {
        Some(FieldKind::Flag)
    } else if key == "codexAppMarkdownExport"@ {
        Some(FieldKind::Flag)
    } else if key == "codexAppPasteFix"@ {
        Some(FieldKind::Flag)
    } else if key == "codexAppForceChineseLocale"@ {
        Some(FieldKind::Flag)
    } else if key == "codexAppFastStartup"@ {
        Some(FieldKind::Flag)
    } else if key == "codexAppThreadIdBadge"@ {
        Some(FieldKind::Flag)
    } else if key == "codexAppConversationView"@ {
        Some(FieldKind::Flag)
    } else if key == "codexAppThreadScrollRestore"@ {
        Some(FieldKind::Flag)
    } else if key == "codexAppZedRemoteOpen"@ {
        Some(FieldKind::Flag)
    } else if key == "zedRemoteOpenStrategy"@ {
        Some(FieldKind::Whole(parsed.zed_strategy_is_known))
    } else if key == "zedRemoteProjectRegistryEnabled"@ {
        Some(FieldKind::Flag)
    } else if key == "zedRemoteSyncToZedSettings"@ {
        Some(FieldKind::Flag)
    } else if key == "codexAppUpstreamWorktreeCreate"@ {
        Some(FieldKind::Flag)
    } else if key == "codexAppNativeMenuPlacement"@ {
        Some(FieldKind::Flag)
    } else if key == "codexAppNativeMenuLocalization"@ {
        Some(FieldKind::Flag)
    } else if key == "codexAppServiceTierControls"@ {
        Some(FieldKind::Flag)
    } else if key == "codexAppPetRealMouseLook"@ {
        Some(FieldKind::Flag)
    } else if key == "codexGoalsEnabled"@ {
        Some(FieldKind::Flag)
    } else {
        None
    }
}

proof fn lemma_app_taken(
    target: JsonView,
    source: JsonView,
    parsed: ParsedChange,
    key: Seq<char>,
)
    requires
        target is Object,
        app_kind(key, parsed) is Some,
    ensures
        merged_app_fields(target, source, parsed).field(key) == stored_after(
            target.field(key),
            source.field(key),
            app_kind(key, parsed)->0,
        ),
        is_app_field(key),
{
    lemma_field_names();
    let t0 = merged_field(target, source, "codexAppPath"@, FieldKind::Text);
    lemma_step(target, source, "codexAppPath"@, FieldKind::Text, key);
    let t1 = merged_field(t0, source, "codexExtraArgs"@, FieldKind::Args);
    lemma_step(t0, source, "codexExtraArgs"@, FieldKind::Args, key);
    let t2 = merged_field(t1, source, "providerSyncEnabled"@, FieldKind::Flag);
    lemma_step(t1, source, "providerSyncEnabled"@, FieldKind::Flag, key);
    let t3 = merged_field(t2, source, "ccsDbPath"@, FieldKind::Trimmed);
    lemma_step(t2, source, "ccsDbPath"@, FieldKind::Trimmed, key);
    let t4 = merged_field(t3, source, "relayProfilesEnabled"@, FieldKind::Flag);
    lemma_step(t3, source, "relayProfilesEnabled"@, FieldKind::Flag, key);
    let t5 = merged_field(t4, source, "enhancementsEnabled"@, FieldKind::Flag);
    lemma_step(t4, source, "enhancementsEnabled"@, FieldKind::Flag, key);
    let t6 = merged_field(t5, source, "codexAppPluginMarketplaceUnlock"@, FieldKind::Flag);
    lemma_step(t5, source, "codexAppPluginMarketplaceUnlock"@, FieldKind::Flag, key);
    let t7 = merged_field(t6, source, "codexAppModelWhitelistUnlock"@, FieldKind::Flag);
    lemma_step(t6, source, "codexAppModelWhitelistUnlock"@, FieldKind::Flag, key);
    let t8 = merged_field(t7, source, "codexAppSessionDelete"@, FieldKind::Flag);
    lemma_step(t7, source, "codexAppSessionDelete"@, FieldKind::Flag, key);
    let t9 = merged_field(t8, source, "codexAppMarkdownExport"@, FieldKind::Flag);
    lemma_step(t8, source, "codexAppMarkdownExport"@, FieldKind::Flag, key);
    let t10 = merged_field(t9, source, "codexAppPasteFix"@, FieldKind::Flag);
    lemma_step(t9, source, "codexAppPasteFix"@, FieldKind::Flag, key);
    let t11 = merged_field(t10, source, "codexAppForceChineseLocale"@, FieldKind::Flag);
    lemma_step(t10, source, "codexAppForceChineseLocale"@, FieldKind::Flag, key);
    let t12 = merged_field(t11, source, "codexAppFastStartup"@, FieldKind::Flag);
    lemma_step(t11, source, "codexAppFastStartup"@, FieldKind::Flag, key);
    let t13 = merged_field(t12, source, "codexAppThreadIdBadge"@, FieldKind::Flag);
    lemma_step(t12, source, "codexAppThreadIdBadge"@, FieldKind::Flag, key);
    let t14 = merged_field(t13, source, "codexAppConversationView"@, FieldKind::Flag);
    lemma_step(t13, source, "codexAppConversationView"@, FieldKind::Flag, key);
    let t15 = merged_field(t14, source, "codexAppThreadScrollRestore"@, FieldKind::Flag);
    lemma_step(t14, source, "codexAppThreadScrollRestore"@, FieldKind::Flag, key);
    let t16 = merged_field(t15, source, "codexAppZedRemoteOpen"@, FieldKind::Flag);
    lemma_step(t15, source, "codexAppZedRemoteOpen"@, FieldKind::Flag, key);
    let t17 = merged_field(t16, source, "zedRemoteOpenStrategy"@, FieldKind::Whole(parsed.zed_strategy_is_known));
    lemma_step(t16, source, "zedRemoteOpenStrategy"@, FieldKind::Whole(parsed.zed_strategy_is_known), key);
    let t18 = merged_field(t17, source, "zedRemoteProjectRegistryEnabled"@, FieldKind::Flag);
    lemma_step(t17, source, "zedRemoteProjectRegistryEnabled"@, FieldKind::Flag, key);
    let t19 = merged_field(t18, source, "zedRemoteSyncToZedSettings"@, FieldKind::Flag);
    lemma_step(t18, source, "zedRemoteSyncToZedSettings"@, FieldKind::Flag, key);
    let t20 = merged_field(t19, source, "codexAppUpstreamWorktreeCreate"@, FieldKind::Flag);
    lemma_step(t19, source, "codexAppUpstreamWorktreeCreate"@, FieldKind::Flag, key);
    let t21 = merged_field(t20, source, "codexAppNativeMenuPlacement"@, FieldKind::Flag);
    lemma_step(t20, source, "codexAppNativeMenuPlacement"@, FieldKind::Flag, key);
    let t22 = merged_field(t21, source, "codexAppNativeMenuLocalization"@, FieldKind::Flag);
    lemma_step(t21, source, "codexAppNativeMenuLocalization"@, FieldKind::Flag, key);
    let t23 = merged_field(t22, source, "codexAppServiceTierControls"@, FieldKind::Flag);
    lemma_step(t22, source, "codexAppServiceTierControls"@, FieldKind::Flag, key);
    let t24 = merged_field(t23, source, "codexAppPetRealMouseLook"@, FieldKind::Flag);
    lemma_step(t23, source, "codexAppPetRealMouseLook"@, FieldKind::Flag, key);
    let t25 = merged_field(t24, source, "codexGoalsEnabled"@, FieldKind::Flag);
    lemma_step(t24, source, "codexGoalsEnabled"@, FieldKind::Flag, key);
}

proof fn lemma_app_object(target: JsonView, source: JsonView, parsed: ParsedChange)
    requires
        target is Object,
    ensures
        merged_app_fields(target, source, parsed) is Object,
{
    let key = Seq::<char>::empty();
    let t0 = merged_field(target, source, "codexAppPath"@, FieldKind::Text);
    lemma_step(target, source, "codexAppPath"@, FieldKind::Text, key);
    let t1 = merged_field(t0, source, "codexExtraArgs"@, FieldKind::Args);
    lemma_step(t0, source, "codexExtraArgs"@, FieldKind::Args, key);
    let t2 = merged_field(t1, source, "providerSyncEnabled"@, FieldKind::Flag);
    lemma_step(t1, source, "providerSyncEnabled"@, FieldKind::Flag, key);
    let t3 = merged_field(t2, source, "ccsDbPath"@, FieldKind::Trimmed);
    lemma_step(t2, source, "ccsDbPath"@, FieldKind::Trimmed, key);
    let t4 = merged_field(t3, source, "relayProfilesEnabled"@, FieldKind::Flag);
    lemma_step(t3, source, "relayProfilesEnabled"@, FieldKind::Flag, key);
    let t5 = merged_field(t4, source, "enhancementsEnabled"@, FieldKind::Flag);
    lemma_step(t4, source, "enhancementsEnabled"@, FieldKind::Flag, key);
    let t6 = merged_field(t5, source, "codexAppPluginMarketplaceUnlock"@, FieldKind::Flag);
    lemma_step(t5, source, "codexAppPluginMarketplaceUnlock"@, FieldKind::Flag, key);
    let t7 = merged_field(t6, source, "codexAppModelWhitelistUnlock"@, FieldKind::Flag);
    lemma_step(t6, source, "codexAppModelWhitelistUnlock"@, FieldKind::Flag, key);
    let t8 = merged_field(t7, source, "codexAppSessionDelete"@, FieldKind::Flag);
    lemma_step(t7, source, "codexAppSessionDelete"@, FieldKind::Flag, key);
    let t9 = merged_field(t8, source, "codexAppMarkdownExport"@, FieldKind::Flag);
    lemma_step(t8, source, "codexAppMarkdownExport"@, FieldKind::Flag, key);
    let t10 = merged_field(t9, source, "codexAppPasteFix"@, FieldKind::Flag);
    lemma_step(t9, source, "codexAppPasteFix"@, FieldKind::Flag, key);
    let t11 = merged_field(t10, source, "codexAppForceChineseLocale"@, FieldKind::Flag);
    lemma_step(t10, source, "codexAppForceChineseLocale"@, FieldKind::Flag, key);
    let t12 = merged_field(t11, source, "codexAppFastStartup"@, FieldKind::Flag);
    lemma_step(t11, source, "codexAppFastStartup"@, FieldKind::Flag, key);
    let t13 = merged_field(t12, source, "codexAppThreadIdBadge"@, FieldKind::Flag);
    lemma_step(t12, source, "codexAppThreadIdBadge"@, FieldKind::Flag, key);
    let t14 = merged_field(t13, source, "codexAppConversationView"@, FieldKind::Flag);
    lemma_step(t13, source, "codexAppConversationView"@, FieldKind::Flag, key);
    let t15 = merged_field(t14, source, "codexAppThreadScrollRestore"@, FieldKind::Flag);
    lemma_step(t14, source, "codexAppThreadScrollRestore"@, FieldKind::Flag, key);
    let t16 = merged_field(t15, source, "codexAppZedRemoteOpen"@, FieldKind::Flag);
    lemma_step(t15, source, "codexAppZedRemoteOpen"@, FieldKind::Flag, key);
    let t17 = merged_field(t16, source, "zedRemoteOpenStrategy"@, FieldKind::Whole(parsed.zed_strategy_is_known));
    lemma_step(t16, source, "zedRemoteOpenStrategy"@, FieldKind::Whole(parsed.zed_strategy_is_known), key);
    let t18 = merged_field(t17, source, "zedRemoteProjectRegistryEnabled"@, FieldKind::Flag);
    lemma_step(t17, source, "zedRemoteProjectRegistryEnabled"@, FieldKind::Flag, key);
    let t19 = merged_field(t18, source, "zedRemoteSyncToZedSettings"@, FieldKind::Flag);
    lemma_step(t18, source, "zedRemoteSyncToZedSettings"@, FieldKind::Flag, key);
    let t20 = merged_field(t19, source, "codexAppUpstreamWorktreeCreate"@, FieldKind::Flag);
    lemma_step(t19, source, "codexAppUpstreamWorktreeCreate"@, FieldKind::Flag, key);
    let t21 = merged_field(t20, source, "codexAppNativeMenuPlacement"@, FieldKind::Flag);
    lemma_step(t20, source, "codexAppNativeMenuPlacement"@, FieldKind::Flag, key);
    let t22 = merged_field(t21, source, "codexAppNativeMenuLocalization"@, FieldKind::Flag);
    lemma_step(t21, source, "codexAppNativeMenuLocalization"@, FieldKind::Flag, key);
    let t23 = merged_field(t22, source, "codexAppServiceTierControls"@, FieldKind::Flag);
    lemma_step(t22, source, "codexAppServiceTierControls"@, FieldKind::Flag, key);
    let t24 = merged_field(t23, source, "codexAppPetRealMouseLook"@, FieldKind::Flag);
    lemma_step(t23, source, "codexAppPetRealMouseLook"@, FieldKind::Flag, key);
    let t25 = merged_field(t24, source, "codexGoalsEnabled"@, FieldKind::Flag);
    lemma_step(t24, source, "codexGoalsEnabled"@, FieldKind::Flag, key);
}

/// How each field is taken over, of the fields of the stepwise assistant.
pub open spec fn stepwise_kind(key: Seq<char>, parsed: ParsedChange) -> Option<FieldKind> {
    if key == "codexAppStepwiseEnabled"@ {
        Some(FieldKind::Flag)
    } else if key == "codexAppStepwiseDirectSend"@ {
        Some(FieldKind::Flag)
    } else if key == "codexAppStepwiseBaseUrl"@ {
        Some(FieldKind::Url)
    } else if key == "codexAppStepwiseApiKey"@ {
        Some(FieldKind::Trimmed)
    } else if key == "codexAppStepwiseApiKeyEnv"@ {
        Some(FieldKind::KeyEnv)
    } else if key == "codexAppStepwiseProtocol"@ {
        Some(FieldKind::Protocol)
    } else if key == "codexAppStepwiseModel"@ {
        Some(FieldKind::Trimmed)
    } else if key == "codexAppStepwiseMaxItems"@ {
        Some(FieldKind::MaxItems)
    } else if key == "codexAppStepwiseMaxInputChars"@ {
        Some(FieldKind::MaxInputChars)
    } else if key == "codexAppStepwiseMaxOutputTokens"@ {
        Some(FieldKind::MaxOutputTokens)
    } else if key == "codexAppStepwiseTimeoutMs"@ {
        Some(FieldKind::TimeoutMs)
    } else {
        None
    }
}

proof fn lemma_stepwise_taken(
    target: JsonView,
    source: JsonView,
    parsed: ParsedChange,
    key: Seq<char>,
)
    requires
        target is Object,
        stepwise_kind(key, parsed) is Some,
    ensures
        merged_stepwise_fields(target, source, parsed).field(key) == stored_after(
            target.field(key),
            source.field(key),
            stepwise_kind(key, parsed)->0,
        ),
        is_stepwise_field(key),
{
    lemma_field_names();
    let t0 = merged_field(target, source, "codexAppStepwiseEnabled"@, FieldKind::Flag);
    lemma_step(target, source, "codexAppStepwiseEnabled"@, FieldKind::Flag, key);
    let t1 = merged_field(t0, source, "codexAppStepwiseDirectSend"@, FieldKind::Flag);
    lemma_step(t0, source, "codexAppStepwiseDirectSend"@, FieldKind::Flag, key);
    let t2 = merged_field(t1, source, "codexAppStepwiseBaseUrl"@, FieldKind::Url);
    lemma_step(t1, source, "codexAppStepwiseBaseUrl"@, FieldKind::Url, key);
    let t3 = merged_field(t2, source, "codexAppStepwiseApiKey"@, FieldKind::Trimmed);
    lemma_step(t2, source, "codexAppStepwiseApiKey"@, FieldKind::Trimmed, key);
    let t4 = merged_field(t3, source, "codexAppStepwiseApiKeyEnv"@, FieldKind::KeyEnv);
    lemma_step(t3, source, "codexAppStepwiseApiKeyEnv"@, FieldKind::KeyEnv, key);
    let t5 = merged_field(t4, source, "codexAppStepwiseProtocol"@, FieldKind::Protocol);
    lemma_step(t4, source, "codexAppStepwiseProtocol"@, FieldKind::Protocol, key);
    let t6 = merged_field(t5, source, "codexAppStepwiseModel"@, FieldKind::Trimmed);
    lemma_step(t5, source, "codexAppStepwiseModel"@, FieldKind::Trimmed, key);
    let t7 = merged_field(t6, source, "codexAppStepwiseMaxItems"@, FieldKind::MaxItems);
    lemma_step(t6, source, "codexAppStepwiseMaxItems"@, FieldKind::MaxItems, key);
    let t8 = merged_field(t7, source, "codexAppStepwiseMaxInputChars"@, FieldKind::MaxInputChars);
    lemma_step(t7, source, "codexAppStepwiseMaxInputChars"@, FieldKind::MaxInputChars, key);
    let t9 = merged_field(t8, source, "codexAppStepwiseMaxOutputTokens"@, FieldKind::MaxOutputTokens);
    lemma_step(t8, source, "codexAppStepwiseMaxOutputTokens"@, FieldKind::MaxOutputTokens, key);
    let t10 = merged_field(t9, source, "codexAppStepwiseTimeoutMs"@, FieldKind::TimeoutMs);
    lemma_step(t9, source, "codexAppStepwiseTimeoutMs"@, FieldKind::TimeoutMs, key);
}

proof fn lemma_stepwise_object(target: JsonView, source: JsonView, parsed: ParsedChange)
    requires
        target is Object,
    ensures
        merged_stepwise_fields(target, source, parsed) is Object,
{
    let key = Seq::<char>::empty();
    let t0 = merged_field(target, source, "codexAppStepwiseEnabled"@, FieldKind::Flag);
    lemma_step(target, source, "codexAppStepwiseEnabled"@, FieldKind::Flag, key);
    let t1 = merged_field(t0, source, "codexAppStepwiseDirectSend"@, FieldKind::Flag);
    lemma_step(t0, source, "codexAppStepwiseDirectSend"@, FieldKind::Flag, key);
    let t2 = merged_field(t1, source, "codexAppStepwiseBaseUrl"@, FieldKind::Url);
    lemma_step(t1, source, "codexAppStepwiseBaseUrl"@, FieldKind::Url, key);
    let t3 = merged_field(t2, source, "codexAppStepwiseApiKey"@, FieldKind::Trimmed);
    lemma_step(t2, source, "codexAppStepwiseApiKey"@, FieldKind::Trimmed, key);
    let t4 = merged_field(t3, source, "codexAppStepwiseApiKeyEnv"@, FieldKind::KeyEnv);
    lemma_step(t3, source, "codexAppStepwiseApiKeyEnv"@, FieldKind::KeyEnv, key);
    let t5 = merged_field(t4, source, "codexAppStepwiseProtocol"@, FieldKind::Protocol);
    lemma_step(t4, source, "codexAppStepwiseProtocol"@, FieldKind::Protocol, key);
    let t6 = merged_field(t5, source, "codexAppStepwiseModel"@, FieldKind::Trimmed);
    lemma_step(t5, source, "codexAppStepwiseModel"@, FieldKind::Trimmed, key);
    let t7 = merged_field(t6, source, "codexAppStepwiseMaxItems"@, FieldKind::MaxItems);
    lemma_step(t6, source, "codexAppStepwiseMaxItems"@, FieldKind::MaxItems, key);
    let t8 = merged_field(t7, source, "codexAppStepwiseMaxInputChars"@, FieldKind::MaxInputChars);
    lemma_step(t7, source, "codexAppStepwiseMaxInputChars"@, FieldKind::MaxInputChars, key);
    let t9 = merged_field(t8, source, "codexAppStepwiseMaxOutputTokens"@, FieldKind::MaxOutputTokens);
    lemma_step(t8, source, "codexAppStepwiseMaxOutputTokens"@, FieldKind::MaxOutputTokens, key);
    let t10 = merged_field(t9, source, "codexAppStepwiseTimeoutMs"@, FieldKind::TimeoutMs);
    lemma_step(t9, source, "codexAppStepwiseTimeoutMs"@, FieldKind::TimeoutMs, key);
}

/// How each field is taken over, of the looks.
pub open spec fn looks_kind(key: Seq<char>, parsed: ParsedChange) -> Option<FieldKind> {
    if key == "codexAppImageOverlayEnabled"@ {
        Some(FieldKind::Flag)
    } else if key == "codexAppImageOverlayPath"@ {
        Some(FieldKind::Text)
    } else if key == "codexAppImageOverlayOpacity"@ {
        Some(FieldKind::Opacity)
    } else if key == "codexAppImageOverlayFitMode"@ {
        Some(FieldKind::FitMode)
    } else if key == "codexAppDreamSkinEnabled"@ {
        Some(FieldKind::Flag)
    } else if key == "codexAppDreamSkinPaused"@ {
        Some(FieldKind::Flag)
    } else if key == "codexAppDreamSkinTheme"@ {
        Some(FieldKind::Theme)
    } else if key == "codexAppDreamSkinThemeConfig"@ {
        Some(FieldKind::Whole(parsed.skin_is_valid))
    } else if key == "codexAppDreamSkinImagePath"@ {
        Some(FieldKind::Trimmed)
    } else {
        None
    }
}

proof fn lemma_looks_taken(
    target: JsonView,
    source: JsonView,
    parsed: ParsedChange,
    key: Seq<char>,
)
    requires
        target is Object,
        looks_kind(key, parsed) is Some,
    ensures
        merged_looks_fields(target, source, parsed).field(key) == stored_after(
            target.field(key),
            source.field(key),
            looks_kind(key, parsed)->0,
        ),
        is_looks_field(key),
{
    lemma_field_names();
    let t0 = merged_field(target, source, "codexAppImageOverlayEnabled"@, FieldKind::Flag);
    lemma_step(target, source, "codexAppImageOverlayEnabled"@, FieldKind::Flag, key);
    let t1 = merged_field(t0, source, "codexAppImageOverlayPath"@, FieldKind::Text);
    lemma_step(t0, source, "codexAppImageOverlayPath"@, FieldKind::Text, key);
    let t2 = merged_field(t1, source, "codexAppImageOverlayOpacity"@, FieldKind::Opacity);
    lemma_step(t1, source, "codexAppImageOverlayOpacity"@, FieldKind::Opacity, key);
    let t3 = merged_field(t2, source, "codexAppImageOverlayFitMode"@, FieldKind::FitMode);
    lemma_step(t2, source, "codexAppImageOverlayFitMode"@, FieldKind::FitMode, key);
    let t4 = merged_field(t3, source, "codexAppDreamSkinEnabled"@, FieldKind::Flag);
    lemma_step(t3, source, "codexAppDreamSkinEnabled"@, FieldKind::Flag, key);
    let t5 = merged_field(t4, source, "codexAppDreamSkinPaused"@, FieldKind::Flag);
    lemma_step(t4, source, "codexAppDreamSkinPaused"@, FieldKind::Flag, key);
    let t6 = merged_field(t5, source, "codexAppDreamSkinTheme"@, FieldKind::Theme);
    lemma_step(t5, source, "codexAppDreamSkinTheme"@, FieldKind::Theme, key);
    let t7 = merged_field(t6, source, "codexAppDreamSkinThemeConfig"@, FieldKind::Whole(parsed.skin_is_valid));
    lemma_step(t6, source, "codexAppDreamSkinThemeConfig"@, FieldKind::Whole(parsed.skin_is_valid), key);
    let t8 = merged_field(t7, source, "codexAppDreamSkinImagePath"@, FieldKind::Trimmed);
    lemma_step(t7, source, "codexAppDreamSkinImagePath"@, FieldKind::Trimmed, key);
}

proof fn lemma_looks_object(target: JsonView, source: JsonView, parsed: ParsedChange)
    requires
        target is Object,
    ensures
        merged_looks_fields(target, source, parsed) is Object,
{
    let key = Seq::<char>::empty();
    let t0 = merged_field(target, source, "codexAppImageOverlayEnabled"@, FieldKind::Flag);
    lemma_step(target, source, "codexAppImageOverlayEnabled"@, FieldKind::Flag, key);
    let t1 = merged_field(t0, source, "codexAppImageOverlayPath"@, FieldKind::Text);
    lemma_step(t0, source, "codexAppImageOverlayPath"@, FieldKind::Text, key);
    let t2 = merged_field(t1, source, "codexAppImageOverlayOpacity"@, FieldKind::Opacity);
    lemma_step(t1, source, "codexAppImageOverlayOpacity"@, FieldKind::Opacity, key);
    let t3 = merged_field(t2, source, "codexAppImageOverlayFitMode"@, FieldKind::FitMode);
    lemma_step(t2, source, "codexAppImageOverlayFitMode"@, FieldKind::FitMode, key);
    let t4 = merged_field(t3, source, "codexAppDreamSkinEnabled"@, FieldKind::Flag);
    lemma_step(t3, source, "codexAppDreamSkinEnabled"@, FieldKind::Flag, key);
    let t5 = merged_field(t4, source, "codexAppDreamSkinPaused"@, FieldKind::Flag);
    lemma_step(t4, source, "codexAppDreamSkinPaused"@, FieldKind::Flag, key);
    let t6 = merged_field(t5, source, "codexAppDreamSkinTheme"@, FieldKind::Theme);
    lemma_step(t5, source, "codexAppDreamSkinTheme"@, FieldKind::Theme, key);
    let t7 = merged_field(t6, source, "codexAppDreamSkinThemeConfig"@, FieldKind::Whole(parsed.skin_is_valid));
    lemma_step(t6, source, "codexAppDreamSkinThemeConfig"@, FieldKind::Whole(parsed.skin_is_valid), key);
    let t8 = merged_field(t7, source, "codexAppDreamSkinImagePath"@, FieldKind::Trimmed);
    lemma_step(t7, source, "codexAppDreamSkinImagePath"@, FieldKind::Trimmed, key);
}

/// How each field is taken over, of the WeChat connection.
pub open spec fn weixin_kind(key: Seq<char>, parsed: ParsedChange) -> Option<FieldKind> {
    if key == "weixinConnectEnabled"@ {
        Some(FieldKind::Flag)
    } else if key == "weixinConnectBaseUrl"@ {
        Some(FieldKind::Trimmed)
    } else if key == "weixinConnectToken"@ {
        Some(FieldKind::Trimmed)
    } else if key == "weixinConnectAccountId"@ {
        Some(FieldKind::Trimmed)
    } else if key == "weixinConnectAllowFrom"@ {
        Some(FieldKind::Trimmed)
    } else if key == "weixinConnectRouteTag"@ {
        Some(FieldKind::Trimmed)
    } else if key == "weixinConnectWorkDir"@ {
        Some(FieldKind::Trimmed)
    } else if key == "weixinConnectModel"@ {
        Some(FieldKind::Trimmed)
    } else if key == "weixinConnectSandbox"@ {
        Some(FieldKind::Trimmed)
    } else if key == "weixinConnectCodexPath"@ {
        Some(FieldKind::Trimmed)
    } else {
        None
    }
}

proof fn lemma_weixin_taken(
    target: JsonView,
    source: JsonView,
    parsed: ParsedChange,
    key: Seq<char>,
)
    requires
        target is Object,
        weixin_kind(key, parsed) is Some,
    ensures
        merged_weixin_fields(target, source, parsed).field(key) == stored_after(
            target.field(key),
            source.field(key),
            weixin_kind(key, parsed)->0,
        ),
        is_weixin_field(key),
{
    lemma_field_names();
    let t0 = merged_field(target, source, "weixinConnectEnabled"@, FieldKind::Flag);
    lemma_step(target, source, "weixinConnectEnabled"@, FieldKind::Flag, key);
    let t1 = merged_field(t0, source, "weixinConnectBaseUrl"@, FieldKind::Trimmed);
    lemma_step(t0, source, "weixinConnectBaseUrl"@, FieldKind::Trimmed, key);
    let t2 = merged_field(t1, source, "weixinConnectToken"@, FieldKind::Trimmed);
    lemma_step(t1, source, "weixinConnectToken"@, FieldKind::Trimmed, key);
    let t3 = merged_field(t2, source, "weixinConnectAccountId"@, FieldKind::Trimmed);
    lemma_step(t2, source, "weixinConnectAccountId"@, FieldKind::Trimmed, key);
    let t4 = merged_field(t3, source, "weixinConnectAllowFrom"@, FieldKind::Trimmed);
    lemma_step(t3, source, "weixinConnectAllowFrom"@, FieldKind::Trimmed, key);
    let t5 = merged_field(t4, source, "weixinConnectRouteTag"@, FieldKind::Trimmed);
    lemma_step(t4, source, "weixinConnectRouteTag"@, FieldKind::Trimmed, key);
    let t6 = merged_field(t5, source, "weixinConnectWorkDir"@, FieldKind::Trimmed);
    lemma_step(t5, source, "weixinConnectWorkDir"@, FieldKind::Trimmed, key);
    let t7 = merged_field(t6, source, "weixinConnectModel"@, FieldKind::Trimmed);
    lemma_step(t6, source, "weixinConnectModel"@, FieldKind::Trimmed, key);
    let t8 = merged_field(t7, source, "weixinConnectSandbox"@, FieldKind::Trimmed);
    lemma_step(t7, source, "weixinConnectSandbox"@, FieldKind::Trimmed, key);
    let t9 = merged_field(t8, source, "weixinConnectCodexPath"@, FieldKind::Trimmed);
    lemma_step(t8, source, "weixinConnectCodexPath"@, FieldKind::Trimmed, key);
}

proof fn lemma_weixin_object(target: JsonView, source: JsonView, parsed: ParsedChange)
    requires
        target is Object,
    ensures
        merged_weixin_fields(target, source, parsed) is Object,
{
    let key = Seq::<char>::empty();
    let t0 = merged_field(target, source, "weixinConnectEnabled"@, FieldKind::Flag);
    lemma_step(target, source, "weixinConnectEnabled"@, FieldKind::Flag, key);
    let t1 = merged_field(t0, source, "weixinConnectBaseUrl"@, FieldKind::Trimmed);
    lemma_step(t0, source, "weixinConnectBaseUrl"@, FieldKind::Trimmed, key);
    let t2 = merged_field(t1, source, "weixinConnectToken"@, FieldKind::Trimmed);
    lemma_step(t1, source, "weixinConnectToken"@, FieldKind::Trimmed, key);
    let t3 = merged_field(t2, source, "weixinConnectAccountId"@, FieldKind::Trimmed);
    lemma_step(t2, source, "weixinConnectAccountId"@, FieldKind::Trimmed, key);
    let t4 = merged_field(t3, source, "weixinConnectAllowFrom"@, FieldKind::Trimmed);
    lemma_step(t3, source, "weixinConnectAllowFrom"@, FieldKind::Trimmed, key);
    let t5 = merged_field(t4, source, "weixinConnectRouteTag"@, FieldKind::Trimmed);
    lemma_step(t4, source, "weixinConnectRouteTag"@, FieldKind::Trimmed, key);
    let t6 = merged_field(t5, source, "weixinConnectWorkDir"@, FieldKind::Trimmed);
    lemma_step(t5, source, "weixinConnectWorkDir"@, FieldKind::Trimmed, key);
    let t7 = merged_field(t6, source, "weixinConnectModel"@, FieldKind::Trimmed);
    lemma_step(t6, source, "weixinConnectModel"@, FieldKind::Trimmed, key);
    let t8 = merged_field(t7, source, "weixinConnectSandbox"@, FieldKind::Trimmed);
    lemma_step(t7, source, "weixinConnectSandbox"@, FieldKind::Trimmed, key);
    let t9 = merged_field(t8, source, "weixinConnectCodexPath"@, FieldKind::Trimmed);
    lemma_step(t8, source, "weixinConnectCodexPath"@, FieldKind::Trimmed, key);
}

/// How each field is taken over, of the fields of the relays.
pub open spec fn relay_kind(key: Seq<char>, parsed: ParsedChange) -> Option<FieldKind> {
    if key == "launchMode"@ {
        Some(FieldKind::LaunchMode)
    } else if key == "relayBaseUrl"@ {
        Some(FieldKind::Text)
    } else if key == "relayApiKey"@ {
        Some(FieldKind::Text)
    } else if key == "relayCommonConfigContents"@ {
        Some(FieldKind::Text)
    } else if key == "relayContextConfigContents"@ {
        Some(FieldKind::Text)
    } else if key == "activeRelayId"@ {
        Some(FieldKind::Text)
    } else if key == "aggregateRelayProfiles"@ {
        Some(FieldKind::List)
    } else if key == "activeAggregateRelayId"@ {
        Some(FieldKind::Text)
    } else if key == "relayTestModel"@ {
        Some(FieldKind::TestModel)
    } else {
        None
    }
}

proof fn lemma_relay_taken(
    target: JsonView,
    source: JsonView,
    parsed: ParsedChange,
    key: Seq<char>,
)
    requires
        target is Object,
        relay_kind(key, parsed) is Some,
    ensures
        merged_relay_fields(target, source, parsed).field(key) == stored_after(
            target.field(key),
            source.field(key),
            relay_kind(key, parsed)->0,
        ),
        is_relay_field(key),
{
    lemma_field_names();
    let t0 = merged_field(target, source, "launchMode"@, FieldKind::LaunchMode);
    lemma_step(target, source, "launchMode"@, FieldKind::LaunchMode, key);
    let t1 = merged_field(t0, source, "relayBaseUrl"@, FieldKind::Text);
    lemma_step(t0, source, "relayBaseUrl"@, FieldKind::Text, key);
    let t2 = merged_field(t1, source, "relayApiKey"@, FieldKind::Text);
    lemma_step(t1, source, "relayApiKey"@, FieldKind::Text, key);
    let t3 = merged_field(t2, source, "relayCommonConfigContents"@, FieldKind::Text);
    lemma_step(t2, source, "relayCommonConfigContents"@, FieldKind::Text, key);
    let t4 = merged_field(t3, source, "relayContextConfigContents"@, FieldKind::Text);
    lemma_step(t3, source, "relayContextConfigContents"@, FieldKind::Text, key);
    let t5 = merged_field(t4, source, "activeRelayId"@, FieldKind::Text);
    lemma_step(t4, source, "activeRelayId"@, FieldKind::Text, key);
    let t6 = merged_field(t5, source, "aggregateRelayProfiles"@, FieldKind::List);
    lemma_step(t5, source, "aggregateRelayProfiles"@, FieldKind::List, key);
    let t7 = merged_field(t6, source, "activeAggregateRelayId"@, FieldKind::Text);
    lemma_step(t6, source, "activeAggregateRelayId"@, FieldKind::Text, key);
    let t8 = merged_field(t7, source, "relayTestModel"@, FieldKind::TestModel);
    lemma_step(t7, source, "relayTestModel"@, FieldKind::TestModel, key);
}

proof fn lemma_relay_object(target: JsonView, source: JsonView, parsed: ParsedChange)
    requires
        target is Object,
    ensures
        merged_relay_fields(target, source, parsed) is Object,
{
    let key = Seq::<char>::empty();
    let t0 = merged_field(target, source, "launchMode"@, FieldKind::LaunchMode);
    lemma_step(target, source, "launchMode"@, FieldKind::LaunchMode, key);
    let t1 = merged_field(t0, source, "relayBaseUrl"@, FieldKind::Text);
    lemma_step(t0, source, "relayBaseUrl"@, FieldKind::Text, key);
    let t2 = merged_field(t1, source, "relayApiKey"@, FieldKind::Text);
    lemma_step(t1, source, "relayApiKey"@, FieldKind::Text, key);
    let t3 = merged_field(t2, source, "relayCommonConfigContents"@, FieldKind::Text);
    lemma_step(t2, source, "relayCommonConfigContents"@, FieldKind::Text, key);
    let t4 = merged_field(t3, source, "relayContextConfigContents"@, FieldKind::Text);
    lemma_step(t3, source, "relayContextConfigContents"@, FieldKind::Text, key);
    let t5 = merged_field(t4, source, "activeRelayId"@, FieldKind::Text);
    lemma_step(t4, source, "activeRelayId"@, FieldKind::Text, key);
    let t6 = merged_field(t5, source, "aggregateRelayProfiles"@, FieldKind::List);
    lemma_step(t5, source, "aggregateRelayProfiles"@, FieldKind::List, key);
    let t7 = merged_field(t6, source, "activeAggregateRelayId"@, FieldKind::Text);
    lemma_step(t6, source, "activeAggregateRelayId"@, FieldKind::Text, key);
    let t8 = merged_field(t7, source, "relayTestModel"@, FieldKind::TestModel);
    lemma_step(t7, source, "relayTestModel"@, FieldKind::TestModel, key);
}

/// How a field of stored settings is taken over from a change.
pub open spec fn field_kind(key: Seq<char>, parsed: ParsedChange) -> Option<FieldKind> {
    if app_kind(key, parsed) is Some {
        app_kind(key, parsed)
    } else if stepwise_kind(key, parsed) is Some {
        stepwise_kind(key, parsed)
    } else if looks_kind(key, parsed) is Some {
        looks_kind(key, parsed)
    } else if weixin_kind(key, parsed) is Some {
        weixin_kind(key, parsed)
    } else if relay_kind(key, parsed) is Some {
        relay_kind(key, parsed)
    } else {
        None
    }
}

proof fn lemma_app_alone(key: Seq<char>, parsed: ParsedChange)
    requires
        app_kind(key, parsed) is Some,
    ensures
        !is_stepwise_field(key),
        stepwise_kind(key, parsed) is None,
        !is_looks_field(key),
        looks_kind(key, parsed) is None,
        !is_weixin_field(key),
        weixin_kind(key, parsed) is None,
        !is_relay_field(key),
        relay_kind(key, parsed) is None,
        key != "relayProfiles"@,
        key != "codexAppPluginAutoExpand"@,
        key != "computerUseGuardEnabled"@,
{
    lemma_field_names();
}

proof fn lemma_stepwise_alone(key: Seq<char>, parsed: ParsedChange)
    requires
        stepwise_kind(key, parsed) is Some,
    ensures
        !is_app_field(key),
        app_kind(key, parsed) is None,
        !is_looks_field(key),
        looks_kind(key, parsed) is None,
        !is_weixin_field(key),
        weixin_kind(key, parsed) is None,
        !is_relay_field(key),
        relay_kind(key, parsed) is None,
        key != "relayProfiles"@,
        key != "codexAppPluginAutoExpand"@,
        key != "computerUseGuardEnabled"@,
{
    lemma_field_names();
}

proof fn lemma_looks_alone(key: Seq<char>, parsed: ParsedChange)
    requires
        looks_kind(key, parsed) is Some,
    ensures
        !is_app_field(key),
        app_kind(key, parsed) is None,
        !is_stepwise_field(key),
        stepwise_kind(key, parsed) is None,
        !is_weixin_field(key),
        weixin_kind(key, parsed) is None,
        !is_relay_field(key),
        relay_kind(key, parsed) is None,
        key != "relayProfiles"@,
        key != "codexAppPluginAutoExpand"@,
        key != "computerUseGuardEnabled"@,
{
    lemma_field_names();
}

proof fn lemma_weixin_alone(key: Seq<char>, parsed: ParsedChange)
    requires
        weixin_kind(key, parsed) is Some,
    ensures
        !is_app_field(key),
        app_kind(key, parsed) is None,
        !is_stepwise_field(key),
        stepwise_kind(key, parsed) is None,
        !is_looks_field(key),
        looks_kind(key, parsed) is None,
        !is_relay_field(key),
        relay_kind(key, parsed) is None,
        key != "relayProfiles"@,
        key != "codexAppPluginAutoExpand"@,
        key != "computerUseGuardEnabled"@,
{
    lemma_field_names();
}

proof fn lemma_relay_alone(key: Seq<char>, parsed: ParsedChange)
    requires
        relay_kind(key, parsed) is Some,
    ensures
        !is_app_field(key),
        app_kind(key, parsed) is None,
        !is_stepwise_field(key),
        stepwise_kind(key, parsed) is None,
        !is_looks_field(key),
        looks_kind(key, parsed) is None,
        !is_weixin_field(key),
        weixin_kind(key, parsed) is None,
        key != "relayProfiles"@,
        key != "codexAppPluginAutoExpand"@,
        key != "computerUseGuardEnabled"@,
{
    lemma_field_names();
}

/// Each known field is taken over by its kind, and stays where the change has no value that does.
pub proof fn known_fields_are_taken_by_kind(
    target: JsonView,
    source: JsonView,
    parsed: ParsedChange,
    key: Seq<char>,
)
    requires
        target is Object,
        field_kind(key, parsed) is Some,
    ensures
        merged_settings(target, source, parsed).field(key) == stored_after(
            target.field(key),
            source.field(key),
            field_kind(key, parsed)->0,
        ),
{
    let current = target.without("codexAppPluginAutoExpand"@).without("computerUseGuardEnabled"@);
    let app = merged_app_fields(current, source, parsed);
    let stepwise = merged_stepwise_fields(app, source, parsed);
    let looks = merged_looks_fields(stepwise, source, parsed);
    let weixin = merged_weixin_fields(looks, source, parsed);
    let relay = merged_relay_fields(weixin, source, parsed);
    lemma_app_object(current, source, parsed);
    lemma_stepwise_object(app, source, parsed);
    lemma_looks_object(stepwise, source, parsed);
    lemma_weixin_object(looks, source, parsed);
    lemma_relay_object(weixin, source, parsed);
    if app_kind(key, parsed) is Some {
        lemma_app_alone(key, parsed);
        lemma_app_taken(current, source, parsed, key);
        lemma_stepwise_fields(app, source, parsed, key);
        lemma_looks_fields(stepwise, source, parsed, key);
        lemma_weixin_fields(looks, source, parsed, key);
        lemma_relay_fields(weixin, source, parsed, key);
    } else if stepwise_kind(key, parsed) is Some {
        lemma_stepwise_alone(key, parsed);
        lemma_app_fields(current, source, parsed, key);
        lemma_stepwise_taken(app, source, parsed, key);
        lemma_looks_fields(stepwise, source, parsed, key);
        lemma_weixin_fields(looks, source, parsed, key);
        lemma_relay_fields(weixin, source, parsed, key);
    } else if looks_kind(key, parsed) is Some {
        lemma_looks_alone(key, parsed);
        lemma_app_fields(current, source, parsed, key);
        lemma_stepwise_fields(app, source, parsed, key);
        lemma_looks_taken(stepwise, source, parsed, key);
        lemma_weixin_fields(looks, source, parsed, key);
        lemma_relay_fields(weixin, source, parsed, key);
    } else if weixin_kind(key, parsed) is Some {
        lemma_weixin_alone(key, parsed);
        lemma_app_fields(current, source, parsed, key);
        lemma_stepwise_fields(app, source, parsed, key);
        lemma_looks_fields(stepwise, source, parsed, key);
        lemma_weixin_taken(looks, source, parsed, key);
        lemma_relay_fields(weixin, source, parsed, key);
    } else if relay_kind(key, parsed) is Some {
        lemma_relay_alone(key, parsed);
        lemma_app_fields(current, source, parsed, key);
        lemma_stepwise_fields(app, source, parsed, key);
        lemma_looks_fields(stepwise, source, parsed, key);
        lemma_weixin_fields(looks, source, parsed, key);
        lemma_relay_taken(weixin, source, parsed, key);
    }
}

/// Retired fields go, and the relays of a change are stored as they were parsed.
pub proof fn retired_fields_go(target: JsonView, source: JsonView, parsed: ParsedChange)
    requires
        target is Object,
    ensures
        ({
            let after = merged_settings(target, source, parsed);
            &&& after.field("codexAppPluginAutoExpand"@) is None
            &&& after.field("computerUseGuardEnabled"@) is None
            &&& source.items_field("relayProfiles"@) is Some ==> after.field("relayProfiles"@)
                == Some(parsed.relay_profiles@)
            &&& source.items_field("relayProfiles"@) is None ==> after.field("relayProfiles"@)
                == target.field("relayProfiles"@)
        }),
{
    lemma_field_names();
    let current = target.without("codexAppPluginAutoExpand"@).without("computerUseGuardEnabled"@);
    let app = merged_app_fields(current, source, parsed);
    let stepwise = merged_stepwise_fields(app, source, parsed);
    let looks = merged_looks_fields(stepwise, source, parsed);
    let weixin = merged_weixin_fields(looks, source, parsed);
    let relay = merged_relay_fields(weixin, source, parsed);
    lemma_app_object(current, source, parsed);
    lemma_stepwise_object(app, source, parsed);
    lemma_looks_object(stepwise, source, parsed);
    lemma_weixin_object(looks, source, parsed);
    lemma_relay_object(weixin, source, parsed);
    lemma_app_fields(current, source, parsed, "codexAppPluginAutoExpand"@);
    lemma_stepwise_fields(app, source, parsed, "codexAppPluginAutoExpand"@);
    lemma_looks_fields(stepwise, source, parsed, "codexAppPluginAutoExpand"@);
    lemma_weixin_fields(looks, source, parsed, "codexAppPluginAutoExpand"@);
    lemma_relay_fields(weixin, source, parsed, "codexAppPluginAutoExpand"@);
    lemma_app_fields(current, source, parsed, "computerUseGuardEnabled"@);
    lemma_stepwise_fields(app, source, parsed, "computerUseGuardEnabled"@);
    lemma_looks_fields(stepwise, source, parsed, "computerUseGuardEnabled"@);
    lemma_weixin_fields(looks, source, parsed, "computerUseGuardEnabled"@);
    lemma_relay_fields(weixin, source, parsed, "computerUseGuardEnabled"@);
    lemma_app_fields(current, source, parsed, "relayProfiles"@);
    lemma_stepwise_fields(app, source, parsed, "relayProfiles"@);
    lemma_looks_fields(stepwise, source, parsed, "relayProfiles"@);
    lemma_weixin_fields(looks, source, parsed, "relayProfiles"@);
    lemma_relay_fields(weixin, source, parsed, "relayProfiles"@);
}

/// A number of a change counts where it fits its type, and is brought between its bounds: one that
/// lies between them stays.
pub open spec fn is_bounded(
    value: JsonView,
    kind: FieldKind,
    most: int,
    low: int,
    high: int,
) -> bool {
    let n = value.natural();
    let taken = taken_value(value, kind);
    &&& taken is Some == (n is Some && n->0 <= most)
    &&& n is Some && n->0 <= most && low <= n->0 <= high ==> taken == Some(
        JsonView::Integer(n->0 as int),
    )
    &&& n is Some && n->0 <= most && n->0 < low ==> taken == Some(JsonView::Integer(low))
    &&& n is Some && n->0 <= most && n->0 > high ==> taken == Some(JsonView::Integer(high))
}

pub proof fn numbers_are_brought_between_their_bounds(value: JsonView)
    ensures
        is_bounded(value, FieldKind::MaxItems, 255, 0, 6),
        is_bounded(value, FieldKind::MaxInputChars, 4294967295, 1000, 24000),
        is_bounded(value, FieldKind::MaxOutputTokens, 4294967295, 100, 4000),
        is_bounded(value, FieldKind::TimeoutMs, 18446744073709551615, 1000, 60000),
        is_bounded(value, FieldKind::Opacity, 255, 1, 100),
{
}

/// Flags, lists and texts of a change count where they are such; texts are kept or trimmed, and what
/// is not one of the known words gives way to a default or is not taken.
pub proof fn other_values_are_taken_as_they_are(value: JsonView, text: Seq<char>)
    ensures
        taken_value(value, FieldKind::Flag) is Some == value is Bool,
        value is Bool ==> taken_value(value, FieldKind::Flag) == Some(value),
        taken_value(value, FieldKind::List) is Some == value is Array,
        value is Array ==> taken_value(value, FieldKind::List) == Some(value),
        taken_value(value, FieldKind::Whole(true)) == Some(value),
        taken_value(value, FieldKind::Whole(false)) is None,
        taken_value(value, FieldKind::Text) is Some == value is Text,
        taken_value(value, FieldKind::Trimmed) is Some == value is Text,
        taken_value(value, FieldKind::Url) is Some == value is Text,
        taken_value(value, FieldKind::Theme) is Some == value is Text,
        taken_value(JsonView::Text(text), FieldKind::Text) == Some(JsonView::Text(text)),
        taken_value(JsonView::Text(text), FieldKind::Trimmed) == Some(
            JsonView::Text(trimmed(text)),
        ),
        taken_value(JsonView::Text(text), FieldKind::LaunchMode) == (if text == "patch"@ || text
            == "relay"@ {
            Some(JsonView::Text(text))
        } else {
            None
        }),
        trimmed(text).len() == 0 ==> taken_value(JsonView::Text(text), FieldKind::TestModel)
            == Some(JsonView::Text("gpt-5.4-mini"@)) && taken_value(
            JsonView::Text(text),
            FieldKind::KeyEnv,
        ) == Some(JsonView::Text("CODEX_STEPWISE_API_KEY"@)),
        trimmed(text).len() > 0 ==> taken_value(JsonView::Text(text), FieldKind::TestModel)
            == Some(JsonView::Text(trimmed(text))) && taken_value(
            JsonView::Text(text),
            FieldKind::KeyEnv,
        ) == Some(JsonView::Text(trimmed(text))),
{
}

/// Of the arguments of a change the texts count, trimmed, in their order, where anything is left.
pub proof fn arguments_are_texts(items: Seq<JsonView>)
    ensures
        ({
            let taken = taken_value(JsonView::Array(items), FieldKind::Args);
            let kept = taken->0->Array_0;
            &&& taken is Some
            &&& taken->0 is Array
            &&& kept.len() <= items.len()
            &&& forall|i: int|
                0 <= i < kept.len() ==> (#[trigger] kept[i]) is Text && kept[i]->Text_0.len() > 0
                    && trimmed(kept[i]->Text_0) == kept[i]->Text_0
            &&& forall|i: int|
                0 <= i < items.len() && (#[trigger] items[i]) is Text && trimmed(
                    items[i]->Text_0,
                ).len() > 0 ==> kept.contains(JsonView::Text(trimmed(items[i]->Text_0)))
        }),
{
    let words = text_items(items);
    let list = super::defaults::filled(words);
    lemma_words(items);
    lemma_filled(words);
    let kept = Seq::new(list.len(), |i: int| JsonView::Text(list[i]));
    assert(taken_value(JsonView::Array(items), FieldKind::Args) == Some(JsonView::Array(kept)));
    assert forall|i: int|
        0 <= i < items.len() && (#[trigger] items[i]) is Text && trimmed(items[i]->Text_0).len()
            > 0 implies kept.contains(JsonView::Text(trimmed(items[i]->Text_0))) by {
        assert(words.contains(items[i]->Text_0));
        let w = choose|w: int| 0 <= w < words.len() && words[w] == items[i]->Text_0;
        assert(trimmed(words[w]).len() > 0);
        assert(list.contains(trimmed(words[w])));
        let k = choose|k: int| 0 <= k < list.len() && list[k] == trimmed(words[w]);
        assert(kept[k] == JsonView::Text(list[k]));
    }
}

proof fn lemma_words(items: Seq<JsonView>)
    ensures
        text_items(items).len() <= items.len(),
        forall|i: int|
            0 <= i < items.len() && (#[trigger] items[i]) is Text ==> text_items(items).contains(
                items[i]->Text_0,
            ),
    decreases items.len(),
{
    if items.len() > 0 {
        let shorter = items.drop_last();
        lemma_words(shorter);
        let words = text_items(items);
        let before = text_items(shorter);
        assert forall|i: int| 0 <= i < items.len() && (#[trigger] items[i]) is Text implies words.contains(
            items[i]->Text_0,
        ) by {
            if i < shorter.len() {
                assert(shorter[i] == items[i]);
                let w = choose|w: int| 0 <= w < before.len() && before[w] == items[i]->Text_0;
                assert(words[w] == items[i]->Text_0);
            } else {
                assert(words[before.len() as int] == items[i]->Text_0);
            }
        }
    }
}

/// Of a list of texts those count that have more than white space, trimmed.
pub proof fn lemma_filled(list: Seq<Seq<char>>)
    ensures
        ({
            let kept = super::defaults::filled(list);
            &&& kept.len() <= list.len()
            &&& forall|i: int|
                0 <= i < kept.len() ==> (#[trigger] kept[i]).len() > 0 && trimmed(kept[i])
                    == kept[i]
            &&& forall|i: int|
                0 <= i < list.len() && trimmed(#[trigger] list[i]).len() > 0 ==> kept.contains(
                    trimmed(list[i]),
                )
        }),
    decreases list.len(),
{
    if list.len() > 0 {
        let shorter = list.drop_last();
        lemma_filled(shorter);
        let before = super::defaults::filled(shorter);
        let kept = super::defaults::filled(list);
        crate::text::lemma_trimmed_twice(list.last());
        assert forall|i: int| 0 <= i < list.len() && trimmed(#[trigger] list[i]).len() > 0 implies kept.contains(
            trimmed(list[i]),
        ) by {
            if i < shorter.len() {
                assert(shorter[i] == list[i]);
                let k = choose|k: int| 0 <= k < before.len() && before[k] == trimmed(list[i]);
                assert(kept[k] == trimmed(list[i]));
            } else {
                assert(kept[before.len() as int] == trimmed(list[i]));
            }
        }
    }
}

} // verus!
