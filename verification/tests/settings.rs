use codex_plus_core::json::Json;
use codex_plus_core::settings::active::relay_profile_model_entries;
use codex_plus_core::settings::defaults::{
    default_weixin_connect_base_url, stored_dream_skin_theme, stored_image_overlay_fit_mode,
    stored_image_overlay_opacity, stored_stepwise_api_key_env, stored_stepwise_max_input_chars,
    stored_stepwise_max_items, stored_stepwise_max_output_tokens, stored_stepwise_protocol,
    stored_stepwise_timeout_ms,
};
use codex_plus_core::settings::merge::{
    merge_known_setting_fields, store_config_texts, ParsedChange,
};
use codex_plus_core::settings::normalize::{
    config_texts, join_config_sections, normalize_aggregate_member_order,
    normalize_settings_config_sections, split_context_config_sections,
};
use codex_plus_core::settings::routes::{
    apply_route_request, model_routes_list, preserve_model_route_states, route_recovery,
    route_set_result,
};
use codex_plus_core::settings::store::prepare_save;
use codex_plus_core::settings::tokens::{
    experimental_bearer_token_from_config_text, preserve_tokens_where_placed,
    set_token_where_placed,
};
use codex_plus_core::settings::{
    default_relay_base_url, default_relay_test_model, default_stepwise_api_key_env,
    normalize_codex_extra_args, resolve_dream_skin_style_preset, AggregateRelayMember,
    AggregateRelayProfile, AggregateRelayStrategy, BackendSettings, DreamSkinThemeConfig,
    LaunchMode, LooksSettings, NativeAgentInterop, RelayFacts, RelayMode, RelayModelInsertMode,
    RelayModelRoute, RelayProfile, RelayProtocol, RelaySessionProvider, RelaySettings,
    ResponsesReasoningPolicy, ResponsesWirePolicy, SetRelayModelRouteRequest, WeixinSettings,
};
use serde_json::Value;

fn json(text: &str) -> Json {
    Json::parse(text).unwrap()
}

fn value(json: &Json) -> Value {
    serde_json::from_str(&json.to_text()).unwrap()
}

/// Facts about relays whose models have no suffix and that hold no ChatGPT sign-in.
fn facts(settings: &BackendSettings) -> RelayFacts {
    RelayFacts {
        chatgpt_auth: settings.relays.relay_profiles.iter().map(|_| false).collect(),
        model_names: settings
            .relays
            .relay_profiles
            .iter()
            .map(relay_profile_model_entries)
            .collect(),
    }
}

fn with_relays(relays: RelaySettings) -> BackendSettings {
    BackendSettings {
        relays,
        ..BackendSettings::default()
    }
}

fn member(relay_id: &str, weight: u32) -> AggregateRelayMember {
    AggregateRelayMember {
        relay_id: relay_id.to_string(),
        weight,
    }
}

fn aggregate(strategy: AggregateRelayStrategy, members: Vec<AggregateRelayMember>) -> AggregateRelayProfile {
    AggregateRelayProfile {
        id: "agg".to_string(),
        name: "聚合".to_string(),
        session_provider: RelaySessionProvider::Custom,
        code_mode_host: false,
        strategy,
        members,
    }
}

fn change(target: &mut Json, source: &str) {
    let parsed = ParsedChange {
        zed_strategy_is_known: false,
        skin_is_valid: false,
        relay_profiles: Json::array(Vec::new()),
    };
    merge_known_setting_fields(target, &json(source), &parsed);
}

/// Settings in order, with the configuration texts as they were parted.
fn ordered(settings: BackendSettings) -> BackendSettings {
    let (common, context) = config_texts(&settings);
    let relays = settings.relays.relay_profiles.clone();
    normalize_settings_config_sections(settings, common, context, relays, false)
}

#[test]
fn settings_default_matches_expected_behavior() {
    let settings = BackendSettings::default();
    assert!(!settings.app.provider_sync_enabled);
    assert!(settings.relays.relay_profiles_enabled);
    assert!(settings.app.enhancements_enabled);
    assert!(settings.app.codex_app_plugin_marketplace_unlock);
    assert!(!settings.app.codex_app_thread_id_badge);
    assert!(settings.app.codex_app_force_chinese_locale);
    assert!(!settings.app.codex_goals_enabled);
    assert!(settings.app.codex_app_path.is_empty());
    assert!(settings.app.codex_extra_args.is_empty());
    assert_eq!(settings.app.zed_remote_open_strategy, "addToFocusedWorkspace");
    assert!(settings.app.zed_remote_project_registry_enabled);
    assert!(!settings.app.zed_remote_sync_to_zed_settings);
    assert!(settings.app.codex_app_native_menu_localization);
    assert_eq!(settings.relays.launch_mode, LaunchMode::Patch);
    assert_eq!(settings.relays.relay_base_url, default_relay_base_url());
    assert!(settings.relays.relay_api_key.is_empty());
    assert_eq!(settings.relays.relay_profiles[0].relay_mode, RelayMode::Official);
    assert!(settings.relays.relay_common_config_contents.is_empty());
    assert_eq!(settings.relays.relay_test_model, default_relay_test_model());
    assert!(!settings.stepwise.codex_app_stepwise_enabled);
    assert!(!settings.stepwise.codex_app_stepwise_direct_send);
    assert!(settings.stepwise.codex_app_stepwise_base_url.is_empty());
    assert!(settings.stepwise.codex_app_stepwise_api_key.is_empty());
    assert_eq!(
        settings.stepwise.codex_app_stepwise_api_key_env,
        "CODEX_STEPWISE_API_KEY"
    );
    assert_eq!(settings.stepwise.codex_app_stepwise_protocol, "chat_completions");
    assert!(settings.stepwise.codex_app_stepwise_model.is_empty());
    assert_eq!(settings.stepwise.codex_app_stepwise_max_items, 6);
    assert_eq!(settings.stepwise.codex_app_stepwise_max_input_chars, 6000);
    assert_eq!(settings.stepwise.codex_app_stepwise_max_output_tokens, 500);
    assert_eq!(settings.stepwise.codex_app_stepwise_timeout_ms, 8000);
    assert!(!settings.weixin.weixin_connect_enabled);
    assert_eq!(
        settings.weixin.weixin_connect_base_url,
        default_weixin_connect_base_url()
    );
    assert!(settings.weixin.weixin_connect_token.is_empty());
    assert_eq!(settings.weixin.weixin_connect_sandbox, "read-only");
}

#[test]
fn relay_profile_context_fields_default_to_empty() {
    let profile = RelayProfile::default();

    assert!(profile.use_common_config);
    assert!(profile.context_window.is_empty());
    assert!(profile.auto_compact_limit.is_empty());
    assert_eq!(profile.model_insert_mode, RelayModelInsertMode::Patch);
    assert!(profile.model_list.is_empty());
    assert!(profile.model_routes.is_empty());
    assert!(!profile.has_model_routes());
}

#[test]
fn no_auth_relay_requires_protocol_proxy() {
    let settings = with_relays(RelaySettings {
        relay_profiles: vec![RelayProfile {
            relay_mode: RelayMode::PureApi,
            no_auth: true,
            base_url: "https://relay.example.test/v1".to_string(),
            ..RelayProfile::default()
        }],
        ..RelaySettings::default()
    });

    assert!(settings.active_relay_uses_protocol_proxy(&facts(&settings)));
}

#[test]
fn active_aggregate_inherits_largest_member_context_and_paired_compaction_limit() {
    let settings = with_relays(RelaySettings {
        relay_profiles: vec![
            RelayProfile {
                id: "openai-account-relay".to_string(),
                context_window: String::new(),
                auto_compact_limit: String::new(),
                ..RelayProfile::default()
            },
            RelayProfile {
                id: "krill".to_string(),
                model: "gpt-5.6-sol".to_string(),
                context_window: "1000000".to_string(),
                auto_compact_limit: "900000".to_string(),
                model_list: "gpt-5.6-sol\ngpt-5.6-terra".to_string(),
                model_windows: r#"{"gpt-5.6-sol":"1000000"}"#.to_string(),
                ..RelayProfile::default()
            },
            RelayProfile {
                id: "shuai-api".to_string(),
                context_window: "272000".to_string(),
                auto_compact_limit: "250000".to_string(),
                ..RelayProfile::default()
            },
            RelayProfile {
                id: "agg".to_string(),
                relay_mode: RelayMode::Aggregate,
                context_window: String::new(),
                auto_compact_limit: String::new(),
                ..RelayProfile::default()
            },
        ],
        active_relay_id: "agg".to_string(),
        active_aggregate_relay_id: "agg".to_string(),
        aggregate_relay_profiles: vec![aggregate(
            AggregateRelayStrategy::PriorityFallback,
            vec![member("openai-account-relay", 1), member("krill", 1), member("shuai-api", 1)],
        )],
        ..RelaySettings::default()
    });

    let active = settings.active_relay_profile(&facts(&settings));
    assert_eq!(active.context_window, "1000000");
    assert_eq!(active.auto_compact_limit, "900000");
    assert_eq!(active.model, "gpt-5.6-sol");
    assert_eq!(active.model_list, "gpt-5.6-sol\ngpt-5.6-terra");
    assert_eq!(active.model_windows, r#"{"gpt-5.6-sol":"1000000"}"#);
    assert!(settings.relays.relay_profiles[3].context_window.is_empty());
}

#[test]
fn active_aggregate_explicit_context_and_compaction_limit_override_members() {
    let settings = with_relays(RelaySettings {
        relay_profiles: vec![
            RelayProfile {
                id: "member".to_string(),
                context_window: "1000000".to_string(),
                auto_compact_limit: "900000".to_string(),
                ..RelayProfile::default()
            },
            RelayProfile {
                id: "agg".to_string(),
                relay_mode: RelayMode::Aggregate,
                context_window: "500000".to_string(),
                auto_compact_limit: "450000".to_string(),
                ..RelayProfile::default()
            },
        ],
        active_relay_id: "agg".to_string(),
        active_aggregate_relay_id: "agg".to_string(),
        aggregate_relay_profiles: vec![aggregate(
            AggregateRelayStrategy::PriorityFallback,
            vec![member("member", 1)],
        )],
        ..RelaySettings::default()
    });

    let active = settings.active_relay_profile(&facts(&settings));
    assert_eq!(active.context_window, "500000");
    assert_eq!(active.auto_compact_limit, "450000");
}

#[test]
fn active_aggregate_lists_the_union_of_member_models_in_member_order() {
    let settings = with_relays(RelaySettings {
        relay_profiles: vec![
            RelayProfile {
                id: "openai".to_string(),
                model_list: "gpt-6-astra\ngpt-5.6-sol\ngpt-5.6-terra\ngpt-5.5\ngpt-5.4".to_string(),
                ..RelayProfile::default()
            },
            RelayProfile {
                id: "krill".to_string(),
                model_list: "gpt-5.6-sol\ngpt-5.4\ngpt-5.5\ngpt-5.6-terra\ngpt-image-2".to_string(),
                ..RelayProfile::default()
            },
            RelayProfile {
                id: "shuai".to_string(),
                model_list: "gpt-5.6-sol\ngpt-5.4\ngpt-5.6-terra\ngpt-5.5".to_string(),
                ..RelayProfile::default()
            },
            RelayProfile {
                id: "agg".to_string(),
                relay_mode: RelayMode::Aggregate,
                model_list: "gpt-5.6-sol".to_string(),
                ..RelayProfile::default()
            },
        ],
        active_relay_id: "agg".to_string(),
        active_aggregate_relay_id: "agg".to_string(),
        aggregate_relay_profiles: vec![aggregate(
            AggregateRelayStrategy::PriorityFallback,
            vec![member("openai", 1), member("krill", 1), member("shuai", 1)],
        )],
        ..RelaySettings::default()
    });

    let active = settings.active_relay_profile(&facts(&settings));
    assert_eq!(active.model, "gpt-5.6-sol");
    assert_eq!(
        active.model_list,
        "gpt-6-astra\ngpt-5.6-sol\ngpt-5.6-terra\ngpt-5.5\ngpt-5.4\ngpt-image-2"
    );
}

#[test]
fn active_relay_session_provider_reads_standard_profile_config() {
    let mut settings = with_relays(RelaySettings {
        relay_profiles: vec![RelayProfile {
            config_contents: "model_provider = \"openai\"\n".to_string(),
            ..RelayProfile::default()
        }],
        ..RelaySettings::default()
    });

    assert_eq!(
        settings.active_relay_session_provider(&facts(&settings)),
        RelaySessionProvider::Openai
    );

    settings.relays.relay_profiles[0].config_contents = "model_provider = \"custom\"\n".to_string();
    assert_eq!(
        settings.active_relay_session_provider(&facts(&settings)),
        RelaySessionProvider::Custom
    );
}

#[test]
fn active_relay_profile_uses_legacy_single_relay_when_profiles_are_default() {
    let settings = with_relays(RelaySettings {
        relay_base_url: "https://legacy.example/v1".to_string(),
        relay_api_key: "sk-legacy".to_string(),
        ..RelaySettings::default()
    });

    let active = settings.active_relay_profile(&facts(&settings));

    assert_eq!(active.id, "default");
    assert_eq!(active.name, "默认中转");
    assert_eq!(active.base_url, "https://legacy.example/v1");
    assert_eq!(active.api_key, "sk-legacy");
    assert_eq!(active.relay_mode, RelayMode::MixedApi);
    assert!(active.official_mix_api_key);
}

#[test]
fn legacy_market_theme_ids_resolve_to_layout_presets() {
    assert_eq!(
        resolve_dream_skin_style_preset("preset-cyber-neon", "dream-original"),
        "cyber-neon"
    );
    assert_eq!(
        resolve_dream_skin_style_preset("codex-snow-skin", ""),
        "codex-snow"
    );
    assert_eq!(
        resolve_dream_skin_style_preset("custom-theme", "dream-original"),
        "dream-original"
    );
}

#[test]
fn unknown_active_relay_is_made_of_the_single_address() {
    let settings = with_relays(RelaySettings {
        active_relay_id: "gone".to_string(),
        relay_base_url: "https://one.example".to_string(),
        ..RelaySettings::default()
    });
    let active = settings.active_relay_profile(&facts(&settings));
    assert_eq!(active.id, "gone");
    assert_eq!(active.base_url, "https://one.example");
    assert_eq!(active.relay_mode, RelayMode::Official);
    assert!(!active.official_mix_api_key);
}

#[test]
fn openai_aggregate_borrows_the_official_sign_in() {
    let mut openai = aggregate(AggregateRelayStrategy::Failover, vec![member("default", 1)]);
    openai.session_provider = RelaySessionProvider::Openai;
    let settings = with_relays(RelaySettings {
        relay_profiles: vec![
            RelayProfile {
                auth_contents: "signed in".to_string(),
                ..RelayProfile::default()
            },
            RelayProfile {
                id: "agg".to_string(),
                relay_mode: RelayMode::Aggregate,
                ..RelayProfile::default()
            },
        ],
        active_relay_id: "agg".to_string(),
        aggregate_relay_profiles: vec![openai],
        ..RelaySettings::default()
    });
    let mut known = facts(&settings);
    assert_eq!(settings.active_relay_profile(&known).auth_contents, "");
    known.chatgpt_auth[0] = true;
    assert_eq!(settings.active_relay_profile(&known).auth_contents, "signed in");
    assert!(settings.active_relay_uses_protocol_proxy(&known));
    assert_eq!(
        settings.active_relay_session_provider(&known),
        RelaySessionProvider::Openai
    );
}

#[test]
fn stored_values_fall_back_to_defaults() {
    for protocol in ["chat_completions", "responses", "anthropic_messages", "auto"] {
        assert_eq!(stored_stepwise_protocol(Some(format!(" {protocol} "))), protocol);
    }
    assert_eq!(stored_stepwise_protocol(None), "chat_completions");
    assert_eq!(
        stored_stepwise_protocol(Some("unsupported".to_string())),
        "chat_completions"
    );
    assert_eq!(
        stored_stepwise_api_key_env(Some(String::new())),
        default_stepwise_api_key_env()
    );
    assert_eq!(stored_stepwise_api_key_env(Some(" K ".to_string())), " K ");
    assert_eq!(stored_image_overlay_opacity(None), 35);
    assert_eq!(stored_image_overlay_opacity(Some(0)), 1);
    assert_eq!(stored_image_overlay_opacity(Some(255)), 100);
    assert_eq!(stored_image_overlay_fit_mode(Some("tile".to_string())), "tile");
    assert_eq!(stored_image_overlay_fit_mode(Some("Tile".to_string())), "fit");
    assert_eq!(stored_dream_skin_theme(Some(" miku ".to_string())), "miku");
    assert_eq!(stored_dream_skin_theme(None), "pink");
    assert_eq!(stored_stepwise_max_items(Some(9)), 6);
    assert_eq!(stored_stepwise_max_input_chars(Some(1)), 1000);
    assert_eq!(stored_stepwise_max_output_tokens(Some(9000)), 4000);
    assert_eq!(stored_stepwise_timeout_ms(Some(999)), 1000);
}

#[test]
fn names_of_policies() {
    assert_eq!(NativeAgentInterop::Auto.as_str(), "auto");
    assert_eq!(NativeAgentInterop::On.as_str(), "on");
    assert_eq!(NativeAgentInterop::Off.as_str(), "off");
    assert_eq!(ResponsesWirePolicy::Compatible.as_str(), "compatible");
    assert_eq!(ResponsesWirePolicy::Passthrough.as_str(), "passthrough");
    assert_eq!(ResponsesReasoningPolicy::OpenAiOpaque.as_str(), "openAiOpaque");
    assert_eq!(ResponsesReasoningPolicy::Strip.as_str(), "strip");
    assert_eq!(ResponsesReasoningPolicy::Passthrough.as_str(), "passthrough");
    assert_eq!(RelaySessionProvider::Openai.as_str(), "openai");
    assert_eq!(RelaySessionProvider::Custom.as_str(), "custom");
    assert_eq!(ResponsesReasoningPolicy::default(), ResponsesReasoningPolicy::Passthrough);
    assert_eq!(RelayProtocol::default(), RelayProtocol::Responses);
}

#[test]
fn skin_depends_on_the_system() {
    let windows = DreamSkinThemeConfig::for_system(true);
    assert_eq!(windows.name, "桥本有菜");
    assert!(windows.colors.is_none());
    let art = value(&windows.extra_fields);
    assert_eq!(art["art"]["focusX"], 0.72);
    assert_eq!(art["art"]["safeArea"], "left");
    let other = DreamSkinThemeConfig::default();
    assert_eq!(other.name, "Dream Skin");
    assert_eq!(other.colors.as_ref().unwrap().accent, "#E25563");
    assert_eq!(value(&other.extra_fields)["image"], "portal-hero.png");
    assert!(!other.same(&windows));
    assert!(other.copy().same(&other));
}

#[test]
fn change_takes_known_fields_over() {
    let mut stored = json(r#"{ "providerSyncEnabled": false }"#);
    change(
        &mut stored,
        r#"{
            "providerSyncEnabled": true,
            "codexAppPath": "C:\\Portable\\Codex\\Codex.exe",
            "enhancementsEnabled": false,
            "codexAppSessionDelete": false,
            "codexAppConversationView": true,
            "codexAppThreadIdBadge": true,
            "codexAppNativeMenuLocalization": false,
            "codexAppServiceTierControls": true,
            "codexAppPetRealMouseLook": true,
            "codexGoalsEnabled": true,
            "relayBaseUrl": "https://relay.example.test/v1",
            "relayApiKey": "sk-relay",
            "codexExtraArgs": ["--force_high_performance_gpu", "", "  ", " --enable-gpu ", 7],
            "unknownKey": "ignored"
        }"#,
    );
    let saved = value(&stored);
    assert_eq!(saved["providerSyncEnabled"], true);
    assert_eq!(saved["codexAppPath"], r"C:\Portable\Codex\Codex.exe");
    assert_eq!(saved["enhancementsEnabled"], false);
    assert_eq!(saved["codexAppSessionDelete"], false);
    assert_eq!(saved["codexAppConversationView"], true);
    assert_eq!(saved["codexAppThreadIdBadge"], true);
    assert_eq!(saved["codexAppNativeMenuLocalization"], false);
    assert_eq!(saved["codexAppServiceTierControls"], true);
    assert_eq!(saved["codexAppPetRealMouseLook"], true);
    assert_eq!(saved["codexGoalsEnabled"], true);
    assert_eq!(saved["relayBaseUrl"], "https://relay.example.test/v1");
    assert_eq!(saved["relayApiKey"], "sk-relay");
    assert_eq!(
        saved["codexExtraArgs"],
        value(&json(r#"["--force_high_performance_gpu", "--enable-gpu"]"#))
    );
    assert!(saved.get("unknownKey").is_none());
}

#[test]
fn change_bounds_and_trims_its_values() {
    let mut stored = Json::object();
    change(
        &mut stored,
        r#"{
            "codexAppImageOverlayEnabled": true,
            "codexAppImageOverlayPath": "C:\\Users\\me\\Pictures\\overlay.png",
            "codexAppImageOverlayOpacity": 42,
            "codexAppImageOverlayFitMode": "fill",
            "codexAppDreamSkinTheme": "unknown",
            "codexAppDreamSkinImagePath": " C:\\Users\\me\\Pictures\\dream.webp ",
            "codexAppStepwiseBaseUrl": "https://api.example.test/v1/",
            "codexAppStepwiseApiKey": " sk-stepwise ",
            "codexAppStepwiseApiKeyEnv": "",
            "codexAppStepwiseModel": " stepwise-mini ",
            "codexAppStepwiseProtocol": "not-a-protocol",
            "codexAppStepwiseMaxItems": 12,
            "codexAppStepwiseMaxInputChars": 25000,
            "codexAppStepwiseMaxOutputTokens": 50,
            "codexAppStepwiseTimeoutMs": 70000,
            "weixinConnectToken": " token ",
            "relayTestModel": "  ",
            "launchMode": "relay"
        }"#,
    );
    let saved = value(&stored);
    assert_eq!(saved["codexAppImageOverlayEnabled"], true);
    assert_eq!(saved["codexAppImageOverlayPath"], r"C:\Users\me\Pictures\overlay.png");
    assert_eq!(saved["codexAppImageOverlayOpacity"], 42);
    assert_eq!(saved["codexAppImageOverlayFitMode"], "fill");
    assert_eq!(saved["codexAppDreamSkinTheme"], "pink");
    assert_eq!(saved["codexAppDreamSkinImagePath"], r"C:\Users\me\Pictures\dream.webp");
    assert_eq!(saved["codexAppStepwiseBaseUrl"], "https://api.example.test/v1");
    assert_eq!(saved["codexAppStepwiseApiKey"], "sk-stepwise");
    assert_eq!(saved["codexAppStepwiseApiKeyEnv"], "CODEX_STEPWISE_API_KEY");
    assert_eq!(saved["codexAppStepwiseModel"], "stepwise-mini");
    assert_eq!(saved["codexAppStepwiseProtocol"], "chat_completions");
    assert_eq!(saved["codexAppStepwiseMaxItems"], 6);
    assert_eq!(saved["codexAppStepwiseMaxInputChars"], 24000);
    assert_eq!(saved["codexAppStepwiseMaxOutputTokens"], 100);
    assert_eq!(saved["codexAppStepwiseTimeoutMs"], 60000);
    assert_eq!(saved["weixinConnectToken"], "token");
    assert_eq!(saved["relayTestModel"], "gpt-5.4-mini");
    assert_eq!(saved["launchMode"], "relay");
}

#[test]
fn change_ignores_values_that_do_not_do() {
    let mut stored = json(r#"{ "launchMode": "patch", "codexAppStepwiseMaxItems": 3 }"#);
    change(
        &mut stored,
        r#"{ "launchMode": "other", "codexAppStepwiseMaxItems": 300, "codexGoalsEnabled": "yes",
             "zedRemoteOpenStrategy": "x", "codexAppImageOverlayOpacity": -1 }"#,
    );
    assert!(stored.same(&json(r#"{ "launchMode": "patch", "codexAppStepwiseMaxItems": 3 }"#)));
}

#[test]
fn change_keeps_foreign_fields_and_drops_retired_ones() {
    let mut stored = json(
        r#"{"providerSyncEnabled":false,"codexAppPluginAutoExpand":true,"computerUseGuardEnabled":true,"customField":{"nested":true}}"#,
    );
    change(&mut stored, r#"{ "providerSyncEnabled": true }"#);
    assert!(stored.same(&json(r#"{"providerSyncEnabled":true,"customField":{"nested":true}}"#)));
}

#[test]
fn change_stores_relays_as_they_were_parsed() {
    let mut stored = Json::object();
    let parsed = ParsedChange {
        zed_strategy_is_known: true,
        skin_is_valid: true,
        relay_profiles: json(r#"[{ "id": "a" }]"#),
    };
    merge_known_setting_fields(
        &mut stored,
        &json(
            r#"{ "relayProfiles": [{ "id": "a", "apiKey": "k" }], "zedRemoteOpenStrategy": "s",
                 "codexAppDreamSkinThemeConfig": { "id": "d" }, "aggregateRelayProfiles": [1] }"#,
        ),
        &parsed,
    );
    assert!(stored.same(&json(
        r#"{ "relayProfiles": [{ "id": "a" }], "zedRemoteOpenStrategy": "s",
             "codexAppDreamSkinThemeConfig": { "id": "d" }, "aggregateRelayProfiles": [1] }"#,
    )));
}

#[test]
fn context_tables_move_out_of_the_common_config() {
    let settings = with_relays(RelaySettings {
        relay_common_config_contents: "[mcp_servers.context7]\ncommand = \"npx\"\n".to_string(),
        ..RelaySettings::default()
    });
    let settings = ordered(settings);
    assert!(settings.relays.relay_common_config_contents.is_empty());
    assert_eq!(
        settings.relays.relay_context_config_contents,
        "[mcp_servers.context7]\ncommand = \"npx\"\n"
    );
    let mut raw = Json::object();
    store_config_texts(&mut raw, &settings);
    assert_eq!(
        value(&raw)["relayContextConfigContents"],
        "[mcp_servers.context7]\ncommand = \"npx\"\n"
    );
}

#[test]
fn context_tables_are_extracted_from_the_common_config() {
    let (common, context) = split_context_config_sections(
        "model_reasoning_effort = \"high\"\n\n[mcp_servers.context7]\ncommand = \"npx\"\n\n[plugins.\"superpowers@openai-curated\"]\nenabled = true\n\n[other]\nx = 1\n",
    );
    assert_eq!(common, "model_reasoning_effort = \"high\"\n\n[other]\nx = 1\n");
    assert_eq!(
        context,
        "[mcp_servers.context7]\ncommand = \"npx\"\n\n[plugins.\"superpowers@openai-curated\"]\nenabled = true\n"
    );
    assert_eq!(
        join_config_sections(&vec![" a ".to_string(), String::new(), "b\n".to_string()]),
        "a\n\nb\n"
    );
}

#[test]
fn members_follow_the_order_of_the_relays() {
    let relays: Vec<RelayProfile> = ["openai-account-relay", "krill", "shuai-api", "agg"]
        .iter()
        .map(|id| RelayProfile {
            id: id.to_string(),
            ..RelayProfile::default()
        })
        .collect();
    let aggregates = vec![aggregate(
        AggregateRelayStrategy::PriorityFallback,
        vec![
            member("gone", 9),
            member("krill", 2),
            member("shuai-api", 3),
            member("openai-account-relay", 1),
        ],
    )];
    let ordered = normalize_aggregate_member_order(&aggregates, &relays);
    let members: Vec<(&str, u32)> = ordered[0]
        .members
        .iter()
        .map(|member| (member.relay_id.as_str(), member.weight))
        .collect();
    assert_eq!(
        members,
        vec![("openai-account-relay", 1), ("krill", 2), ("shuai-api", 3), ("gone", 9)]
    );
}

#[test]
fn settings_are_brought_into_order() {
    let settings = BackendSettings {
        weixin: WeixinSettings {
            weixin_connect_base_url: "https://ilink.example.test/".to_string(),
            weixin_connect_token: " token ".to_string(),
            weixin_connect_sandbox: " workspace-write ".to_string(),
            ..WeixinSettings::default()
        },
        looks: LooksSettings {
            codex_app_dream_skin_theme: "miku".to_string(),
            codex_app_image_overlay_opacity: 0,
            ..LooksSettings::default()
        },
        ..BackendSettings::default()
    };
    let settings = ordered(settings);
    assert_eq!(settings.weixin.weixin_connect_base_url, "https://ilink.example.test");
    assert_eq!(settings.weixin.weixin_connect_token, "token");
    assert_eq!(settings.weixin.weixin_connect_sandbox, "workspace-write");
    assert_eq!(settings.looks.codex_app_image_overlay_opacity, 1);
    assert_eq!(settings.looks.codex_app_dream_skin_theme_config.id, "miku");

    let blank = BackendSettings {
        weixin: WeixinSettings {
            weixin_connect_base_url: " / ".to_string(),
            weixin_connect_sandbox: "anything".to_string(),
            ..WeixinSettings::default()
        },
        ..BackendSettings::default()
    };
    let blank = ordered(blank);
    assert_eq!(blank.weixin.weixin_connect_base_url, default_weixin_connect_base_url());
    assert_eq!(blank.weixin.weixin_connect_sandbox, "read-only");
    assert_eq!(blank.looks.codex_app_dream_skin_theme_config.id, "custom-1784123441349");
}

#[test]
fn arguments_are_trimmed_and_filled() {
    let args = [" a ".to_string(), " ".to_string(), "b c".to_string()];
    assert_eq!(normalize_codex_extra_args(&args), vec!["a", "b c"]);
}

fn mix(config: &str, api_key: &str) -> RelayProfile {
    RelayProfile {
        id: "official-mix".to_string(),
        name: "官方混入".to_string(),
        relay_mode: RelayMode::Official,
        official_mix_api_key: true,
        api_key: api_key.to_string(),
        config_contents: config.to_string(),
        ..RelayProfile::default()
    }
}

#[test]
fn earlier_token_is_kept_when_a_change_loses_it() {
    let previous = vec![mix(
        "model_provider = \"custom\"\n\n[model_providers.other]\nbase_url = \"https://other.example/v1\"\nexperimental_bearer_token = \"sk-other\"\n\n[model_providers.custom]\nbase_url = \"https://relay.example/v1\"\nexperimental_bearer_token = \"sk-existing\"\n",
        "",
    )];
    let next = vec![mix(
        "model_provider = \"custom\"\n\n[model_providers.other]\nbase_url = \"https://other.example/v1\"\nexperimental_bearer_token = \"sk-other\"\n\n[model_providers.custom]\nbase_url = \"https://relay.example/v1\"\nexperimental_bearer_token = \"\"\n",
        "",
    )];
    let kept = preserve_tokens_where_placed(&next, &previous).unwrap();
    assert!(kept[0].config_contents.contains(
        "[model_providers.custom]\nbase_url = \"https://relay.example/v1\"\nexperimental_bearer_token = \"sk-existing\""
    ));
    assert_eq!(
        experimental_bearer_token_from_config_text(&kept[0].config_contents).unwrap(),
        "sk-existing"
    );
}

#[test]
fn own_key_becomes_the_missing_token() {
    let next = vec![mix(
        "model_provider = \"custom\"\n\n[model_providers.custom]\nbase_url = \"https://relay.example/v1\"\n",
        " sk-new ",
    )];
    let kept = preserve_tokens_where_placed(&next, &Vec::new()).unwrap();
    assert!(kept[0]
        .config_contents
        .contains("experimental_bearer_token = \"sk-new\""));
}

#[test]
fn manual_token_stays() {
    let config = "model_provider = \"custom\"\n\n[model_providers.custom]\nbase_url = \"https://relay.example/v1\"\nexperimental_bearer_token = \"22222222222222222222222222222222222\"\n";
    let next = vec![mix(config, "sk-new")];
    let kept = preserve_tokens_where_placed(&next, &Vec::new()).unwrap();
    assert_eq!(kept[0].config_contents, config);
}

#[test]
fn token_is_set_where_there_is_a_place() {
    let text = set_token_where_placed("\u{feff}", " t ").unwrap();
    assert_eq!(
        text,
        "model_provider = \"codex-plus-relay\"\nmodel_providers = { codex-plus-relay = { experimental_bearer_token = \"t\" } }\n"
    );
    assert!(set_token_where_placed("model_providers = 1\n", "t").is_none());
    let openai = set_token_where_placed(
        "model_provider = \"openai\"\n[model_providers.custom]\nname = \"custom\"\n",
        "t",
    )
    .unwrap();
    assert_eq!(experimental_bearer_token_from_config_text(&openai).unwrap(), "t");
    assert!(preserve_tokens_where_placed(&vec![mix("model_providers = 1", "k")], &Vec::new()).is_none());
    assert!(experimental_bearer_token_from_config_text("not toml").is_none());
}

fn request(enabled: bool) -> SetRelayModelRouteRequest {
    SetRelayModelRouteRequest {
        id: "source".to_string(),
        model: "gpt-5.6-terra".to_string(),
        enabled,
        restore_at: None,
        duration_seconds: None,
        permanent: false,
    }
}

#[test]
fn route_recovery_follows_the_request() {
    assert_eq!(route_recovery(&request(false), 1_000).unwrap(), Some(18_001_000));
    assert_eq!(route_recovery(&request(true), 1_000).unwrap(), None);
    let mut permanent = request(false);
    permanent.permanent = true;
    assert_eq!(route_recovery(&permanent, 1_000).unwrap(), None);
    let mut timed = request(false);
    timed.duration_seconds = Some(2);
    assert_eq!(route_recovery(&timed, 1_000).unwrap(), Some(3_000));
    timed.duration_seconds = Some(u64::MAX);
    assert_eq!(route_recovery(&timed, 1_000).unwrap(), Some(u64::MAX));
    timed.duration_seconds = Some(0);
    assert_eq!(route_recovery(&timed, 1_000).unwrap_err(), "durationSeconds must be positive");
    timed.permanent = true;
    assert_eq!(
        route_recovery(&timed, 1_000).unwrap_err(),
        "restoreAt, durationSeconds and permanent are mutually exclusive"
    );
    timed.enabled = true;
    assert_eq!(
        route_recovery(&timed, 1_000).unwrap_err(),
        "Recovery options are only valid when disabling a route"
    );
    let mut named = request(false);
    named.restore_at = Some(1_000);
    assert_eq!(
        route_recovery(&named, 1_000).unwrap_err(),
        "restoreAt must be a future UTC Unix millisecond timestamp"
    );
    named.restore_at = Some(1_001);
    assert_eq!(route_recovery(&named, 1_000).unwrap(), Some(1_001));
    named.id = " ".to_string();
    assert_eq!(
        route_recovery(&named, 1_000).unwrap_err(),
        "Provider id and model are required"
    );
}

#[test]
fn stored_route_is_switched_and_nothing_else() {
    let text = r#"{
        "activeRelayId": "source",
        "relayProfiles": [
            { "id": "source", "name": "Source", "modelRoutes": [{
                "model": "gpt-5.6-terra", "targetRelayId": "target", "targetModel": "glm-5.3",
                "futureField": "keep" }] },
            { "id": "target", "name": "Target" }
        ]
    }"#;
    let mut raw = json(text);
    apply_route_request(&mut raw, &request(false), Some(7)).unwrap();
    let saved = value(&raw);
    let route = &saved["relayProfiles"][0]["modelRoutes"][0];
    assert_eq!(route["futureField"], "keep");
    assert_eq!(route["enabled"], false);
    assert_eq!(route["restoreAt"], 7);

    apply_route_request(&mut raw, &request(true), None).unwrap();
    let saved = value(&raw);
    let route = &saved["relayProfiles"][0]["modelRoutes"][0];
    assert_eq!(route["enabled"], true);
    assert!(route.get("restoreAt").is_none());

    let mut missing = request(true);
    missing.model = "other".to_string();
    assert_eq!(
        apply_route_request(&mut raw, &missing, None).unwrap_err(),
        "Model route not found"
    );
    missing.id = "other".to_string();
    assert_eq!(
        apply_route_request(&mut raw, &missing, None).unwrap_err(),
        "Provider not found"
    );
    assert_eq!(
        apply_route_request(&mut Json::object(), &missing, None).unwrap_err(),
        "Provider list is missing"
    );
}

fn routed(enabled: bool, restore_at: Option<u64>) -> BackendSettings {
    with_relays(RelaySettings {
        relay_profiles: vec![
            RelayProfile {
                id: "source".to_string(),
                name: "Source".to_string(),
                model_routes: vec![RelayModelRoute {
                    model: "gpt-5.6-terra".to_string(),
                    target_relay_id: "target".to_string(),
                    target_model: "glm-5.3".to_string(),
                    enabled,
                    restore_at,
                }],
                ..RelayProfile::default()
            },
            RelayProfile {
                id: "target".to_string(),
                name: "Target".to_string(),
                ..RelayProfile::default()
            },
        ],
        ..RelaySettings::default()
    })
}

#[test]
fn routes_tell_how_they_stand() {
    let settings = routed(false, Some(18_001_000));
    let list = model_routes_list(&settings, "source", 1_000).unwrap();
    assert_eq!(list.provider_name, "Source");
    assert_eq!(list.routes[0].target_relay_name, "Target");
    assert!(!list.routes[0].enabled);
    assert!(!list.routes[0].permanent);
    assert_eq!(list.routes[0].remaining_seconds, 18_000);
    let back = model_routes_list(&settings, "source", 18_001_000).unwrap();
    assert!(back.routes[0].enabled);
    assert_eq!(back.routes[0].restore_at, None);
    assert_eq!(model_routes_list(&settings, "gone", 0).unwrap_err(), "Provider not found");

    let result = route_set_result(&routed(false, None), &request(false), 5, true).unwrap();
    assert!(result.route.permanent);
    assert!(result.dry_run);
    assert_eq!(result.provider_id, "source");
    assert!(route_set_result(&with_relays(RelaySettings::default()), &request(false), 5, true).is_err());
}

#[test]
fn saving_switches_no_route() {
    let current = routed(false, Some(u64::MAX - 1));
    let mut next = routed(true, None);
    next.relays.relay_profiles[0].name = "Stale draft rename".to_string();
    let kept = preserve_model_route_states(
        &next.relays.relay_profiles,
        &current.relays.relay_profiles,
    );
    assert_eq!(kept[0].name, "Stale draft rename");
    assert!(!kept[0].model_routes[0].enabled);
    assert_eq!(kept[0].model_routes[0].restore_at, Some(u64::MAX - 1));
    assert_eq!(kept[1], next.relays.relay_profiles[1]);
}

#[test]
fn saved_settings_keep_the_stored_route_states() {
    let current = routed(false, None);
    let mut next = routed(true, None);
    next.app.codex_extra_args = vec![" --a ".to_string(), " ".to_string()];
    let (common, context) = config_texts(&next);
    let relays = next.relays.relay_profiles.clone();
    let written = prepare_save(
        next,
        common,
        context,
        relays.clone(),
        false,
        Some(&current.relays.relay_profiles),
    );
    assert_eq!(written.app.codex_extra_args, vec!["--a"]);
    assert!(!written.relays.relay_profiles[0].model_routes[0].enabled);

    let fresh = routed(true, None);
    let written = prepare_save(fresh, String::new(), String::new(), relays, false, None);
    assert!(written.relays.relay_profiles[0].model_routes[0].enabled);
}

#[test]
fn parting_again_finds_no_context_table() {
    let (common, _) = split_context_config_sections(
        "a = 1\r\n  [mcp_servers.x]  \nb = 2\n[other]\nc = 3\n[skills.y]\nd = 4\n",
    );
    assert_eq!(common, "a = 1\n[other]\nc = 3\n");
    let (again, context) = split_context_config_sections(&common);
    assert_eq!(again, common);
    assert_eq!(context, "");
}

#[test]
fn fresh_settings_depend_on_the_system() {
    let windows = BackendSettings::for_system(true);
    assert_eq!(windows.looks.codex_app_dream_skin_theme_config.name, "桥本有菜");
    let mut themed = BackendSettings::for_system(true);
    themed.looks.codex_app_dream_skin_theme = "miku".to_string();
    let relays = themed.relays.relay_profiles.clone();
    let ordered =
        normalize_settings_config_sections(themed, String::new(), String::new(), relays, true);
    assert_eq!(ordered.looks.codex_app_dream_skin_theme_config.id, "miku");
}

#[test]
fn settings_in_order_stay() {
    let mut settings = BackendSettings::default();
    settings.stepwise.codex_app_stepwise_base_url = " https://a/ ".to_string();
    settings.stepwise.codex_app_stepwise_timeout_ms = 1;
    settings.looks.codex_app_dream_skin_theme = " miku ".to_string();
    settings.weixin.weixin_connect_base_url = "https://b//".to_string();
    let once = ordered(settings);
    assert_eq!(once.stepwise.codex_app_stepwise_base_url, "https://a");
    assert_eq!(once.weixin.weixin_connect_base_url, "https://b");
    let stepwise = format!("{:?}", once.stepwise);
    let looks = format!("{:?}", once.looks);
    let weixin = format!("{:?}", once.weixin);
    let twice = ordered(once);
    assert_eq!(format!("{:?}", twice.stepwise), stepwise);
    assert_eq!(format!("{:?}", twice.looks), looks);
    assert_eq!(format!("{:?}", twice.weixin), weixin);
}

#[test]
fn own_token_of_openai_comes_first() {
    let config = "model_provider = \"openai\"\n[model_providers.openai]\nexperimental_bearer_token = \"own\"\n[model_providers.custom]\nname = \"c\"\n";
    let text = set_token_where_placed(config, "t").unwrap();
    assert!(text.contains("experimental_bearer_token = \"t\""));
    assert_eq!(experimental_bearer_token_from_config_text(&text).unwrap(), "own");
}

#[test]
fn tokens_with_many_quotes_in_a_row_are_refused() {
    let config = "model_provider = \"custom\"\n[model_providers.custom]\nname = \"c\"\n";
    for quote in ["'", "\""] {
        let most = quote.repeat(255);
        let text = set_token_where_placed(config, &most).unwrap();
        assert_eq!(experimental_bearer_token_from_config_text(&text).unwrap(), most);
        assert!(set_token_where_placed(config, &quote.repeat(256)).is_none());
        let parted = format!("{most}a{most}");
        let text = set_token_where_placed(config, &parted).unwrap();
        assert_eq!(experimental_bearer_token_from_config_text(&text).unwrap(), parted);
    }
}

#[test]
fn names_of_policies_are_read_back() {
    for policy in [
        ResponsesReasoningPolicy::Passthrough,
        ResponsesReasoningPolicy::OpenAiOpaque,
        ResponsesReasoningPolicy::Strip,
    ] {
        assert_eq!(ResponsesReasoningPolicy::from_name(policy.as_str()), Some(policy));
    }
    for policy in [ResponsesWirePolicy::Compatible, ResponsesWirePolicy::Passthrough] {
        assert_eq!(ResponsesWirePolicy::from_name(policy.as_str()), Some(policy));
    }
    for interop in [NativeAgentInterop::Auto, NativeAgentInterop::On, NativeAgentInterop::Off] {
        assert_eq!(NativeAgentInterop::from_name(interop.as_str()), Some(interop));
    }
    for provider in [RelaySessionProvider::Custom, RelaySessionProvider::Openai] {
        assert_eq!(RelaySessionProvider::from_name(provider.as_str()), Some(provider));
    }
    assert_eq!(ResponsesReasoningPolicy::from_name("Strip"), None);
    assert_eq!(ResponsesWirePolicy::from_name(""), None);
    assert_eq!(NativeAgentInterop::from_name("on "), None);
    assert_eq!(RelaySessionProvider::from_name("OpenAI"), None);
}

#[test]
fn comments_and_layout_stay_when_a_token_is_set() {
    let config = "# top\nmodel_provider   =  \"custom\" # kept?\nn = [1,  2]\n\n[model_providers.custom] # head\n# inside\nname = 'c'\n";
    assert_eq!(
        set_token_where_placed(config, "t").unwrap(),
        "# top\nmodel_provider   = \"custom\"\nn = [1,  2]\n\n[model_providers.custom] # head\n# inside\nname = 'c'\nexperimental_bearer_token = \"t\"\n"
    );
}
