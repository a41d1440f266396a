//! The settings as a whole.
use vstd::prelude::*;

use super::defaults::{
    default_active_relay_id, default_dream_skin_theme, default_image_overlay_fit_mode,
    default_image_overlay_opacity, default_relay_base_url, default_relay_profiles,
    default_relay_test_model, default_stepwise_api_key_env, default_stepwise_max_input_chars,
    default_stepwise_max_items, default_stepwise_max_output_tokens, default_stepwise_protocol,
    default_stepwise_timeout_ms, default_weixin_connect_base_url, default_weixin_connect_sandbox,
    weixin_base_url,
};
use super::skin::{DreamSkinThemeConfig, DreamSkinThemeConfigView};
use super::types::{
    aggregate_relay_profile_views, no_text, relay_profile_views, AggregateRelayProfile,
    AggregateRelayProfileView, LaunchMode, RelayProfile, RelayProfileView,
};
use crate::text::texts;

verus! {

/// Switches and paths of the app.
#[derive(Debug)]
pub struct AppSettings {
    pub codex_app_path: String,
    pub codex_extra_args: Vec<String>,
    pub provider_sync_enabled: bool,
    pub provider_sync_saved_providers: Vec<String>,
    pub provider_sync_manual_providers: Vec<String>,
    pub provider_sync_last_selected_provider: String,
    pub ccs_db_path: String,
    pub enhancements_enabled: bool,
    pub codex_app_plugin_marketplace_unlock: bool,
    pub codex_app_model_whitelist_unlock: bool,
    pub codex_app_session_delete: bool,
    pub codex_app_markdown_export: bool,
    pub codex_app_paste_fix: bool,
    pub codex_app_force_chinese_locale: bool,
    pub codex_app_fast_startup: bool,
    pub codex_app_thread_id_badge: bool,
    pub codex_app_conversation_view: bool,
    pub codex_app_thread_scroll_restore: bool,
    pub codex_app_zed_remote_open: bool,
    pub zed_remote_open_strategy: String,
    pub zed_remote_project_registry_enabled: bool,
    pub zed_remote_sync_to_zed_settings: bool,
    pub codex_app_upstream_worktree_create: bool,
    pub codex_app_native_menu_placement: bool,
    pub codex_app_native_menu_localization: bool,
    pub codex_app_service_tier_controls: bool,
    pub codex_app_pet_real_mouse_look: bool,
    pub codex_goals_enabled: bool,
}

pub struct AppSettingsView {
    pub codex_app_path: Seq<char>,
    pub codex_extra_args: Seq<Seq<char>>,
    pub provider_sync_enabled: bool,
    pub provider_sync_saved_providers: Seq<Seq<char>>,
    pub provider_sync_manual_providers: Seq<Seq<char>>,
    pub provider_sync_last_selected_provider: Seq<char>,
    pub ccs_db_path: Seq<char>,
    pub enhancements_enabled: bool,
    pub codex_app_plugin_marketplace_unlock: bool,
    pub codex_app_model_whitelist_unlock: bool,
    pub codex_app_session_delete: bool,
    pub codex_app_markdown_export: bool,
    pub codex_app_paste_fix: bool,
    pub codex_app_force_chinese_locale: bool,
    pub codex_app_fast_startup: bool,
    pub codex_app_thread_id_badge: bool,
    pub codex_app_conversation_view: bool,
    pub codex_app_thread_scroll_restore: bool,
    pub codex_app_zed_remote_open: bool,
    pub zed_remote_open_strategy: Seq<char>,
    pub zed_remote_project_registry_enabled: bool,
    pub zed_remote_sync_to_zed_settings: bool,
    pub codex_app_upstream_worktree_create: bool,
    pub codex_app_native_menu_placement: bool,
    pub codex_app_native_menu_localization: bool,
    pub codex_app_service_tier_controls: bool,
    pub codex_app_pet_real_mouse_look: bool,
    pub codex_goals_enabled: bool,
}

impl View for AppSettings {
    type V = AppSettingsView;

    open spec fn view(&self) -> AppSettingsView {
        AppSettingsView {
            codex_app_path: self.codex_app_path@,
            codex_extra_args: texts(self.codex_extra_args@),
            provider_sync_enabled: self.provider_sync_enabled,
            provider_sync_saved_providers: texts(self.provider_sync_saved_providers@),
            provider_sync_manual_providers: texts(self.provider_sync_manual_providers@),
            provider_sync_last_selected_provider: self.provider_sync_last_selected_provider@,
            ccs_db_path: self.ccs_db_path@,
            enhancements_enabled: self.enhancements_enabled,
            codex_app_plugin_marketplace_unlock: self.codex_app_plugin_marketplace_unlock,
            codex_app_model_whitelist_unlock: self.codex_app_model_whitelist_unlock,
            codex_app_session_delete: self.codex_app_session_delete,
            codex_app_markdown_export: self.codex_app_markdown_export,
            codex_app_paste_fix: self.codex_app_paste_fix,
            codex_app_force_chinese_locale: self.codex_app_force_chinese_locale,
            codex_app_fast_startup: self.codex_app_fast_startup,
            codex_app_thread_id_badge: self.codex_app_thread_id_badge,
            codex_app_conversation_view: self.codex_app_conversation_view,
            codex_app_thread_scroll_restore: self.codex_app_thread_scroll_restore,
            codex_app_zed_remote_open: self.codex_app_zed_remote_open,
            zed_remote_open_strategy: self.zed_remote_open_strategy@,
            zed_remote_project_registry_enabled: self.zed_remote_project_registry_enabled,
            zed_remote_sync_to_zed_settings: self.zed_remote_sync_to_zed_settings,
            codex_app_upstream_worktree_create: self.codex_app_upstream_worktree_create,
            codex_app_native_menu_placement: self.codex_app_native_menu_placement,
            codex_app_native_menu_localization: self.codex_app_native_menu_localization,
            codex_app_service_tier_controls: self.codex_app_service_tier_controls,
            codex_app_pet_real_mouse_look: self.codex_app_pet_real_mouse_look,
            codex_goals_enabled: self.codex_goals_enabled,
        }
    }
}

impl AppSettingsView {
    pub open spec fn default() -> AppSettingsView {
        AppSettingsView {
            codex_app_path: no_text(),
            codex_extra_args: Seq::empty(),
            provider_sync_enabled: false,
            provider_sync_saved_providers: Seq::empty(),
            provider_sync_manual_providers: Seq::empty(),
            provider_sync_last_selected_provider: no_text(),
            ccs_db_path: no_text(),
            enhancements_enabled: true,
            codex_app_plugin_marketplace_unlock: true,
            codex_app_model_whitelist_unlock: true,
            codex_app_session_delete: true,
            codex_app_markdown_export: true,
            codex_app_paste_fix: false,
            codex_app_force_chinese_locale: true,
            codex_app_fast_startup: false,
            codex_app_thread_id_badge: false,
            codex_app_conversation_view: false,
            codex_app_thread_scroll_restore: true,
            codex_app_zed_remote_open: true,
            zed_remote_open_strategy: "addToFocusedWorkspace"@,
            zed_remote_project_registry_enabled: true,
            zed_remote_sync_to_zed_settings: false,
            codex_app_upstream_worktree_create: true,
            codex_app_native_menu_placement: true,
            codex_app_native_menu_localization: true,
            codex_app_service_tier_controls: false,
            codex_app_pet_real_mouse_look: false,
            codex_goals_enabled: false,
        }
    }
}

impl Default for AppSettings {
    fn default() -> (r: Self)
        ensures
            r@ == AppSettingsView::default(),
    {
        let r = AppSettings {
            codex_app_path: String::new(),
            codex_extra_args: Vec::new(),
            provider_sync_enabled: false,
            provider_sync_saved_providers: Vec::new(),
            provider_sync_manual_providers: Vec::new(),
            provider_sync_last_selected_provider: String::new(),
            ccs_db_path: String::new(),
            enhancements_enabled: true,
            codex_app_plugin_marketplace_unlock: true,
            codex_app_model_whitelist_unlock: true,
            codex_app_session_delete: true,
            codex_app_markdown_export: true,
            codex_app_paste_fix: false,
            codex_app_force_chinese_locale: true,
            codex_app_fast_startup: false,
            codex_app_thread_id_badge: false,
            codex_app_conversation_view: false,
            codex_app_thread_scroll_restore: true,
            codex_app_zed_remote_open: true,
            zed_remote_open_strategy: "addToFocusedWorkspace".to_owned(),
            zed_remote_project_registry_enabled: true,
            zed_remote_sync_to_zed_settings: false,
            codex_app_upstream_worktree_create: true,
            codex_app_native_menu_placement: true,
            codex_app_native_menu_localization: true,
            codex_app_service_tier_controls: false,
            codex_app_pet_real_mouse_look: false,
            codex_goals_enabled: false,
        };
        assert(texts(r.codex_extra_args@) =~= Seq::empty());
        assert(texts(r.provider_sync_saved_providers@) =~= Seq::empty());
        assert(texts(r.provider_sync_manual_providers@) =~= Seq::empty());
        r
    }
}

/// The stepwise assistant.
#[derive(Debug)]
pub struct StepwiseSettings {
    pub codex_app_stepwise_enabled: bool,
    pub codex_app_stepwise_direct_send: bool,
    pub codex_app_stepwise_base_url: String,
    pub codex_app_stepwise_api_key: String,
    pub codex_app_stepwise_api_key_env: String,
    pub codex_app_stepwise_protocol: String,
    pub codex_app_stepwise_model: String,
    pub codex_app_stepwise_max_items: u8,
    pub codex_app_stepwise_max_input_chars: u32,
    pub codex_app_stepwise_max_output_tokens: u32,
    pub codex_app_stepwise_timeout_ms: u64,
}

pub struct StepwiseSettingsView {
    pub codex_app_stepwise_enabled: bool,
    pub codex_app_stepwise_direct_send: bool,
    pub codex_app_stepwise_base_url: Seq<char>,
    pub codex_app_stepwise_api_key: Seq<char>,
    pub codex_app_stepwise_api_key_env: Seq<char>,
    pub codex_app_stepwise_protocol: Seq<char>,
    pub codex_app_stepwise_model: Seq<char>,
    pub codex_app_stepwise_max_items: u8,
    pub codex_app_stepwise_max_input_chars: u32,
    pub codex_app_stepwise_max_output_tokens: u32,
    pub codex_app_stepwise_timeout_ms: u64,
}

impl View for StepwiseSettings {
    type V = StepwiseSettingsView;

    open spec fn view(&self) -> StepwiseSettingsView {
        StepwiseSettingsView {
            codex_app_stepwise_enabled: self.codex_app_stepwise_enabled,
            codex_app_stepwise_direct_send: self.codex_app_stepwise_direct_send,
            codex_app_stepwise_base_url: self.codex_app_stepwise_base_url@,
            codex_app_stepwise_api_key: self.codex_app_stepwise_api_key@,
            codex_app_stepwise_api_key_env: self.codex_app_stepwise_api_key_env@,
            codex_app_stepwise_protocol: self.codex_app_stepwise_protocol@,
            codex_app_stepwise_model: self.codex_app_stepwise_model@,
            codex_app_stepwise_max_items: self.codex_app_stepwise_max_items,
            codex_app_stepwise_max_input_chars: self.codex_app_stepwise_max_input_chars,
            codex_app_stepwise_max_output_tokens: self.codex_app_stepwise_max_output_tokens,
            codex_app_stepwise_timeout_ms: self.codex_app_stepwise_timeout_ms,
        }
    }
}

impl StepwiseSettingsView {
    pub open spec fn default() -> StepwiseSettingsView {
        StepwiseSettingsView {
            codex_app_stepwise_enabled: false,
            codex_app_stepwise_direct_send: false,
            codex_app_stepwise_base_url: no_text(),
            codex_app_stepwise_api_key: no_text(),
            codex_app_stepwise_api_key_env: "CODEX_STEPWISE_API_KEY"@,
            codex_app_stepwise_protocol: "chat_completions"@,
            codex_app_stepwise_model: no_text(),
            codex_app_stepwise_max_items: 6,
            codex_app_stepwise_max_input_chars: 6000,
            codex_app_stepwise_max_output_tokens: 500,
            codex_app_stepwise_timeout_ms: 8000,
        }
    }
}

impl Default for StepwiseSettings {
    fn default() -> (r: Self)
        ensures
            r@ == StepwiseSettingsView::default(),
    {
        let r = StepwiseSettings {
            codex_app_stepwise_enabled: false,
            codex_app_stepwise_direct_send: false,
            codex_app_stepwise_base_url: String::new(),
            codex_app_stepwise_api_key: String::new(),
            codex_app_stepwise_api_key_env: default_stepwise_api_key_env(),
            codex_app_stepwise_protocol: default_stepwise_protocol(),
            codex_app_stepwise_model: String::new(),
            codex_app_stepwise_max_items: default_stepwise_max_items(),
            codex_app_stepwise_max_input_chars: default_stepwise_max_input_chars(),
            codex_app_stepwise_max_output_tokens: default_stepwise_max_output_tokens(),
            codex_app_stepwise_timeout_ms: default_stepwise_timeout_ms(),
        };
        r
    }
}

/// The overlay and the skin.
#[derive(Debug)]
pub struct LooksSettings {
    pub codex_app_image_overlay_enabled: bool,
    pub codex_app_image_overlay_path: String,
    pub codex_app_image_overlay_opacity: u8,
    pub codex_app_image_overlay_fit_mode: String,
    pub codex_app_dream_skin_enabled: bool,
    pub codex_app_dream_skin_paused: bool,
    pub codex_app_dream_skin_theme: String,
    pub codex_app_dream_skin_theme_config: DreamSkinThemeConfig,
    pub codex_app_dream_skin_image_path: String,
}

pub struct LooksSettingsView {
    pub codex_app_image_overlay_enabled: bool,
    pub codex_app_image_overlay_path: Seq<char>,
    pub codex_app_image_overlay_opacity: u8,
    pub codex_app_image_overlay_fit_mode: Seq<char>,
    pub codex_app_dream_skin_enabled: bool,
    pub codex_app_dream_skin_paused: bool,
    pub codex_app_dream_skin_theme: Seq<char>,
    pub codex_app_dream_skin_theme_config: DreamSkinThemeConfigView,
    pub codex_app_dream_skin_image_path: Seq<char>,
}

impl View for LooksSettings {
    type V = LooksSettingsView;

    open spec fn view(&self) -> LooksSettingsView {
        LooksSettingsView {
            codex_app_image_overlay_enabled: self.codex_app_image_overlay_enabled,
            codex_app_image_overlay_path: self.codex_app_image_overlay_path@,
            codex_app_image_overlay_opacity: self.codex_app_image_overlay_opacity,
            codex_app_image_overlay_fit_mode: self.codex_app_image_overlay_fit_mode@,
            codex_app_dream_skin_enabled: self.codex_app_dream_skin_enabled,
            codex_app_dream_skin_paused: self.codex_app_dream_skin_paused,
            codex_app_dream_skin_theme: self.codex_app_dream_skin_theme@,
            codex_app_dream_skin_theme_config: self.codex_app_dream_skin_theme_config@,
            codex_app_dream_skin_image_path: self.codex_app_dream_skin_image_path@,
        }
    }
}

impl LooksSettingsView {
    pub open spec fn for_system(windows: bool) -> LooksSettingsView {
        LooksSettingsView {
            codex_app_image_overlay_enabled: false,
            codex_app_image_overlay_path: no_text(),
            codex_app_image_overlay_opacity: 35,
            codex_app_image_overlay_fit_mode: "fit"@,
            codex_app_dream_skin_enabled: false,
            codex_app_dream_skin_paused: false,
            codex_app_dream_skin_theme: "pink"@,
            codex_app_dream_skin_theme_config: DreamSkinThemeConfigView::for_system(windows),
            codex_app_dream_skin_image_path: no_text(),
        }
    }
}

impl LooksSettings {
    /// Fresh settings with a skin.
    fn with_skin(skin: DreamSkinThemeConfig) -> (r: Self)
        ensures
            r@ == (LooksSettingsView {
                codex_app_dream_skin_theme_config: skin@,
                ..LooksSettingsView::for_system(false)
            }),
    {
        LooksSettings {
            codex_app_image_overlay_enabled: false,
            codex_app_image_overlay_path: String::new(),
            codex_app_image_overlay_opacity: default_image_overlay_opacity(),
            codex_app_image_overlay_fit_mode: default_image_overlay_fit_mode(),
            codex_app_dream_skin_enabled: false,
            codex_app_dream_skin_paused: false,
            codex_app_dream_skin_theme: default_dream_skin_theme(),
            codex_app_dream_skin_theme_config: skin,
            codex_app_dream_skin_image_path: String::new(),
        }
    }

    pub fn for_system(windows: bool) -> (r: Self)
        ensures
            r@ == LooksSettingsView::for_system(windows),
    {
        LooksSettings::with_skin(DreamSkinThemeConfig::for_system(windows))
    }
}

/// Those of a fresh installation on the system that the program runs on.
impl Default for LooksSettings {
    fn default() -> (r: Self)
        ensures
            exists|windows: bool| r@ == #[trigger] LooksSettingsView::for_system(windows),
    {
        let skin = DreamSkinThemeConfig::default();
        let ghost windows = choose|windows: bool|
            skin@ == #[trigger] DreamSkinThemeConfigView::for_system(windows);
        let r = LooksSettings::with_skin(skin);
        assert(r@ == LooksSettingsView::for_system(windows));
        r
    }
}

/// The connection.
#[derive(Debug)]
pub struct WeixinSettings {
    pub weixin_connect_enabled: bool,
    pub weixin_connect_base_url: String,
    pub weixin_connect_token: String,
    pub weixin_connect_account_id: String,
    pub weixin_connect_allow_from: String,
    pub weixin_connect_route_tag: String,
    pub weixin_connect_work_dir: String,
    pub weixin_connect_model: String,
    pub weixin_connect_sandbox: String,
    pub weixin_connect_codex_path: String,
}

pub struct WeixinSettingsView {
    pub weixin_connect_enabled: bool,
    pub weixin_connect_base_url: Seq<char>,
    pub weixin_connect_token: Seq<char>,
    pub weixin_connect_account_id: Seq<char>,
    pub weixin_connect_allow_from: Seq<char>,
    pub weixin_connect_route_tag: Seq<char>,
    pub weixin_connect_work_dir: Seq<char>,
    pub weixin_connect_model: Seq<char>,
    pub weixin_connect_sandbox: Seq<char>,
    pub weixin_connect_codex_path: Seq<char>,
}

impl View for WeixinSettings {
    type V = WeixinSettingsView;

    open spec fn view(&self) -> WeixinSettingsView {
        WeixinSettingsView {
            weixin_connect_enabled: self.weixin_connect_enabled,
            weixin_connect_base_url: self.weixin_connect_base_url@,
            weixin_connect_token: self.weixin_connect_token@,
            weixin_connect_account_id: self.weixin_connect_account_id@,
            weixin_connect_allow_from: self.weixin_connect_allow_from@,
            weixin_connect_route_tag: self.weixin_connect_route_tag@,
            weixin_connect_work_dir: self.weixin_connect_work_dir@,
            weixin_connect_model: self.weixin_connect_model@,
            weixin_connect_sandbox: self.weixin_connect_sandbox@,
            weixin_connect_codex_path: self.weixin_connect_codex_path@,
        }
    }
}

impl WeixinSettingsView {
    pub open spec fn default() -> WeixinSettingsView {
        WeixinSettingsView {
            weixin_connect_enabled: false,
            weixin_connect_base_url: weixin_base_url(),
            weixin_connect_token: no_text(),
            weixin_connect_account_id: no_text(),
            weixin_connect_allow_from: no_text(),
            weixin_connect_route_tag: no_text(),
            weixin_connect_work_dir: no_text(),
            weixin_connect_model: no_text(),
            weixin_connect_sandbox: "read-only"@,
            weixin_connect_codex_path: no_text(),
        }
    }
}

impl Default for WeixinSettings {
    fn default() -> (r: Self)
        ensures
            r@ == WeixinSettingsView::default(),
    {
        let r = WeixinSettings {
            weixin_connect_enabled: false,
            weixin_connect_base_url: default_weixin_connect_base_url(),
            weixin_connect_token: String::new(),
            weixin_connect_account_id: String::new(),
            weixin_connect_allow_from: String::new(),
            weixin_connect_route_tag: String::new(),
            weixin_connect_work_dir: String::new(),
            weixin_connect_model: String::new(),
            weixin_connect_sandbox: default_weixin_connect_sandbox(),
            weixin_connect_codex_path: String::new(),
        };
        r
    }
}

/// The relays.
#[derive(Debug)]
pub struct RelaySettings {
    pub relay_profiles_enabled: bool,
    pub launch_mode: LaunchMode,
    pub relay_base_url: String,
    pub relay_api_key: String,
    pub relay_profiles: Vec<RelayProfile>,
    pub relay_common_config_contents: String,
    pub relay_context_config_contents: String,
    pub active_relay_id: String,
    pub aggregate_relay_profiles: Vec<AggregateRelayProfile>,
    pub active_aggregate_relay_id: String,
    pub relay_test_model: String,
}

pub struct RelaySettingsView {
    pub relay_profiles_enabled: bool,
    /// Whether the app is started with a relay.
    pub relay_launch: bool,
    pub relay_base_url: Seq<char>,
    pub relay_api_key: Seq<char>,
    pub relay_profiles: Seq<RelayProfileView>,
    pub relay_common_config_contents: Seq<char>,
    pub relay_context_config_contents: Seq<char>,
    pub active_relay_id: Seq<char>,
    pub aggregate_relay_profiles: Seq<AggregateRelayProfileView>,
    pub active_aggregate_relay_id: Seq<char>,
    pub relay_test_model: Seq<char>,
}

impl View for RelaySettings {
    type V = RelaySettingsView;

    open spec fn view(&self) -> RelaySettingsView {
        RelaySettingsView {
            relay_profiles_enabled: self.relay_profiles_enabled,
            relay_launch: self.launch_mode == LaunchMode::Relay,
            relay_base_url: self.relay_base_url@,
            relay_api_key: self.relay_api_key@,
            relay_profiles: relay_profile_views(self.relay_profiles@),
            relay_common_config_contents: self.relay_common_config_contents@,
            relay_context_config_contents: self.relay_context_config_contents@,
            active_relay_id: self.active_relay_id@,
            aggregate_relay_profiles: aggregate_relay_profile_views(self.aggregate_relay_profiles@),
            active_aggregate_relay_id: self.active_aggregate_relay_id@,
            relay_test_model: self.relay_test_model@,
        }
    }
}

impl RelaySettingsView {
    pub open spec fn default() -> RelaySettingsView {
        RelaySettingsView {
            relay_profiles_enabled: true,
            relay_launch: false,
            relay_base_url: no_text(),
            relay_api_key: no_text(),
            relay_profiles: seq![RelayProfileView::default()],
            relay_common_config_contents: no_text(),
            relay_context_config_contents: no_text(),
            active_relay_id: "default"@,
            aggregate_relay_profiles: Seq::empty(),
            active_aggregate_relay_id: no_text(),
            relay_test_model: "gpt-5.4-mini"@,
        }
    }
}

impl Default for RelaySettings {
    fn default() -> (r: Self)
        ensures
            r@ == RelaySettingsView::default(),
    {
        let r = RelaySettings {
            relay_profiles_enabled: true,
            launch_mode: LaunchMode::Patch,
            relay_base_url: default_relay_base_url(),
            relay_api_key: String::new(),
            relay_profiles: default_relay_profiles(),
            relay_common_config_contents: String::new(),
            relay_context_config_contents: String::new(),
            active_relay_id: default_active_relay_id(),
            aggregate_relay_profiles: Vec::new(),
            active_aggregate_relay_id: String::new(),
            relay_test_model: default_relay_test_model(),
        };
        assert(aggregate_relay_profile_views(r.aggregate_relay_profiles@) =~= Seq::empty());
        r
    }
}

/// The settings, by their parts.
#[derive(Debug)]
pub struct BackendSettings {
    pub app: AppSettings,
    pub stepwise: StepwiseSettings,
    pub looks: LooksSettings,
    pub weixin: WeixinSettings,
    pub relays: RelaySettings,
}

pub struct BackendSettingsView {
    pub app: AppSettingsView,
    pub stepwise: StepwiseSettingsView,
    pub looks: LooksSettingsView,
    pub weixin: WeixinSettingsView,
    pub relays: RelaySettingsView,
}

impl View for BackendSettings {
    type V = BackendSettingsView;

    open spec fn view(&self) -> BackendSettingsView {
        BackendSettingsView {
            app: self.app@,
            stepwise: self.stepwise@,
            looks: self.looks@,
            weixin: self.weixin@,
            relays: self.relays@,
        }
    }
}

impl BackendSettingsView {
    /// The settings of a fresh installation, on Windows or elsewhere.
    pub open spec fn for_system(windows: bool) -> BackendSettingsView {
        BackendSettingsView {
            app: AppSettingsView::default(),
            stepwise: StepwiseSettingsView::default(),
            looks: LooksSettingsView::for_system(windows),
            weixin: WeixinSettingsView::default(),
            relays: RelaySettingsView::default(),
        }
    }
}

impl BackendSettings {
    /// Fresh settings with looks.
    fn with_looks(looks: LooksSettings) -> (r: Self)
        ensures
            r@ == (BackendSettingsView { looks: looks@, ..BackendSettingsView::for_system(false) }),
    {
        BackendSettings {
            app: AppSettings::default(),
            stepwise: StepwiseSettings::default(),
            looks,
            weixin: WeixinSettings::default(),
            relays: RelaySettings::default(),
        }
    }

    pub fn for_system(windows: bool) -> (r: Self)
        ensures
            r@ == BackendSettingsView::for_system(windows),
    {
        BackendSettings::with_looks(LooksSettings::for_system(windows))
    }
}

/// Those of a fresh installation on the system that the program runs on.
impl Default for BackendSettings {
    fn default() -> (r: Self)
        ensures
            exists|windows: bool| r@ == #[trigger] BackendSettingsView::for_system(windows),
    {
        let looks = LooksSettings::default();
        let ghost windows = choose|windows: bool|
            looks@ == #[trigger] LooksSettingsView::for_system(windows);
        let r = BackendSettings::with_looks(looks);
        assert(r@ == BackendSettingsView::for_system(windows));
        r
    }
}

} // verus!
