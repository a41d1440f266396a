//! The settings of the manager: what they are, and the rules by which they are kept.

pub mod active;
pub mod active_laws;
pub mod backend;
pub mod defaults;
pub mod laws;
pub mod merge;
pub mod merge_laws;
pub mod normalize;
pub mod order_laws;
pub mod route_laws;
pub mod routes;
pub mod skin;
pub mod store;
pub mod store_laws;
pub mod tokens;
pub mod types;

pub use active::RelayFacts;
pub use backend::{
    AppSettings, BackendSettings, LooksSettings, RelaySettings, StepwiseSettings, WeixinSettings,
};
pub use defaults::{
    clamp_stepwise_max_input_chars, clamp_stepwise_max_items, clamp_stepwise_max_output_tokens,
    clamp_stepwise_timeout_ms, default_active_relay_id, default_aggregate_member_weight,
    default_dream_skin_theme, default_image_overlay_fit_mode, default_relay_base_url,
    default_relay_profiles, default_relay_test_model, default_stepwise_api_key_env,
    default_stepwise_max_input_chars, default_stepwise_max_items,
    default_stepwise_max_output_tokens, default_stepwise_protocol, default_stepwise_timeout_ms,
    default_true, normalize_codex_extra_args, normalize_stepwise_protocol,
    resolve_dream_skin_style_preset,
};
pub use skin::{DreamSkinColors, DreamSkinThemeConfig};
pub use types::{
    AggregateRelayMember, AggregateRelayProfile, AggregateRelayStrategy, LaunchMode,
    NativeAgentInterop, RelayMode, RelayModelAlias, RelayModelInsertMode, RelayModelRoute,
    RelayModelRouteStatus, RelayModelRoutesResult, RelayProfile, RelayProtocol,
    RelaySessionProvider, ResponsesReasoningPolicy, ResponsesWirePolicy, SetRelayModelRouteRequest,
    SetRelayModelRouteResult,
};
