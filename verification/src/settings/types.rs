//! Relays, their routes and aggregates.
use vstd::prelude::*;

use crate::text::{same_text, trim, trimmed};

verus! {

/// How the app is started.
#[derive(Clone, Copy, Debug, PartialEq, Eq, Structural, Default)]
pub enum LaunchMode {
    #[default]
    Patch,
    Relay,
}

/// How an aggregate picks the member that serves a request.
#[derive(Clone, Copy, Debug, PartialEq, Eq, Structural, Default)]
pub enum AggregateRelayStrategy {
    #[default]
    Failover,
    PriorityFallback,
    ConversationRoundRobin,
    RequestRoundRobin,
    WeightedRoundRobin,
}

/// Which provider the sessions of an aggregate belong to.
#[derive(Clone, Copy, Debug, PartialEq, Eq, Structural, Default)]
pub enum RelaySessionProvider {
    #[default]
    Custom,
    Openai,
}

impl RelaySessionProvider {
    pub open spec fn spec_name(self) -> Seq<char> {
        match self {
            RelaySessionProvider::Custom => "custom"@,
            RelaySessionProvider::Openai => "openai"@,
        }
    }

    pub fn as_str(self) -> (r: &'static str)
        ensures
            r@ == self.spec_name(),
    {
        match self {
            RelaySessionProvider::Custom => "custom",
            RelaySessionProvider::Openai => "openai",
        }
    }

    /// What a stored name stands for.
    pub open spec fn of_name(name: Seq<char>) -> Option<RelaySessionProvider> {
        if name == "custom"@ {
            Some(RelaySessionProvider::Custom)
        } else if name == "openai"@ {
            Some(RelaySessionProvider::Openai)
        } else {
            None
        }
    }

    /// Reads a stored name.
    pub fn from_name(name: &str) -> (r: Option<RelaySessionProvider>)
        ensures
            r == RelaySessionProvider::of_name(name@),
    {
        if same_text(name, "custom") {
            Some(RelaySessionProvider::Custom)
        } else if same_text(name, "openai") {
            Some(RelaySessionProvider::Openai)
        } else {
            None
        }
    }
}

/// The name of a session provider is read back as it, and no other name is.
pub proof fn session_provider_is_read_back(provider: RelaySessionProvider, name: Seq<char>)
    ensures
        (RelaySessionProvider::of_name(name) == Some(provider)) == (name == provider.spec_name()),
{
    reveal_strlit("custom");
    reveal_strlit("openai");
    assert("custom"@.len() == 6 && "custom"@[0] == 'c');
    assert("openai"@.len() == 6 && "openai"@[0] == 'o');
}

/// How the models of a relay reach the app.
#[derive(Clone, Copy, Debug, PartialEq, Eq, Structural, Default)]
pub enum RelayModelInsertMode {
    ModelCatalog,
    #[default]
    Patch,
}

/// What a relay speaks.
#[derive(Clone, Copy, Debug, PartialEq, Eq, Structural, Default)]
pub enum RelayProtocol {
    #[default]
    Responses,
    ChatCompletions,
}

/// What happens to reasoning items of a request.
#[derive(Clone, Copy, Debug, PartialEq, Eq, Structural, Default)]
pub enum ResponsesReasoningPolicy {
    #[default]
    Passthrough,
    OpenAiOpaque,
    Strip,
}

impl ResponsesReasoningPolicy {
    pub open spec fn spec_name(self) -> Seq<char> {
        match self {
            ResponsesReasoningPolicy::Passthrough => "passthrough"@,
            ResponsesReasoningPolicy::OpenAiOpaque => "openAiOpaque"@,
            ResponsesReasoningPolicy::Strip => "strip"@,
        }
    }

    pub fn as_str(self) -> (r: &'static str)
        ensures
            r@ == self.spec_name(),
    {
        match self {
            ResponsesReasoningPolicy::Passthrough => "passthrough",
            ResponsesReasoningPolicy::OpenAiOpaque => "openAiOpaque",
            ResponsesReasoningPolicy::Strip => "strip",
        }
    }

    /// What a stored name stands for.
    pub open spec fn of_name(name: Seq<char>) -> Option<ResponsesReasoningPolicy> {
        if name == "passthrough"@ {
            Some(ResponsesReasoningPolicy::Passthrough)
        } else if name == "openAiOpaque"@ {
            Some(ResponsesReasoningPolicy::OpenAiOpaque)
        } else if name == "strip"@ {
            Some(ResponsesReasoningPolicy::Strip)
        } else {
            None
        }
    }

    /// Reads a stored name.
    pub fn from_name(name: &str) -> (r: Option<ResponsesReasoningPolicy>)
        ensures
            r == ResponsesReasoningPolicy::of_name(name@),
    {
        if same_text(name, "passthrough") {
            Some(ResponsesReasoningPolicy::Passthrough)
        } else if same_text(name, "openAiOpaque") {
            Some(ResponsesReasoningPolicy::OpenAiOpaque)
        } else if same_text(name, "strip") {
            Some(ResponsesReasoningPolicy::Strip)
        } else {
            None
        }
    }
}

/// The name of a reasoning policy is read back as it, and no other name is.
pub proof fn reasoning_policy_is_read_back(policy: ResponsesReasoningPolicy, name: Seq<char>)
    ensures
        (ResponsesReasoningPolicy::of_name(name) == Some(policy)) == (name == policy.spec_name()),
{
    reveal_strlit("passthrough");
    reveal_strlit("openAiOpaque");
    reveal_strlit("strip");
    assert("passthrough"@.len() == 11 && "passthrough"@[0] == 'p');
    assert("openAiOpaque"@.len() == 12 && "openAiOpaque"@[0] == 'o');
    assert("strip"@.len() == 5 && "strip"@[0] == 's');
}

/// Whether native agents are adapted.
#[derive(Clone, Copy, Debug, PartialEq, Eq, Structural, Default)]
pub enum NativeAgentInterop {
    #[default]
    Auto,
    On,
    Off,
}

impl NativeAgentInterop {
    pub open spec fn spec_name(self) -> Seq<char> {
        match self {
            NativeAgentInterop::Auto => "auto"@,
            NativeAgentInterop::On => "on"@,
            NativeAgentInterop::Off => "off"@,
        }
    }

    pub fn as_str(self) -> (r: &'static str)
        ensures
            r@ == self.spec_name(),
    {
        match self {
            NativeAgentInterop::Auto => "auto",
            NativeAgentInterop::On => "on",
            NativeAgentInterop::Off => "off",
        }
    }

    /// What a stored name stands for.
    pub open spec fn of_name(name: Seq<char>) -> Option<NativeAgentInterop> {
        if name == "auto"@ {
            Some(NativeAgentInterop::Auto)
        } else if name == "on"@ {
            Some(NativeAgentInterop::On)
        } else if name == "off"@ {
            Some(NativeAgentInterop::Off)
        } else {
            None
        }
    }

    /// Reads a stored name.
    pub fn from_name(name: &str) -> (r: Option<NativeAgentInterop>)
        ensures
            r == NativeAgentInterop::of_name(name@),
    {
        if same_text(name, "auto") {
            Some(NativeAgentInterop::Auto)
        } else if same_text(name, "on") {
            Some(NativeAgentInterop::On)
        } else if same_text(name, "off") {
            Some(NativeAgentInterop::Off)
        } else {
            None
        }
    }
}

/// The name of a mode for native agents is read back as it, and no other name is.
pub proof fn native_agent_interop_is_read_back(interop: NativeAgentInterop, name: Seq<char>)
    ensures
        (NativeAgentInterop::of_name(name) == Some(interop)) == (name == interop.spec_name()),
{
    reveal_strlit("auto");
    reveal_strlit("on");
    reveal_strlit("off");
    assert("auto"@.len() == 4 && "auto"@[0] == 'a');
    assert("on"@.len() == 2 && "on"@[0] == 'o');
    assert("off"@.len() == 3 && "off"@[0] == 'o');
}

/// Whether requests are rewritten for compatibility.
#[derive(Clone, Copy, Debug, PartialEq, Eq, Structural, Default)]
pub enum ResponsesWirePolicy {
    #[default]
    Compatible,
    Passthrough,
}

impl ResponsesWirePolicy {
    pub open spec fn spec_name(self) -> Seq<char> {
        match self {
            ResponsesWirePolicy::Compatible => "compatible"@,
            ResponsesWirePolicy::Passthrough => "passthrough"@,
        }
    }

    pub fn as_str(self) -> (r: &'static str)
        ensures
            r@ == self.spec_name(),
    {
        match self {
            ResponsesWirePolicy::Compatible => "compatible",
            ResponsesWirePolicy::Passthrough => "passthrough",
        }
    }

    /// What a stored name stands for.
    pub open spec fn of_name(name: Seq<char>) -> Option<ResponsesWirePolicy> {
        if name == "compatible"@ {
            Some(ResponsesWirePolicy::Compatible)
        } else if name == "passthrough"@ {
            Some(ResponsesWirePolicy::Passthrough)
        } else {
            None
        }
    }

    /// Reads a stored name.
    pub fn from_name(name: &str) -> (r: Option<ResponsesWirePolicy>)
        ensures
            r == ResponsesWirePolicy::of_name(name@),
    {
        if same_text(name, "compatible") {
            Some(ResponsesWirePolicy::Compatible)
        } else if same_text(name, "passthrough") {
            Some(ResponsesWirePolicy::Passthrough)
        } else {
            None
        }
    }
}

/// The name of a wire policy is read back as it, and no other name is.
pub proof fn wire_policy_is_read_back(policy: ResponsesWirePolicy, name: Seq<char>)
    ensures
        (ResponsesWirePolicy::of_name(name) == Some(policy)) == (name == policy.spec_name()),
{
    reveal_strlit("compatible");
    reveal_strlit("passthrough");
    assert("compatible"@.len() == 10 && "compatible"@[0] == 'c');
    assert("passthrough"@.len() == 11 && "passthrough"@[0] == 'p');
}

/// How a relay signs in.
#[derive(Clone, Copy, Debug, PartialEq, Eq, Structural, Default)]
pub enum RelayMode {
    Official,
    #[default]
    MixedApi,
    PureApi,
    Aggregate,
}

/// A model that another relay serves.
#[derive(Clone, Debug, PartialEq, Eq)]
pub struct RelayModelRoute {
    pub model: String,
    pub target_relay_id: String,
    pub target_model: String,
    pub enabled: bool,
    pub restore_at: Option<u64>,
}

#[verifier::ext_equal]
pub struct RelayModelRouteView {
    pub model: Seq<char>,
    pub target_relay_id: Seq<char>,
    pub target_model: Seq<char>,
    pub enabled: bool,
    pub restore_at: Option<u64>,
}

impl View for RelayModelRoute {
    type V = RelayModelRouteView;

    open spec fn view(&self) -> RelayModelRouteView {
        RelayModelRouteView {
            model: self.model@,
            target_relay_id: self.target_relay_id@,
            target_model: self.target_model@,
            enabled: self.enabled,
            restore_at: self.restore_at,
        }
    }
}

impl RelayModelRoute {
    pub fn copy(&self) -> (r: Self)
        ensures
            r@ == self@,
    {
        RelayModelRoute {
            model: self.model.clone(),
            target_relay_id: self.target_relay_id.clone(),
            target_model: self.target_model.clone(),
            enabled: self.enabled,
            restore_at: self.restore_at,
        }
    }

    /// Whether two are the same in every field.
    pub fn same(&self, other: &Self) -> (r: bool)
        ensures
            r == (self@ == other@),
    {
        same_text(self.model.as_str(), other.model.as_str())
            && same_text(self.target_relay_id.as_str(), other.target_relay_id.as_str())
            && same_text(self.target_model.as_str(), other.target_model.as_str())
            && self.enabled == other.enabled
            && same_moment(self.restore_at, other.restore_at)
    }
}

/// A name that clients use for a model.
#[derive(Clone, Debug, PartialEq, Eq)]
pub struct RelayModelAlias {
    pub alias: String,
    pub model: String,
}

#[verifier::ext_equal]
pub struct RelayModelAliasView {
    pub alias: Seq<char>,
    pub model: Seq<char>,
}

impl View for RelayModelAlias {
    type V = RelayModelAliasView;

    open spec fn view(&self) -> RelayModelAliasView {
        RelayModelAliasView {
            alias: self.alias@,
            model: self.model@,
        }
    }
}

impl RelayModelAlias {
    pub fn copy(&self) -> (r: Self)
        ensures
            r@ == self@,
    {
        RelayModelAlias {
            alias: self.alias.clone(),
            model: self.model.clone(),
        }
    }

    /// Whether two are the same in every field.
    pub fn same(&self, other: &Self) -> (r: bool)
        ensures
            r == (self@ == other@),
    {
        same_text(self.alias.as_str(), other.alias.as_str())
            && same_text(self.model.as_str(), other.model.as_str())
    }
}

/// A relay and how it is used.
#[derive(Clone, Debug, PartialEq, Eq)]
pub struct RelayProfile {
    pub id: String,
    pub name: String,
    pub model: String,
    pub base_url: String,
    pub upstream_base_url: String,
    pub api_key: String,
    pub protocol: RelayProtocol,
    pub responses_reasoning_policy: ResponsesReasoningPolicy,
    pub responses_wire_policy: ResponsesWirePolicy,
    pub custom_tools_as_functions: bool,
    pub native_agent_interop: NativeAgentInterop,
    pub relay_mode: RelayMode,
    pub official_mix_api_key: bool,
    pub no_auth: bool,
    pub hide_official_usage_alert: bool,
    pub test_model: String,
    pub config_contents: String,
    pub auth_contents: String,
    pub use_common_config: bool,
    pub context_window: String,
    pub auto_compact_limit: String,
    pub new_context_management: bool,
    pub model_insert_mode: RelayModelInsertMode,
    pub model_list: String,
    pub model_windows: String,
    pub model_vlm: String,
    pub vlm_api_key: String,
    pub vlm_model: String,
    pub vlm_base_url: String,
    pub user_agent: String,
    pub sub2api_enabled: bool,
    pub sub2api_multiplier: String,
    pub model_routes: Vec<RelayModelRoute>,
    pub model_aliases: Vec<RelayModelAlias>,
}

pub struct RelayProfileView {
    pub id: Seq<char>,
    pub name: Seq<char>,
    pub model: Seq<char>,
    pub base_url: Seq<char>,
    pub upstream_base_url: Seq<char>,
    pub api_key: Seq<char>,
    pub protocol: RelayProtocol,
    pub responses_reasoning_policy: ResponsesReasoningPolicy,
    pub responses_wire_policy: ResponsesWirePolicy,
    pub custom_tools_as_functions: bool,
    pub native_agent_interop: NativeAgentInterop,
    pub relay_mode: RelayMode,
    pub official_mix_api_key: bool,
    pub no_auth: bool,
    pub hide_official_usage_alert: bool,
    pub test_model: Seq<char>,
    pub config_contents: Seq<char>,
    pub auth_contents: Seq<char>,
    pub use_common_config: bool,
    pub context_window: Seq<char>,
    pub auto_compact_limit: Seq<char>,
    pub new_context_management: bool,
    pub model_insert_mode: RelayModelInsertMode,
    pub model_list: Seq<char>,
    pub model_windows: Seq<char>,
    pub model_vlm: Seq<char>,
    pub vlm_api_key: Seq<char>,
    pub vlm_model: Seq<char>,
    pub vlm_base_url: Seq<char>,
    pub user_agent: Seq<char>,
    pub sub2api_enabled: bool,
    pub sub2api_multiplier: Seq<char>,
    pub model_routes: Seq<RelayModelRouteView>,
    pub model_aliases: Seq<RelayModelAliasView>,
}

impl View for RelayProfile {
    type V = RelayProfileView;

    open spec fn view(&self) -> RelayProfileView {
        RelayProfileView {
            id: self.id@,
            name: self.name@,
            model: self.model@,
            base_url: self.base_url@,
            upstream_base_url: self.upstream_base_url@,
            api_key: self.api_key@,
            protocol: self.protocol,
            responses_reasoning_policy: self.responses_reasoning_policy,
            responses_wire_policy: self.responses_wire_policy,
            custom_tools_as_functions: self.custom_tools_as_functions,
            native_agent_interop: self.native_agent_interop,
            relay_mode: self.relay_mode,
            official_mix_api_key: self.official_mix_api_key,
            no_auth: self.no_auth,
            hide_official_usage_alert: self.hide_official_usage_alert,
            test_model: self.test_model@,
            config_contents: self.config_contents@,
            auth_contents: self.auth_contents@,
            use_common_config: self.use_common_config,
            context_window: self.context_window@,
            auto_compact_limit: self.auto_compact_limit@,
            new_context_management: self.new_context_management,
            model_insert_mode: self.model_insert_mode,
            model_list: self.model_list@,
            model_windows: self.model_windows@,
            model_vlm: self.model_vlm@,
            vlm_api_key: self.vlm_api_key@,
            vlm_model: self.vlm_model@,
            vlm_base_url: self.vlm_base_url@,
            user_agent: self.user_agent@,
            sub2api_enabled: self.sub2api_enabled,
            sub2api_multiplier: self.sub2api_multiplier@,
            model_routes: relay_model_route_views(self.model_routes@),
            model_aliases: relay_model_alias_views(self.model_aliases@),
        }
    }
}

impl RelayProfile {
    pub fn copy(&self) -> (r: Self)
        ensures
            r@ == self@,
    {
        RelayProfile {
            id: self.id.clone(),
            name: self.name.clone(),
            model: self.model.clone(),
            base_url: self.base_url.clone(),
            upstream_base_url: self.upstream_base_url.clone(),
            api_key: self.api_key.clone(),
            protocol: self.protocol,
            responses_reasoning_policy: self.responses_reasoning_policy,
            responses_wire_policy: self.responses_wire_policy,
            custom_tools_as_functions: self.custom_tools_as_functions,
            native_agent_interop: self.native_agent_interop,
            relay_mode: self.relay_mode,
            official_mix_api_key: self.official_mix_api_key,
            no_auth: self.no_auth,
            hide_official_usage_alert: self.hide_official_usage_alert,
            test_model: self.test_model.clone(),
            config_contents: self.config_contents.clone(),
            auth_contents: self.auth_contents.clone(),
            use_common_config: self.use_common_config,
            context_window: self.context_window.clone(),
            auto_compact_limit: self.auto_compact_limit.clone(),
            new_context_management: self.new_context_management,
            model_insert_mode: self.model_insert_mode,
            model_list: self.model_list.clone(),
            model_windows: self.model_windows.clone(),
            model_vlm: self.model_vlm.clone(),
            vlm_api_key: self.vlm_api_key.clone(),
            vlm_model: self.vlm_model.clone(),
            vlm_base_url: self.vlm_base_url.clone(),
            user_agent: self.user_agent.clone(),
            sub2api_enabled: self.sub2api_enabled,
            sub2api_multiplier: self.sub2api_multiplier.clone(),
            model_routes: copy_relay_model_routes(&self.model_routes),
            model_aliases: copy_relay_model_aliases(&self.model_aliases),
        }
    }

    /// Whether two are the same in every field.
    pub fn same(&self, other: &Self) -> (r: bool)
        ensures
            r == (self@ == other@),
    {
        same_text(self.id.as_str(), other.id.as_str())
            && same_text(self.name.as_str(), other.name.as_str())
            && same_text(self.model.as_str(), other.model.as_str())
            && same_text(self.base_url.as_str(), other.base_url.as_str())
            && same_text(self.upstream_base_url.as_str(), other.upstream_base_url.as_str())
            && same_text(self.api_key.as_str(), other.api_key.as_str())
            && self.protocol == other.protocol
            && self.responses_reasoning_policy == other.responses_reasoning_policy
            && self.responses_wire_policy == other.responses_wire_policy
            && self.custom_tools_as_functions == other.custom_tools_as_functions
            && self.native_agent_interop == other.native_agent_interop
            && self.relay_mode == other.relay_mode
            && self.official_mix_api_key == other.official_mix_api_key
            && self.no_auth == other.no_auth
            && self.hide_official_usage_alert == other.hide_official_usage_alert
            && same_text(self.test_model.as_str(), other.test_model.as_str())
            && same_text(self.config_contents.as_str(), other.config_contents.as_str())
            && same_text(self.auth_contents.as_str(), other.auth_contents.as_str())
            && self.use_common_config == other.use_common_config
            && same_text(self.context_window.as_str(), other.context_window.as_str())
            && same_text(self.auto_compact_limit.as_str(), other.auto_compact_limit.as_str())
            && self.new_context_management == other.new_context_management
            && self.model_insert_mode == other.model_insert_mode
            && same_text(self.model_list.as_str(), other.model_list.as_str())
            && same_text(self.model_windows.as_str(), other.model_windows.as_str())
            && same_text(self.model_vlm.as_str(), other.model_vlm.as_str())
            && same_text(self.vlm_api_key.as_str(), other.vlm_api_key.as_str())
            && same_text(self.vlm_model.as_str(), other.vlm_model.as_str())
            && same_text(self.vlm_base_url.as_str(), other.vlm_base_url.as_str())
            && same_text(self.user_agent.as_str(), other.user_agent.as_str())
            && self.sub2api_enabled == other.sub2api_enabled
            && same_text(self.sub2api_multiplier.as_str(), other.sub2api_multiplier.as_str())
            && same_relay_model_routes(&self.model_routes, &other.model_routes)
            && same_relay_model_aliases(&self.model_aliases, &other.model_aliases)
    }
}

/// A relay of an aggregate.
#[derive(Clone, Debug, PartialEq, Eq)]
pub struct AggregateRelayMember {
    pub relay_id: String,
    pub weight: u32,
}

#[verifier::ext_equal]
pub struct AggregateRelayMemberView {
    pub relay_id: Seq<char>,
    pub weight: u32,
}

impl View for AggregateRelayMember {
    type V = AggregateRelayMemberView;

    open spec fn view(&self) -> AggregateRelayMemberView {
        AggregateRelayMemberView {
            relay_id: self.relay_id@,
            weight: self.weight,
        }
    }
}

impl AggregateRelayMember {
    pub fn copy(&self) -> (r: Self)
        ensures
            r@ == self@,
    {
        AggregateRelayMember {
            relay_id: self.relay_id.clone(),
            weight: self.weight,
        }
    }

    /// Whether two are the same in every field.
    pub fn same(&self, other: &Self) -> (r: bool)
        ensures
            r == (self@ == other@),
    {
        same_text(self.relay_id.as_str(), other.relay_id.as_str())
            && self.weight == other.weight
    }
}

/// Relays that serve as one.
#[derive(Clone, Debug, PartialEq, Eq)]
pub struct AggregateRelayProfile {
    pub id: String,
    pub name: String,
    pub session_provider: RelaySessionProvider,
    pub code_mode_host: bool,
    pub strategy: AggregateRelayStrategy,
    pub members: Vec<AggregateRelayMember>,
}

#[verifier::ext_equal]
pub struct AggregateRelayProfileView {
    pub id: Seq<char>,
    pub name: Seq<char>,
    pub session_provider: RelaySessionProvider,
    pub code_mode_host: bool,
    pub strategy: AggregateRelayStrategy,
    pub members: Seq<AggregateRelayMemberView>,
}

impl View for AggregateRelayProfile {
    type V = AggregateRelayProfileView;

    open spec fn view(&self) -> AggregateRelayProfileView {
        AggregateRelayProfileView {
            id: self.id@,
            name: self.name@,
            session_provider: self.session_provider,
            code_mode_host: self.code_mode_host,
            strategy: self.strategy,
            members: aggregate_relay_member_views(self.members@),
        }
    }
}

impl AggregateRelayProfile {
    pub fn copy(&self) -> (r: Self)
        ensures
            r@ == self@,
    {
        AggregateRelayProfile {
            id: self.id.clone(),
            name: self.name.clone(),
            session_provider: self.session_provider,
            code_mode_host: self.code_mode_host,
            strategy: self.strategy,
            members: copy_aggregate_relay_members(&self.members),
        }
    }

    /// Whether two are the same in every field.
    pub fn same(&self, other: &Self) -> (r: bool)
        ensures
            r == (self@ == other@),
    {
        same_text(self.id.as_str(), other.id.as_str())
            && same_text(self.name.as_str(), other.name.as_str())
            && self.session_provider == other.session_provider
            && self.code_mode_host == other.code_mode_host
            && self.strategy == other.strategy
            && same_aggregate_relay_members(&self.members, &other.members)
    }
}

fn same_moment(a: Option<u64>, b: Option<u64>) -> (r: bool)
    ensures
        r == (a == b),
{
    match (a, b) {
        (Some(x), Some(y)) => x == y,
        (None, None) => true,
        _ => false,
    }
}

pub open spec fn aggregate_relay_member_views(list: Seq<AggregateRelayMember>) -> Seq<AggregateRelayMemberView> {
    Seq::new(list.len(), |i: int| list[i]@)
}

pub fn copy_aggregate_relay_members(list: &Vec<AggregateRelayMember>) -> (r: Vec<AggregateRelayMember>)
    ensures
        aggregate_relay_member_views(r@) == aggregate_relay_member_views(list@),
{
    let mut r: Vec<AggregateRelayMember> = Vec::new();
    for i in 0..list.len()
        invariant
            r@.len() == i,
            forall|j: int| 0 <= j < i ==> (#[trigger] r@[j])@ == list@[j]@,
    {
        r.push(list[i].copy());
    }
    assert(aggregate_relay_member_views(r@) =~= aggregate_relay_member_views(list@));
    r
}

pub fn same_aggregate_relay_members(a: &Vec<AggregateRelayMember>, b: &Vec<AggregateRelayMember>) -> (r: bool)
    ensures
        r == (aggregate_relay_member_views(a@) == aggregate_relay_member_views(b@)),
{
    if a.len() != b.len() {
        assert(aggregate_relay_member_views(a@).len() != aggregate_relay_member_views(b@).len());
        return false;
    }
    for i in 0..a.len()
        invariant
            a@.len() == b@.len(),
            forall|j: int| 0 <= j < i ==> (#[trigger] a@[j])@ == b@[j]@,
    {
        if !a[i].same(&b[i]) {
            assert(aggregate_relay_member_views(a@)[i as int] != aggregate_relay_member_views(b@)[i as int]);
            return false;
        }
    }
    assert(aggregate_relay_member_views(a@) =~= aggregate_relay_member_views(b@));
    true
}

pub open spec fn aggregate_relay_profile_views(list: Seq<AggregateRelayProfile>) -> Seq<AggregateRelayProfileView> {
    Seq::new(list.len(), |i: int| list[i]@)
}

pub fn copy_aggregate_relay_profiles(list: &Vec<AggregateRelayProfile>) -> (r: Vec<AggregateRelayProfile>)
    ensures
        aggregate_relay_profile_views(r@) == aggregate_relay_profile_views(list@),
{
    let mut r: Vec<AggregateRelayProfile> = Vec::new();
    for i in 0..list.len()
        invariant
            r@.len() == i,
            forall|j: int| 0 <= j < i ==> (#[trigger] r@[j])@ == list@[j]@,
    {
        r.push(list[i].copy());
    }
    assert(aggregate_relay_profile_views(r@) =~= aggregate_relay_profile_views(list@));
    r
}

pub open spec fn relay_model_alias_views(list: Seq<RelayModelAlias>) -> Seq<RelayModelAliasView> {
    Seq::new(list.len(), |i: int| list[i]@)
}

pub fn copy_relay_model_aliases(list: &Vec<RelayModelAlias>) -> (r: Vec<RelayModelAlias>)
    ensures
        relay_model_alias_views(r@) == relay_model_alias_views(list@),
{
    let mut r: Vec<RelayModelAlias> = Vec::new();
    for i in 0..list.len()
        invariant
            r@.len() == i,
            forall|j: int| 0 <= j < i ==> (#[trigger] r@[j])@ == list@[j]@,
    {
        r.push(list[i].copy());
    }
    assert(relay_model_alias_views(r@) =~= relay_model_alias_views(list@));
    r
}

pub fn same_relay_model_aliases(a: &Vec<RelayModelAlias>, b: &Vec<RelayModelAlias>) -> (r: bool)
    ensures
        r == (relay_model_alias_views(a@) == relay_model_alias_views(b@)),
{
    if a.len() != b.len() {
        assert(relay_model_alias_views(a@).len() != relay_model_alias_views(b@).len());
        return false;
    }
    for i in 0..a.len()
        invariant
            a@.len() == b@.len(),
            forall|j: int| 0 <= j < i ==> (#[trigger] a@[j])@ == b@[j]@,
    {
        if !a[i].same(&b[i]) {
            assert(relay_model_alias_views(a@)[i as int] != relay_model_alias_views(b@)[i as int]);
            return false;
        }
    }
    assert(relay_model_alias_views(a@) =~= relay_model_alias_views(b@));
    true
}

pub open spec fn relay_model_route_views(list: Seq<RelayModelRoute>) -> Seq<RelayModelRouteView> {
    Seq::new(list.len(), |i: int| list[i]@)
}

pub fn copy_relay_model_routes(list: &Vec<RelayModelRoute>) -> (r: Vec<RelayModelRoute>)
    ensures
        relay_model_route_views(r@) == relay_model_route_views(list@),
{
    let mut r: Vec<RelayModelRoute> = Vec::new();
    for i in 0..list.len()
        invariant
            r@.len() == i,
            forall|j: int| 0 <= j < i ==> (#[trigger] r@[j])@ == list@[j]@,
    {
        r.push(list[i].copy());
    }
    assert(relay_model_route_views(r@) =~= relay_model_route_views(list@));
    r
}

pub fn same_relay_model_routes(a: &Vec<RelayModelRoute>, b: &Vec<RelayModelRoute>) -> (r: bool)
    ensures
        r == (relay_model_route_views(a@) == relay_model_route_views(b@)),
{
    if a.len() != b.len() {
        assert(relay_model_route_views(a@).len() != relay_model_route_views(b@).len());
        return false;
    }
    for i in 0..a.len()
        invariant
            a@.len() == b@.len(),
            forall|j: int| 0 <= j < i ==> (#[trigger] a@[j])@ == b@[j]@,
    {
        if !a[i].same(&b[i]) {
            assert(relay_model_route_views(a@)[i as int] != relay_model_route_views(b@)[i as int]);
            return false;
        }
    }
    assert(relay_model_route_views(a@) =~= relay_model_route_views(b@));
    true
}

pub open spec fn relay_profile_views(list: Seq<RelayProfile>) -> Seq<RelayProfileView> {
    Seq::new(list.len(), |i: int| list[i]@)
}

pub fn copy_relay_profiles(list: &Vec<RelayProfile>) -> (r: Vec<RelayProfile>)
    ensures
        relay_profile_views(r@) == relay_profile_views(list@),
{
    let mut r: Vec<RelayProfile> = Vec::new();
    for i in 0..list.len()
        invariant
            r@.len() == i,
            forall|j: int| 0 <= j < i ==> (#[trigger] r@[j])@ == list@[j]@,
    {
        r.push(list[i].copy());
    }
    assert(relay_profile_views(r@) =~= relay_profile_views(list@));
    r
}

pub fn same_relay_profiles(a: &Vec<RelayProfile>, b: &Vec<RelayProfile>) -> (r: bool)
    ensures
        r == (relay_profile_views(a@) == relay_profile_views(b@)),
{
    if a.len() != b.len() {
        assert(relay_profile_views(a@).len() != relay_profile_views(b@).len());
        return false;
    }
    for i in 0..a.len()
        invariant
            a@.len() == b@.len(),
            forall|j: int| 0 <= j < i ==> (#[trigger] a@[j])@ == b@[j]@,
    {
        if !a[i].same(&b[i]) {
            assert(relay_profile_views(a@)[i as int] != relay_profile_views(b@)[i as int]);
            return false;
        }
    }
    assert(relay_profile_views(a@) =~= relay_profile_views(b@));
    true
}

/// Texts that are empty.
pub open spec fn no_text() -> Seq<char> {
    Seq::empty()
}

impl RelayProfileView {
    /// A relay with a name and an address of its own and everything else at its default.
    pub open spec fn plain(
        id: Seq<char>,
        base_url: Seq<char>,
        upstream_base_url: Seq<char>,
        api_key: Seq<char>,
        relay_mode: RelayMode,
        official_mix_api_key: bool,
    ) -> RelayProfileView {
        RelayProfileView {
            id,
            name: "默认中转"@,
            base_url,
            upstream_base_url,
            api_key,
            relay_mode,
            official_mix_api_key,
            model: no_text(),
            protocol: RelayProtocol::Responses,
            responses_reasoning_policy: ResponsesReasoningPolicy::Passthrough,
            responses_wire_policy: ResponsesWirePolicy::Compatible,
            custom_tools_as_functions: false,
            native_agent_interop: NativeAgentInterop::Auto,
            no_auth: false,
            hide_official_usage_alert: false,
            test_model: no_text(),
            config_contents: no_text(),
            auth_contents: no_text(),
            use_common_config: true,
            context_window: no_text(),
            auto_compact_limit: no_text(),
            new_context_management: false,
            model_insert_mode: RelayModelInsertMode::Patch,
            model_list: no_text(),
            model_windows: no_text(),
            model_vlm: no_text(),
            vlm_api_key: no_text(),
            vlm_model: no_text(),
            vlm_base_url: no_text(),
            user_agent: no_text(),
            sub2api_enabled: false,
            sub2api_multiplier: no_text(),
            model_routes: Seq::empty(),
            model_aliases: Seq::empty(),
        }
    }

    /// The relay that a fresh installation has.
    pub open spec fn default() -> RelayProfileView {
        Self::plain("default"@, no_text(), no_text(), no_text(), RelayMode::Official, false)
    }
}

impl RelayProfile {
    pub fn plain(
        id: String,
        base_url: String,
        upstream_base_url: String,
        api_key: String,
        relay_mode: RelayMode,
        official_mix_api_key: bool,
    ) -> (r: Self)
        ensures
            r@ == RelayProfileView::plain(
                id@,
                base_url@,
                upstream_base_url@,
                api_key@,
                relay_mode,
                official_mix_api_key,
            ),
    {
        let r = RelayProfile {
            id,
            name: "默认中转".to_owned(),
            base_url,
            upstream_base_url,
            api_key,
            relay_mode,
            official_mix_api_key,
            model: String::new(),
            protocol: RelayProtocol::Responses,
            responses_reasoning_policy: ResponsesReasoningPolicy::Passthrough,
            responses_wire_policy: ResponsesWirePolicy::Compatible,
            custom_tools_as_functions: false,
            native_agent_interop: NativeAgentInterop::Auto,
            no_auth: false,
            hide_official_usage_alert: false,
            test_model: String::new(),
            config_contents: String::new(),
            auth_contents: String::new(),
            use_common_config: true,
            context_window: String::new(),
            auto_compact_limit: String::new(),
            new_context_management: false,
            model_insert_mode: RelayModelInsertMode::Patch,
            model_list: String::new(),
            model_windows: String::new(),
            model_vlm: String::new(),
            vlm_api_key: String::new(),
            vlm_model: String::new(),
            vlm_base_url: String::new(),
            user_agent: String::new(),
            sub2api_enabled: false,
            sub2api_multiplier: String::new(),
            model_routes: Vec::new(),
            model_aliases: Vec::new(),
        };
        assert(relay_model_route_views(r.model_routes@) =~= Seq::empty());
        assert(relay_model_alias_views(r.model_aliases@) =~= Seq::empty());
        r
    }
}

impl Default for RelayProfile {
    fn default() -> (r: Self)
        ensures
            r@ == RelayProfileView::default(),
    {
        RelayProfile::plain(
            "default".to_owned(),
            String::new(),
            String::new(),
            String::new(),
            RelayMode::Official,
            false,
        )
    }
}

impl RelayModelRouteView {
    /// A route is on, or its time to come back has come.
    pub open spec fn is_enabled_at(self, now_ms: u64) -> bool {
        self.enabled || (self.restore_at is Some && self.restore_at->0 <= now_ms)
    }
}

impl RelayModelRoute {
    pub fn is_effectively_enabled_at(&self, now_ms: u64) -> (r: bool)
        ensures
            r == self@.is_enabled_at(now_ms),
    {
        self.enabled || match self.restore_at {
            Some(restore_at) => restore_at <= now_ms,
            None => false,
        }
    }
}

impl RelayProfileView {
    pub open spec fn needs_no_auth(self) -> bool {
        self.relay_mode == RelayMode::PureApi && self.no_auth
    }

    /// Some route names a model and a relay.
    pub open spec fn routes_models(self) -> bool {
        exists|i: int|
            0 <= i < self.model_routes.len() && trimmed((#[trigger] self.model_routes[i]).model).len()
                > 0 && trimmed(self.model_routes[i].target_relay_id).len() > 0
    }
}

impl RelayProfile {
    pub fn uses_no_auth(&self) -> (r: bool)
        ensures
            r == self@.needs_no_auth(),
    {
        self.relay_mode == RelayMode::PureApi && self.no_auth
    }

    pub fn has_model_routes(&self) -> (r: bool)
        ensures
            r == self@.routes_models(),
    {
        for i in 0..self.model_routes.len()
            invariant
                forall|j: int|
                    0 <= j < i ==> !(trimmed((#[trigger] self@.model_routes[j]).model).len() > 0
                        && trimmed(self@.model_routes[j].target_relay_id).len() > 0),
        {
            assert(self@.model_routes[i as int] == self.model_routes@[i as int]@);
            if !trim(self.model_routes[i].model.as_str()).is_empty() && !trim(
                self.model_routes[i].target_relay_id.as_str(),
            ).is_empty() {
                return true;
            }
        }
        false
    }
}

/// A route as it stands at a moment.
#[derive(Clone, Debug, PartialEq, Eq)]
pub struct RelayModelRouteStatus {
    pub model: String,
    pub target_relay_id: String,
    pub target_relay_name: String,
    pub target_model: String,
    pub enabled: bool,
    pub restore_at: Option<u64>,
    pub permanent: bool,
    pub remaining_seconds: u64,
}

#[derive(Clone, Debug, PartialEq, Eq)]
pub struct RelayModelRoutesResult {
    pub status: &'static str,
    pub provider_id: String,
    pub provider_name: String,
    pub observed_at: u64,
    pub routes: Vec<RelayModelRouteStatus>,
}

/// A request to switch a route on, or off for good or for a time.
#[derive(Clone, Debug)]
pub struct SetRelayModelRouteRequest {
    pub id: String,
    pub model: String,
    pub enabled: bool,
    pub restore_at: Option<u64>,
    pub duration_seconds: Option<u64>,
    pub permanent: bool,
}

#[derive(Clone, Debug, PartialEq, Eq)]
pub struct SetRelayModelRouteResult {
    pub status: &'static str,
    pub provider_id: String,
    pub observed_at: u64,
    pub route: RelayModelRouteStatus,
    pub dry_run: bool,
    pub restart_requested: bool,
    pub applied_live_config: bool,
}

} // verus!
