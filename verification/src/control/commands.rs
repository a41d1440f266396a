//! What the management commands do, and what they tell.
use vstd::prelude::*;

use super::arguments::{command_names, commands, views};
use super::patch::{needed_text, string};
use crate::json::{array_view, empty_object, Json, JsonView};
use crate::settings::backend::{BackendSettings, RelaySettingsView};
use crate::text::{concat, ends_with, has_suffix, same_text};

verus! {

/// What opens or starts a program.
#[derive(Clone, Copy, Debug, PartialEq, Eq, Structural)]
pub enum LifecycleAction {
    OpenManager,
    Start,
    Restart,
}

/// What tells of model routes, or switches one.
#[derive(Clone, Copy, Debug, PartialEq, Eq, Structural)]
pub enum RouteAction {
    List,
    Switch,
}

/// What tells of the settings.
#[derive(Clone, Copy, Debug, PartialEq, Eq, Structural)]
pub enum TellAction {
    Status,
    Settings,
    Providers,
    Provider,
    Aggregate,
}

/// What changes the settings.
#[derive(Clone, Copy, Debug, PartialEq, Eq, Structural)]
pub enum ChangeAction {
    Settings,
    Provider,
    Order,
    Aggregate,
    Switch,
}

/// What a command does.
#[derive(Clone, Copy, Debug, PartialEq, Eq, Structural)]
pub enum CommandAction {
    /// Tells what commands there are.
    Help,
    Lifecycle(LifecycleAction),
    Routes(RouteAction),
    Tell(TellAction),
    Change(ChangeAction),
}

pub open spec fn action_of(command: Seq<char>) -> Option<CommandAction> {
    if command == "help"@ {
        Some(CommandAction::Help)
    } else if command == "manager-open"@ {
        Some(CommandAction::Lifecycle(LifecycleAction::OpenManager))
    } else if command == "codex-start"@ {
        Some(CommandAction::Lifecycle(LifecycleAction::Start))
    } else if command == "codex-restart"@ {
        Some(CommandAction::Lifecycle(LifecycleAction::Restart))
    } else if command == "model-routes-list"@ {
        Some(CommandAction::Routes(RouteAction::List))
    } else if command == "model-route-set"@ {
        Some(CommandAction::Routes(RouteAction::Switch))
    } else if command == "status"@ {
        Some(CommandAction::Tell(TellAction::Status))
    } else if command == "settings-get"@ {
        Some(CommandAction::Tell(TellAction::Settings))
    } else if command == "providers-list"@ {
        Some(CommandAction::Tell(TellAction::Providers))
    } else if command == "provider-get"@ {
        Some(CommandAction::Tell(TellAction::Provider))
    } else if command == "aggregate-get"@ {
        Some(CommandAction::Tell(TellAction::Aggregate))
    } else if command == "settings-set"@ {
        Some(CommandAction::Change(ChangeAction::Settings))
    } else if command == "provider-update"@ {
        Some(CommandAction::Change(ChangeAction::Provider))
    } else if command == "providers-reorder"@ {
        Some(CommandAction::Change(ChangeAction::Order))
    } else if command == "aggregate-update"@ {
        Some(CommandAction::Change(ChangeAction::Aggregate))
    } else if command == "provider-switch"@ {
        Some(CommandAction::Change(ChangeAction::Switch))
    } else if command == "aggregate-switch"@ {
        Some(CommandAction::Change(ChangeAction::Switch))
    } else {
        None
    }
}

pub fn command_action(command: &str) -> (r: Option<CommandAction>)
    ensures
        r == action_of(command@),
{
    if same_text(command, "help") {
        Some(CommandAction::Help)
    } else if same_text(command, "manager-open") {
        Some(CommandAction::Lifecycle(LifecycleAction::OpenManager))
    } else if same_text(command, "codex-start") {
        Some(CommandAction::Lifecycle(LifecycleAction::Start))
    } else if same_text(command, "codex-restart") {
        Some(CommandAction::Lifecycle(LifecycleAction::Restart))
    } else if same_text(command, "model-routes-list") {
        Some(CommandAction::Routes(RouteAction::List))
    } else if same_text(command, "model-route-set") {
        Some(CommandAction::Routes(RouteAction::Switch))
    } else if same_text(command, "status") {
        Some(CommandAction::Tell(TellAction::Status))
    } else if same_text(command, "settings-get") {
        Some(CommandAction::Tell(TellAction::Settings))
    } else if same_text(command, "providers-list") {
        Some(CommandAction::Tell(TellAction::Providers))
    } else if same_text(command, "provider-get") {
        Some(CommandAction::Tell(TellAction::Provider))
    } else if same_text(command, "aggregate-get") {
        Some(CommandAction::Tell(TellAction::Aggregate))
    } else if same_text(command, "settings-set") {
        Some(CommandAction::Change(ChangeAction::Settings))
    } else if same_text(command, "provider-update") {
        Some(CommandAction::Change(ChangeAction::Provider))
    } else if same_text(command, "providers-reorder") {
        Some(CommandAction::Change(ChangeAction::Order))
    } else if same_text(command, "aggregate-update") {
        Some(CommandAction::Change(ChangeAction::Aggregate))
    } else if same_text(command, "provider-switch") {
        Some(CommandAction::Change(ChangeAction::Switch))
    } else if same_text(command, "aggregate-switch") {
        Some(CommandAction::Change(ChangeAction::Switch))
    } else {
        None
    }
}

/// A text names an action exactly where it is a command.
pub proof fn every_command_has_an_action(command: Seq<char>)
    ensures
        action_of(command) is Some == command_names().contains(command),
{
    let names = command_names();
    assert(names[0] == "help"@);
    assert(names[1] == "status"@);
    assert(names[2] == "settings-get"@);
    assert(names[3] == "settings-set"@);
    assert(names[4] == "providers-list"@);
    assert(names[5] == "provider-get"@);
    assert(names[6] == "provider-update"@);
    assert(names[7] == "model-routes-list"@);
    assert(names[8] == "model-route-set"@);
    assert(names[9] == "provider-switch"@);
    assert(names[10] == "providers-reorder"@);
    assert(names[11] == "aggregate-get"@);
    assert(names[12] == "aggregate-update"@);
    assert(names[13] == "aggregate-switch"@);
    assert(names[14] == "manager-open"@);
    assert(names[15] == "codex-start"@);
    assert(names[16] == "codex-restart"@);
}

/// Whether a command must be alone with the settings: it changes them, and not only for show.
pub fn needs_lock(command: &str, dry_run: bool) -> (r: bool)
    ensures
        r == (action_of(command@) is Some && action_of(command@)->0 is Change && !dry_run),
{
    match command_action(command) {
        Some(CommandAction::Change(_)) => !dry_run,
        _ => false,
    }
}

/// The first field that `settings-set` leaves to the commands for relays.
pub open spec fn reserved_field(patch: JsonView) -> Option<Seq<char>> {
    if patch.field("activeRelayId"@) is Some {
        Some("activeRelayId"@)
    } else if patch.field("activeAggregateRelayId"@) is Some {
        Some("activeAggregateRelayId"@)
    } else if patch.field("relayProfiles"@) is Some {
        Some("relayProfiles"@)
    } else if patch.field("aggregateRelayProfiles"@) is Some {
        Some("aggregateRelayProfiles"@)
    } else {
        None
    }
}

pub fn refuse_reserved_fields(patch: &Json) -> (r: Result<(), String>)
    ensures
        match r {
            Ok(_) => reserved_field(patch@) is None,
            Err(message) => reserved_field(patch@) is Some && message@
                == "Use provider/aggregate commands to change "@ + reserved_field(patch@)->0,
        },
{
    let key = if patch.get("activeRelayId").is_some() {
        "activeRelayId"
    } else if patch.get("activeAggregateRelayId").is_some() {
        "activeAggregateRelayId"
    } else if patch.get("relayProfiles").is_some() {
        "relayProfiles"
    } else if patch.get("aggregateRelayProfiles").is_some() {
        "aggregateRelayProfiles"
    } else {
        return Ok(());
    };
    Err(concat("Use provider/aggregate commands to change ", key))
}

pub open spec fn is_switch(command: Seq<char>) -> bool {
    has_suffix(command, "-switch"@)
}

/// Whether a relay serves the aggregate in use.
pub open spec fn serves_active_aggregate(settings: RelaySettingsView, id: Seq<char>) -> bool {
    match settings.active_aggregate() {
        Some(aggregate) => exists|i: int|
            0 <= i < aggregate.members.len() && (#[trigger] aggregate.members[i]).relay_id == id,
        None => false,
    }
}

/// Whether a change reaches the configuration in use: the relays are on, and the change is a
/// general one or of a relay in use.
pub open spec fn reaches_live_config(
    settings: RelaySettingsView,
    command: Seq<char>,
    input: JsonView,
) -> bool {
    let id = needed_text(input, "id"@);
    settings.relay_profiles_enabled && (command == "settings-set"@ || is_switch(command) || command
        == "providers-reorder"@ || (id is Ok && (id->Ok_0 == settings.active_relay_id
        || serves_active_aggregate(settings, id->Ok_0))))
}

fn serves(settings: &BackendSettings, id: &str) -> (r: bool)
    ensures
        r == serves_active_aggregate(settings@.relays, id@),
{
    let aggregate = match settings.active_aggregate_relay_profile() {
        Some(aggregate) => aggregate,
        None => {
            return false;
        },
    };
    for i in 0..aggregate.members.len()
        invariant
            settings@.relays.active_aggregate() == Some(aggregate@),
            forall|j: int|
                0 <= j < i ==> (#[trigger] aggregate@.members[j]).relay_id != id@,
    {
        assert(aggregate@.members[i as int] == aggregate.members@[i as int]@);
        if same_text(aggregate.members[i].relay_id.as_str(), id) {
            return true;
        }
    }
    false
}

pub fn should_apply(settings: &BackendSettings, command: &str, input: &Json) -> (r: bool)
    ensures
        r == reaches_live_config(settings@.relays, command@, input@),
{
    if !settings.relays.relay_profiles_enabled {
        return false;
    }
    if same_text(command, "settings-set") || ends_with(command, "-switch") || same_text(
        command,
        "providers-reorder",
    ) {
        return true;
    }
    match string(input, "id") {
        Ok(id) => same_text(id, settings.relays.active_relay_id.as_str()) || serves(settings, id),
        Err(_) => false,
    }
}

/// What happens to changed settings.
#[derive(Clone, Copy, Debug, PartialEq, Eq, Structural)]
pub enum StoreDecision {
    /// They are only shown, with whether they would reach the configuration in use.
    Preview(bool),
    /// A switch is refused while the relays are off.
    Refuse,
    /// They are stored, and the configuration in use follows.
    Apply,
    /// They are stored.
    Save,
}

pub open spec fn decision(
    settings: RelaySettingsView,
    command: Seq<char>,
    input: JsonView,
    dry_run: bool,
) -> StoreDecision {
    let applies = reaches_live_config(settings, command, input);
    if dry_run {
        StoreDecision::Preview(applies)
    } else if is_switch(command) && !settings.relay_profiles_enabled {
        StoreDecision::Refuse
    } else if applies {
        StoreDecision::Apply
    } else {
        StoreDecision::Save
    }
}

/// Decides what happens to settings that a command changed.
pub fn store_decision(
    settings: &BackendSettings,
    command: &str,
    input: &Json,
    dry_run: bool,
) -> (r: StoreDecision)
    ensures
        r == decision(settings@.relays, command@, input@, dry_run),
{
    let applies = should_apply(settings, command, input);
    if dry_run {
        StoreDecision::Preview(applies)
    } else if ends_with(command, "-switch") && !settings.relays.relay_profiles_enabled {
        StoreDecision::Refuse
    } else if applies {
        StoreDecision::Apply
    } else {
        StoreDecision::Save
    }
}

/// A command for show stores nothing.
pub proof fn dry_run_stores_nothing(
    settings: RelaySettingsView,
    command: Seq<char>,
    input: JsonView,
)
    ensures
        decision(settings, command, input, true) is Preview,
{
}

/// With the relays off the configuration in use is left alone.
pub proof fn relays_off_leave_live_config(
    settings: RelaySettingsView,
    command: Seq<char>,
    input: JsonView,
    dry_run: bool,
)
    requires
        !settings.relay_profiles_enabled,
    ensures
        decision(settings, command, input, dry_run) != StoreDecision::Apply,
{
}

pub open spec fn ok_output() -> JsonView {
    empty_object().with_text("status"@, "ok"@)
}

fn ok_object() -> (r: Json)
    ensures
        r@ == ok_output(),
{
    let mut r = Json::object();
    r.put_text("status", "ok");
    r
}

/// What a command that failed tells.
pub fn failure_output(message: &str) -> (r: Json)
    ensures
        r@ == empty_object().with_text("status"@, "failed"@).with_text("message"@, message@),
{
    let mut r = Json::object();
    r.put_text("status", "failed");
    r.put_text("message", message);
    r
}

pub fn settings_output(settings: Json, path: &str) -> (r: Json)
    ensures
        r@ == ok_output().with("settings"@, settings@).with_text("settingsPath"@, path@),
{
    let mut r = ok_object();
    r.put("settings", settings);
    r.put_text("settingsPath", path);
    r
}

pub fn providers_output(active_relay_id: &str, providers: Json, aggregates: Json) -> (r: Json)
    ensures
        r@ == ok_output().with_text("activeRelayId"@, active_relay_id@).with(
            "providers"@,
            providers@,
        ).with("aggregates"@, aggregates@),
{
    let mut r = ok_object();
    r.put_text("activeRelayId", active_relay_id);
    r.put("providers", providers);
    r.put("aggregates", aggregates);
    r
}

pub fn provider_output(provider: Json, active: bool) -> (r: Json)
    ensures
        r@ == ok_output().with("provider"@, provider@).with("active"@, JsonView::Bool(active)),
{
    let mut r = ok_object();
    r.put("provider", provider);
    r.put("active", Json::Bool(active));
    r
}

pub fn aggregate_output(aggregate: Json, profile: Json, active: bool) -> (r: Json)
    ensures
        r@ == ok_output().with("aggregate"@, aggregate@).with("profile"@, profile@).with(
            "active"@,
            JsonView::Bool(active),
        ),
{
    let mut r = ok_object();
    r.put("aggregate", aggregate);
    r.put("profile", profile);
    r.put("active", Json::Bool(active));
    r
}

pub open spec fn text_or_null(text: Option<Seq<char>>) -> JsonView {
    match text {
        Some(text) => JsonView::Text(text),
        None => JsonView::Null,
    }
}

fn option_json(text: Option<&str>) -> (r: Json)
    ensures
        r@ == text_or_null(crate::json::text_view(text)),
{
    match text {
        Some(text) => Json::text(text),
        None => Json::Null,
    }
}

pub fn preview_output(applies: bool, settings: Json) -> (r: Json)
    ensures
        r@ == ok_output().with("dryRun"@, JsonView::Bool(true)).with(
            "wouldApplyLiveConfig"@,
            JsonView::Bool(applies),
        ).with("settings"@, settings@),
{
    let mut r = ok_object();
    r.put("dryRun", Json::Bool(true));
    r.put("wouldApplyLiveConfig", Json::Bool(applies));
    r.put("settings", settings);
    r
}

pub fn stored_output(
    applied: bool,
    settings: Json,
    backup_path: Option<&str>,
    config_path: &str,
) -> (r: Json)
    ensures
        r@ == ok_output().with("appliedLiveConfig"@, JsonView::Bool(applied)).with(
            "restartRequested"@,
            JsonView::Bool(false),
        ).with("settings"@, settings@).with(
            "backupPath"@,
            text_or_null(crate::json::text_view(backup_path)),
        ).with_text("configPath"@, config_path@),
{
    let mut r = ok_object();
    r.put("appliedLiveConfig", Json::Bool(applied));
    r.put("restartRequested", Json::Bool(false));
    r.put("settings", settings);
    r.put("backupPath", option_json(backup_path));
    r.put_text("configPath", config_path);
    r
}

pub fn status_output(
    version: &str,
    state_dir: &str,
    codex_home: &str,
    settings: &BackendSettings,
    configured: bool,
    latest_launch: Json,
) -> (r: Json)
    ensures
        r@ == ok_output().with_text("version"@, version@).with(
            "apiVersion"@,
            JsonView::Integer(1),
        ).with_text("stateDir"@, state_dir@).with_text("codexHome"@, codex_home@).with_text(
            "activeRelayId"@,
            settings@.relays.active_relay_id,
        ).with(
            "activeAggregateRelayId"@,
            match settings@.relays.active_aggregate() {
                Some(aggregate) => JsonView::Text(aggregate.id),
                None => JsonView::Null,
            },
        ).with("configured"@, JsonView::Bool(configured)).with("latestLaunch"@, latest_launch@),
{
    let aggregate = match settings.active_aggregate_relay_profile() {
        Some(aggregate) => Json::text(aggregate.id.as_str()),
        None => Json::Null,
    };
    let mut r = ok_object();
    r.put_text("version", version);
    r.put("apiVersion", Json::Unsigned(1));
    r.put_text("stateDir", state_dir);
    r.put_text("codexHome", codex_home);
    r.put_text("activeRelayId", settings.relays.active_relay_id.as_str());
    r.put("activeAggregateRelayId", aggregate);
    r.put("configured", Json::Bool(configured));
    r.put("latestLaunch", latest_launch);
    r
}

/// The input of a command that starts the app: where it names no program or does not say whether
/// the relay is to be written first, the stored program and yes.
pub open spec fn launch_input(input: JsonView, app_path: Seq<char>) -> JsonView {
    let named = if input.field("appPath"@) is None {
        input.with_text("appPath"@, app_path)
    } else {
        input
    };
    if named.field("syncActiveRelay"@) is None {
        named.with("syncActiveRelay"@, JsonView::Bool(true))
    } else {
        named
    }
}

pub fn complete_launch_input(input: &mut Json, app_path: &str)
    requires
        old(input)@ is Object,
    ensures
        final(input)@ == launch_input(old(input)@, app_path@),
{
    if input.get("appPath").is_none() {
        input.put_text("appPath", app_path);
    }
    if input.get("syncActiveRelay").is_none() {
        input.put("syncActiveRelay", Json::Bool(true));
    }
}

/// What a command that opens or starts a program does.
#[derive(Clone, Copy, Debug, PartialEq, Eq, Structural)]
pub enum LifecycleDecision {
    /// It tells what it would do.
    Preview,
    /// It is refused, because its paths are not the real ones.
    Refuse,
    /// It goes on; for a start the relay in use may have to be written first.
    Go(bool),
}

pub open spec fn lifecycle_decision(
    command: Seq<char>,
    dry_run: bool,
    isolated: bool,
    sync_active_relay: bool,
    relays_enabled: bool,
) -> LifecycleDecision {
    if dry_run {
        LifecycleDecision::Preview
    } else if isolated {
        LifecycleDecision::Refuse
    } else {
        LifecycleDecision::Go(command == "codex-start"@ && sync_active_relay && relays_enabled)
    }
}

pub fn decide_lifecycle(
    command: &str,
    dry_run: bool,
    isolated: bool,
    sync_active_relay: bool,
    relays_enabled: bool,
) -> (r: LifecycleDecision)
    ensures
        r == lifecycle_decision(command@, dry_run, isolated, sync_active_relay, relays_enabled),
{
    if dry_run {
        LifecycleDecision::Preview
    } else if isolated {
        LifecycleDecision::Refuse
    } else {
        LifecycleDecision::Go(
            same_text(command, "codex-start") && sync_active_relay && relays_enabled,
        )
    }
}

/// Why a command that opens or starts a program is refused with paths of its own.
pub fn isolated_refusal(command: &str) -> (r: String)
    ensures
        r@ == (if command@ == "manager-open"@ {
            "manager-open is dry-run only with isolated paths"@
        } else {
            "Lifecycle commands are dry-run only with isolated configuration paths"@
        }),
{
    if same_text(command, "manager-open") {
        "manager-open is dry-run only with isolated paths".to_owned()
    } else {
        "Lifecycle commands are dry-run only with isolated configuration paths".to_owned()
    }
}

pub fn open_preview_output(executable: &str) -> (r: Json)
    ensures
        r@ == ok_output().with("dryRun"@, JsonView::Bool(true)).with_text(
            "executable"@,
            executable@,
        ).with("args"@, JsonView::Array(Seq::empty())),
{
    let none: Vec<Json> = Vec::new();
    assert(array_view(none@) =~= Seq::<JsonView>::empty());
    let mut r = ok_object();
    r.put("dryRun", Json::Bool(true));
    r.put_text("executable", executable);
    r.put("args", Json::array(none));
    r
}

pub fn opened_output(path: &str) -> (r: Json)
    ensures
        r@ == empty_object().with_text("status"@, "accepted"@).with_text("path"@, path@).with_text(
            "readiness"@,
            "not_checked"@,
        ),
{
    let mut r = Json::object();
    r.put_text("status", "accepted");
    r.put_text("path", path);
    r.put_text("readiness", "not_checked");
    r
}

/// What a trial run of a start tells.
pub open spec fn launch_preview(
    command: Seq<char>,
    launcher: Seq<char>,
    app_path: Seq<char>,
    debug_port: u16,
    helper_port: u16,
    sync_active_relay: bool,
) -> JsonView {
    ok_output().with("dryRun"@, JsonView::Bool(true)).with_text("operation"@, command).with_text(
        "launcher"@,
        launcher,
    ).with_text("appPath"@, app_path).with(
        "debugPort"@,
        JsonView::Integer(debug_port as int),
    ).with("helperPort"@, JsonView::Integer(helper_port as int)).with(
        "syncActiveRelay"@,
        JsonView::Bool(sync_active_relay),
    ).with("launchIncludesInjection"@, JsonView::Bool(true)).with(
        "willInterruptRunningTasks"@,
        JsonView::Bool(command == "codex-restart"@),
    )
}

pub fn launch_preview_output(
    command: &str,
    launcher: &str,
    app_path: &str,
    debug_port: u16,
    helper_port: u16,
    sync_active_relay: bool,
) -> (r: Json)
    ensures
        r@ == launch_preview(
            command@,
            launcher@,
            app_path@,
            debug_port,
            helper_port,
            sync_active_relay,
        ),
{
    let mut r = ok_object();
    r.put("dryRun", Json::Bool(true));
    r.put_text("operation", command);
    r.put_text("launcher", launcher);
    r.put_text("appPath", app_path);
    r.put("debugPort", Json::Unsigned(debug_port as u64));
    r.put("helperPort", Json::Unsigned(helper_port as u64));
    r.put("syncActiveRelay", Json::Bool(sync_active_relay));
    r.put("launchIncludesInjection", Json::Bool(true));
    r.put("willInterruptRunningTasks", Json::Bool(same_text(command, "codex-restart")));
    r
}

pub open spec fn text_array(list: Seq<Seq<char>>) -> JsonView {
    JsonView::Array(Seq::new(list.len(), |i: int| JsonView::Text(list[i])))
}

fn text_list(list: &Vec<&'static str>) -> (r: Json)
    ensures
        r@ == text_array(views(list@)),
{
    let mut items: Vec<Json> = Vec::new();
    for i in 0..list.len()
        invariant
            items@.len() == i,
            forall|j: int| 0 <= j < i ==> (#[trigger] items@[j])@ == JsonView::Text(list@[j]@),
    {
        items.push(Json::text(list[i]));
    }
    proof {
        let texts = views(list@);
        assert(array_view(items@) =~= Seq::new(texts.len(), |i: int| JsonView::Text(texts[i])));
    }
    Json::array(items)
}

/// An object with one text field.
pub open spec fn named(key: Seq<char>, value: Seq<char>) -> JsonView {
    empty_object().with_text(key, value)
}

fn named_object(key: &str, value: &str) -> (r: Json)
    ensures
        r@ == named(key@, value@),
{
    let mut r = Json::object();
    r.put_text(key, value);
    r
}

pub open spec fn update_example() -> JsonView {
    named("id"@, "saved-provider-id"@).with("patch"@, named("name"@, "Updated"@))
}

pub open spec fn route_example() -> JsonView {
    named("id"@, "saved-provider-id"@).with_text("model"@, "gpt-5.6-terra"@).with(
        "enabled"@,
        JsonView::Bool(false),
    ).with("durationSeconds"@, JsonView::Integer(18000))
}

pub open spec fn aggregate_example() -> JsonView {
    let member = named("relayId"@, "provider-a"@).with("weight"@, JsonView::Integer(1));
    named("id"@, "aggregate-id"@).with(
        "patch"@,
        named("strategy"@, "priorityFallback"@).with("members"@, JsonView::Array(seq![member])),
    )
}

pub open spec fn ports() -> JsonView {
    empty_object().with("debugPort"@, JsonView::Integer(9229)).with(
        "helperPort"@,
        JsonView::Integer(57321),
    )
}

pub open spec fn examples() -> JsonView {
    empty_object().with(
        "settings-set"@,
        empty_object().with("patch"@, named("relayTestModel"@, "gpt-6-astra"@)),
    ).with("provider-switch"@, named("id"@, "saved-provider-id"@)).with(
        "provider-update"@,
        update_example(),
    ).with("model-routes-list"@, named("id"@, "saved-provider-id"@)).with(
        "model-route-set"@,
        route_example(),
    ).with(
        "providers-reorder"@,
        empty_object().with("ids"@, text_array(seq!["provider-b"@, "provider-a"@])),
    ).with("aggregate-update"@, aggregate_example()).with("codex-start"@, ports()).with(
        "codex-restart"@,
        ports().with("syncActiveRelay"@, JsonView::Bool(true)),
    )
}

fn make_ports() -> (r: Json)
    ensures
        r@ == ports(),
{
    let mut r = Json::object();
    r.put("debugPort", Json::Unsigned(9229));
    r.put("helperPort", Json::Unsigned(57321));
    r
}

fn make_update_example() -> (r: Json)
    ensures
        r@ == update_example(),
{
    let mut r = named_object("id", "saved-provider-id");
    r.put("patch", named_object("name", "Updated"));
    r
}

fn make_route_example() -> (r: Json)
    ensures
        r@ == route_example(),
{
    let mut r = named_object("id", "saved-provider-id");
    r.put_text("model", "gpt-5.6-terra");
    r.put("enabled", Json::Bool(false));
    r.put("durationSeconds", Json::Unsigned(18000));
    r
}

fn make_aggregate_example() -> (r: Json)
    ensures
        r@ == aggregate_example(),
{
    let mut member = named_object("relayId", "provider-a");
    member.put("weight", Json::Unsigned(1));
    let ghost view = member@;
    let members: Vec<Json> = vec![member];
    assert(array_view(members@) =~= seq![view]);
    let mut patch = named_object("strategy", "priorityFallback");
    patch.put("members", Json::array(members));
    let mut r = named_object("id", "aggregate-id");
    r.put("patch", patch);
    r
}

fn make_examples() -> (r: Json)
    ensures
        r@ == examples(),
{
    let mut settings = Json::object();
    settings.put("patch", named_object("relayTestModel", "gpt-6-astra"));
    let ids: Vec<&'static str> = vec!["provider-b", "provider-a"];
    assert(views(ids@) =~= seq!["provider-b"@, "provider-a"@]);
    let mut order = Json::object();
    order.put("ids", text_list(&ids));
    let mut restart = make_ports();
    restart.put("syncActiveRelay", Json::Bool(true));
    let mut r = Json::object();
    r.put("settings-set", settings);
    r.put("provider-switch", named_object("id", "saved-provider-id"));
    r.put("provider-update", make_update_example());
    r.put("model-routes-list", named_object("id", "saved-provider-id"));
    r.put("model-route-set", make_route_example());
    r.put("providers-reorder", order);
    r.put("aggregate-update", make_aggregate_example());
    r.put("codex-start", make_ports());
    r.put("codex-restart", restart);
    r
}

/// What `help` tells.
pub fn help_output() -> (r: Json)
    ensures
        r@ == ok_output().with("apiVersion"@, JsonView::Integer(1)).with(
            "commands"@,
            text_array(command_names()),
        ).with_text("input"@, "--input JSON | --input @file.json | --input - (stdin)"@).with(
            "options"@,
            text_array(
                seq![
                    "--include-secrets"@,
                    "--dry-run"@,
                    "--state-dir PATH --codex-home PATH"@,
                ],
            ),
        ).with("examples"@, examples()),
{
    let options: Vec<&'static str> = vec![
        "--include-secrets",
        "--dry-run",
        "--state-dir PATH --codex-home PATH",
    ];
    assert(views(options@) =~= seq![
        "--include-secrets"@,
        "--dry-run"@,
        "--state-dir PATH --codex-home PATH"@,
    ]);
    let list = commands();
    let mut r = ok_object();
    r.put("apiVersion", Json::Unsigned(1));
    r.put("commands", text_list(&list));
    r.put_text("input", "--input JSON | --input @file.json | --input - (stdin)");
    r.put("options", text_list(&options));
    r.put("examples", make_examples());
    r
}

} // verus!
