use codex_plus_core::control::arguments::{
    commands, input_to_read, is_command, parse_arguments, parse_input, InputSource,
};
use codex_plus_core::control::changes::{
    patch_provider, replace_aggregate, replace_provider, reorder_providers, switch_provider,
};
use codex_plus_core::control::commands::{
    aggregate_output, command_action, complete_launch_input, decide_lifecycle, failure_output,
    help_output, isolated_refusal, launch_preview_output, needs_lock, open_preview_output,
    opened_output, preview_output, provider_output, providers_output, settings_output,
    should_apply, status_output, store_decision, stored_output, ChangeAction, CommandAction,
    LifecycleAction, LifecycleDecision, RouteAction, StoreDecision, TellAction,
};
use codex_plus_core::control::connection::update_connection_where_placed;
use codex_plus_core::control::patch::{merge_object, merge_patch, object, redact, string};
use codex_plus_core::control::requests::{
    asks_for_active, requested_aggregate, requested_aggregate_change, requested_provider,
    requested_provider_change, requested_settings_change, switch_as_requested,
};
use codex_plus_core::control::validate::validate;
use codex_plus_core::json::Json;
use codex_plus_core::settings::{
    AggregateRelayMember, AggregateRelayProfile, AggregateRelayStrategy, BackendSettings,
    RelayMode, RelayProfile, RelaySessionProvider, RelaySettings,
};

fn json(text: &str) -> Json {
    Json::parse(text).unwrap()
}

fn same(left: &Json, right: &str) {
    assert_eq!(left.to_text(), json(right).to_text());
}

fn args(list: &[&str]) -> Vec<String> {
    list.iter().map(|arg| arg.to_string()).collect()
}

fn relay(id: &str, relay_mode: RelayMode) -> RelayProfile {
    RelayProfile {
        id: id.to_string(),
        name: id.to_uppercase(),
        relay_mode,
        ..RelayProfile::default()
    }
}

fn member(relay_id: &str) -> AggregateRelayMember {
    AggregateRelayMember {
        relay_id: relay_id.to_string(),
        weight: 1,
    }
}

fn aggregate(id: &str, members: Vec<AggregateRelayMember>) -> AggregateRelayProfile {
    AggregateRelayProfile {
        id: id.to_string(),
        name: id.to_uppercase(),
        session_provider: RelaySessionProvider::Custom,
        code_mode_host: false,
        strategy: AggregateRelayStrategy::Failover,
        members,
    }
}

fn settings() -> BackendSettings {
    BackendSettings {
        relays: RelaySettings {
            relay_profiles: vec![
                relay("a", RelayMode::Official),
                relay("b", RelayMode::PureApi),
                relay("agg", RelayMode::Aggregate),
            ],
            active_relay_id: "a".to_string(),
            active_aggregate_relay_id: String::new(),
            aggregate_relay_profiles: vec![aggregate("agg", vec![member("a"), member("b")])],
            ..RelaySettings::default()
        },
        ..BackendSettings::default()
    }
}

fn ids(relays: &[RelayProfile]) -> Vec<&str> {
    relays.iter().map(|relay| relay.id.as_str()).collect()
}

#[test]
fn command_line_is_read() {
    let read = parse_arguments(&args(&[
        "provider-update",
        "--input",
        "{}",
        "--dry-run",
        "--state-dir",
        "/s",
        "--codex-home",
        "/h",
        "--include-secrets",
    ]))
    .unwrap();
    assert_eq!(read.command, "provider-update");
    assert_eq!(read.input, Some(InputSource::Literal("{}".to_string())));
    assert_eq!(read.state_dir.as_deref(), Some("/s"));
    assert_eq!(read.codex_home.as_deref(), Some("/h"));
    assert!(read.include_secrets);
    assert!(read.dry_run);

    let bare = parse_arguments(&Vec::new()).unwrap();
    assert_eq!(bare.command, "help");
    assert_eq!(bare.input, None);
    assert!(!bare.include_secrets && !bare.dry_run);

    let stdin = parse_arguments(&args(&["status", "--input", "-"])).unwrap();
    assert_eq!(stdin.input, Some(InputSource::Stdin));
    let file = parse_arguments(&args(&["status", "--input", "@a.json"])).unwrap();
    assert_eq!(file.input, Some(InputSource::File("a.json".to_string())));
}

#[test]
fn command_line_mistakes_are_named() {
    for (list, message) in [
        (vec!["status", "--input"], "--input requires JSON, @file or -"),
        (vec!["status", "--input", "{}", "--input", "{}"], "Only one --input is allowed"),
        (vec!["status", "--state-dir"], "Missing state directory"),
        (vec!["status", "--codex-home"], "Missing Codex home"),
        (vec!["status", "--state-dir", "x"], "Use --state-dir and --codex-home together"),
        (vec!["status", "--codex-home", "x"], "Use --state-dir and --codex-home together"),
        (vec!["status", "extra"], "Unknown CLI option: extra"),
        (vec!["nothing"], "Unknown command: nothing; use --cli help"),
        (vec!["nothing", "--bad"], "Unknown CLI option: --bad"),
    ] {
        assert_eq!(parse_arguments(&args(&list)).unwrap_err(), message);
    }
}

#[test]
fn there_are_seventeen_commands() {
    assert_eq!(commands().len(), 17);
    assert!(commands().into_iter().all(is_command));
    assert!(!is_command("Help"));
    assert!(!is_command(""));
}

#[test]
fn input_is_a_json_object() {
    same(&parse_input(None).unwrap(), "{}");
    same(&parse_input(Some("\u{feff}{\"id\":\"x\"}")).unwrap(), r#"{"id":"x"}"#);
    assert_eq!(parse_input(Some("{")).unwrap_err(), "Invalid input JSON");
    assert_eq!(parse_input(Some("[]")).unwrap_err(), "Input must be a JSON object");
}

#[test]
fn commands_have_actions() {
    for (command, action) in [
        ("help", CommandAction::Help),
        ("manager-open", CommandAction::Lifecycle(LifecycleAction::OpenManager)),
        ("codex-start", CommandAction::Lifecycle(LifecycleAction::Start)),
        ("codex-restart", CommandAction::Lifecycle(LifecycleAction::Restart)),
        ("model-routes-list", CommandAction::Routes(RouteAction::List)),
        ("model-route-set", CommandAction::Routes(RouteAction::Switch)),
        ("status", CommandAction::Tell(TellAction::Status)),
        ("settings-get", CommandAction::Tell(TellAction::Settings)),
        ("providers-list", CommandAction::Tell(TellAction::Providers)),
        ("provider-get", CommandAction::Tell(TellAction::Provider)),
        ("aggregate-get", CommandAction::Tell(TellAction::Aggregate)),
        ("settings-set", CommandAction::Change(ChangeAction::Settings)),
        ("provider-update", CommandAction::Change(ChangeAction::Provider)),
        ("providers-reorder", CommandAction::Change(ChangeAction::Order)),
        ("aggregate-update", CommandAction::Change(ChangeAction::Aggregate)),
        ("provider-switch", CommandAction::Change(ChangeAction::Switch)),
        ("aggregate-switch", CommandAction::Change(ChangeAction::Switch)),
    ] {
        assert!(is_command(command));
        assert_eq!(command_action(command), Some(action));
        let changes = matches!(action, CommandAction::Change(_));
        assert_eq!(needs_lock(command, false), changes);
        assert!(!needs_lock(command, true));
    }
    assert_eq!(command_action("Help"), None);
    assert!(!needs_lock("Help", false));
}

#[test]
fn input_is_read_where_no_option_before_it_is_refused() {
    let literal = |text: &str| Some(InputSource::Literal(text.to_string()));
    assert_eq!(input_to_read(&args(&["status", "--input", "{}"])), literal("{}"));
    assert_eq!(
        input_to_read(&args(&["status", "--dry-run", "--state-dir", "--input", "--input", "1", "--bad"])),
        literal("1")
    );
    assert_eq!(
        input_to_read(&args(&["status", "--input", "-", "--input", "{}"])),
        Some(InputSource::Stdin)
    );
    assert_eq!(
        input_to_read(&args(&["status", "--codex-home", "h", "--input", "@f"])),
        Some(InputSource::File("f".to_string()))
    );
    assert_eq!(input_to_read(&args(&["status", "--bad", "--input", "{}"])), None);
    assert_eq!(input_to_read(&args(&["status", "--state-dir"])), None);
    assert_eq!(input_to_read(&args(&["--input", "{}"])), None);
    assert_eq!(input_to_read(&Vec::new()), None);
}

#[test]
fn needed_fields_are_checked() {
    let input = json(r#"{"id":"x","blank":"  ","patch":{"a":1},"list":[]}"#);
    assert_eq!(string(&input, "id").unwrap(), "x");
    assert_eq!(string(&input, "blank").unwrap_err(), "blank must be a non-empty string");
    assert_eq!(string(&input, "patch").unwrap_err(), "patch must be a non-empty string");
    same(object(&input, "patch").unwrap(), r#"{"a":1}"#);
    assert_eq!(object(&input, "list").unwrap_err(), "list must be an object");
}

#[test]
fn patches_change_known_fields() {
    let mut target = json(r#"{"a":1,"b":2}"#);
    merge_patch(&mut target, &json(r#"{"b":null}"#)).unwrap();
    same(&target, r#"{"a":1,"b":null}"#);
    assert_eq!(
        merge_patch(&mut target, &json(r#"{"z":1,"a":5,"c":1}"#)).unwrap_err(),
        "Unknown setting: c"
    );
    same(&target, r#"{"a":1,"b":null}"#);
    assert_eq!(merge_patch(&mut target, &json("[]")).unwrap_err(), "patch must be an object");
    merge_object(&mut target, &json(r#"{"c":{"d":1}}"#));
    same(&target, r#"{"a":1,"b":null,"c":{"d":1}}"#);
}

#[test]
fn secrets_are_hidden_and_stay_hidden() {
    let mut value = json(
        r#"{"apiKey":"k","vlmApiKey":"","weixinConnectToken":"t","tokens":1,"password":null,
            "list":[{"authContents":"x","configContents":{"a":1},"myApiSecretHere":2,"name":"n"}]}"#,
    );
    redact(&mut value);
    let hidden = r#"{"apiKey":"[redacted]","vlmApiKey":"","weixinConnectToken":"[redacted]","tokens":1,
        "password":null,"list":[{"authContents":"[redacted]","configContents":"[redacted]",
        "myApiSecretHere":"[redacted]","name":"n"}]}"#;
    same(&value, hidden);
    redact(&mut value);
    same(&value, hidden);
}

#[test]
fn relay_fields_are_patched() {
    let mut stored = json(r#"{"id":"a","name":"A"}"#);
    patch_provider(&mut stored, &json(r#"{"name":"B","sub2apiMultiplier":2,"userAgent":"u"}"#)).unwrap();
    same(&stored, r#"{"id":"a","name":"B","sub2apiMultiplier":2,"userAgent":"u"}"#);
    assert_eq!(
        patch_provider(&mut stored, &json(r#"{"zoo":1,"bar":1}"#)).unwrap_err(),
        "Unknown provider field: bar"
    );
}

#[test]
fn relays_are_switched() {
    let after = switch_provider(settings(), "agg", true).unwrap();
    assert_eq!(after.relays.active_relay_id, "agg");
    assert_eq!(after.relays.active_aggregate_relay_id, "agg");
    let back = switch_provider(after, "b", false).unwrap();
    assert_eq!(back.relays.active_relay_id, "b");
    assert_eq!(back.relays.active_aggregate_relay_id, "");
    assert_eq!(switch_provider(settings(), "z", false).unwrap_err(), "Provider not found");
    assert_eq!(
        switch_provider(settings(), "b", true).unwrap_err(),
        "Selected provider is not an aggregate"
    );
    let asked = switch_as_requested(settings(), "aggregate-switch", &json(r#"{"id":"agg"}"#)).unwrap();
    assert_eq!(asked.relays.active_relay_id, "agg");
    assert_eq!(
        switch_as_requested(settings(), "provider-switch", &json("{}")).unwrap_err(),
        "id must be a non-empty string"
    );
}

#[test]
fn reordering_keeps_the_relays() {
    let relays = settings().relays.relay_profiles;
    let order = reorder_providers(&relays, &args(&["agg", "a"])).unwrap();
    assert_eq!(ids(&order), vec!["agg", "a", "b"]);
    assert_eq!(order[1], relays[0]);
    assert_eq!(
        reorder_providers(&relays, &args(&["a", "a"])).unwrap_err(),
        "Duplicate provider id: a"
    );
    assert_eq!(
        reorder_providers(&relays, &args(&["a", "z"])).unwrap_err(),
        "Unknown provider in order"
    );
}

#[test]
fn renames_go_both_ways() {
    let mut renamed = relay("agg", RelayMode::Aggregate);
    renamed.name = "New".to_string();
    let after = replace_provider(settings(), "agg", renamed).unwrap();
    assert_eq!(after.relays.relay_profiles[2].name, "New");
    assert_eq!(after.relays.aggregate_relay_profiles[0].name, "New");
    assert!(replace_provider(settings(), "z", RelayProfile::default()).is_none());

    let changed = aggregate("agg", vec![member("b")]);
    let after = replace_aggregate(settings(), "agg", changed.clone(), Some(&json("\"Other\""))).unwrap();
    assert_eq!(after.relays.aggregate_relay_profiles[0], changed);
    assert_eq!(after.relays.relay_profiles[2].name, "Other");
    let quiet = replace_aggregate(settings(), "agg", changed.clone(), None).unwrap();
    assert_eq!(quiet.relays.relay_profiles[2].name, "AGG");
    assert_eq!(
        replace_aggregate(settings(), "agg", changed.clone(), Some(&json("1"))).unwrap_err(),
        "name must be a string"
    );
    assert_eq!(
        replace_aggregate(settings(), "z", changed.clone(), None).unwrap_err(),
        "Aggregate not found"
    );
    let mut lost = settings();
    lost.relays.relay_profiles.pop();
    assert_eq!(
        replace_aggregate(lost, "agg", changed, Some(&json("\"Other\""))).unwrap_err(),
        "Aggregate profile not found"
    );
}

#[test]
fn requests_name_what_they_want() {
    let all = settings();
    assert_eq!(requested_provider(&all, &json(r#"{"id":"b"}"#)).unwrap(), 1);
    assert_eq!(requested_provider(&all, &json(r#"{"id":"z"}"#)).unwrap_err(), "Provider not found");
    assert_eq!(
        requested_provider(&all, &json(r#"{"id":1}"#)).unwrap_err(),
        "id must be a non-empty string"
    );
    assert_eq!(requested_aggregate(&all, &json(r#"{"id":"agg"}"#)).unwrap(), (0, 2));
    assert_eq!(requested_aggregate(&all, &json(r#"{"id":"a"}"#)).unwrap_err(), "Aggregate not found");
    let mut lost = settings();
    lost.relays.relay_profiles.pop();
    assert_eq!(
        requested_aggregate(&lost, &json(r#"{"id":"agg"}"#)).unwrap_err(),
        "Aggregate profile not found"
    );
    assert!(asks_for_active(&all, &json(r#"{"id":"a"}"#)));
    assert!(!asks_for_active(&all, &json("{}")));

    let input = json(r#"{"id":"agg","patch":{"name":"n"}}"#);
    let (place, patch) = requested_provider_change(&all, &input).unwrap();
    assert_eq!(place, 2);
    same(patch, r#"{"name":"n"}"#);
    let (place, patch) = requested_aggregate_change(&all, &input).unwrap();
    assert_eq!(place, 0);
    same(patch, r#"{"name":"n"}"#);
    for key in ["id", "relayMode"] {
        let input = json(&format!("{{\"id\":\"a\",\"patch\":{{\"{key}\":\"x\"}}}}"));
        assert_eq!(
            requested_provider_change(&all, &input).unwrap_err(),
            "Changing provider id or relayMode is not supported by provider-update"
        );
    }
    assert_eq!(
        requested_aggregate_change(&all, &json(r#"{"id":"agg","patch":{"id":"x"}}"#)).unwrap_err(),
        "Aggregate id cannot change"
    );
    assert_eq!(
        requested_aggregate_change(&all, &json(r#"{"id":"a","patch":{}}"#)).unwrap_err(),
        "Aggregate not found"
    );
    assert_eq!(
        requested_provider_change(&all, &json(r#"{"id":"z","patch":{}}"#)).unwrap_err(),
        "Provider not found"
    );
    assert_eq!(
        requested_provider_change(&all, &json(r#"{"id":"z"}"#)).unwrap_err(),
        "patch must be an object"
    );
}

#[test]
fn general_settings_leave_the_relays_alone() {
    same(
        requested_settings_change(&json(r#"{"patch":{"launchMode":"relay"}}"#)).unwrap(),
        r#"{"launchMode":"relay"}"#,
    );
    for key in ["activeRelayId", "activeAggregateRelayId", "relayProfiles", "aggregateRelayProfiles"] {
        assert_eq!(
            requested_settings_change(&json(&format!("{{\"patch\":{{\"{key}\":null}}}}"))).unwrap_err(),
            format!("Use provider/aggregate commands to change {key}")
        );
    }
    assert_eq!(requested_settings_change(&json("{}")).unwrap_err(), "patch must be an object");
}

#[test]
fn settings_are_validated() {
    assert!(validate(&settings()).is_ok());

    let mut twice = settings();
    twice.relays.relay_profiles[1].id = "a".to_string();
    assert_eq!(validate(&twice).unwrap_err(), "Duplicate or empty provider id");
    twice.relays.relay_profiles[1].id = String::new();
    assert_eq!(validate(&twice).unwrap_err(), "Duplicate or empty provider id");

    let mut inactive = settings();
    inactive.relays.active_relay_id = "z".to_string();
    assert_eq!(validate(&inactive).unwrap_err(), "Active provider does not exist");

    let mut lone = settings();
    lone.relays.relay_profiles[2].relay_mode = RelayMode::PureApi;
    assert_eq!(
        validate(&lone).unwrap_err(),
        "Aggregate has no matching provider profile: agg"
    );

    let mut empty = settings();
    empty.relays.aggregate_relay_profiles[0].members.clear();
    assert_eq!(validate(&empty).unwrap_err(), "Aggregate must have a member: agg");

    let mut weightless = settings();
    weightless.relays.aggregate_relay_profiles[0].members[1].weight = 0;
    assert_eq!(
        validate(&weightless).unwrap_err(),
        "Invalid or duplicate aggregate member: b"
    );
    let mut nested = settings();
    nested.relays.aggregate_relay_profiles[0].members[0].relay_id = "agg".to_string();
    assert_eq!(
        validate(&nested).unwrap_err(),
        "Invalid or duplicate aggregate member: agg"
    );
    let mut doubled = settings();
    doubled.relays.aggregate_relay_profiles[0].members[1].relay_id = "a".to_string();
    assert_eq!(
        validate(&doubled).unwrap_err(),
        "Invalid or duplicate aggregate member: a"
    );
}

#[test]
fn changes_reach_the_live_config_where_they_matter() {
    let all = settings();
    let of = |id: &str| json(&format!("{{\"id\":\"{id}\"}}"));
    assert!(should_apply(&all, "settings-set", &json("{}")));
    assert!(should_apply(&all, "providers-reorder", &json("{}")));
    assert!(should_apply(&all, "aggregate-switch", &of("agg")));
    assert!(should_apply(&all, "provider-update", &of("a")));
    assert!(!should_apply(&all, "provider-update", &of("b")));
    let in_use = switch_provider(settings(), "agg", true).unwrap();
    assert!(should_apply(&in_use, "provider-update", &of("b")));

    assert_eq!(
        store_decision(&all, "provider-update", &of("b"), true),
        StoreDecision::Preview(false)
    );
    assert_eq!(store_decision(&all, "provider-update", &of("b"), false), StoreDecision::Save);
    assert_eq!(store_decision(&all, "provider-switch", &of("b"), false), StoreDecision::Apply);
    let mut off = settings();
    off.relays.relay_profiles_enabled = false;
    assert_eq!(store_decision(&off, "provider-switch", &of("b"), false), StoreDecision::Refuse);
    assert_eq!(
        store_decision(&off, "provider-switch", &of("b"), true),
        StoreDecision::Preview(false)
    );
    assert_eq!(store_decision(&off, "settings-set", &of("a"), false), StoreDecision::Save);
}

#[test]
fn starts_are_decided() {
    assert_eq!(
        decide_lifecycle("codex-start", true, true, true, true),
        LifecycleDecision::Preview
    );
    assert_eq!(
        decide_lifecycle("codex-start", false, true, true, true),
        LifecycleDecision::Refuse
    );
    assert_eq!(
        decide_lifecycle("codex-start", false, false, true, true),
        LifecycleDecision::Go(true)
    );
    assert_eq!(
        decide_lifecycle("codex-start", false, false, false, true),
        LifecycleDecision::Go(false)
    );
    assert_eq!(
        decide_lifecycle("codex-restart", false, false, true, true),
        LifecycleDecision::Go(false)
    );
    assert_eq!(
        isolated_refusal("manager-open"),
        "manager-open is dry-run only with isolated paths"
    );
    assert_eq!(
        isolated_refusal("codex-start"),
        "Lifecycle commands are dry-run only with isolated configuration paths"
    );
    let mut input = json(r#"{"syncActiveRelay":false}"#);
    complete_launch_input(&mut input, "/app");
    same(&input, r#"{"appPath":"/app","syncActiveRelay":false}"#);
    let mut input = json(r#"{"appPath":"/x"}"#);
    complete_launch_input(&mut input, "/app");
    same(&input, r#"{"appPath":"/x","syncActiveRelay":true}"#);
}

#[test]
fn outputs_tell_what_happened() {
    same(&failure_output("no"), r#"{"status":"failed","message":"no"}"#);
    same(
        &settings_output(json("{}"), "/s/settings.json"),
        r#"{"status":"ok","settings":{},"settingsPath":"/s/settings.json"}"#,
    );
    same(
        &providers_output("a", json("[1]"), json("[]")),
        r#"{"status":"ok","activeRelayId":"a","providers":[1],"aggregates":[]}"#,
    );
    same(&provider_output(json("{}"), true), r#"{"status":"ok","provider":{},"active":true}"#);
    same(
        &aggregate_output(json("{}"), json("[]"), false),
        r#"{"status":"ok","aggregate":{},"profile":[],"active":false}"#,
    );
    same(
        &preview_output(true, json("{}")),
        r#"{"status":"ok","dryRun":true,"wouldApplyLiveConfig":true,"settings":{}}"#,
    );
    same(
        &stored_output(true, json("{}"), None, "/h/config.toml"),
        r#"{"status":"ok","appliedLiveConfig":true,"restartRequested":false,"settings":{},
            "backupPath":null,"configPath":"/h/config.toml"}"#,
    );
    same(
        &status_output("1.2", "/s", "/h", &switch_provider(settings(), "agg", true).unwrap(), true, Json::Null),
        r#"{"status":"ok","version":"1.2","apiVersion":1,"stateDir":"/s","codexHome":"/h",
            "activeRelayId":"agg","activeAggregateRelayId":"agg","configured":true,"latestLaunch":null}"#,
    );
    same(
        &open_preview_output("/m"),
        r#"{"status":"ok","dryRun":true,"executable":"/m","args":[]}"#,
    );
    same(
        &opened_output("/m"),
        r#"{"status":"accepted","path":"/m","readiness":"not_checked"}"#,
    );
    same(
        &launch_preview_output("codex-restart", "/l", "/a", 9229, 57321, true),
        r#"{"status":"ok","dryRun":true,"operation":"codex-restart","launcher":"/l","appPath":"/a",
            "debugPort":9229,"helperPort":57321,"syncActiveRelay":true,"launchIncludesInjection":true,
            "willInterruptRunningTasks":true}"#,
    );
}

#[test]
fn help_lists_everything() {
    let help = help_output();
    assert_eq!(help.u64_at("apiVersion"), Some(1));
    assert_eq!(help.array_at("commands").unwrap().len(), 17);
    same(
        help.get("examples").unwrap().get("aggregate-update").unwrap(),
        r#"{"id":"aggregate-id","patch":{"strategy":"priorityFallback",
            "members":[{"relayId":"provider-a","weight":1}]}}"#,
    );
    same(
        help.get("examples").unwrap().get("model-route-set").unwrap(),
        r#"{"id":"saved-provider-id","model":"gpt-5.6-terra","enabled":false,"durationSeconds":18000}"#,
    );
    assert_eq!(
        help.text_at("input"),
        Some("--input JSON | --input @file.json | --input - (stdin)")
    );
}

const CONFIG: &str = "model_provider = \"custom\"\n\n[model_providers.custom]\nbase_url = \"https://old.example\"\n";

fn connected(relay_mode: RelayMode, config: &str, auth: &str) -> RelayProfile {
    RelayProfile {
        config_contents: config.to_string(),
        auth_contents: auth.to_string(),
        ..relay("b", relay_mode)
    }
}

#[test]
fn connection_follows_the_patch() {
    let patch = json(r#"{"baseUrl":"https://new.example","apiKey":"k","model":"m"}"#);
    let pure = update_connection_where_placed(connected(RelayMode::PureApi, CONFIG, " "), &patch)
        .unwrap()
        .unwrap();
    assert_eq!(pure.base_url, "https://new.example");
    assert_eq!(pure.upstream_base_url, "https://new.example");
    assert_eq!(pure.api_key, "k");
    assert_eq!(pure.auth_contents, "{\n  \"OPENAI_API_KEY\": \"k\"\n}");
    assert!(pure.config_contents.contains("base_url = \"https://new.example\""));
    assert!(pure.config_contents.contains("model = \"m\""));
    assert!(!pure.config_contents.contains("experimental_bearer_token"));

    let official = update_connection_where_placed(connected(RelayMode::Official, CONFIG, "x"), &patch)
        .unwrap()
        .unwrap();
    assert_eq!(official.auth_contents, "x");
    assert!(official.config_contents.contains("experimental_bearer_token = \"k\""));

    let named = connected(RelayMode::Official, CONFIG, "");
    let other = update_connection_where_placed(named.clone(), &json(r#"{"name":"n"}"#)).unwrap().unwrap();
    assert_eq!(other, named);
}

#[test]
fn address_goes_to_the_provider_that_has_one() {
    let config = "model_provider = \"openai\"\n[model_providers.openai]\nname = \"o\"\n[model_providers.custom]\nname = \"c\"\n";
    let after = update_connection_where_placed(
        connected(RelayMode::Official, config, ""),
        &json(r#"{"upstreamBaseUrl":"https://u"}"#),
    )
    .unwrap()
    .unwrap();
    assert_eq!(
        after.config_contents,
        "model_provider = \"openai\"\n[model_providers.openai]\nname = \"o\"\n[model_providers.custom]\nname = \"c\"\nbase_url = \"https://u\"\n"
    );
}

#[test]
fn connection_mistakes_are_named() {
    let fail = |relay: RelayProfile, patch: &str| {
        update_connection_where_placed(relay, &json(patch)).unwrap().unwrap_err()
    };
    assert_eq!(
        fail(connected(RelayMode::Aggregate, CONFIG, ""), r#"{"model":"m"}"#),
        "Aggregate connection is managed by Codex++; update its modelList or members instead"
    );
    assert_eq!(
        fail(connected(RelayMode::PureApi, CONFIG, ""), r#"{"model":1}"#),
        "model must be a string"
    );
    assert_eq!(
        fail(connected(RelayMode::PureApi, "", ""), r#"{"apiKey":"k"}"#),
        "Provider config has no model_providers table; update configContents"
    );
    assert_eq!(
        fail(connected(RelayMode::PureApi, "[model_providers.x]\na = 1\n", ""), r#"{"apiKey":"k"}"#),
        "Provider transport table not found"
    );
    assert_eq!(
        fail(connected(RelayMode::PureApi, CONFIG, ""), r#"{"baseUrl":1}"#),
        "baseUrl must be a string"
    );
    assert_eq!(
        fail(connected(RelayMode::PureApi, CONFIG, ""), r#"{"apiKey":1}"#),
        "apiKey must be a string"
    );
    assert!(!fail(connected(RelayMode::PureApi, "= bad", ""), r#"{"apiKey":"k"}"#).is_empty());
    assert!(!fail(connected(RelayMode::PureApi, CONFIG, "{bad"), r#"{"apiKey":"k"}"#).is_empty());
    assert!(update_connection_where_placed(
        connected(RelayMode::PureApi, CONFIG, "[1]"),
        &json(r#"{"apiKey":"k"}"#)
    )
    .is_none());
    let null = update_connection_where_placed(
        connected(RelayMode::PureApi, CONFIG, "null"),
        &json(r#"{"apiKey":"k"}"#),
    )
    .unwrap()
    .unwrap();
    assert_eq!(null.auth_contents, "{\n  \"OPENAI_API_KEY\": \"k\"\n}");
}

#[test]
fn connection_texts_with_many_quotes_in_a_row_are_refused() {
    let patch = |key: &str, quotes: usize| {
        let mut patch = Json::object();
        patch.put_text(key, &"'".repeat(quotes));
        patch
    };
    for key in ["model", "baseUrl", "upstreamBaseUrl", "apiKey"] {
        let relay = connected(RelayMode::Official, CONFIG, "");
        assert!(update_connection_where_placed(relay.clone(), &patch(key, 256)).is_none());
        assert!(update_connection_where_placed(relay, &patch(key, 255)).unwrap().is_ok());
    }
    let pure = connected(RelayMode::PureApi, CONFIG, "");
    let after = update_connection_where_placed(pure, &patch("apiKey", 256)).unwrap().unwrap();
    assert_eq!(after.api_key, "'".repeat(256));
}
