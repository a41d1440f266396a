//! What is written of settings, and what single parts of them say.
use vstd::prelude::*;

use super::backend::{AppSettingsView, BackendSettingsView, RelaySettingsView};
use super::defaults::filled;
use super::normalize::{config_section, config_text};
use super::store::{relays_to_write, settings_to_write};
use super::tokens::parsed_config;
use super::types::{
    NativeAgentInterop, RelayMode, RelayModelRouteView, RelayProfileView, RelaySessionProvider,
    ResponsesReasoningPolicy, ResponsesWirePolicy,
};
use crate::text::{joined, trimmed, trimmed_start_of};
use crate::toml::{parsed_toml, TomlView};

verus! {

/// Writing changes the extra arguments, which lose the blank ones, and how the model routes stand;
/// everything else is written as it is.
pub proof fn writing_changes_arguments_and_routes_only(
    settings: BackendSettingsView,
    stored: Option<Seq<RelayProfileView>>,
)
    ensures
        ({
            let written = settings_to_write(settings, stored);
            &&& written.app.codex_extra_args == filled(settings.app.codex_extra_args)
            &&& written.app == AppSettingsView {
                codex_extra_args: written.app.codex_extra_args,
                ..settings.app
            }
            &&& written.relays.relay_profiles == relays_to_write(
                settings.relays.relay_profiles,
                stored,
            )
            &&& stored is None ==> written.relays.relay_profiles == settings.relays.relay_profiles
            &&& written.relays == RelaySettingsView {
                relay_profiles: written.relays.relay_profiles,
                ..settings.relays
            }
            &&& written.stepwise == settings.stepwise
            &&& written.looks == settings.looks
            &&& written.weixin == settings.weixin
        }),
{
}

/// Settings are brought into order part by part; of the app's own only the path of the other
/// program's database changes, which loses the white space around it.
pub proof fn settings_are_ordered_part_by_part(
    settings: BackendSettingsView,
    common: Seq<char>,
    context: Seq<char>,
    relays: Seq<RelayProfileView>,
    windows: bool,
)
    ensures
        ({
            let after = settings.in_order(common, context, relays, windows);
            &&& after.app.ccs_db_path == trimmed(settings.app.ccs_db_path)
            &&& after.app == AppSettingsView {
                ccs_db_path: after.app.ccs_db_path,
                ..settings.app
            }
            &&& after.stepwise == settings.stepwise.in_order()
            &&& after.looks == settings.looks.in_order(windows)
            &&& after.weixin == settings.weixin.in_order()
            &&& after.relays == settings.relays.in_order(common, context, relays)
        }),
{
}

/// A configuration text has no white space around it but one line feed at its end; a blank one is
/// empty.
pub proof fn configuration_texts_end_with_a_line_feed(text: Seq<char>)
    ensures
        trimmed(text).len() == 0 ==> config_text(text).len() == 0,
        trimmed(text).len() > 0 ==> config_text(text) == trimmed(text) + seq!['\n'],
{
    reveal_strlit("\n");
    assert("\n"@ =~= seq!['\n']);
}

/// The context tables are those that stand by themselves, followed by those of the common text; an
/// empty line parts the two where there are both.
pub proof fn context_tables_are_put_together(settings: RelaySettingsView)
    ensures
        ({
            let own = trimmed(settings.relay_context_config_contents);
            let common = trimmed(config_section(settings.relay_common_config_contents, true));
            &&& own.len() == 0 && common.len() == 0 ==> settings.context_tables() == config_text(
                Seq::empty(),
            )
            &&& own.len() > 0 && common.len() == 0 ==> settings.context_tables() == config_text(own)
            &&& own.len() == 0 && common.len() > 0 ==> settings.context_tables() == config_text(
                common,
            )
            &&& own.len() > 0 && common.len() > 0 ==> settings.context_tables() == config_text(
                own + "\n\n"@ + common,
            )
        }),
{
    reveal_with_fuel(filled, 3);
    reveal_with_fuel(joined, 3);
    let first = settings.relay_context_config_contents;
    let second = config_section(settings.relay_common_config_contents, true);
    let list = seq![first, second];
    assert(list.drop_last() =~= seq![first]);
    assert(seq![first].drop_last() =~= Seq::<Seq<char>>::empty());
    let kept = filled(list);
    let own = trimmed(first);
    let common = trimmed(second);
    if own.len() == 0 && common.len() == 0 {
        assert(kept =~= Seq::<Seq<char>>::empty());
    } else if common.len() == 0 {
        assert(kept =~= seq![own]);
    } else if own.len() == 0 {
        assert(kept =~= seq![common]);
    } else {
        assert(kept =~= seq![own, common]);
        assert(kept.drop_last() =~= seq![own]);
    }
}

/// A route that is off is on again from the moment of its recovery; one without such a moment stays
/// off, and one that is on stays on.
pub proof fn routes_recover_in_time(route: RelayModelRouteView, now: u64)
    ensures
        route.enabled ==> route.is_enabled_at(now),
        !route.enabled && route.restore_at is None ==> !route.is_enabled_at(now),
        !route.enabled && route.restore_at is Some ==> route.is_enabled_at(now) == (now
            >= route.restore_at->0),
{
}

/// Only a relay that uses the interface alone, and says so, needs no key.
pub proof fn relays_need_a_key(relay: RelayProfileView)
    ensures
        relay.relay_mode == RelayMode::PureApi ==> relay.needs_no_auth() == relay.no_auth,
        relay.relay_mode != RelayMode::PureApi ==> !relay.needs_no_auth(),
{
}

/// A relay routes models where one of its routes names both a model and a relay.
pub proof fn routes_name_model_and_relay(relay: RelayProfileView, i: int)
    ensures
        0 <= i < relay.model_routes.len() && trimmed(relay.model_routes[i].model).len() > 0
            && trimmed(relay.model_routes[i].target_relay_id).len() > 0 ==> relay.routes_models(),
        (forall|j: int|
            0 <= j < relay.model_routes.len() ==> trimmed(
                (#[trigger] relay.model_routes[j]).model,
            ).len() == 0 || trimmed(relay.model_routes[j].target_relay_id).len() == 0)
            ==> !relay.routes_models(),
{
}

/// A configuration is read behind the marks of the byte order before it; a blank one holds nothing.
pub proof fn configurations_are_read_behind_their_marks(contents: Seq<char>)
    ensures
        ({
            let text = trimmed_start_of(contents, '\u{feff}');
            let read = parsed_config(contents);
            &&& trimmed(text).len() == 0 ==> read == Ok::<Map<Seq<char>, TomlView>, Seq<char>>(
                Map::empty(),
            )
            &&& trimmed(text).len() > 0 && parsed_toml(text) is Ok ==> read == parsed_toml(text)
            &&& trimmed(text).len() > 0 && parsed_toml(text) is Err ==> read == Err::<
                Map<Seq<char>, TomlView>,
                Seq<char>,
            >("config.toml TOML 解析失败："@ + parsed_toml(text)->Err_0)
        }),
{
}

/// The names by which choices are stored, and read back; no other name means anything.
pub proof fn choices_have_their_names(name: Seq<char>)
    ensures
        RelaySessionProvider::Custom.spec_name() == "custom"@,
        RelaySessionProvider::of_name("custom"@) == Some(RelaySessionProvider::Custom),
        RelaySessionProvider::Openai.spec_name() == "openai"@,
        RelaySessionProvider::of_name("openai"@) == Some(RelaySessionProvider::Openai),
        name != "custom"@ && name != "openai"@ ==> RelaySessionProvider::of_name(
            name,
        ) is None,
        ResponsesReasoningPolicy::Passthrough.spec_name() == "passthrough"@,
        ResponsesReasoningPolicy::of_name("passthrough"@) == Some(ResponsesReasoningPolicy::Passthrough),
        ResponsesReasoningPolicy::OpenAiOpaque.spec_name() == "openAiOpaque"@,
        ResponsesReasoningPolicy::of_name("openAiOpaque"@) == Some(ResponsesReasoningPolicy::OpenAiOpaque),
        ResponsesReasoningPolicy::Strip.spec_name() == "strip"@,
        ResponsesReasoningPolicy::of_name("strip"@) == Some(ResponsesReasoningPolicy::Strip),
        name != "passthrough"@ && name != "openAiOpaque"@ && name != "strip"@ ==> ResponsesReasoningPolicy::of_name(
            name,
        ) is None,
        NativeAgentInterop::Auto.spec_name() == "auto"@,
        NativeAgentInterop::of_name("auto"@) == Some(NativeAgentInterop::Auto),
        NativeAgentInterop::On.spec_name() == "on"@,
        NativeAgentInterop::of_name("on"@) == Some(NativeAgentInterop::On),
        NativeAgentInterop::Off.spec_name() == "off"@,
        NativeAgentInterop::of_name("off"@) == Some(NativeAgentInterop::Off),
        name != "auto"@ && name != "on"@ && name != "off"@ ==> NativeAgentInterop::of_name(
            name,
        ) is None,
        ResponsesWirePolicy::Compatible.spec_name() == "compatible"@,
        ResponsesWirePolicy::of_name("compatible"@) == Some(ResponsesWirePolicy::Compatible),
        ResponsesWirePolicy::Passthrough.spec_name() == "passthrough"@,
        ResponsesWirePolicy::of_name("passthrough"@) == Some(ResponsesWirePolicy::Passthrough),
        name != "compatible"@ && name != "passthrough"@ ==> ResponsesWirePolicy::of_name(
            name,
        ) is None,
{
    reveal_strlit("auto");
    reveal_strlit("compatible");
    reveal_strlit("custom");
    reveal_strlit("off");
    reveal_strlit("on");
    reveal_strlit("openAiOpaque");
    reveal_strlit("openai");
    reveal_strlit("passthrough");
    reveal_strlit("strip");
    assert("auto"@.len() == 4 && "auto"@[0] == 'a');
    assert("compatible"@.len() == 10 && "compatible"@[0] == 'c');
    assert("custom"@.len() == 6 && "custom"@[0] == 'c');
    assert("off"@.len() == 3 && "off"@[0] == 'o');
    assert("on"@.len() == 2 && "on"@[0] == 'o');
    assert("openAiOpaque"@.len() == 12 && "openAiOpaque"@[0] == 'o');
    assert("openai"@.len() == 6 && "openai"@[0] == 'o');
    assert("passthrough"@.len() == 11 && "passthrough"@[0] == 'p');
    assert("strip"@.len() == 5 && "strip"@[0] == 's');
}

} // verus!
