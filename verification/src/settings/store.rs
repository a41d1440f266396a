//! What is written when settings are saved.
use vstd::prelude::*;

use super::active::relay_position;
use super::backend::{
    AppSettings, AppSettingsView, BackendSettings, BackendSettingsView, RelaySettings,
    RelaySettingsView,
};
use super::defaults::{filled, normalize_codex_extra_args};
use super::normalize::normalize_settings_config_sections;
use super::routes::{kept_relay, preserve_model_route_states, route_position};
use super::types::{
    relay_profile_views, RelayModelRouteView, RelayProfile, RelayProfileView,
};

verus! {

/// The relays to write. Where the stored ones are known, they say how the model routes stand.
pub open spec fn relays_to_write(
    relays: Seq<RelayProfileView>,
    stored: Option<Seq<RelayProfileView>>,
) -> Seq<RelayProfileView> {
    match stored {
        Some(stored) => Seq::new(relays.len(), |i: int| kept_relay(relays[i], stored)),
        None => relays,
    }
}

/// The settings to write: in order, with the arguments that say something.
pub open spec fn settings_to_write(
    ordered: BackendSettingsView,
    stored: Option<Seq<RelayProfileView>>,
) -> BackendSettingsView {
    BackendSettingsView {
        app: AppSettingsView { codex_extra_args: filled(ordered.app.codex_extra_args), ..ordered.app },
        relays: RelaySettingsView {
            relay_profiles: relays_to_write(ordered.relays.relay_profiles, stored),
            ..ordered.relays
        },
        ..ordered
    }
}

pub open spec fn stored_relays(stored: Option<&Vec<RelayProfile>>) -> Option<Seq<RelayProfileView>> {
    match stored {
        Some(relays) => Some(relay_profile_views(relays@)),
        None => None,
    }
}

fn app_to_write(app: AppSettings) -> (r: AppSettings)
    ensures
        r@ == (AppSettingsView { codex_extra_args: filled(app@.codex_extra_args), ..app@ }),
{
    let codex_extra_args = normalize_codex_extra_args(app.codex_extra_args.as_slice());
    AppSettings { codex_extra_args, ..app }
}

fn relays_with_states(relays: RelaySettings, stored: Option<&Vec<RelayProfile>>) -> (r: RelaySettings)
    ensures
        r@ == (RelaySettingsView {
            relay_profiles: relays_to_write(relays@.relay_profiles, stored_relays(stored)),
            ..relays@
        }),
{
    match stored {
        Some(stored) => {
            let relay_profiles = preserve_model_route_states(&relays.relay_profiles, stored);
            RelaySettings { relay_profiles, ..relays }
        },
        None => relays,
    }
}

/// The settings as they are written: brought into order, and with the model routes standing as the
/// stored relays have them. The stored relays are missing where they could not be read.
pub fn prepare_save(
    settings: BackendSettings,
    common: String,
    context: String,
    relays: Vec<RelayProfile>,
    windows: bool,
    stored: Option<&Vec<RelayProfile>>,
) -> (r: BackendSettings)
    ensures
        r@ == settings_to_write(
            settings@.in_order(common@, context@, relay_profile_views(relays@), windows),
            stored_relays(stored),
        ),
{
    let ordered = normalize_settings_config_sections(settings, common, context, relays, windows);
    BackendSettings {
        app: app_to_write(ordered.app),
        relays: relays_with_states(ordered.relays, stored),
        ..ordered
    }
}

/// Saving switches no model route: one that is stored stands as it is stored, and nothing else of
/// it changes.
pub proof fn saving_switches_no_route(
    relays: Seq<RelayProfileView>,
    stored: Seq<RelayProfileView>,
    i: int,
    j: int,
)
    requires
        0 <= i < relays.len(),
        0 <= j < relays[i].model_routes.len(),
        relay_position(stored, relays[i].id) is Some,
        route_position(
            stored[relay_position(stored, relays[i].id)->0].model_routes,
            relays[i].model_routes[j].model,
            0,
        ) is Some,
    ensures
        ({
            let routes = stored[relay_position(stored, relays[i].id)->0].model_routes;
            let route = relays[i].model_routes[j];
            let now = routes[route_position(routes, route.model, 0)->0];
            let written = relays_to_write(relays, Some(stored))[i].model_routes[j];
            written == RelayModelRouteView {
                enabled: now.enabled,
                restore_at: now.restore_at,
                ..route
            }
        }),
{
}

} // verus!
