//! Model routes: how they stand, and how one is switched on or off.
use vstd::prelude::*;

use super::active::{find_relay, relay_position};
use super::backend::{BackendSettings, RelaySettingsView};
use super::types::{
    relay_model_route_views, relay_profile_views, RelayModelRoute, RelayModelRouteStatus,
    RelayModelRouteView, RelayModelRoutesResult, RelayProfile, RelayProfileView,
    SetRelayModelRouteRequest, SetRelayModelRouteResult,
};
use crate::json::{array_view, Json, JsonView};
use crate::text::{same_text, trim, trimmed};

verus! {

#[verifier::ext_equal]
pub struct RouteStatusView {
    pub model: Seq<char>,
    pub target_relay_id: Seq<char>,
    pub target_relay_name: Seq<char>,
    pub target_model: Seq<char>,
    pub enabled: bool,
    pub restore_at: Option<u64>,
    pub permanent: bool,
    pub remaining_seconds: u64,
}

impl View for RelayModelRouteStatus {
    type V = RouteStatusView;

    open spec fn view(&self) -> RouteStatusView {
        RouteStatusView {
            model: self.model@,
            target_relay_id: self.target_relay_id@,
            target_relay_name: self.target_relay_name@,
            target_model: self.target_model@,
            enabled: self.enabled,
            restore_at: self.restore_at,
            permanent: self.permanent,
            remaining_seconds: self.remaining_seconds,
        }
    }
}

/// How many seconds are left until a moment in milliseconds, rounded up.
pub open spec fn seconds_until(moment_ms: u64, now_ms: u64) -> u64 {
    if moment_ms <= now_ms {
        0
    } else if moment_ms - now_ms + 999 > u64::MAX {
        (u64::MAX / 1000) as u64
    } else {
        ((moment_ms - now_ms + 999) / 1000) as u64
    }
}

/// A route at a moment. One that is off tells when it comes back, or that it does not.
pub open spec fn route_status(
    relays: Seq<RelayProfileView>,
    route: RelayModelRouteView,
    observed_at: u64,
) -> RouteStatusView {
    let enabled = route.is_enabled_at(observed_at);
    RouteStatusView {
        model: route.model,
        target_relay_id: route.target_relay_id,
        target_relay_name: match relay_position(relays, route.target_relay_id) {
            Some(p) => relays[p].name,
            None => Seq::empty(),
        },
        target_model: route.target_model,
        enabled,
        restore_at: if enabled {
            None
        } else {
            route.restore_at
        },
        permanent: !enabled && route.restore_at is None,
        remaining_seconds: if enabled || route.restore_at is None {
            0
        } else {
            seconds_until(route.restore_at->0, observed_at)
        },
    }
}

fn remaining(moment_ms: u64, now_ms: u64) -> (r: u64)
    ensures
        r == seconds_until(moment_ms, now_ms),
{
    if moment_ms <= now_ms {
        0
    } else {
        let left = moment_ms - now_ms;
        if left > u64::MAX - 999 {
            u64::MAX / 1000
        } else {
            (left + 999) / 1000
        }
    }
}

pub fn model_route_status(
    settings: &BackendSettings,
    route: &RelayModelRoute,
    observed_at: u64,
) -> (r: RelayModelRouteStatus)
    ensures
        r@ == route_status(settings@.relays.relay_profiles, route@, observed_at),
{
    let enabled = route.is_effectively_enabled_at(observed_at);
    let restore_at = if enabled {
        None
    } else {
        route.restore_at
    };
    let target_relay_name = match find_relay(
        &settings.relays.relay_profiles,
        route.target_relay_id.as_str(),
    ) {
        Some(p) => {
            assert(settings@.relays.relay_profiles[p as int] == settings.relays.relay_profiles@[p as int]@);
            settings.relays.relay_profiles[p].name.clone()
        },
        None => String::new(),
    };
    let r = RelayModelRouteStatus {
        model: route.model.clone(),
        target_relay_id: route.target_relay_id.clone(),
        target_relay_name,
        target_model: route.target_model.clone(),
        enabled,
        restore_at,
        permanent: !enabled && route.restore_at.is_none(),
        remaining_seconds: match restore_at {
            Some(moment) => remaining(moment, observed_at),
            None => 0,
        },
    };
    assert(r@ =~= route_status(settings@.relays.relay_profiles, route@, observed_at));
    r
}

pub open spec fn status_views(list: Seq<RelayModelRouteStatus>) -> Seq<RouteStatusView> {
    Seq::new(list.len(), |i: int| list[i]@)
}

/// The first relay with an id.
pub open spec fn relay_with_id(settings: RelaySettingsView, id: Seq<char>) -> Option<RelayProfileView> {
    match relay_position(settings.relay_profiles, id) {
        Some(p) => Some(settings.relay_profiles[p]),
        None => None,
    }
}

/// The routes of a relay, as they stand.
pub open spec fn route_statuses(
    relays: Seq<RelayProfileView>,
    relay: RelayProfileView,
    observed_at: u64,
) -> Seq<RouteStatusView> {
    Seq::new(
        relay.model_routes.len(),
        |i: int| route_status(relays, relay.model_routes[i], observed_at),
    )
}

/// The routes of a relay, as they stand at a moment.
pub fn model_routes_list(settings: &BackendSettings, provider_id: &str, observed_at: u64) -> (r:
    Result<RelayModelRoutesResult, String>)
    ensures
        match r {
            Ok(result) => match relay_with_id(settings@.relays, provider_id@) {
                Some(relay) => {
                    &&& result.status@ == "ok"@
                    &&& result.provider_id@ == relay.id
                    &&& result.provider_name@ == relay.name
                    &&& result.observed_at == observed_at
                    &&& status_views(result.routes@) == route_statuses(
                        settings@.relays.relay_profiles,
                        relay,
                        observed_at,
                    )
                },
                None => false,
            },
            Err(message) => relay_with_id(settings@.relays, provider_id@) is None && message@
                == "Provider not found"@,
        },
{
    let p = match find_relay(&settings.relays.relay_profiles, provider_id) {
        Some(p) => p,
        None => {
            return Err("Provider not found".to_owned());
        },
    };
    let relay = &settings.relays.relay_profiles[p];
    assert(settings@.relays.relay_profiles[p as int] == relay@);
    let mut routes: Vec<RelayModelRouteStatus> = Vec::new();
    for i in 0..relay.model_routes.len()
        invariant
            routes@.len() == i,
            forall|j: int|
                0 <= j < i ==> (#[trigger] routes@[j])@ == route_status(
                    settings@.relays.relay_profiles,
                    relay@.model_routes[j],
                    observed_at,
                ),
    {
        assert(relay@.model_routes[i as int] == relay.model_routes@[i as int]@);
        routes.push(model_route_status(settings, &relay.model_routes[i], observed_at));
    }
    assert(status_views(routes@) =~= route_statuses(
        settings@.relays.relay_profiles,
        relay@,
        observed_at,
    ));
    Ok(
        RelayModelRoutesResult {
            status: "ok",
            provider_id: relay.id.clone(),
            provider_name: relay.name.clone(),
            observed_at,
            routes,
        },
    )
}

/// How many ways to come back a request names.
pub open spec fn recovery_choices(request: SetRelayModelRouteRequest) -> int {
    (if request.restore_at is Some {
        1int
    } else {
        0
    }) + (if request.duration_seconds is Some {
        1int
    } else {
        0
    }) + (if request.permanent {
        1int
    } else {
        0
    })
}

pub open spec fn saturating(n: int) -> u64 {
    if n > u64::MAX {
        u64::MAX
    } else {
        n as u64
    }
}

/// When a route that a request switches off comes back: at the moment named, after the time named,
/// never, or after five hours. A request that contradicts itself is refused.
pub open spec fn recovery(request: SetRelayModelRouteRequest, observed_at: u64) -> Result<
    Option<u64>,
    Seq<char>,
> {
    if request.enabled && recovery_choices(request) != 0 {
        Err("Recovery options are only valid when disabling a route"@)
    } else if recovery_choices(request) > 1 {
        Err("restoreAt, durationSeconds and permanent are mutually exclusive"@)
    } else if trimmed(request.id@).len() == 0 || trimmed(request.model@).len() == 0 {
        Err("Provider id and model are required"@)
    } else if request.enabled || request.permanent {
        Ok(None)
    } else if request.restore_at is Some {
        if request.restore_at->0 <= observed_at {
            Err("restoreAt must be a future UTC Unix millisecond timestamp"@)
        } else {
            Ok(request.restore_at)
        }
    } else if request.duration_seconds is Some {
        if request.duration_seconds->0 == 0 {
            Err("durationSeconds must be positive"@)
        } else {
            Ok(
                Some(
                    saturating(
                        observed_at + saturating(request.duration_seconds->0 * 1000),
                    ),
                ),
            )
        }
    } else {
        Ok(Some(saturating(observed_at + 5 * 60 * 60 * 1000)))
    }
}

/// Checks a request, and finds when its route comes back.
pub fn route_recovery(request: &SetRelayModelRouteRequest, observed_at: u64) -> (r: Result<
    Option<u64>,
    String,
>)
    ensures
        match r {
            Ok(restore_at) => recovery(*request, observed_at) == Ok::<Option<u64>, Seq<char>>(
                restore_at,
            ),
            Err(message) => recovery(*request, observed_at) == Err::<Option<u64>, Seq<char>>(
                message@,
            ),
        },
{
    let named = request.restore_at.is_some();
    let timed = request.duration_seconds.is_some();
    if request.enabled && (named || timed || request.permanent) {
        return Err("Recovery options are only valid when disabling a route".to_owned());
    }
    if (named && timed) || (named && request.permanent) || (timed && request.permanent) {
        return Err(
            "restoreAt, durationSeconds and permanent are mutually exclusive".to_owned(),
        );
    }
    if trim(request.id.as_str()).is_empty() || trim(request.model.as_str()).is_empty() {
        return Err("Provider id and model are required".to_owned());
    }
    if request.enabled || request.permanent {
        return Ok(None);
    }
    if let Some(restore_at) = request.restore_at {
        if restore_at <= observed_at {
            return Err(
                "restoreAt must be a future UTC Unix millisecond timestamp".to_owned(),
            );
        }
        return Ok(Some(restore_at));
    }
    if let Some(seconds) = request.duration_seconds {
        if seconds == 0 {
            return Err("durationSeconds must be positive".to_owned());
        }
        let millis = if seconds > u64::MAX / 1000 {
            u64::MAX
        } else {
            seconds * 1000
        };
        return Ok(Some(observed_at.saturating_add(millis)));
    }
    Ok(Some(observed_at.saturating_add(5 * 60 * 60 * 1000)))
}

/// Where the first value stands whose field holds a text, space aside.
pub open spec fn position_by_text(
    items: Seq<JsonView>,
    key: Seq<char>,
    wanted: Seq<char>,
    from: int,
) -> Option<int>
    decreases items.len() - from,
{
    if from >= items.len() {
        None
    } else if items[from].text_field(key) is Some && trimmed(items[from].text_field(key)->0)
        == wanted {
        Some(from)
    } else {
        position_by_text(items, key, wanted, from + 1)
    }
}

pub fn find_by_text(items: &Vec<Json>, key: &str, wanted: &str) -> (r: Option<usize>)
    ensures
        match r {
            Some(i) => position_by_text(array_view(items@), key@, wanted@, 0) == Some(i as int) && i
                < items@.len() && items@[i as int]@ is Object,
            None => position_by_text(array_view(items@), key@, wanted@, 0) is None,
        },
{
    for i in 0..items.len()
        invariant
            position_by_text(array_view(items@), key@, wanted@, 0) == position_by_text(
                array_view(items@),
                key@,
                wanted@,
                i as int,
            ),
    {
        assert(array_view(items@)[i as int] == items@[i as int]@);
        if let Some(text) = items[i].text_at(key) {
            if same_text(trim(text), wanted) {
                return Some(i);
            }
        }
    }
    None
}

/// A stored route switched on or off.
pub open spec fn switched_route(route: JsonView, enabled: bool, restore_at: Option<u64>) -> JsonView {
    let switched = route.with("enabled"@, JsonView::Bool(enabled));
    match restore_at {
        Some(moment) => switched.with("restoreAt"@, JsonView::Integer(moment as int)),
        None => switched.without("restoreAt"@),
    }
}

/// Stored settings with one route switched on or off; nothing else in them changes.
pub open spec fn with_switched_route(
    raw: JsonView,
    id: Seq<char>,
    model: Seq<char>,
    enabled: bool,
    restore_at: Option<u64>,
) -> Result<JsonView, Seq<char>> {
    match raw.items_field("relayProfiles"@) {
        None => Err("Provider list is missing"@),
        Some(relays) => match position_by_text(relays, "id"@, trimmed(id), 0) {
            None => Err("Provider not found"@),
            Some(p) => match relays[p].items_field("modelRoutes"@) {
                None => Err("Model route not found"@),
                Some(routes) => match position_by_text(routes, "model"@, trimmed(model), 0) {
                    None => Err("Model route not found"@),
                    Some(q) => Ok(
                        raw.with(
                            "relayProfiles"@,
                            JsonView::Array(
                                relays.update(
                                    p,
                                    relays[p].with(
                                        "modelRoutes"@,
                                        JsonView::Array(
                                            routes.update(
                                                q,
                                                switched_route(routes[q], enabled, restore_at),
                                            ),
                                        ),
                                    ),
                                ),
                            ),
                        ),
                    ),
                },
            },
        },
    }
}

fn switch_route(route: &mut Json, enabled: bool, restore_at: Option<u64>)
    ensures
        final(route)@ == switched_route(old(route)@, enabled, restore_at),
{
    route.put("enabled", Json::Bool(enabled));
    match restore_at {
        Some(moment) => route.put("restoreAt", Json::Unsigned(moment)),
        None => route.remove("restoreAt"),
    }
}

fn switch_in_relay(relay: &mut Json, q: usize, enabled: bool, restore_at: Option<u64>)
    requires
        old(relay)@.items_field("modelRoutes"@) is Some,
        q < old(relay)@.items_field("modelRoutes"@)->0.len(),
    ensures
        ({
            let routes = old(relay)@.items_field("modelRoutes"@)->0;
            final(relay)@ == old(relay)@.with(
                "modelRoutes"@,
                JsonView::Array(
                    routes.update(
                        q as int,
                        switched_route(routes[q as int], enabled, restore_at),
                    ),
                ),
            )
        }),
{
    if let Some(routes) = relay.array_at_mut("modelRoutes") {
        let ghost before = array_view(routes@);
        assert(before[q as int] == routes@[q as int]@);
        switch_route(&mut routes[q], enabled, restore_at);
        assert(array_view(routes@) =~= before.update(
            q as int,
            switched_route(before[q as int], enabled, restore_at),
        ));
    }
}

/// Switches a stored route on or off.
pub fn apply_route_request(
    raw: &mut Json,
    request: &SetRelayModelRouteRequest,
    restore_at: Option<u64>,
) -> (r: Result<(), String>)
    ensures
        match r {
            Ok(_) => with_switched_route(
                old(raw)@,
                request.id@,
                request.model@,
                request.enabled,
                restore_at,
            ) == Ok::<JsonView, Seq<char>>(final(raw)@),
            Err(message) => with_switched_route(
                old(raw)@,
                request.id@,
                request.model@,
                request.enabled,
                restore_at,
            ) == Err::<JsonView, Seq<char>>(message@) && *final(raw) == *old(raw),
        },
{
    let (p, q) = match raw.array_at("relayProfiles") {
        None => {
            return Err("Provider list is missing".to_owned());
        },
        Some(relays) => match find_by_text(relays, "id", trim(request.id.as_str())) {
            None => {
                return Err("Provider not found".to_owned());
            },
            Some(p) => {
                assert(array_view(relays@)[p as int] == relays@[p as int]@);
                match relays[p].array_at("modelRoutes") {
                    None => {
                        return Err("Model route not found".to_owned());
                    },
                    Some(routes) => match find_by_text(
                        routes,
                        "model",
                        trim(request.model.as_str()),
                    ) {
                        None => {
                            return Err("Model route not found".to_owned());
                        },
                        Some(q) => (p, q),
                    },
                }
            },
        },
    };
    let ghost relays_before = raw@.items_field("relayProfiles"@)->0;
    if let Some(relays) = raw.array_at_mut("relayProfiles") {
        let ghost before = array_view(relays@);
        assert(before[p as int] == relays@[p as int]@);
        switch_in_relay(&mut relays[p], q, request.enabled, restore_at);
        proof {
            let routes = before[p as int].items_field("modelRoutes"@)->0;
            assert(array_view(relays@) =~= before.update(
                p as int,
                before[p as int].with(
                    "modelRoutes"@,
                    JsonView::Array(
                        routes.update(
                            q as int,
                            switched_route(routes[q as int], request.enabled, restore_at),
                        ),
                    ),
                ),
            ));
        }
    }
    Ok(())
}

/// Where the first relay stands whose id is a text, space aside.
pub open spec fn trimmed_relay_position(
    relays: Seq<RelayProfileView>,
    id: Seq<char>,
    from: int,
) -> Option<int>
    decreases relays.len() - from,
{
    if from >= relays.len() {
        None
    } else if trimmed(relays[from].id) == id {
        Some(from)
    } else {
        trimmed_relay_position(relays, id, from + 1)
    }
}

/// Where the first route stands whose model is a text, space aside.
pub open spec fn trimmed_route_position(
    routes: Seq<RelayModelRouteView>,
    model: Seq<char>,
    from: int,
) -> Option<int>
    decreases routes.len() - from,
{
    if from >= routes.len() {
        None
    } else if trimmed(routes[from].model) == model {
        Some(from)
    } else {
        trimmed_route_position(routes, model, from + 1)
    }
}

/// How the route of a request stands after it.
pub open spec fn set_route_status(
    settings: RelaySettingsView,
    request: SetRelayModelRouteRequest,
    observed_at: u64,
) -> Result<RouteStatusView, Seq<char>> {
    match trimmed_relay_position(settings.relay_profiles, trimmed(request.id@), 0) {
        None => Err("Provider not found"@),
        Some(p) => {
            let routes = settings.relay_profiles[p].model_routes;
            match trimmed_route_position(routes, trimmed(request.model@), 0) {
                None => Err("Model route not found"@),
                Some(q) => Ok(route_status(settings.relay_profiles, routes[q], observed_at)),
            }
        },
    }
}

/// The answer to a request, given the settings after it.
pub fn route_set_result(
    settings: &BackendSettings,
    request: &SetRelayModelRouteRequest,
    observed_at: u64,
    dry_run: bool,
) -> (r: Result<SetRelayModelRouteResult, String>)
    ensures
        match r {
            Ok(result) => {
                &&& result.status@ == "ok"@
                &&& result.provider_id@ == trimmed(request.id@)
                &&& result.observed_at == observed_at
                &&& set_route_status(settings@.relays, *request, observed_at) == Ok::<
                    RouteStatusView,
                    Seq<char>,
                >(result.route@)
                &&& result.dry_run == dry_run
                &&& !result.restart_requested
                &&& !result.applied_live_config
            },
            Err(message) => set_route_status(settings@.relays, *request, observed_at) == Err::<
                RouteStatusView,
                Seq<char>,
            >(message@),
        },
{
    let id = trim(request.id.as_str());
    let model = trim(request.model.as_str());
    for p in 0..settings.relays.relay_profiles.len()
        invariant
            id@ == trimmed(request.id@),
            model@ == trimmed(request.model@),
            trimmed_relay_position(settings@.relays.relay_profiles, id@, 0) == trimmed_relay_position(
                settings@.relays.relay_profiles,
                id@,
                p as int,
            ),
    {
        let relay = &settings.relays.relay_profiles[p];
        assert(settings@.relays.relay_profiles[p as int] == relay@);
        if same_text(trim(relay.id.as_str()), id) {
            for q in 0..relay.model_routes.len()
                invariant
                    id@ == trimmed(request.id@),
                    model@ == trimmed(request.model@),
                    relay@ == settings@.relays.relay_profiles[p as int],
                    trimmed_relay_position(settings@.relays.relay_profiles, id@, 0) == Some(p as int),
                    trimmed_route_position(relay@.model_routes, model@, 0)
                        == trimmed_route_position(relay@.model_routes, model@, q as int),
            {
                let route = &relay.model_routes[q];
                assert(relay@.model_routes[q as int] == route@);
                if same_text(trim(route.model.as_str()), model) {
                    return Ok(
                        SetRelayModelRouteResult {
                            status: "ok",
                            provider_id: id.to_owned(),
                            observed_at,
                            route: model_route_status(settings, route, observed_at),
                            dry_run,
                            restart_requested: false,
                            applied_live_config: false,
                        },
                    );
                }
            }
            return Err("Model route not found".to_owned());
        }
    }
    Err("Provider not found".to_owned())
}

/// Where the first route of a model stands.
pub open spec fn route_position(
    routes: Seq<RelayModelRouteView>,
    model: Seq<char>,
    from: int,
) -> Option<int>
    decreases routes.len() - from,
{
    if from >= routes.len() {
        None
    } else if routes[from].model == model {
        Some(from)
    } else {
        route_position(routes, model, from + 1)
    }
}

/// A route that is on or off as another list has it, if that list has its model.
pub open spec fn kept_route(
    route: RelayModelRouteView,
    current: Seq<RelayModelRouteView>,
) -> RelayModelRouteView {
    match route_position(current, route.model, 0) {
        Some(i) => RelayModelRouteView {
            enabled: current[i].enabled,
            restore_at: current[i].restore_at,
            ..route
        },
        None => route,
    }
}

/// A relay whose routes are on or off as the relay with its id has them now.
pub open spec fn kept_relay(
    relay: RelayProfileView,
    current: Seq<RelayProfileView>,
) -> RelayProfileView {
    match relay_position(current, relay.id) {
        Some(p) => RelayProfileView {
            model_routes: Seq::new(
                relay.model_routes.len(),
                |i: int| kept_route(relay.model_routes[i], current[p].model_routes),
            ),
            ..relay
        },
        None => relay,
    }
}

fn keep_route(route: &RelayModelRoute, current: &Vec<RelayModelRoute>) -> (r: RelayModelRoute)
    ensures
        r@ == kept_route(route@, relay_model_route_views(current@)),
{
    let ghost views = relay_model_route_views(current@);
    for i in 0..current.len()
        invariant
            views == relay_model_route_views(current@),
            route_position(views, route@.model, 0) == route_position(
                views,
                route@.model,
                i as int,
            ),
    {
        assert(views[i as int] == current@[i as int]@);
        if same_text(current[i].model.as_str(), route.model.as_str()) {
            let kept = RelayModelRoute {
                model: route.model.clone(),
                target_relay_id: route.target_relay_id.clone(),
                target_model: route.target_model.clone(),
                enabled: current[i].enabled,
                restore_at: current[i].restore_at,
            };
            assert(kept@ =~= kept_route(route@, views));
            return kept;
        }
    }
    route.copy()
}

fn keep_routes(routes: &Vec<RelayModelRoute>, current: &Vec<RelayModelRoute>) -> (r: Vec<
    RelayModelRoute,
>)
    ensures
        relay_model_route_views(r@) == Seq::new(
            routes@.len(),
            |i: int|
                kept_route(
                    relay_model_route_views(routes@)[i],
                    relay_model_route_views(current@),
                ),
        ),
{
    let mut r: Vec<RelayModelRoute> = Vec::new();
    for i in 0..routes.len()
        invariant
            r@.len() == i,
            forall|j: int|
                0 <= j < i ==> (#[trigger] r@[j])@ == kept_route(
                    routes@[j]@,
                    relay_model_route_views(current@),
                ),
    {
        r.push(keep_route(&routes[i], current));
    }
    proof {
        assert(relay_model_route_views(r@) =~= Seq::new(
            routes@.len(),
            |i: int|
                kept_route(
                    relay_model_route_views(routes@)[i],
                    relay_model_route_views(current@),
                ),
        ));
    }
    r
}

fn with_routes(relay: RelayProfile, model_routes: Vec<RelayModelRoute>) -> (r: RelayProfile)
    ensures
        r@ == (RelayProfileView { model_routes: relay_model_route_views(model_routes@), ..relay@ }),
{
    RelayProfile { model_routes, ..relay }
}

fn keep_relay(relay: &RelayProfile, current: &Vec<RelayProfile>) -> (r: RelayProfile)
    ensures
        r@ == kept_relay(relay@, relay_profile_views(current@)),
{
    match find_relay(current, relay.id.as_str()) {
        Some(p) => {
            let ghost views = relay_profile_views(current@);
            assert(views[p as int] == current@[p as int]@);
            let routes = keep_routes(&relay.model_routes, &current[p].model_routes);
            proof {
                assert(relay_model_route_views(routes@) =~= Seq::new(
                    relay@.model_routes.len(),
                    |i: int| kept_route(relay@.model_routes[i], views[p as int].model_routes),
                ));
            }
            with_routes(relay.copy(), routes)
        },
        None => relay.copy(),
    }
}

/// The relays to be saved, with their routes on or off as they are now: saving settings from a
/// window that is out of date switches no route.
pub fn preserve_model_route_states(
    next: &Vec<RelayProfile>,
    current: &Vec<RelayProfile>,
) -> (r: Vec<RelayProfile>)
    ensures
        relay_profile_views(r@) == Seq::new(
            next@.len(),
            |i: int|
                kept_relay(relay_profile_views(next@)[i], relay_profile_views(current@)),
        ),
{
    let mut r: Vec<RelayProfile> = Vec::new();
    for i in 0..next.len()
        invariant
            r@.len() == i,
            forall|j: int|
                0 <= j < i ==> (#[trigger] r@[j])@ == kept_relay(
                    next@[j]@,
                    relay_profile_views(current@),
                ),
    {
        r.push(keep_relay(&next[i], current));
    }
    proof {
        assert(relay_profile_views(r@) =~= Seq::new(
            next@.len(),
            |i: int|
                kept_relay(relay_profile_views(next@)[i], relay_profile_views(current@)),
        ));
    }
    r
}

/// A route that a request switched off is off until its recovery, and on from then; a permanent one
/// stays off. The recovery lies ahead, unless time itself ends before it.
pub proof fn switched_off_route_comes_back(
    route: RelayModelRouteView,
    request: SetRelayModelRouteRequest,
    observed_at: u64,
    moment: u64,
)
    requires
        !request.enabled,
        recovery(request, observed_at) is Ok,
        !route.enabled,
        route.restore_at == recovery(request, observed_at)->Ok_0,
    ensures
        route.is_enabled_at(moment) == (!request.permanent && route.restore_at is Some
            && route.restore_at->0 <= moment),
        route.restore_at is None == request.permanent,
        route.restore_at is Some && observed_at < u64::MAX ==> observed_at < route.restore_at->0
            && !route.is_enabled_at(observed_at),
{
}

/// A stored route that is switched off and on again has no trace of it.
pub proof fn switching_on_forgets_the_recovery(route: JsonView, restore_at: Option<u64>)
    ensures
        switched_route(switched_route(route, false, restore_at), true, None) == switched_route(
            route,
            true,
            None,
        ),
{
    reveal_strlit("enabled");
    reveal_strlit("restoreAt");
    assert("enabled"@.len() == 7 && "restoreAt"@.len() == 9);
    if let JsonView::Object(fields) = route {
        let once = switched_route(route, true, None);
        let twice = switched_route(switched_route(route, false, restore_at), true, None);
        assert(once->Object_0 =~= twice->Object_0);
    }
}

} // verus!
