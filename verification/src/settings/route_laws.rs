//! How model routes are told of, switched and kept.
use vstd::prelude::*;

use super::active::{lemma_relay_position, relay_position};
use super::backend::RelaySettingsView;
use super::routes::{
    kept_relay, kept_route, position_by_text, recovery, route_position, route_status,
    route_statuses, set_route_status, switched_route, trimmed_relay_position,
    trimmed_route_position, with_switched_route,
};
use super::types::{RelayModelRouteView, RelayProfileView, SetRelayModelRouteRequest};
use crate::json::JsonView;
use crate::text::trimmed;

verus! {

/// A route tells its model and its target, with the name of the first relay that has the target's
/// id; it is on where it is switched on or its recovery has come. One that is off tells when it
/// comes back, in seconds rounded up, or that it does not.
pub proof fn routes_tell_how_they_stand(
    relays: Seq<RelayProfileView>,
    route: RelayModelRouteView,
    now: u64,
)
    ensures
        ({
            let told = route_status(relays, route, now);
            let on = route.enabled || (route.restore_at is Some && route.restore_at->0 <= now);
            let target = relay_position(relays, route.target_relay_id);
            &&& told.model == route.model
            &&& told.target_relay_id == route.target_relay_id
            &&& told.target_model == route.target_model
            &&& target is Some ==> told.target_relay_name == relays[target->0].name
                && relays[target->0].id == route.target_relay_id
            &&& target is None ==> told.target_relay_name.len() == 0
            &&& told.enabled == on
            &&& on ==> told.restore_at is None && !told.permanent && told.remaining_seconds == 0
            &&& !on ==> told.restore_at == route.restore_at
            &&& !on && route.restore_at is None ==> told.permanent && told.remaining_seconds == 0
            &&& !on && route.restore_at is Some ==> !told.permanent
            &&& !on && route.restore_at is Some && route.restore_at->0 - now <= u64::MAX - 999 ==> {
                let left = route.restore_at->0 - now;
                told.remaining_seconds * 1000 >= left && (told.remaining_seconds - 1) * 1000 < left
            }
        }),
{
    lemma_relay_position(relays, route.target_relay_id);
}

/// All routes of a relay are told of, in their order.
pub proof fn routes_are_told_in_order(
    relays: Seq<RelayProfileView>,
    relay: RelayProfileView,
    now: u64,
)
    ensures
        route_statuses(relays, relay, now).len() == relay.model_routes.len(),
        forall|i: int|
            0 <= i < relay.model_routes.len() ==> (#[trigger] route_statuses(
                relays,
                relay,
                now,
            )[i]).model == relay.model_routes[i].model,
{
}

/// A route is switched off for as long as the request says: until the moment it names, for the time
/// it names, for ever, or for five hours.
pub proof fn recovery_is_as_requested(request: SetRelayModelRouteRequest, now: u64)
    requires
        recovery(request, now) is Ok,
    ensures
        ({
            let back = recovery(request, now)->Ok_0;
            &&& request.enabled || request.permanent ==> back is None
            &&& !request.enabled && !request.permanent ==> back is Some
            &&& !request.enabled && request.restore_at is Some ==> back == request.restore_at
                && request.restore_at->0 > now
            &&& !request.enabled && !request.permanent && request.duration_seconds is Some && now
                + request.duration_seconds->0 * 1000 <= u64::MAX ==> back->0 == now
                + request.duration_seconds->0 * 1000
            &&& !request.enabled && !request.permanent && request.restore_at is None
                && request.duration_seconds is None && now + 18_000_000 <= u64::MAX ==> back->0
                == now + 18_000_000
        }),
{
}

/// A request is refused where it switches a route on and names a recovery, names two, names no
/// relay or model, or names a time that is over or a length of nothing; only there.
pub proof fn contradictions_are_refused(request: SetRelayModelRouteRequest, now: u64)
    ensures
        ({
            let named = request.restore_at is Some;
            let timed = request.duration_seconds is Some;
            let any = named || timed || request.permanent;
            let two = (named && timed) || (named && request.permanent) || (timed
                && request.permanent);
            let blank = trimmed(request.id@).len() == 0 || trimmed(request.model@).len() == 0;
            let over = named && request.restore_at->0 <= now;
            let nothing = timed && request.duration_seconds->0 == 0;
            recovery(request, now) is Ok == !((request.enabled && any) || two || blank || over
                || nothing)
        }),
{
}

proof fn lemma_position_by_text(
    items: Seq<JsonView>,
    key: Seq<char>,
    wanted: Seq<char>,
    from: int,
)
    requires
        0 <= from,
    ensures
        match position_by_text(items, key, wanted, from) {
            Some(i) => from <= i < items.len() && items[i].text_field(key) is Some && trimmed(
                items[i].text_field(key)->0,
            ) == wanted && forall|j: int|
                from <= j < i ==> !is_named(#[trigger] items[j], key, wanted),
            None => forall|j: int|
                from <= j < items.len() ==> !is_named(#[trigger] items[j], key, wanted),
        },
    decreases items.len() - from,
{
    if from < items.len() && !is_named(items[from], key, wanted) {
        lemma_position_by_text(items, key, wanted, from + 1);
    }
}

pub open spec fn is_named(item: JsonView, key: Seq<char>, wanted: Seq<char>) -> bool {
    item.text_field(key) is Some && trimmed(item.text_field(key)->0) == wanted
}

/// A stored route that is switched says whether it is on and when it comes back, and nothing else of
/// it changes.
pub proof fn switched_route_says_so(route: JsonView, enabled: bool, restore_at: Option<u64>)
    requires
        route is Object,
    ensures
        ({
            let after = switched_route(route, enabled, restore_at);
            &&& after.field("enabled"@) == Some(JsonView::Bool(enabled))
            &&& restore_at is Some ==> after.field("restoreAt"@) == Some(
                JsonView::Integer(restore_at->0 as int),
            )
            &&& restore_at is None ==> after.field("restoreAt"@) is None
            &&& forall|k: Seq<char>|
                k != "enabled"@ && k != "restoreAt"@ ==> #[trigger] after.field(k) == route.field(k)
        }),
{
    reveal_strlit("enabled");
    reveal_strlit("restoreAt");
    assert("enabled"@.len() == 7 && "restoreAt"@.len() == 9);
}

/// Switching a route changes the first route of that model in the first relay of that id, space
/// aside, and nothing else in the stored settings.
pub proof fn only_one_route_is_switched(
    raw: JsonView,
    id: Seq<char>,
    model: Seq<char>,
    enabled: bool,
    restore_at: Option<u64>,
    p: int,
    q: int,
)
    requires
        raw.items_field("relayProfiles"@) is Some,
        is_first_named(raw.items_field("relayProfiles"@)->0, "id"@, trimmed(id), p),
        raw.items_field("relayProfiles"@)->0[p].items_field("modelRoutes"@) is Some,
        is_first_named(
            raw.items_field("relayProfiles"@)->0[p].items_field("modelRoutes"@)->0,
            "model"@,
            trimmed(model),
            q,
        ),
    ensures
        ({
            let relays = raw.items_field("relayProfiles"@)->0;
            let routes = relays[p].items_field("modelRoutes"@)->0;
            let after = with_switched_route(raw, id, model, enabled, restore_at)->Ok_0;
            let relays_after = after.items_field("relayProfiles"@)->0;
            let routes_after = relays_after[p].items_field("modelRoutes"@)->0;
            &&& with_switched_route(raw, id, model, enabled, restore_at) is Ok
            &&& forall|k: Seq<char>|
                k != "relayProfiles"@ ==> #[trigger] after.field(k) == raw.field(k)
            &&& after.items_field("relayProfiles"@) is Some
            &&& relays_after.len() == relays.len()
            &&& forall|i: int|
                0 <= i < relays.len() && i != p ==> #[trigger] relays_after[i] == relays[i]
            &&& forall|k: Seq<char>|
                k != "modelRoutes"@ ==> #[trigger] relays_after[p].field(k) == relays[p].field(k)
            &&& relays_after[p].items_field("modelRoutes"@) is Some
            &&& routes_after.len() == routes.len()
            &&& forall|j: int|
                0 <= j < routes.len() && j != q ==> #[trigger] routes_after[j] == routes[j]
            &&& routes_after[q] == switched_route(routes[q], enabled, restore_at)
        }),
{
    let relays = raw.items_field("relayProfiles"@)->0;
    let routes = relays[p].items_field("modelRoutes"@)->0;
    lemma_first_named(relays, "id"@, trimmed(id), 0, p);
    lemma_first_named(routes, "model"@, trimmed(model), 0, q);
}

pub open spec fn is_first_named(
    items: Seq<JsonView>,
    key: Seq<char>,
    wanted: Seq<char>,
    at: int,
) -> bool {
    &&& 0 <= at < items.len()
    &&& is_named(items[at], key, wanted)
    &&& forall|j: int| 0 <= j < at ==> !is_named(#[trigger] items[j], key, wanted)
}

proof fn lemma_first_named(
    items: Seq<JsonView>,
    key: Seq<char>,
    wanted: Seq<char>,
    from: int,
    at: int,
)
    requires
        0 <= from <= at,
        is_first_named(items, key, wanted, at),
    ensures
        position_by_text(items, key, wanted, from) == Some(at),
    decreases at - from,
{
    if from < at {
        assert(!is_named(items[from], key, wanted));
        lemma_first_named(items, key, wanted, from + 1, at);
    }
}

/// A request is refused where there is no list of relays, no relay of that id, or no route of that
/// model in it.
pub proof fn unknown_routes_are_refused(
    raw: JsonView,
    id: Seq<char>,
    model: Seq<char>,
    enabled: bool,
    restore_at: Option<u64>,
)
    ensures
        ({
            let relays = raw.items_field("relayProfiles"@);
            let r = with_switched_route(raw, id, model, enabled, restore_at);
            &&& relays is None ==> r == Err::<JsonView, Seq<char>>("Provider list is missing"@)
            &&& relays is Some && (forall|i: int|
                0 <= i < relays->0.len() ==> !is_named(#[trigger] relays->0[i], "id"@, trimmed(id)))
                ==> r == Err::<JsonView, Seq<char>>("Provider not found"@)
            &&& r is Err && r->Err_0 != "Provider list is missing"@ && r->Err_0
                != "Provider not found"@ ==> r->Err_0 == "Model route not found"@
        }),
{
    if let Some(relays) = raw.items_field("relayProfiles"@) {
        lemma_position_by_text(relays, "id"@, trimmed(id), 0);
    }
}

/// The answer to a request tells of the first route of that model in the first relay of that id,
/// space aside.
pub proof fn answer_tells_of_the_requested_route(
    settings: RelaySettingsView,
    request: SetRelayModelRouteRequest,
    now: u64,
)
    requires
        set_route_status(settings, request, now) is Ok,
    ensures
        exists|p: int, q: int|
            is_requested_route(settings, request, p, q) && set_route_status(settings, request, now)
                == Ok::<super::routes::RouteStatusView, Seq<char>>(
                route_status(
                    settings.relay_profiles,
                    (#[trigger] settings.relay_profiles[p].model_routes[q]),
                    now,
                ),
            ),
{
    let id = trimmed(request.id@);
    let model = trimmed(request.model@);
    lemma_trimmed_relay(settings.relay_profiles, id, 0);
    let p = trimmed_relay_position(settings.relay_profiles, id, 0)->0;
    let routes = settings.relay_profiles[p].model_routes;
    lemma_trimmed_route(routes, model, 0);
    let q = trimmed_route_position(routes, model, 0)->0;
    assert(is_requested_route(settings, request, p, q));
    let route = settings.relay_profiles[p].model_routes[q];
}

pub open spec fn is_requested_route(
    settings: RelaySettingsView,
    request: SetRelayModelRouteRequest,
    p: int,
    q: int,
) -> bool {
    &&& 0 <= p < settings.relay_profiles.len()
    &&& trimmed(settings.relay_profiles[p].id) == trimmed(request.id@)
    &&& forall|i: int|
        0 <= i < p ==> trimmed((#[trigger] settings.relay_profiles[i]).id) != trimmed(request.id@)
    &&& 0 <= q < settings.relay_profiles[p].model_routes.len()
    &&& trimmed(settings.relay_profiles[p].model_routes[q].model) == trimmed(request.model@)
    &&& forall|j: int|
        0 <= j < q ==> trimmed((#[trigger] settings.relay_profiles[p].model_routes[j]).model)
            != trimmed(request.model@)
}

proof fn lemma_trimmed_relay(relays: Seq<RelayProfileView>, id: Seq<char>, from: int)
    requires
        0 <= from,
    ensures
        trimmed_relay_position(relays, id, from) matches Some(i) ==> from <= i < relays.len()
            && trimmed(relays[i].id) == id && forall|j: int|
            from <= j < i ==> trimmed((#[trigger] relays[j]).id) != id,
    decreases relays.len() - from,
{
    if from < relays.len() && trimmed(relays[from].id) != id {
        lemma_trimmed_relay(relays, id, from + 1);
    }
}

proof fn lemma_trimmed_route(routes: Seq<RelayModelRouteView>, model: Seq<char>, from: int)
    requires
        0 <= from,
    ensures
        trimmed_route_position(routes, model, from) matches Some(i) ==> from <= i < routes.len()
            && trimmed(routes[i].model) == model && forall|j: int|
            from <= j < i ==> trimmed((#[trigger] routes[j]).model) != model,
    decreases routes.len() - from,
{
    if from < routes.len() && trimmed(routes[from].model) != model {
        lemma_trimmed_route(routes, model, from + 1);
    }
}

/// A route that is kept stands as the first route of its model does among those that are stored, and
/// as it is where there is none; its target does not change.
pub proof fn kept_routes_stand_as_stored(
    route: RelayModelRouteView,
    current: Seq<RelayModelRouteView>,
    at: int,
)
    ensures
        ({
            let kept = kept_route(route, current);
            &&& kept.model == route.model && kept.target_relay_id == route.target_relay_id
                && kept.target_model == route.target_model
            &&& 0 <= at < current.len() && current[at].model == route.model && (forall|j: int|
                0 <= j < at ==> (#[trigger] current[j]).model != route.model) ==> kept.enabled
                == current[at].enabled && kept.restore_at == current[at].restore_at
            &&& (forall|j: int|
                0 <= j < current.len() ==> (#[trigger] current[j]).model != route.model) ==> kept
                == route
        }),
{
    lemma_route_position(current, route.model, 0);
}

proof fn lemma_route_position(routes: Seq<RelayModelRouteView>, model: Seq<char>, from: int)
    requires
        0 <= from,
    ensures
        match route_position(routes, model, from) {
            Some(i) => from <= i < routes.len() && routes[i].model == model && forall|j: int|
                from <= j < i ==> (#[trigger] routes[j]).model != model,
            None => forall|j: int| from <= j < routes.len() ==> (#[trigger] routes[j]).model
                != model,
        },
    decreases routes.len() - from,
{
    if from < routes.len() && routes[from].model != model {
        lemma_route_position(routes, model, from + 1);
    }
}

/// A relay that is kept changes nothing but how its routes stand.
pub proof fn kept_relays_change_their_routes_only(
    relay: RelayProfileView,
    current: Seq<RelayProfileView>,
)
    ensures
        kept_relay(relay, current) == (RelayProfileView {
            model_routes: kept_relay(relay, current).model_routes,
            ..relay
        }),
        kept_relay(relay, current).model_routes.len() == relay.model_routes.len(),
        (forall|j: int| 0 <= j < current.len() ==> (#[trigger] current[j]).id != relay.id)
            ==> kept_relay(relay, current) == relay,
{
    lemma_relay_position(current, relay.id);
}

} // verus!
