//! Which member of an aggregate serves a request.

pub mod histories;
pub mod laws;
pub mod requests;
pub mod selector;
pub mod service_laws;

pub use requests::{
    fallback_relays_after_at, priority_fallback_cooldown_status_at, record_relay_request_event,
    record_relay_request_failure, record_relay_request_outcome_at,
    reset_all_priority_fallback_cooldowns, reset_priority_fallback_cooldowns,
    select_relay_for_probe, select_relay_for_request,
};
pub use selector::{
    RelayCooldownMemberStatus, RelayCooldownStatus, RelayRequestOutcome, RelayRotationSelector,
    RotationContext, RotationEvent, SelectionError, PRIORITY_FALLBACK_FAILURE_THRESHOLD,
};
