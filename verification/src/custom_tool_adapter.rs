//! Custom tools sent upstream as functions with one `input` text, and back.
//!
//! A request candidate holds a plan of its own: which wire names were wrapped, and what the client
//! called them. A response is converted only where it names a tool of the plan.

pub mod decode;
pub mod decode_laws;
pub mod encode;
pub mod laws;
pub mod namespaces;
pub mod plan;
pub mod request_laws;
pub mod response_laws;
pub mod restore;
pub mod rewriter;
pub mod stream_laws;

pub use decode::{decode_wrapped_arguments, wrap_arguments};
pub use encode::{encode_request, has_unsupported_state_reference};
pub use namespaces::{chat_plan_for_namespace_customs, flatten_namespace_tool_name};
pub use plan::{AdapterError, AdapterErrorCode, ClientToolIdentity, CustomToolAdapterPlan};
pub use restore::restore_custom_tool_calls_json;
pub use rewriter::{
    CustomToolSseRewriter, MAX_ARGUMENTS_BYTES, MAX_PENDING_CALLS, MAX_TOTAL_BUFFERED_BYTES,
};
