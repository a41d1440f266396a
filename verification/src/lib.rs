//! Rules of the Codex++ relay manager.

pub mod address_laws;
pub mod control;
pub mod custom_tool_adapter;
pub mod frame_laws;
pub mod json;
pub mod native_agent_laws;
pub mod native_agents;
pub mod protocol_proxy;
pub mod relay_rotation;
pub mod settings;
pub mod sse;
pub mod str_map;
pub mod text;
pub mod text_laws;
pub mod time;
pub mod toml;
