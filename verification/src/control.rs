//! The rules behind the management commands.

pub mod arguments;
pub mod change_laws;
pub mod changes;
pub mod command_laws;
pub mod commands;
pub mod connection;
pub mod patch;
pub mod requests;
pub mod validate;
