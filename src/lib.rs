//! Session and adapter core for driving coding-assistant command-line tools from one chat
//! interface: tool profiles that turn each tool's streaming output into one event vocabulary,
//! the per-workspace thread store, the adapter session's request surface and turn lifecycle,
//! the native RPC transport's line handling, the compatible mode, and config file editing.
use vstd::prelude::*;

pub mod adapter;
pub mod command;
pub mod compat;
pub mod config;
pub mod decimal;
pub mod event;
pub mod gemini_settings;
pub mod json;
pub mod profile;
pub mod settings;
pub mod rpc;
pub mod text;
pub mod thread_store;
pub mod workspace;

verus! {

} // verus!
