//! Verified core of the Minal terminal: pane layout trees and tabs, key
//! handling and the text input of the AI panels, plugin hooks, manifests
//! and the WASM string protocol, cell colours, and the small text formats
//! of the chat, agent and error panels.

pub mod text;
pub mod macos;
pub mod pane;
pub mod tab;
pub mod event;
pub mod plugin_error;
pub mod manifest;
pub mod manager;
pub mod chat_panel;
pub mod chat;
pub mod mouse;
pub mod agent_panel;
pub mod error_panel;
pub mod mcp_panel;
pub mod renderer;
pub mod menu;
pub mod input;
pub mod keys;
pub mod agent;
pub mod shell;
pub mod runtime;
pub mod routing;
pub mod clipboard;
pub mod color;
