//! Configuration logic for Hall-effect keyboards of the RY5088 family: wire formats,
//! key maps, device profiles, trigger settings, and the decisions behind the command
//! line and the terminal interface.

pub mod bindings;
pub mod bits;
pub mod commands;
pub mod connect;
pub mod depth;
pub mod device_db;
pub mod error;
pub mod exchange;
pub mod key_action;
pub mod key_ref;
pub mod keyboard;
pub mod keymap;
pub mod laws;
pub mod led;
pub mod lights;
pub mod macros;
pub mod magnetism;
pub mod patches;
pub mod protocol;
pub mod registry;
pub mod select;
pub mod settings;
pub mod spinner;
pub mod text;
pub mod triggers;
pub mod tui_flow;
pub mod tui_input;
pub mod tui_state;
pub mod tui_view;
