//! What the operations promise their users, in terms of their inputs and results.

pub mod access;
pub mod bindings;
pub mod board;
pub mod commands;
pub mod devices;
pub mod dks;
pub mod feed;
pub mod frames;
pub mod keys;
pub mod lights;
pub mod loading;
pub mod macros;
pub mod results;
pub mod rows;
pub mod settings;
pub mod text;
pub mod triggers;
pub mod tui;
pub mod values;
