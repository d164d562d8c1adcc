//! Window cycling, live previews and hotkeys for several EVE Online clients
//! on one desktop.
//!
//! The crate holds every decision of the tool as verified functions on plain
//! values. The program around it talks to the desktop and performs what the
//! functions decide.

pub mod commands;
pub mod config;
pub mod config_panel;
pub mod cycle_state;
pub mod geometry;
pub mod keys;
pub mod name_map;
pub mod painting;
pub mod paths;
pub mod preview_windows;
pub mod text;
pub mod tray;
pub mod window_manager;
pub mod window_messages;
pub mod windows_manager;
