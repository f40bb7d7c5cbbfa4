//! Decisions and text handling of a drop-down terminal launcher for sway/i3.

pub mod cli;
pub mod config;
pub mod error;
pub mod expand;
pub mod history;
pub mod ipc;
pub mod menu;
pub mod session;
pub mod strmap;
pub mod terminal;
pub mod text;
