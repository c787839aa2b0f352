//! A terminal multiplexer for SSH sessions with built-in file browsers.

pub mod app;
pub mod binding_laws;
pub mod browser;
pub mod color_backend;
pub mod connect;
pub mod event;
pub mod geometry;
pub mod input;
pub mod key_table_laws;
pub mod keybindings;
pub mod leaves;
pub mod list_state;
pub mod pane;
pub mod pane_laws;
pub mod pty;
pub mod ssh_config;
pub mod style;
pub mod tab;
pub mod terminal;
pub mod text;
pub mod text_laws;
pub mod view;
