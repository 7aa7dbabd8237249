//! Widgets of a terminal status bar: each one turns the multiplexer's
//! state and the user's configuration into styled text.
pub mod config;
pub mod text;
pub mod render;
pub mod widgets;
