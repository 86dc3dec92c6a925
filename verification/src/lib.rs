//! The core of a script-driven terminal dashboard: frame buffers and the
//! patches between them, the grid layout, the widget store and the script
//! host's bookkeeping.
pub mod actions;
pub mod ansi;
pub mod app;
pub mod command;
pub mod frame;
pub mod layout;
pub mod mirror;
pub mod modules;
pub mod patch;
pub mod payload;
pub mod terminal;
pub mod text;
pub mod todo;
pub mod widgets;
