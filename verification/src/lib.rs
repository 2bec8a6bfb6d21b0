//! Herdr Recent Navigator: the model and logic of a recent workspaces, tabs,
//! panes and agents switcher for Herdr.
pub mod cli;
pub mod ipc;
pub mod models;
pub mod others;
pub mod text;

pub use vstd::hash_map::StringHashMap;
