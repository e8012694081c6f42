//! Verified core of a tmux session helper and coder transcript exporter.
pub mod text;
pub mod json;
pub mod exporter;
pub mod sessions;
pub mod patterns;
pub mod panes;
pub mod layout;
pub mod app;
pub mod cli;
