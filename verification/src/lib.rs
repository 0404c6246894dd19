//! Verified core of a manager for Paper Minecraft servers.

pub mod paper;
pub mod text;
pub mod tmux;
pub mod watcher;
pub mod notifier;
pub mod error;
pub mod context;
pub mod paths;
pub mod package;
pub mod varint;
pub mod commands;
pub mod plugins;
pub mod manifest;
pub mod modrinth;
