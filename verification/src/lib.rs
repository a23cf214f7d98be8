//! Reconciliation engine for long-running work items.

pub mod clock;
pub mod commands;
pub mod db;
pub mod discovery;
pub mod json;
pub mod local_server;
pub mod polling;
pub mod services;
pub mod string_map;
pub mod text;
pub mod tray;
pub mod updater;
