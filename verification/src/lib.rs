//! Monitoring logic of a menu-bar latency monitor.
use vstd::prelude::*;

pub mod text;
pub mod types;
pub mod history;
pub mod network;
pub mod sessions;
pub mod restore;
pub mod stats;
pub mod settings;
pub mod sites;
pub mod tray;
pub mod service;
pub mod state;
pub mod laws;
