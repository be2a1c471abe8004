//! Session inventory, reconciliation and selection logic for a terminal picker of
//! coding-agent sessions, with machine-checked contracts.

pub mod agents;
pub mod app_server;
pub mod cli;
pub mod codex;
pub mod codex_runtime;
pub mod domain;
pub mod hosts;
pub mod json;
pub mod keyed;
pub mod laws;
pub mod native;
pub mod notify;
pub mod omp;
pub mod order;
pub mod paths;
pub mod picker;
pub mod probe;
pub mod quoting;
pub mod recency;
pub mod reconnect;
pub mod store;
pub mod style;
pub mod table;
pub mod text;
pub mod theme;
pub mod tmux;
