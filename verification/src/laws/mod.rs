//! What the operations are for, stated over their inputs and results.

pub mod adapters;
pub mod answers;
pub mod attention;
pub mod colours;
pub mod configuration;
pub mod dashboard;
pub mod details;
pub mod inventory;
pub mod keys;
pub mod listing;
pub mod naming;
pub mod opening;
pub mod operations;
pub mod probes;
pub mod refreshing;
pub mod screen;
pub mod search;
pub mod terminal;
pub mod turns;
