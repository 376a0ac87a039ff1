//! Ridgeline: the logic of a cross-tenant pull request monitor for Azure DevOps.
//!
//! Everything here is plain data and decisions: the configuration model, the
//! mapping of Azure DevOps responses onto the provider-neutral model, change
//! detection for notifications, poll bookkeeping, filters, and the state
//! machines behind the terminal dashboard. Network, disk and rendering live
//! in the program around the library.

pub mod text;
pub mod time;
pub mod model;
pub mod keymap;
pub mod config;
pub mod tracker;
pub mod ado;
pub mod client;
pub mod fetch;
pub mod provider;
pub mod polling;
pub mod mcp;
pub mod dashboard;
pub mod keys;
pub mod theme;
pub mod navigation;
pub mod views;
pub mod setup;
pub mod startup;
