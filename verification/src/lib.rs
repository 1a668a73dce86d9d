//! Tracking of open pull requests: reconciliation of fetched records against
//! stored ones, CI status mapping, and the decision logic of the sync runs
//! and of the front ends.

pub mod cli_app;
pub mod db;
pub mod error;
pub mod github;
pub mod json;
pub mod models;
pub mod reconcile;
pub mod service;
pub mod sync;
pub mod teams;
pub mod text;
pub mod time;
pub mod tui_app;
