//! Estimates the API-equivalent value of local Codex usage and compares it with
//! a monthly plan.  This crate holds the verified core: billing-cycle calendar
//! arithmetic, timestamp parsing, token accounting, pricing, settings
//! validation and the small layout rules of the tray popup.

pub mod calendar;
pub mod timestamp;
pub mod text;
pub mod usage;
pub mod pricing;
pub mod json;
pub mod session;
pub mod scan;
pub mod config;
pub mod display;
pub mod order;
pub mod files;
pub mod tray;
pub mod snapshot;
