//! Decision engine for desktop notifications raised by coding-assistant hooks.
use vstd::prelude::*;

pub mod analyzer;
pub mod assoc;
pub mod config;
pub mod decision;
pub mod dedup;
pub mod dispatch;
pub mod error;
pub mod hook;
pub mod json;
pub mod layer;
pub mod listing;
pub mod plan;
pub mod platform;
pub mod priority;
pub mod state;
pub mod suppression;
pub mod summary;
pub mod text;
pub mod types;
pub mod webhook;
pub mod yaml;

verus! {
} // verus!
