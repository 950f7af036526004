//! The multi-tier cache: entries, the eviction order, the three tiers and
//! the manager that moves entries between them.

pub mod entry;
pub mod eviction;
pub mod fast_tier;
pub mod pass;
pub mod tier_store;
pub mod model;
pub mod manager;
pub mod laws;
