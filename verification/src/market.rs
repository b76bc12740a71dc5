//! Plugin-market types: where a market lives and how its catalog is
//! organised. Fetching from a market is the caller's work.

use vstd::prelude::*;

verus! {

/// One plugin market source.
pub struct MarketConfig {
    pub source_url: String,
    pub name: String,
    pub description: String,
    pub official: bool,
    pub enabled: bool,
}

/// One category of a market's catalog.
pub struct PluginCategory {
    pub id: String,
    pub name: String,
    pub description: String,
    pub plugin_count: u64,
}

} // verus!
