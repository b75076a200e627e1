//! The memory engine: the store, the vector index, the recall cache and their settings.

use vstd::prelude::*;

use crate::cache::RecallCache;
use crate::index::VectorIndex;
use crate::store::MemoryStore;

verus! {

/// How many days of inactivity separate the hot, warm and cold tiers.
#[derive(Debug, Clone, Copy)]
pub struct TierConfig {
    pub hot_days: u32,
    pub warm_days: u32,
}

/// The limits of aging cleanup and of the lifecycle cycle. The deprecation cap is a
/// share of the memories in hundredths of a percent (100 is 1%).
#[derive(Debug, Clone, Copy)]
pub struct LifecycleConfig {
    pub soft_delete_only: bool,
    pub max_deprecate_basis_points: u32,
    pub min_deprecate_per_cycle: usize,
    pub max_deprecate_per_cycle: usize,
    pub min_age_days: u32,
    pub max_access_count: u32,
    pub auto_prune_enabled: bool,
    pub deprecated_ttl_days: u32,
}

/// The memory engine.
pub struct Uteke {
    pub store: MemoryStore,
    pub index: VectorIndex,
    pub recall_cache: RecallCache,
    pub tier_config: TierConfig,
    pub lifecycle_config: LifecycleConfig,
}

impl Uteke {
    /// The store and the index are well formed.
    pub open spec fn wf(&self) -> bool {
        self.store@.wf() && self.index@.wf()
    }

    /// An engine with an empty store, index and cache.
    pub fn new(tier_config: TierConfig, lifecycle_config: LifecycleConfig) -> (r: Uteke)
        ensures
            r.wf(),
            r.store@.memories.len() == 0,
            r.store@.chunks.len() == 0,
            r.index@.entries.len() == 0,
            !r.index@.dirty,
            r.recall_cache@.entries.len() == 0,
            r.tier_config == tier_config,
            r.lifecycle_config == lifecycle_config,
    {
        Uteke {
            store: MemoryStore::new(),
            index: VectorIndex::new(),
            recall_cache: RecallCache::new(),
            tier_config,
            lifecycle_config,
        }
    }
}

} // verus!
