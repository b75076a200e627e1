//! What the maintenance operations report.

use vstd::prelude::*;

verus! {

/// How the stored memories compare with the vector index.
#[derive(Debug)]
pub struct VerifyReport {
    pub db_count: usize,
    pub index_count: usize,
    pub consistent: bool,
}

/// The counts before and after the vector index was rebuilt.
#[derive(Debug)]
pub struct RepairReport {
    pub db_count: usize,
    pub index_before: usize,
    pub index_after: usize,
}

/// What re-embedding the memories without a vector did.
#[derive(Debug)]
pub struct ReembedReport {
    pub total_scanned: usize,
    pub missing_count: usize,
    pub reembedded: usize,
    pub failed: usize,
}

/// Statistics of a namespace (or of the whole store).
#[derive(Debug)]
pub struct StoreStats {
    pub total_memories: usize,
    pub unique_tags: usize,
    pub db_size_bytes: u64,
    pub hot: usize,
    pub warm: usize,
    pub cold: usize,
    pub cache_hits: u64,
    pub cache_misses: u64,
}

/// The memories of a namespace by access tier.
#[derive(Debug)]
pub struct AgingStatus {
    pub total: usize,
    pub hot: usize,
    pub warm: usize,
    pub cold: usize,
    pub never_accessed: usize,
}

/// How many aged memories a cleanup deprecated or deleted.
#[derive(Debug)]
pub struct CleanupResult {
    pub deleted: usize,
}

/// What a prune deleted, and which deprecated memories were past their time to live.
#[derive(Debug)]
pub struct PruneResult {
    pub pruned: usize,
    pub ids: Vec<String>,
    pub deprecated: usize,
    pub deprecated_ids: Vec<String>,
}

/// What one lifecycle cycle deprecated and pruned.
#[derive(Debug)]
pub struct LifecycleCycleResult {
    pub total_active: usize,
    pub candidates: usize,
    pub cap: usize,
    pub deprecated: usize,
    pub deprecated_ids: Vec<String>,
    pub pruned: usize,
    pub pruned_ids: Vec<String>,
}

/// How many import entries were stored and how many were skipped.
#[derive(Debug)]
pub struct ImportResult {
    pub imported: usize,
    pub skipped: usize,
}

/// The outcome of one health check.
#[derive(Debug, Clone, Copy, PartialEq, Eq)]
pub enum DoctorStatus {
    Pass,
    Fail,
}

/// One health check: its name, outcome and detail.
#[derive(Debug)]
pub struct DoctorCheck {
    pub name: String,
    pub status: DoctorStatus,
    pub detail: String,
}

/// The health checks, in the order they ran.
#[derive(Debug)]
pub struct DoctorReport {
    pub checks: Vec<DoctorCheck>,
}

} // verus!
