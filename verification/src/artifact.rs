//! Stored artifacts, retention settings and what a prune reports.
use vstd::prelude::*;
use crate::ids::ResourceId;
use crate::strmap::StrMap;
use crate::time::{Duration, Timestamp};

verus! {

/// Policy for artifact retention.
#[derive(Debug, Clone)]
pub struct RetentionPolicy {
    /// Maximum age of artifacts to keep.
    pub max_age: Option<Duration>,
    /// Maximum total size per pipeline.
    pub max_size_bytes: Option<u64>,
    /// Minimum number of runs to keep artifacts for.
    pub min_runs: Option<u32>,
}

/// Statistics from a prune operation.
#[derive(Debug, Clone, Copy)]
pub struct PruneStats {
    pub artifacts_deleted: u64,
    pub bytes_freed: u64,
}

/// Where an artifact is stored: its run, stage and name.
#[derive(Debug, Clone)]
pub struct ArtifactKey {
    pub run_id: ResourceId,
    pub stage: String,
    pub name: String,
}

/// A stored artifact.
#[derive(Debug, Clone)]
pub struct ArtifactRef {
    pub key: ArtifactKey,
    /// Location in the storage backend.
    pub location: String,
    /// Content hash, for integrity.
    pub checksum: String,
    pub size: u64,
    pub created_at: Timestamp,
}

/// What is known of a stored artifact.
#[derive(Debug)]
pub struct ArtifactManifest {
    pub reference: ArtifactRef,
    pub content_type: Option<String>,
    pub metadata: StrMap,
}

} // verus!
