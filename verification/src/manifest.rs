//! The application manifest: what an app asks of the swarm.

use vstd::prelude::*;

verus! {

#[derive(Debug, Clone)]
pub struct AppManifest {
    pub name: String,
    pub version: String,
    pub compute: ComputeRequirements,
    pub storage: StorageRequirements,
}

#[derive(Debug, Clone)]
pub struct ComputeRequirements {
    pub wasm_cid: String,
    /// How many independent peers verify each task.
    pub redundancy: usize,
    pub needs_gpu: bool,
}

#[derive(Debug, Clone)]
pub struct StorageRequirements {
    pub total_size_mb: usize,
    pub shards: usize,
}

} // verus!
