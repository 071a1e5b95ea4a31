//! Librenet: verified core logic of a peer-to-peer mesh network.

mod bytes;
pub mod garlic;
pub mod identity;
pub mod lns;
pub mod manifest;
pub mod mesh;
pub mod poc;
pub mod storage;
pub mod verification;

pub use garlic::{GarlicError, GarlicPacket};
pub use identity::{NodeType, PeerIdentity};
pub use manifest::{AppManifest, ComputeRequirements, StorageRequirements};
pub use poc::{FlowSide, InferenceTask, ThreeLaneBlock};
pub use storage::{Sharder, StorageScheme, SHARD_SIZE};
pub use verification::{verify_redundancy, BisectionGame, TeeAttestation};
