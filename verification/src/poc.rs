//! Proof-of-Contribution: inference tasks, three-lane blocks and the
//! trust filter of the pairwise ledger's NetFlow reputation.

use vstd::prelude::*;
use crate::bytes::bytes_equal;

verus! {

/// A verified inference run: model, input and output hashes and the
/// executor's signature.
#[derive(Debug, Clone)]
pub struct InferenceTask {
    pub model_hash: String,
    pub input_hash: String,
    pub output_hash: String,
    pub signature: Vec<u8>,
}

impl PartialEq for InferenceTask {
    fn eq(&self, other: &Self) -> (same: bool) {
        self.model_hash == other.model_hash && self.input_hash == other.input_hash
            && self.output_hash == other.output_hash && bytes_equal(&self.signature, &other.signature)
    }
}

impl vstd::std_specs::cmp::PartialEqSpecImpl for InferenceTask {
    open spec fn obeys_eq_spec() -> bool {
        true
    }

    open spec fn eq_spec(&self, other: &Self) -> bool {
        &&& self.model_hash@ == other.model_hash@
        &&& self.input_hash@ == other.input_hash@
        &&& self.output_hash@ == other.output_hash@
        &&& self.signature@ == other.signature@
    }
}

impl Eq for InferenceTask {}

impl InferenceTask {
    /// Only signed inferences earn contribution credit.
    pub fn earns_credit(&self) -> (earns: bool)
        ensures
            earns == (self.signature@.len() > 0),
    {
        !self.signature.is_empty()
    }
}

/// A block with separate data, model and proof lanes.
#[derive(Debug, Clone)]
pub struct ThreeLaneBlock {
    pub block_height: u64,
    /// Cryptographic hash of datasets and audit trails
    pub data_lane_root: [u8; 32],
    /// Hash of model weights and version metadata
    pub model_lane_root: [u8; 32],
    /// Hash of input/output hashes, verification scores, signatures
    pub proof_lane_root: [u8; 32],
}

/// Every byte of the root is zero.
pub open spec fn is_zero_root(root: Seq<u8>) -> bool {
    forall|i: int| 0 <= i < root.len() ==> #[trigger] root[i] == 0
}

fn zero_root(root: &[u8; 32]) -> (zero: bool)
    ensures
        zero == is_zero_root(root@),
{
    let mut i: usize = 0;
    while i < 32
        invariant
            i <= 32,
            root@.len() == 32,
            forall|k: int| 0 <= k < i ==> #[trigger] root@[k] == 0,
        decreases 32 - i,
    {
        if root[i] != 0 {
            return false;
        }
        i = i + 1;
    }
    true
}

impl ThreeLaneBlock {
    pub fn new(height: u64, data: [u8; 32], model: [u8; 32], proof: [u8; 32]) -> (block: Self)
        ensures
            block.block_height == height,
            block.data_lane_root == data,
            block.model_lane_root == model,
            block.proof_lane_root == proof,
    {
        ThreeLaneBlock {
            block_height: height,
            data_lane_root: data,
            model_lane_root: model,
            proof_lane_root: proof,
        }
    }

    /// All three lanes are committed to: no lane root is all zeros.
    pub open spec fn has_integrity(&self) -> bool {
        &&& !is_zero_root(self.data_lane_root@)
        &&& !is_zero_root(self.model_lane_root@)
        &&& !is_zero_root(self.proof_lane_root@)
    }

    /// A block has integrity exactly when each of its three lane roots has
    /// a non-zero byte; a single all-zero lane breaks it.
    pub proof fn lemma_integrity_needs_every_lane(&self)
        ensures
            self.has_integrity() <==> {
                &&& exists|i: int| 0 <= i < 32 && self.data_lane_root@[i] != 0
                &&& exists|i: int| 0 <= i < 32 && self.model_lane_root@[i] != 0
                &&& exists|i: int| 0 <= i < 32 && self.proof_lane_root@[i] != 0
            },
            self.data_lane_root@ == Seq::new(32, |i: int| 0u8) ==> !self.has_integrity(),
            self.model_lane_root@ == Seq::new(32, |i: int| 0u8) ==> !self.has_integrity(),
            self.proof_lane_root@ == Seq::new(32, |i: int| 0u8) ==> !self.has_integrity(),
    {
        assert(self.data_lane_root@.len() == 32);
        assert(self.model_lane_root@.len() == 32);
        assert(self.proof_lane_root@.len() == 32);
    }

    pub fn verify_integrity(&self) -> (ok: bool)
        ensures
            ok == self.has_integrity(),
            ok == ((exists|i: int| 0 <= i < 32 && self.data_lane_root@[i] != 0)
                && (exists|i: int| 0 <= i < 32 && self.model_lane_root@[i] != 0)
                && (exists|i: int| 0 <= i < 32 && self.proof_lane_root@[i] != 0)),
    {
        !zero_root(&self.data_lane_root) && !zero_root(&self.model_lane_root) && !zero_root(&self.proof_lane_root)
    }
}

/// How a ledger transaction enters the NetFlow of a target node.
#[derive(Debug, Clone, Copy, PartialEq, Eq, Structural)]
pub enum FlowSide {
    /// A trusted entry point is party A and the target is party B.
    FromTrusted,
    /// The target is party A and a trusted entry point is party B.
    ToTrusted,
    /// The transaction does not join the target to a trusted entry point.
    Unrelated,
}

/// `name` is one of the trusted entry points.
pub open spec fn is_trusted_entry(trusted: Seq<String>, name: Seq<char>) -> bool {
    exists|i: int| 0 <= i < trusted.len() && #[trigger] trusted[i]@ == name
}

/// The side of a transaction between `party_a` and `party_b` with respect to `target`.
pub open spec fn flow_side_spec(party_a: Seq<char>, party_b: Seq<char>, target: Seq<char>, trusted: Seq<String>) -> FlowSide {
    if party_b == target && is_trusted_entry(trusted, party_a) {
        FlowSide::FromTrusted
    } else if party_a == target && is_trusted_entry(trusted, party_b) {
        FlowSide::ToTrusted
    } else {
        FlowSide::Unrelated
    }
}

/// How a transaction counts, in terms of plain membership: it comes from
/// the trusted side when the target receives from any trusted entry point,
/// goes to the trusted side when the target pays any trusted entry point
/// other than itself, and counts only in those two cases.
pub proof fn lemma_flow_side_by_membership(party_a: Seq<char>, party_b: Seq<char>, target: Seq<char>, trusted: Seq<String>)
    ensures
        forall|i: int| 0 <= i < trusted.len() && party_b == target && #[trigger] trusted[i]@ == party_a
            ==> flow_side_spec(party_a, party_b, target, trusted) == FlowSide::FromTrusted,
        forall|i: int| 0 <= i < trusted.len() && party_a == target && party_b != target && #[trigger] trusted[i]@ == party_b
            ==> flow_side_spec(party_a, party_b, target, trusted) == FlowSide::ToTrusted,
        flow_side_spec(party_a, party_b, target, trusted) == FlowSide::FromTrusted ==> party_b == target
            && exists|i: int| 0 <= i < trusted.len() && #[trigger] trusted[i]@ == party_a,
        flow_side_spec(party_a, party_b, target, trusted) == FlowSide::ToTrusted ==> party_a == target
            && exists|i: int| 0 <= i < trusted.len() && #[trigger] trusted[i]@ == party_b,
{
}

fn contains_name(trusted: &[String], name: &String) -> (found: bool)
    ensures
        found == is_trusted_entry(trusted@, name@),
{
    let mut i: usize = 0;
    while i < trusted.len()
        invariant
            i <= trusted@.len(),
            forall|k: int| 0 <= k < i ==> #[trigger] trusted@[k]@ != name@,
        decreases trusted@.len() - i,
    {
        if trusted[i] == *name {
            assert(trusted@[i as int]@ == name@);
            return true;
        }
        i = i + 1;
    }
    false
}

/// Classifies a transaction for the NetFlow of `target` relative to the
/// trusted entry points. Only transactions that join the target to a
/// trusted entry point count; a Sybil cluster that trades only among
/// itself is `Unrelated` and adds nothing.
pub fn netflow_side(party_a: &String, party_b: &String, target: &str, trusted_entry_points: &[String]) -> (side: FlowSide)
    ensures
        side == flow_side_spec(party_a@, party_b@, target@, trusted_entry_points@),
        side != FlowSide::Unrelated ==> is_trusted_entry(trusted_entry_points@, party_a@)
            || is_trusted_entry(trusted_entry_points@, party_b@),
        forall|i: int| 0 <= i < trusted_entry_points@.len() && party_b@ == target@
            && #[trigger] trusted_entry_points@[i]@ == party_a@ ==> side == FlowSide::FromTrusted,
        forall|i: int| 0 <= i < trusted_entry_points@.len() && party_a@ == target@ && party_b@ != target@
            && #[trigger] trusted_entry_points@[i]@ == party_b@ ==> side == FlowSide::ToTrusted,
        side == FlowSide::FromTrusted ==> party_b@ == target@
            && exists|i: int| 0 <= i < trusted_entry_points@.len() && #[trigger] trusted_entry_points@[i]@ == party_a@,
        side == FlowSide::ToTrusted ==> party_a@ == target@
            && exists|i: int| 0 <= i < trusted_entry_points@.len() && #[trigger] trusted_entry_points@[i]@ == party_b@,
{
    proof {
        lemma_flow_side_by_membership(party_a@, party_b@, target@, trusted_entry_points@);
    }
    let target_name = target.to_owned();
    if *party_b == target_name && contains_name(trusted_entry_points, party_a) {
        FlowSide::FromTrusted
    } else if *party_a == target_name && contains_name(trusted_entry_points, party_b) {
        FlowSide::ToTrusted
    } else {
        FlowSide::Unrelated
    }
}

} // verus!
