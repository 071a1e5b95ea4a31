use librenet::poc::netflow_side;
use librenet::{FlowSide, InferenceTask, NodeType, PeerIdentity, ThreeLaneBlock};

#[test]
fn test_node_type_assignment() {
    let ordinary = PeerIdentity::generate();
    assert_eq!(ordinary.node_type, NodeType::OrdinaryNode);

    let supernode = PeerIdentity::new_with_type(NodeType::Supernode);
    assert_eq!(supernode.node_type, NodeType::Supernode);
}

#[test]
fn test_three_lane_block_integrity() {
    let block = ThreeLaneBlock::new(
        1,
        [1u8; 32], // Data lane
        [2u8; 32], // Model lane
        [3u8; 32], // Proof lane
    );
    assert!(block.verify_integrity());

    let bad_block = ThreeLaneBlock::new(
        2,
        [0u8; 32], // Missing data lane
        [2u8; 32],
        [3u8; 32],
    );
    assert!(!bad_block.verify_integrity());
}

#[test]
fn three_lane_block_checks_every_lane() {
    let mut model = [0u8; 32];
    model[31] = 7;
    let partly_zero = ThreeLaneBlock::new(3, [9u8; 32], model, [0u8; 32]);
    assert!(!partly_zero.verify_integrity());
    let ok = ThreeLaneBlock::new(4, [9u8; 32], model, [1u8; 32]);
    assert!(ok.verify_integrity());
    assert_eq!(ok.block_height, 4);
}

#[test]
fn identities_are_distinct_and_seeded() {
    let a = PeerIdentity::generate();
    let b = PeerIdentity::generate();
    assert_ne!(a.to_seed(), b.to_seed());
    assert_eq!(a.to_seed(), a.signing_key.to_bytes());
    assert_eq!(a.verifying_key, a.signing_key.verifying_key());
}

#[test]
fn only_signed_inferences_earn_credit() {
    let signed = InferenceTask {
        model_hash: "model123".to_string(),
        input_hash: "input123".to_string(),
        output_hash: "output123".to_string(),
        signature: vec![1, 2, 3],
    };
    assert!(signed.earns_credit());
    let unsigned = InferenceTask { signature: vec![], ..signed.clone() };
    assert!(!unsigned.earns_credit());
}

#[test]
fn netflow_counts_only_trusted_counterparties() {
    let trusted = vec!["supernode_1".to_string(), "supernode_2".to_string()];
    let s = |x: &str| x.to_string();
    assert_eq!(netflow_side(&s("supernode_1"), &s("peer_a"), "peer_a", &trusted), FlowSide::FromTrusted);
    assert_eq!(netflow_side(&s("peer_a"), &s("supernode_2"), "peer_a", &trusted), FlowSide::ToTrusted);
    // A Sybil cluster trading among itself adds nothing.
    assert_eq!(netflow_side(&s("peer_a"), &s("sybil_node"), "peer_a", &trusted), FlowSide::Unrelated);
    assert_eq!(netflow_side(&s("sybil_node"), &s("peer_a"), "peer_a", &trusted), FlowSide::Unrelated);
    // Transactions of other nodes are not the target's.
    assert_eq!(netflow_side(&s("supernode_1"), &s("peer_b"), "peer_a", &trusted), FlowSide::Unrelated);
    assert_eq!(netflow_side(&s("supernode_1"), &s("peer_a"), "peer_a", &[]), FlowSide::Unrelated);
}

#[test]
fn inference_tasks_compare_all_fields() {
    let task = InferenceTask {
        model_hash: "model123".to_string(),
        input_hash: "input123".to_string(),
        output_hash: "output123".to_string(),
        signature: vec![1, 2, 3],
    };
    assert_eq!(task.clone(), task);
    assert_ne!(InferenceTask { signature: vec![1, 2, 4], ..task.clone() }, task);
    assert_ne!(InferenceTask { output_hash: "other".to_string(), ..task.clone() }, task);
}

#[test]
fn identities_from_a_seed_are_reproducible() {
    let seed = [42u8; 32];
    let a = PeerIdentity::from_seed(seed, NodeType::Supernode);
    let b = PeerIdentity::from_seed(seed, NodeType::Supernode);
    assert_eq!(a.node_type, NodeType::Supernode);
    assert_eq!(a.to_seed(), seed);
    assert_eq!(a.verifying_key, b.verifying_key);
    assert_eq!(a.verifying_key, a.signing_key.verifying_key());
    let other = PeerIdentity::from_seed([43u8; 32], NodeType::OrdinaryNode);
    assert_ne!(other.verifying_key, a.verifying_key);
}
