use librenet::{verify_redundancy, BisectionGame, TeeAttestation};

#[test]
fn test_tee_attestation() {
    let valid = TeeAttestation {
        signature: vec![1, 2, 3],
        public_key: vec![4, 5, 6],
        result_hash: [0u8; 32],
    };
    assert!(valid.verify());

    let invalid = TeeAttestation {
        signature: vec![],
        public_key: vec![4, 5, 6],
        result_hash: [0u8; 32],
    };
    assert!(!invalid.verify());
}

#[test]
fn tee_attestation_needs_public_key() {
    let no_key = TeeAttestation { signature: vec![1], public_key: vec![], result_hash: [5u8; 32] };
    assert!(!no_key.verify());
}

#[test]
fn test_bisection_game_no_dispute() {
    let solver_states = vec![
        "state_0".to_string(),
        "state_1".to_string(),
        "state_2".to_string(),
    ];
    let game = BisectionGame::new(solver_states);
    let point = game.find_dispute_point(|step| format!("state_{}", step));
    assert_eq!(point, None);
}

#[test]
fn test_bisection_game_dispute() {
    let solver_states = vec![
        "state_0".to_string(),
        "state_1".to_string(),
        "state_2_solver_error".to_string(),
    ];
    let game = BisectionGame::new(solver_states);
    let point = game.find_dispute_point(|step| format!("state_{}", step));
    // Disagree on step 2
    assert_eq!(point, Some(2));
}

#[test]
fn test_bisection_game_early_dispute() {
    let solver_states = vec![
        "state_0".to_string(),
        "state_1_wrong".to_string(),
        "state_2_wrong".to_string(),
    ];
    let game = BisectionGame::new(solver_states);
    let point = game.find_dispute_point(|step| format!("state_{}", step));
    // First disagreement is at step 1
    assert_eq!(point, Some(1));
}

#[test]
fn bisection_game_edge_cases() {
    let empty = BisectionGame::new(vec![]);
    assert_eq!(empty.num_steps, 0);
    assert_eq!(empty.find_dispute_point(|step| format!("state_{}", step)), None);

    let wrong_from_start: Vec<String> = (0..9).map(|i| format!("bad_{}", i)).collect();
    let game = BisectionGame::new(wrong_from_start);
    assert_eq!(game.find_dispute_point(|step| format!("state_{}", step)), Some(0));

    // Divergence at step 6 of 100, persisting to the end.
    let states: Vec<String> = (0..100)
        .map(|i| if i < 6 { format!("state_{}", i) } else { format!("forked_{}", i) })
        .collect();
    let game = BisectionGame::new(states);
    assert_eq!(game.num_steps, 100);
    assert_eq!(game.find_dispute_point(|step| format!("state_{}", step)), Some(6));
}

#[test]
fn test_redundancy_verification() {
    let results = vec![vec![1, 2], vec![1, 2]];
    assert!(verify_redundancy(&results, 2));

    let mixed = vec![vec![1, 2], vec![1, 3]];
    assert!(!verify_redundancy(&mixed, 2));

    let empty: Vec<Vec<u8>> = vec![];
    assert!(!verify_redundancy(&empty, 1));
}

#[test]
fn redundancy_counts_and_compares_all() {
    let three = vec![vec![7u8], vec![7u8], vec![7u8]];
    assert!(!verify_redundancy(&three, 4));
    assert!(verify_redundancy(&three, 3));
    assert!(verify_redundancy(&three, 0));
    let last_differs = vec![vec![7u8], vec![7u8], vec![7u8, 0]];
    assert!(verify_redundancy(&last_differs, 2));
    assert!(!verify_redundancy(&last_differs, 3));
}

#[test]
fn redundancy_counts_the_largest_matching_group() {
    let two_and_odd = vec![vec![1u8, 2], vec![1u8, 2], vec![9u8]];
    assert!(verify_redundancy(&two_and_odd, 2));
    assert!(!verify_redundancy(&two_and_odd, 3));
    // The matching group need not contain the first result.
    let odd_first = vec![vec![9u8], vec![1u8, 2], vec![1u8, 2]];
    assert!(verify_redundancy(&odd_first, 2));
    let empty: Vec<Vec<u8>> = vec![];
    assert!(verify_redundancy(&empty, 0));
    assert!(verify_redundancy(&[vec![5u8]], 1));
}

#[test]
fn bisection_finds_the_first_disagreement_when_divergence_heals() {
    // A divergence that heals and reappears: the answer is still the
    // first step of disagreement.
    let states = vec![
        "state_0_wrong".to_string(),
        "state_1".to_string(),
        "state_2".to_string(),
        "state_3_wrong".to_string(),
    ];
    let game = BisectionGame::new(states);
    assert_eq!(game.find_dispute_point(|step| format!("state_{}", step)), Some(0));

    // Disagreement only in the middle, agreement on the final state.
    let states = vec!["state_0".to_string(), "state_1_wrong".to_string(), "state_2".to_string()];
    let game = BisectionGame::new(states);
    assert_eq!(game.find_dispute_point(|step| format!("state_{}", step)), Some(1));
}
