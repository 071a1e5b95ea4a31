use librenet::{Sharder, StorageScheme, SHARD_SIZE};

#[test]
fn test_replication_sharding() {
    let sharder = Sharder::new(2, 2, StorageScheme::Replication);
    let data = b"hello world";
    let shards = sharder.shard(data);
    assert_eq!(shards.len(), 4);
    for s in shards {
        assert_eq!(s, data.to_vec());
    }
}

#[test]
fn test_reed_solomon_sharding() {
    let sharder = Sharder::new(2, 2, StorageScheme::ReedSolomon);
    let data = vec![0x41u8; 100];
    let shards = sharder.shard(&data);
    assert_eq!(shards.len(), 4);
    assert_eq!(shards[0].len(), SHARD_SIZE);
    assert_eq!(shards[1].len(), SHARD_SIZE);
    assert_eq!(shards[2].len(), SHARD_SIZE);
    assert_eq!(shards[3].len(), SHARD_SIZE);
}

#[test]
fn reed_solomon_shards_hold_padded_data_and_parity() {
    let sharder = Sharder::new(2, 1, StorageScheme::MSR);
    let mut data = vec![0u8; SHARD_SIZE + 10];
    data[0] = 0x11;
    data[SHARD_SIZE] = 0x22;
    data[SHARD_SIZE + 9] = 0x33;
    let shards = sharder.shard(&data);
    assert_eq!(shards.len(), 3);
    assert_eq!(shards[0][..], data[..SHARD_SIZE]);
    assert_eq!(shards[1][..10], data[SHARD_SIZE..]);
    assert!(shards[1][10..].iter().all(|b| *b == 0));
    // With one parity shard the Reed-Solomon parity differs from a copy of the data.
    assert_eq!(shards[2].len(), SHARD_SIZE);
    assert_ne!(shards[2], shards[0]);
    assert_ne!(shards[2], shards[1]);
}

#[test]
fn test_lazy_recovery_repair_triggers() {
    let sharder = Sharder::new(2, 2, StorageScheme::ReedSolomon);

    // 1. Critical failure
    let critical = sharder.should_trigger_repair(10, 300, 1, 2);
    assert!(critical);

    // 2. Transient failure
    let transient = sharder.should_trigger_repair(30, 300, 2, 2);
    assert!(!transient);

    // 3. Persistent failure
    let persistent = sharder.should_trigger_repair(350, 300, 2, 2);
    assert!(persistent);
}

#[test]
fn repair_threshold_is_inclusive() {
    let sharder = Sharder::new(1, 1, StorageScheme::MBR);
    assert!(sharder.should_trigger_repair(300, 300, 5, 2));
    assert!(!sharder.should_trigger_repair(299, 300, 2, 2));
}

#[test]
fn cid_is_hex_sha256() {
    assert_eq!(
        Sharder::compute_cid(b""),
        "e3b0c44298fc1c149afbf4c8996fb92427ae41e4649b934ca495991b7852b855"
    );
    assert_eq!(
        Sharder::compute_cid(b"hello world"),
        "b94d27b9934d3e08a52e52d7da7dabfac484efe37a5380ee9088f7ace2efcde9"
    );
}

#[test]
fn erasure_shards_survive_the_loss_of_parity_count_shards() {
    let sharder = Sharder::new(2, 2, StorageScheme::ReedSolomon);
    let mut data = vec![0u8; SHARD_SIZE + 3];
    data[5] = 0x5a;
    data[SHARD_SIZE + 2] = 0xa5;
    let shards = sharder.shard(&data);
    let codec = reed_solomon_erasure::galois_8::ReedSolomon::new(2, 2).unwrap();
    let mut damaged: Vec<Option<Vec<u8>>> = shards.iter().cloned().map(Some).collect();
    damaged[0] = None;
    damaged[1] = None;
    codec.reconstruct(&mut damaged).unwrap();
    let restored: Vec<Vec<u8>> = damaged.into_iter().map(|s| s.unwrap()).collect();
    assert_eq!(restored, shards);
    assert_eq!(restored[0][5], 0x5a);
    assert_eq!(restored[1][2], 0xa5);
}
