use librenet::{GarlicError, GarlicPacket};

#[test]
fn test_garlic_wrap_unwrap_roundtrip() {
    let payload = b"hello secrete message through the garlic nodes".to_vec();
    let hop1 = [1u8; 32];
    let hop2 = [2u8; 32];
    let hop3 = [3u8; 32];
    let hops = vec![hop1, hop2, hop3];

    let wrapped = GarlicPacket::wrap(payload.clone(), hops);

    let unwrapped1 = GarlicPacket::unwrap(&wrapped, &hop1).unwrap();
    let unwrapped2 = GarlicPacket::unwrap(&unwrapped1, &hop2).unwrap();
    let final_payload = GarlicPacket::unwrap(&unwrapped2, &hop3).unwrap();

    assert_eq!(final_payload, payload);
}

#[test]
fn garlic_layers_add_nonce_and_tag() {
    let payload = vec![9u8; 5];
    let wrapped = GarlicPacket::wrap(payload.clone(), vec![[4u8; 32], [5u8; 32]]);
    assert_eq!(wrapped.len(), 5 + 2 * 28);
    assert_ne!(&wrapped[wrapped.len() - 5..], &payload[..]);
    assert_eq!(GarlicPacket::wrap(payload.clone(), vec![]), payload);
}

#[test]
fn garlic_unwrap_rejects_bad_input() {
    assert_eq!(GarlicPacket::unwrap(&[0u8; 11], &[1u8; 32]), Err(GarlicError::PayloadTooShort));
    let wrapped = GarlicPacket::wrap(b"secret".to_vec(), vec![[1u8; 32]]);
    assert_eq!(GarlicPacket::unwrap(&wrapped, &[2u8; 32]), Err(GarlicError::DecryptionFailed));
    let mut tampered = wrapped.clone();
    let last = tampered.len() - 1;
    tampered[last] ^= 1;
    assert_eq!(GarlicPacket::unwrap(&tampered, &[1u8; 32]), Err(GarlicError::DecryptionFailed));
    assert_eq!(GarlicPacket::unwrap(&wrapped, &[1u8; 32]), Ok(b"secret".to_vec()));
}

#[test]
fn garlic_packet_holds_next_hop() {
    let packet = GarlicPacket { next_hop: Some("peer".to_string()), payload: vec![1, 2] };
    let copy = packet.clone();
    assert_eq!(copy.next_hop.as_deref(), Some("peer"));
    assert_eq!(copy.payload, vec![1, 2]);
}

#[test]
fn wrapping_with_given_nonces_is_deterministic() {
    let payload = b"fixed route".to_vec();
    let hops = vec![[1u8; 32], [2u8; 32]];
    let nonces = vec![[9u8; 12], [8u8; 12]];
    let a = GarlicPacket::wrap_with_nonces(payload.clone(), hops.clone(), nonces.clone());
    let b = GarlicPacket::wrap_with_nonces(payload.clone(), hops.clone(), nonces.clone());
    assert_eq!(a, b);
    assert_eq!(a.len(), payload.len() + 2 * 28);
    // The outer layer starts with the first hop's nonce.
    assert_eq!(&a[..12], &[9u8; 12]);
    let inner = GarlicPacket::unwrap(&a, &hops[0]).unwrap();
    assert_eq!(&inner[..12], &[8u8; 12]);
    assert_eq!(GarlicPacket::unwrap(&inner, &hops[1]).unwrap(), payload);
    // Another nonce gives another outer layer.
    let c = GarlicPacket::wrap_with_nonces(payload.clone(), hops, vec![[7u8; 12], [8u8; 12]]);
    assert_ne!(a, c);
}

#[test]
fn wrap_draws_fresh_nonces() {
    let payload = b"same payload".to_vec();
    let hops = vec![[3u8; 32]];
    let a = GarlicPacket::wrap(payload.clone(), hops.clone());
    let b = GarlicPacket::wrap(payload, hops);
    assert_ne!(&a[..12], &b[..12]);
}
