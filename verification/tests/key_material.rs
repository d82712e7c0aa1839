use safe_app_core::keys::ClientKeys;
use safe_app_core::test_utils::{
    generate_public_keys, generate_secret_keys, get_max_sized_public_keys,
    get_max_sized_secret_keys,
};

#[test]
fn generate_draws_all_four_key_families() {
    let keys = ClientKeys::generate().unwrap();
    // Fresh random key material is overwhelmingly unlikely to collide
    // with a second draw.
    let again = ClientKeys::generate().unwrap();
    assert_ne!(keys.sign_pk, again.sign_pk);
    assert_ne!(keys.enc_pk, again.enc_pk);
    assert_ne!(keys.enc_key, again.enc_key);
    assert_ne!(keys.bls_pk, again.bls_pk);
    assert_ne!(keys.bls_sk, again.bls_sk);
}

#[test]
fn from_existing_binds_the_supplied_material() {
    let keys = ClientKeys::from_existing(
        [1; 32],
        [2; 64],
        [3; 32],
        [4; 32],
        [5; 32],
        [6; 48],
        [7; 32],
    );
    assert_eq!(keys.sign_pk, [1; 32]);
    assert_eq!(keys.sign_sk, [2; 64]);
    assert_eq!(keys.enc_pk, [3; 32]);
    assert_eq!(keys.enc_sk, [4; 32]);
    assert_eq!(keys.enc_key, [5; 32]);
    assert_eq!(keys.bls_pk, [6; 48]);
    assert_eq!(keys.bls_sk, [7; 32]);
    assert_eq!(keys.network_public_key().bytes, [6; 48]);
}

#[test]
fn derive_full_identity_binds_owner_and_secrets() {
    let keys = ClientKeys::from_existing(
        [1; 32],
        [2; 64],
        [3; 32],
        [4; 32],
        [5; 32],
        [6; 48],
        [7; 32],
    );
    let owner = safe_app_core::keys::NetworkPublicKey { bytes: [8; 48] };
    let full = keys.derive_full_identity(owner);
    assert_eq!(full.sign_sk, [2; 64]);
    assert_eq!(full.bls_sk, [7; 32]);
    assert_eq!(full.owner.bytes, [8; 48]);
}

#[test]
fn generate_public_keys_yields_the_requested_count() {
    let keys = generate_public_keys(4);
    assert_eq!(keys.len(), 4);
    // The draws are random: distinct keys come back.
    assert_ne!(keys[0], keys[1]);
}

#[test]
fn generate_secret_keys_yields_the_requested_count() {
    let keys = generate_secret_keys(3);
    assert_eq!(keys.len(), 3);
    assert_ne!(keys[0].0.to_vec(), keys[1].0.to_vec());
}

#[test]
fn max_sized_public_keys_hold_maximum_bytes() {
    let keys = get_max_sized_public_keys(2);
    assert_eq!(keys.len(), 2);
    for key in &keys {
        assert_eq!(key.0, [u8::MAX; 32]);
    }
}

#[test]
fn max_sized_secret_keys_hold_maximum_bytes() {
    let keys = get_max_sized_secret_keys(2);
    assert_eq!(keys.len(), 2);
    for key in &keys {
        assert!(key.0.iter().all(|&b| b == u8::MAX));
        assert_eq!(key.0.len(), 64);
    }
}
