//! Trusted declarations for the cryptographic primitives the identity
//! material is drawn from. Each item relies on `sodiumoxide`, whose key
//! types are byte newtypes with public fields; the declarations below leave
//! those fields visible so verified code can read and build key values,
//! while generation itself (a draw from the secure random source) is
//! wrapped and promises nothing about the bytes drawn.

use vstd::prelude::*;

verus! {

/// Relies on sodiumoxide's `sign::ed25519::PublicKey`: a newtype over a
/// public 32-byte array.
#[verifier::external_type_specification]
pub struct ExSignPublicKey(sodiumoxide::crypto::sign::PublicKey);

/// Relies on sodiumoxide's `sign::ed25519::SecretKey`: a newtype over a
/// public 64-byte array.
#[verifier::external_type_specification]
pub struct ExSignSecretKey(sodiumoxide::crypto::sign::SecretKey);

/// Relies on sodiumoxide's `box_::curve25519xsalsa20poly1305::PublicKey`:
/// a newtype over a public 32-byte array.
#[verifier::external_type_specification]
pub struct ExBoxPublicKey(sodiumoxide::crypto::box_::PublicKey);

/// Relies on sodiumoxide's `box_::curve25519xsalsa20poly1305::SecretKey`:
/// a newtype over a public 32-byte array.
#[verifier::external_type_specification]
pub struct ExBoxSecretKey(sodiumoxide::crypto::box_::SecretKey);

/// Relies on sodiumoxide's `secretbox::xsalsa20poly1305::Key`: a newtype
/// over a public 32-byte array.
#[verifier::external_type_specification]
pub struct ExSecretboxKey(sodiumoxide::crypto::secretbox::Key);

/// Relies on `sodiumoxide::init`: initialises the underlying library and
/// reports failure of that initialisation; nothing further is promised.
#[verifier::external_body]
pub(crate) fn sodium_init() -> Result<(), ()> {
    sodiumoxide::init()
}

/// Relies on `sodiumoxide::crypto::sign::gen_keypair`: draws a fresh
/// signing key pair from the secure random source. The bytes are random,
/// so nothing is promised of them.
#[verifier::external_body]
pub(crate) fn sign_gen_keypair() -> (sodiumoxide::crypto::sign::PublicKey, sodiumoxide::crypto::sign::SecretKey) {
    sodiumoxide::crypto::sign::gen_keypair()
}

/// Relies on `sodiumoxide::crypto::box_::gen_keypair`: draws a fresh
/// encryption key pair from the secure random source.
#[verifier::external_body]
pub(crate) fn box_gen_keypair() -> (sodiumoxide::crypto::box_::PublicKey, sodiumoxide::crypto::box_::SecretKey) {
    sodiumoxide::crypto::box_::gen_keypair()
}

/// Relies on `sodiumoxide::crypto::secretbox::gen_key`: draws a fresh
/// symmetric key from the secure random source.
#[verifier::external_body]
pub(crate) fn secretbox_gen_key() -> sodiumoxide::crypto::secretbox::Key {
    sodiumoxide::crypto::secretbox::gen_key()
}

/// Relies on `sodiumoxide::randombytes::randombytes_into`: fills a buffer
/// from the secure random source; the contents are random, so nothing is
/// promised of them.
#[verifier::external_body]
pub(crate) fn random_bytes_array<const N: usize>() -> [u8; N] {
    let mut b = [0u8; N];
    sodiumoxide::randombytes::randombytes_into(&mut b);
    b
}

} // verus!
