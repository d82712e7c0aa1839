//! Identity material: the four key families of a client identity, the
//! owner's public key, and the derived full identity used to authenticate
//! outbound bootstrap and requests.
//!
//! Key bytes are held as plain fixed-size arrays so that contracts can
//! speak of them directly; the secure random source behind generation is
//! the one wrapped in `crate::sodium`.

use vstd::prelude::*;
use crate::errors::AppError;
use crate::sodium::{sodium_init, sign_gen_keypair, box_gen_keypair, secretbox_gen_key,
    random_bytes_array};

verus! {

/// A network-level public key (BLS family), as its serialized bytes.
#[derive(Clone, Copy, Debug)]
pub struct NetworkPublicKey {
    pub bytes: [u8; 48],
}

/// The client's own key material: signing key pair, encryption key pair,
/// symmetric key, and BLS key pair. Immutable after creation.
#[derive(Clone, Copy, Debug)]
pub struct ClientKeys {
    /// Public signing key.
    pub sign_pk: [u8; 32],
    /// Secret signing key.
    pub sign_sk: [u8; 64],
    /// Public encryption key.
    pub enc_pk: [u8; 32],
    /// Secret encryption key.
    pub enc_sk: [u8; 32],
    /// Symmetric encryption key.
    pub enc_key: [u8; 32],
    /// Public BLS key.
    pub bls_pk: [u8; 48],
    /// Secret BLS key.
    pub bls_sk: [u8; 32],
}

/// The derived, non-persisted signing credential: the app's own secret
/// signing and BLS material bound to the owner's public key.
#[derive(Clone, Copy, Debug)]
pub struct FullIdentity {
    /// Secret signing key of the app itself.
    pub sign_sk: [u8; 64],
    /// Secret BLS key of the app itself.
    pub bls_sk: [u8; 32],
    /// Public key of the authorizing account.
    pub owner: NetworkPublicKey,
}

/// The app's public identity: its own network public key together with the
/// owner's.
#[derive(Clone, Copy, Debug)]
pub struct AppPublicIdentity {
    /// The app's own network public key.
    pub public_key: NetworkPublicKey,
    /// Public key of the authorizing account.
    pub owner: NetworkPublicKey,
}

impl ClientKeys {
    /// Draws fresh key material for all four key families from the secure
    /// random source. Fails only on an unrecoverable failure of that
    /// source, and then with `KeyGeneration`.
    pub fn generate() -> (r: Result<ClientKeys, AppError>)
        ensures
            r matches Err(e) ==> e == AppError::KeyGeneration,
    {
        if sodium_init().is_err() {
            return Err(AppError::KeyGeneration);
        }
        let (sign_pk, sign_sk) = sign_gen_keypair();
        let (enc_pk, enc_sk) = box_gen_keypair();
        let enc_key = secretbox_gen_key();
        Ok(ClientKeys {
            sign_pk: sign_pk.0,
            sign_sk: sign_sk.0,
            enc_pk: enc_pk.0,
            enc_sk: enc_sk.0,
            enc_key: enc_key.0,
            bls_pk: random_bytes_array::<48>(),
            bls_sk: random_bytes_array::<32>(),
        })
    }

    /// Binds previously generated key material. Only structural validation
    /// applies, and the fixed-size arrays already carry it, so binding
    /// always succeeds and returns exactly the supplied material.
    pub fn from_existing(
        sign_pk: [u8; 32],
        sign_sk: [u8; 64],
        enc_pk: [u8; 32],
        enc_sk: [u8; 32],
        enc_key: [u8; 32],
        bls_pk: [u8; 48],
        bls_sk: [u8; 32],
    ) -> (r: ClientKeys)
        ensures
            r == (ClientKeys { sign_pk, sign_sk, enc_pk, enc_sk, enc_key, bls_pk, bls_sk }),
    {
        ClientKeys { sign_pk, sign_sk, enc_pk, enc_sk, enc_key, bls_pk, bls_sk }
    }

    /// The app's own network public key, read from its BLS public key.
    pub fn network_public_key(&self) -> (r: NetworkPublicKey)
        ensures
            r.bytes == self.bls_pk,
    {
        NetworkPublicKey { bytes: self.bls_pk }
    }

    /// Derives the opaque signing credential that combines the app's own
    /// secret signing and BLS material with the owner's public key.
    pub fn derive_full_identity(&self, owner: NetworkPublicKey) -> (r: FullIdentity)
        ensures
            r.sign_sk == self.sign_sk,
            r.bls_sk == self.bls_sk,
            r.owner == owner,
    {
        FullIdentity { sign_sk: self.sign_sk, bls_sk: self.bls_sk, owner }
    }
}

} // verus!
