//! Key-material helpers for exercising the library: bulk generation of
//! random signing keys and construction of boundary-value keys in which
//! every byte is at its maximum.

use vstd::prelude::*;
use crate::sodium::sign_gen_keypair;

verus! {

/// Generates `size` random public signing keys.
pub fn generate_public_keys(size: usize) -> (r: Vec<sodiumoxide::crypto::sign::PublicKey>)
    ensures
        r@.len() == size,
{
    let mut public_keys: Vec<sodiumoxide::crypto::sign::PublicKey> = Vec::new();
    let mut i: usize = 0;
    while i < size
        invariant
            0 <= i <= size,
            public_keys@.len() == i,
        decreases size - i,
    {
        let (pk, _sk) = sign_gen_keypair();
        public_keys.push(pk);
        i += 1;
    }
    public_keys
}

/// Generates `size` random secret signing keys.
pub fn generate_secret_keys(size: usize) -> (r: Vec<sodiumoxide::crypto::sign::SecretKey>)
    ensures
        r@.len() == size,
{
    let mut secret_keys: Vec<sodiumoxide::crypto::sign::SecretKey> = Vec::new();
    let mut i: usize = 0;
    while i < size
        invariant
            0 <= i <= size,
            secret_keys@.len() == i,
        decreases size - i,
    {
        let (_pk, sk) = sign_gen_keypair();
        secret_keys.push(sk);
        i += 1;
    }
    secret_keys
}

/// Builds `size` public signing keys of maximum value: every byte is at
/// its maximum.
pub fn get_max_sized_public_keys(size: usize) -> (r: Vec<sodiumoxide::crypto::sign::PublicKey>)
    ensures
        r@.len() == size,
        forall|i: int, j: int| 0 <= i < r@.len() && 0 <= j < 32 ==> r@[i].0@[j] == 255u8,
{
    let mut public_keys: Vec<sodiumoxide::crypto::sign::PublicKey> = Vec::new();
    let mut i: usize = 0;
    while i < size
        invariant
            0 <= i <= size,
            public_keys@.len() == i,
            forall|m: int, j: int| 0 <= m < i && 0 <= j < 32 ==> public_keys@[m].0@[j] == 255u8,
        decreases size - i,
    {
        public_keys.push(sodiumoxide::crypto::sign::PublicKey([255u8; 32]));
        i += 1;
    }
    public_keys
}

/// Builds `size` secret signing keys of maximum value: every byte is at
/// its maximum.
pub fn get_max_sized_secret_keys(size: usize) -> (r: Vec<sodiumoxide::crypto::sign::SecretKey>)
    ensures
        r@.len() == size,
        forall|i: int, j: int| 0 <= i < r@.len() && 0 <= j < 64 ==> r@[i].0@[j] == 255u8,
{
    let mut secret_keys: Vec<sodiumoxide::crypto::sign::SecretKey> = Vec::new();
    let mut i: usize = 0;
    while i < size
        invariant
            0 <= i <= size,
            secret_keys@.len() == i,
            forall|m: int, j: int| 0 <= m < i && 0 <= j < 64 ==> secret_keys@[m].0@[j] == 255u8,
        decreases size - i,
    {
        secret_keys.push(sodiumoxide::crypto::sign::SecretKey([255u8; 64]));
        i += 1;
    }
    secret_keys
}

} // verus!
