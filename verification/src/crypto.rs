use vstd::prelude::*;
use aes::cipher::{BlockEncrypt, KeyInit};

verus! {

/// AES-256 encryption of one 16-byte block under a 32-byte key: a pure
/// function of key and block.
pub uninterp spec fn aes256_encrypt_block_of(key: Seq<u8>, block: Seq<u8>) -> Seq<u8>;

/// Relies on `aes::Aes256` (`KeyInit::new`, `BlockEncrypt::encrypt_block`):
/// AES-256 block encryption is deterministic in the key and block alone,
/// and rewrites the block in place.
#[verifier::external_body]
pub fn encrypt_block(key: &[u8; 32], block: &mut [u8; 16])
    ensures
        final(block)@ == aes256_encrypt_block_of(key@, old(block)@),
{
    let cipher = aes::Aes256::new(aes::cipher::generic_array::GenericArray::from_slice(key));
    let block_arr = aes::cipher::generic_array::GenericArray::from_mut_slice(block);
    cipher.encrypt_block(block_arr);
}

} // verus!
