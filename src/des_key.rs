//! Triple-DES key material: exclusive ownership, erasure, and the one-block
//! encrypt/decrypt operations that borrow it.

use vstd::prelude::*;

use des::cipher::generic_array::GenericArray;
use des::cipher::{BlockEncrypt, KeyInit};
use zeroize::Zeroize;

verus! {

/// Length of a single DES key, and of a DES block, in bytes.
pub const DES_LEN_DES: usize = 8;

/// Length of a triple-DES key (three concatenated DES keys), in bytes.
pub const DES_LEN_3DES: usize = 24;

/// The block that triple-DES (encrypt-decrypt-encrypt, three keys) produces
/// in the encrypt direction from an 8-byte block under a 24-byte key.
pub uninterp spec fn tdes_ede3_encrypt(key: Seq<u8>, block: Seq<u8>) -> Seq<u8>;

/// The block that `des_decrypt` produces: triple-DES in the encrypt
/// direction, the same transform as `des_encrypt`.
pub open spec fn decrypted_block(key: Seq<u8>, block: Seq<u8>) -> Seq<u8> {
    tdes_ede3_encrypt(key, block)
}

/// A byte sequence of the given length holding only zeros.
pub open spec fn zeros(len: nat) -> Seq<u8> {
    Seq::new(len, |i: int| 0u8)
}

/// Relies on `TdesEde3::new` and `BlockEncrypt::encrypt_block` of the `des`
/// crate: the block is encrypted in place under the 24-byte key; the result
/// depends on the key and the block alone.
#[verifier::external_body]
fn tdes_encrypt_block(key: &[u8; DES_LEN_3DES], block: &[u8; DES_LEN_DES]) -> (r: [u8; DES_LEN_DES])
    ensures
        r@ == tdes_ede3_encrypt(key@, block@),
{
    let mut out = *block;
    des::TdesEde3::new(GenericArray::from_slice(key)).encrypt_block(
        GenericArray::from_mut_slice(&mut out),
    );
    out
}

/// Relies on `Zeroize for [u8; N]` of the `zeroize` crate: every element is
/// overwritten with `u8::default()`, that is zero, by volatile writes.
#[verifier::external_body]
pub(crate) fn zeroize_bytes(bytes: &mut [u8; DES_LEN_3DES])
    ensures
        final(bytes)@ == zeros(DES_LEN_3DES as nat),
    no_unwind
{
    bytes.zeroize();
}

/// 3DES keys. The three subkeys are concatenated.
///
/// The bytes are owned by this value alone and are overwritten with zeros
/// when it is dropped.
pub struct DesKey([u8; DES_LEN_3DES]);

impl View for DesKey {
    type V = Seq<u8>;

    closed spec fn view(&self) -> Seq<u8> {
        self.0@
    }
}

impl DesKey {
    /// Takes ownership of the 24 key bytes.
    pub fn from_bytes(bytes: [u8; DES_LEN_3DES]) -> (r: Self)
        ensures
            r@ == bytes@,
    {
        DesKey(bytes)
    }

    /// Read-only view of the key bytes.
    pub fn as_ref(&self) -> (r: &[u8; DES_LEN_3DES])
        ensures
            r@ == self@,
    {
        &self.0
    }

    /// Overwrites every key byte with zero.
    pub fn zeroize(&mut self)
        ensures
            final(self)@ == zeros(DES_LEN_3DES as nat),
        no_unwind
    {
        zeroize_bytes(&mut self.0);
    }
}

impl Drop for DesKey {
    /// Relies on `Zeroize for [u8; N]` of the `zeroize` crate, as
    /// `zeroize_bytes` does, to erase the key bytes before they are released.
    /// The body is taken on trust because Verus does not yet accept a
    /// verified `drop` that writes to `self`.
    #[verifier::external_body]
    fn drop(&mut self)
        opens_invariants none
        no_unwind
    {
        self.0.zeroize();
    }
}

/// Encrypt with DES key
pub fn des_encrypt(key: &DesKey, input: &[u8; DES_LEN_DES], output: &mut [u8; DES_LEN_DES])
    ensures
        final(output)@ == tdes_ede3_encrypt(key@, input@),
{
    *output = tdes_encrypt_block(&key.0, input);
}

/// Decrypt with DES key.
///
/// The block is passed through triple-DES in the *encrypt* direction, exactly
/// as `des_encrypt` does; this is kept as the behaviour callers rely on, not
/// the inverse of `des_encrypt`.
pub fn des_decrypt(key: &DesKey, input: &[u8; DES_LEN_DES], output: &mut [u8; DES_LEN_DES])
    ensures
        final(output)@ == decrypted_block(key@, input@),
{
    *output = tdes_encrypt_block(&key.0, input);
}

/// Decrypting a block that was encrypted under the same key does not give
/// the block back in general: it gives the block encrypted twice.
pub proof fn lemma_decrypt_after_encrypt(key: Seq<u8>, block: Seq<u8>)
    ensures
        decrypted_block(key, tdes_ede3_encrypt(key, block)) == tdes_ede3_encrypt(
            key,
            tdes_ede3_encrypt(key, block),
        ),
{
}

/// Once key material has been erased, none of its bytes equals a byte of
/// the key it held, provided that key had no zero byte.
pub proof fn lemma_erased_key_holds_no_key_byte(key: Seq<u8>)
    requires
        key.len() == DES_LEN_3DES,
        forall|j: int| 0 <= j < key.len() ==> key[j] != 0,
    ensures
        forall|i: int, j: int|
            0 <= i < DES_LEN_3DES && 0 <= j < DES_LEN_3DES ==> #[trigger] zeros(
                DES_LEN_3DES as nat,
            )[i] != #[trigger] key[j],
{
}

} // verus!
