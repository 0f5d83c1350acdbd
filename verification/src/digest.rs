//! The BLAKE2s digest that contract keys are made of.

use blake2::{Blake2s256, Digest};
use vstd::prelude::*;

verus! {

/// The number of bytes of a key.
pub const CONTRACT_KEY_SIZE: usize = 32;

/// The BLAKE2s digest, of 256 bits, of `data`.
pub uninterp spec fn blake2s256(data: Seq<u8>) -> Seq<u8>;

/// The array that holds `bytes`, which are as many as a key has.
pub open spec fn key_array(bytes: Seq<u8>) -> [u8; CONTRACT_KEY_SIZE] {
    choose|key: [u8; CONTRACT_KEY_SIZE]| key@ == bytes
}

/// An array is the one that holds its bytes.
pub proof fn lemma_key_array(key: [u8; CONTRACT_KEY_SIZE])
    ensures
        key_array(key@) == key,
{
    assert(key_array(key@)@ == key@);
    assert forall|i: int| 0 <= i < CONTRACT_KEY_SIZE implies key_array(key@)[i] == key[i] by {
        assert(key_array(key@)@[i] == key@[i]);
    }
    assert(key_array(key@) =~= key);
}

/// Calls `blake2::Blake2s256` on two pieces of input, one after the other (`new`, `update` twice,
/// `finalize`): the result is the digest of their concatenation, named by [`blake2s256`].
#[verifier::external_body]
pub(crate) fn digest_pair(first: &[u8], second: &[u8]) -> (r: [u8; CONTRACT_KEY_SIZE])
    ensures
        r@ == blake2s256(first@ + second@),
{
    let mut hasher = Blake2s256::new();
    hasher.update(first);
    hasher.update(second);
    hasher.finalize().into()
}

/// The digest of `data`.
pub(crate) fn digest(data: &[u8]) -> (r: [u8; CONTRACT_KEY_SIZE])
    ensures
        r@ == blake2s256(data@),
{
    let nothing: [u8; 0] = [];
    assert(data@ + nothing@ =~= data@);
    digest_pair(data, nothing.as_slice())
}

} // verus!
