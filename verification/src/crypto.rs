use vstd::prelude::*;
use chacha20::cipher::KeyIvInit;
use chacha20::cipher::StreamCipher;

verus! {

/// What `blake3::keyed_hash` returns for a 32-byte key and a message: a
/// fixed function of the key and the message alone.
pub uninterp spec fn blake3_keyed(key: Seq<u8>, message: Seq<u8>) -> Seq<u8>;

/// What `blake3::hash` returns for a message: a fixed function of the
/// message alone.
pub uninterp spec fn blake3_plain(message: Seq<u8>) -> Seq<u8>;

/// How many bytes one keystream application may cover: one gibibyte. The
/// ChaCha8 keystream itself spans 2^38 bytes before its block counter is
/// exhausted and the cipher panics; this far smaller bound keeps every
/// admitted input well away from that edge.
pub open spec fn cipher_input_bound() -> int {
    0x4000_0000
}

/// The ChaCha8 keystream byte at a position, for a 32-byte key and a
/// 12-byte nonce: a fixed function of the key, the nonce and the position
/// alone.
pub uninterp spec fn chacha8_keystream_byte(key: Seq<u8>, nonce: Seq<u8>, i: int) -> u8;

/// What one ChaCha8 keystream application computes: each byte of the
/// buffer XORed with the keystream byte at its position.
pub open spec fn chacha8_xor(key: Seq<u8>, nonce: Seq<u8>, data: Seq<u8>) -> Seq<u8> {
    Seq::new(data.len(), |i: int| data[i] ^ chacha8_keystream_byte(key, nonce, i))
}

/// Applying the same keystream twice restores the buffer.
pub proof fn lemma_chacha8_xor_involution(key: Seq<u8>, nonce: Seq<u8>, data: Seq<u8>)
    ensures
        chacha8_xor(key, nonce, chacha8_xor(key, nonce, data)) =~= data,
{
    assert forall|i: int| 0 <= i < data.len() implies chacha8_xor(
        key,
        nonce,
        chacha8_xor(key, nonce, data),
    )[i] == data[i] by {
        let d = data[i];
        let k = chacha8_keystream_byte(key, nonce, i);
        assert((d ^ k) ^ k == d) by (bit_vector);
    }
}

/// Relies on `blake3::keyed_hash`: the keyed digest of the message is 32
/// bytes long and depends on the key and the message alone.
#[verifier::external_body]
pub fn keyed_hash(key: &[u8], message: &[u8]) -> (r: Vec<u8>)
    requires
        key@.len() == 32,
    ensures
        r@ == blake3_keyed(key@, message@),
        r@.len() == 32,
{
    let key_array: [u8; 32] = key.try_into().unwrap();
    blake3::keyed_hash(&key_array, message).as_bytes().to_vec()
}

/// Relies on `blake3::hash`: the digest of the message is 32 bytes long
/// and depends on the message alone.
#[verifier::external_body]
pub fn plain_hash(message: &[u8]) -> (r: Vec<u8>)
    ensures
        r@ == blake3_plain(message@),
        r@.len() == 32,
{
    blake3::hash(message).as_bytes().to_vec()
}

/// Relies on chacha20's `ChaCha8`, built with `new` from a 32-byte key and
/// a 12-byte nonce and driven by `apply_keystream`: it XORs each buffer
/// byte in place with the keystream byte at its position, where the
/// keystream is determined by the key and the nonce alone. A fresh cipher
/// sought to offset zero and asked to decrypt applies that very same
/// keystream. `apply_keystream` panics once the keystream's 2^32 blocks of
/// 64 bytes run out, so inputs must stay below the (far smaller) bound.
#[verifier::external_body]
pub fn chacha8_apply(key: &[u8], nonce: &[u8], data: &[u8]) -> (r: Vec<u8>)
    requires
        key@.len() == 32,
        nonce@.len() == 12,
        data@.len() < cipher_input_bound(),
    ensures
        r@ == chacha8_xor(key@, nonce@, data@),
        r@.len() == data@.len(),
        forall|i: int|
            0 <= i < data@.len() ==> r@[i] == data@[i] ^ chacha8_keystream_byte(key@, nonce@, i),
{
    let mut cipher = chacha20::ChaCha8::new(
        chacha20::Key::from_slice(key),
        chacha20::Nonce::from_slice(nonce),
    );
    let mut buffer = data.to_vec();
    cipher.apply_keystream(&mut buffer);
    buffer
}

} // verus!
