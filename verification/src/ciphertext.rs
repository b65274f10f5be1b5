use vstd::prelude::*;
use vstd::utf8::decode_utf8;
use vstd::utf8::encode_utf8;
use vstd::utf8::encode_utf8_decode_utf8;
use vstd::utf8::is_ascii_chars;
use vstd::utf8::is_ascii_chars_encode_utf8;
use vstd::utf8::valid_utf8;
use crate::crypto::chacha8_apply;
use crate::crypto::chacha8_xor;
use crate::crypto::cipher_input_bound;
use crate::data::LiteSessionData;
use crate::data::parse_data;
use crate::data::serialize_data;
use crate::errors::LiteSessionError;
use crate::global::SessionTokenRng;
use crate::global::lemma_rng_alphabet_ascii;
use crate::global::rng_alphabet;
use crate::hexcode::bytes_to_hex;
use crate::hexcode::hex_encode;
use crate::text::string_from_utf8;

verus! {

/// The envelope: the encrypted, hex-encoded form of a serialized record
/// together with the nonce it was encrypted under. One envelope lives per
/// encryption or decryption call; it is never persisted.
#[derive(Debug)]
pub struct CipherText {
    /// The ciphertext as lowercase hexadecimal text.
    pub cipher: String,
    /// The 12-character nonce the ciphertext was produced under.
    pub nonce: String,
}

/// The ciphertext hex that encrypting a record under a derived key and a
/// nonce produces.
pub open spec fn encrypt_cipher_hex(d: crate::data::DataView, key: Seq<u8>, nonce: Seq<char>)
    -> Seq<char> {
    bytes_to_hex(chacha8_xor(key, encode_utf8(nonce), encode_utf8(serialize_data(d))))
}

impl Default for CipherText {
    /// An envelope starts out empty.
    fn default() -> (r: Self)
        ensures
            r.cipher@ == Seq::<char>::empty(),
            r.nonce@ == Seq::<char>::empty(),
    {
        Self { cipher: String::new(), nonce: String::new() }
    }
}

impl CipherText {
    /// Encrypt a record under the given key and the given 12-character
    /// ASCII nonce: the record's canonical text, which must stay below the
    /// cipher's input bound, is XORed with the keystream and kept as
    /// hexadecimal text, with the nonce, in this envelope. The only failure
    /// is a key that is not exactly 32 bytes, which leaves the envelope
    /// unchanged.
    pub fn encrypt_with_nonce(
        &mut self,
        ls_data: &LiteSessionData,
        key: &[u8],
        nonce: String,
    ) -> (r: Result<(), LiteSessionError>)
        requires
            ls_data@.acl.len() >= 1,
            nonce@.len() == 12,
            is_ascii_chars(nonce@),
            encode_utf8(serialize_data(ls_data@)).len() < cipher_input_bound(),
        ensures
            r is Ok <==> key@.len() == 32,
            r is Err ==> r.unwrap_err() == LiteSessionError::ServerKeyLengthError && *final(self)
                == *old(self),
            r is Ok ==> final(self).nonce@ == nonce@ && final(self).cipher@ == encrypt_cipher_hex(
                ls_data@,
                key@,
                nonce@,
            ),
    {
        if key.len() != 32 {
            return Result::Err(LiteSessionError::ServerKeyLengthError);
        }
        proof {
            is_ascii_chars_encode_utf8(nonce@);
        }
        let nonce_bytes = nonce.as_str().as_bytes();
        let data_text = ls_data.build();
        let data_bytes = data_text.as_str().as_bytes();
        let cipher_bytes = chacha8_apply(key, nonce_bytes, data_bytes);
        let cipher_hex = hex_encode(cipher_bytes.as_slice());
        self.cipher = cipher_hex;
        self.nonce = nonce;
        Result::Ok(())
    }

    /// Encrypt a record under the given key and a fresh random nonce of 12
    /// lowercase alphanumeric characters, drawn from the secure generator
    /// only once the key has passed its length check. The only failure is a
    /// key that is not exactly 32 bytes, which leaves the envelope
    /// unchanged.
    pub fn encrypt(&mut self, ls_data: &LiteSessionData, key: &[u8]) -> (r: Result<
        (),
        LiteSessionError,
    >)
        requires
            ls_data@.acl.len() >= 1,
            encode_utf8(serialize_data(ls_data@)).len() < cipher_input_bound(),
        ensures
            r is Ok <==> key@.len() == 32,
            r is Err ==> r.unwrap_err() == LiteSessionError::ServerKeyLengthError && *final(self)
                == *old(self),
            r is Ok ==> exists|nonce: Seq<char>|
                {
                    &&& nonce.len() == 12
                    &&& #[trigger] is_ascii_chars(nonce)
                    &&& forall|i: int|
                        0 <= i < nonce.len() ==> rng_alphabet().contains(#[trigger] nonce[i])
                    &&& final(self).nonce@ == nonce
                    &&& final(self).cipher@ == encrypt_cipher_hex(ls_data@, key@, nonce)
                },
    {
        if key.len() != 32 {
            return Result::Err(LiteSessionError::ServerKeyLengthError);
        }
        let nonce_string = SessionTokenRng::nonce();
        proof {
            lemma_rng_alphabet_ascii();
            assert(is_ascii_chars(nonce_string@));
        }
        let r = self.encrypt_with_nonce(ls_data, key, nonce_string);
        r
    }

    /// Decrypt ciphertext bytes in place under the given key and nonce and
    /// parse the decrypted text into a record. The buffer must stay below
    /// the cipher's input bound. A key that is not 32 bytes or a nonce that
    /// is not 12 bytes is rejected before anything is touched; after the
    /// keystream is applied, the buffer holds the decrypted bytes, which
    /// must be valid UTF-8 and parse as a record.
    pub fn decrypt(&self, key: &[u8], ciphertext: &mut Vec<u8>, nonce: &[u8]) -> (r: Result<
        LiteSessionData,
        LiteSessionError,
    >)
        requires
            old(ciphertext)@.len() < cipher_input_bound(),
        ensures
            key@.len() != 32 ==> r == Result::<LiteSessionData, LiteSessionError>::Err(
                LiteSessionError::ServerKeyLengthError,
            ) && final(ciphertext)@ == old(ciphertext)@,
            key@.len() == 32 && nonce@.len() != 12 ==> r == Result::<
                LiteSessionData,
                LiteSessionError,
            >::Err(LiteSessionError::NonceLengthError) && final(ciphertext)@ == old(ciphertext)@,
            key@.len() == 32 && nonce@.len() == 12 ==> {
                let plain = chacha8_xor(key@, nonce@, old(ciphertext)@);
                &&& final(ciphertext)@ == plain
                &&& !valid_utf8(plain) ==> r == Result::<LiteSessionData, LiteSessionError>::Err(
                    LiteSessionError::FromUtf8TokenError,
                )
                &&& valid_utf8(plain) && parse_data(decode_utf8(plain)) is None ==> r == Result::<
                    LiteSessionData,
                    LiteSessionError,
                >::Err(LiteSessionError::DataFieldsLengthError)
                &&& valid_utf8(plain) && parse_data(decode_utf8(plain)) is Some ==> r is Ok
                    && r.unwrap()@ == parse_data(decode_utf8(plain)).unwrap()
            },
    {
        if key.len() != 32 {
            return Result::Err(LiteSessionError::ServerKeyLengthError);
        }
        if nonce.len() != 12 {
            return Result::Err(LiteSessionError::NonceLengthError);
        }
        let plain = chacha8_apply(key, nonce, ciphertext.as_slice());
        let text = string_from_utf8(plain.as_slice());
        *ciphertext = plain;
        match text {
            Option::None => Result::Err(LiteSessionError::FromUtf8TokenError),
            Option::Some(raw_data) => {
                proof {
                    encode_utf8_decode_utf8(raw_data@);
                }
                LiteSessionData::default().destructure(raw_data.as_str())
            },
        }
    }
}

} // verus!
