//! LiteSession: self-contained, stateless session tokens.
//!
//! A server embeds an identity and capability record into a token that is
//! encrypted, time-bounded and authenticated with a server-held secret, so
//! no server-side session store is needed. The token protocol follows this
//! wire layout, with `⊕` as the token-level separator:
//!
//! ```text
//! identifier ⊕ issued ⊕ expiry ⊕ (data)k ⊕ nonce ⊕ ConfidentialityMode ⊕ tag
//! ```
//!
//! where `k = keyed_hash(identifier | issued | expiry | ConfidentialityMode,
//! server_key)` encrypts the data portion and the trailing tag is
//! `keyed_hash(identifier | issued | expiry | (data)k | nonce |
//! ConfidentialityMode, server_key)`. The builder writes the canonical
//! confidentiality text; the verifier recomputes the tag over the fields
//! exactly as the wire carries them, so a tampered confidentiality field is
//! rejected even though decoding that field is fail-safe.

mod ciphertext;
mod crypto;
mod data;
mod errors;
mod global;
mod hexcode;
mod mode;
mod tai;
mod text;
mod token;

pub use ciphertext::CipherText;
pub use ciphertext::encrypt_cipher_hex;
pub use crypto::blake3_keyed;
pub use crypto::blake3_plain;
pub use crypto::chacha8_xor;
pub use crypto::chacha8_keystream_byte;
pub use crypto::cipher_input_bound;
pub use crypto::lemma_chacha8_xor_involution;
pub use data::DataView;
pub use data::LiteSessionData;
pub use data::data_round_trippable;
pub use data::entries_sorted;
pub use data::lemma_closed_role_round_trips;
pub use data::lemma_sort_entries_sorted;
pub use data::lemma_serialize_parse_round_trip;
pub use data::acl_sep;
pub use data::ls_sep;
pub use data::parse_data;
pub use data::serialize_data;
pub use data::sort_entries;
pub use data::sorted_insert;
pub use data::tag_text;
pub use errors::LiteSessionError;
pub use global::ConfidentialityMode;
pub use global::Role;
pub use global::RoleView;
pub use global::SessionTokenRng;
pub use global::TokenOutcome;
pub use global::confidentiality_of_text;
pub use global::confidentiality_text;
pub use global::rng_alphabet;
pub use global::role_of_text;
pub use global::role_text;
pub use hexcode::bytes_to_hex;
pub use hexcode::hex_decodable;
pub use hexcode::hex_decode_bytes;
pub use hexcode::hex_digit;
pub use hexcode::hex_val;
pub use hexcode::is_hex_digit_byte;
pub use mode::LiteSessionMode;
pub use mode::ModeView;
pub use tai::TaiTime;
pub use tai::hours_to_secs;
pub use tai::parse_tai_bytes;
pub use tai::tai_bytes;
pub use tai::tai_le;
pub use tai::tai_now;
pub use tai::tai_plus_secs;
pub use global::lemma_confidentiality_text_wf;
pub use global::lemma_rng_alphabet_ascii;
pub use token::LiteSessionToken;
pub use token::ParsedToken;
pub use token::TokenView;
pub use token::VerifySpec;
pub use token::build_secure_ok;
pub use token::derived_key;
pub use token::from_string_post;
pub use token::lemma_authentic_only_with_matching_tag;
pub use token::lemma_build_then_parse_authentic;
pub use token::lemma_expiry_precedence;
pub use token::lemma_key_length_guard;
pub use token::lemma_oversize_guard;
pub use token::lemma_token_round_trip;
pub use token::parse_time_field;
pub use token::tag_digest;
pub use token::token_round_trippable;
pub use token::token_sep;
pub use token::verify_token;
pub use token::wire_text;
pub use text::join_chars;
pub use text::split_chars;
pub use text::split_str;
pub use text::str_eq;
