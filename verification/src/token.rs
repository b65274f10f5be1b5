use vstd::prelude::*;
use vstd::slice::slice_to_vec;
use vstd::string::StringExecFns;
use vstd::string::StringSliceAdditionalSpecFns;
use vstd::utf8::encode_utf8;
use crate::ciphertext::CipherText;
use crate::crypto::blake3_keyed;
use crate::crypto::blake3_plain;
use crate::crypto::keyed_hash;
use crate::crypto::plain_hash;
use crate::data::DataView;
use crate::data::LiteSessionData;
use crate::errors::LiteSessionError;
use crate::global::ConfidentialityMode;
use crate::global::SessionTokenRng;
use crate::global::TokenOutcome;
use crate::global::confidentiality_text;
use crate::global::rng_alphabet;
use crate::hexcode::bytes_to_hex;
use crate::hexcode::hex_decodable;
use crate::hexcode::hex_decode;
use crate::hexcode::hex_decode_bytes;
use crate::hexcode::hex_encode;
use crate::mode::LiteSessionMode;
use crate::mode::ModeView;
use crate::tai::TaiTime;
use crate::tai::hours_to_secs;
use crate::tai::parse_tai_bytes;
use crate::tai::tai_bytes;
use crate::tai::tai_now;
use crate::tai::tai_plus_secs;

verus! {

/// The token-level separator between the seven wire fields.
pub open spec fn token_sep() -> char {
    '⊕'
}

/// The message whose keyed digest is the per-token encryption key: the
/// identifier, the hex forms of the two timestamps, and the
/// confidentiality text, concatenated and encoded as UTF-8.
pub open spec fn derived_key(
    server_key: Seq<u8>,
    identifier: Seq<char>,
    issued: TaiTime,
    expiry: TaiTime,
    confidentiality: ConfidentialityMode,
) -> Seq<u8> {
    blake3_keyed(
        server_key,
        encode_utf8(
            identifier + bytes_to_hex(tai_bytes(issued)) + bytes_to_hex(tai_bytes(expiry))
                + confidentiality_text(confidentiality),
        ),
    )
}

/// The token's authentication tag: the keyed digest of the identifier, the
/// hex forms of the two timestamps, the ciphertext hex, the nonce and the
/// confidentiality text, concatenated and encoded as UTF-8. The building
/// side writes the canonical confidentiality text; the verifying side hands
/// in the field exactly as the wire carries it, so that a tampered
/// confidentiality field changes the tag input even though decoding it is
/// fail-safe.
pub open spec fn tag_digest(
    server_key: Seq<u8>,
    identifier: Seq<char>,
    issued: TaiTime,
    expiry: TaiTime,
    cipher_hex: Seq<char>,
    nonce: Seq<char>,
    mode_text: Seq<char>,
) -> Seq<u8> {
    blake3_keyed(
        server_key,
        encode_utf8(
            identifier + bytes_to_hex(tai_bytes(issued)) + bytes_to_hex(tai_bytes(expiry))
                + cipher_hex + nonce + mode_text,
        ),
    )
}

/// The wire text of a token: its seven fields in fixed order, joined by
/// the token separator.
pub open spec fn wire_text(
    identifier: Seq<char>,
    issued: TaiTime,
    expiry: TaiTime,
    cipher_hex: Seq<char>,
    nonce: Seq<char>,
    confidentiality: ConfidentialityMode,
    tag: Seq<u8>,
) -> Seq<char> {
    join_chars_token(
        seq![
            identifier,
            bytes_to_hex(tai_bytes(issued)),
            bytes_to_hex(tai_bytes(expiry)),
            cipher_hex,
            nonce,
            confidentiality_text(confidentiality),
            bytes_to_hex(tag),
        ],
    )
}

/// The seven wire fields joined by the token separator.
pub open spec fn join_chars_token(parts: Seq<Seq<char>>) -> Seq<char> {
    crate::text::join_chars(parts, token_sep())
}

/// The fields of a structurally valid wire token, after parsing.
#[verifier::ext_equal]
pub struct ParsedToken {
    /// The identifier field.
    pub identifier: Seq<char>,
    /// The decoded issue timestamp.
    pub issued: TaiTime,
    /// The decoded expiry timestamp.
    pub expiry: TaiTime,
    /// The ciphertext field, as carried (hexadecimal text).
    pub cipher_hex: Seq<char>,
    /// The nonce field, as carried.
    pub nonce: Seq<char>,
    /// The decoded confidentiality mode.
    pub confidentiality: ConfidentialityMode,
    /// The decrypted and parsed record.
    pub data: DataView,
    /// The recomputed authentication tag.
    pub tag: Seq<u8>,
}

/// What verifying a wire token yields: a structural error, or one of the
/// semantic outcomes.
#[verifier::ext_equal]
pub enum VerifySpec {
    /// A structural error: malformed, truncated or adversarial input.
    Fail(LiteSessionError),
    /// The token is structurally valid but its expiry has passed.
    Expired,
    /// The token is structurally valid but the recomputed tag differs from
    /// the carried tag.
    Rejected,
    /// The token is authentic; its parsed fields are carried along.
    Authentic(ParsedToken),
}

/// Decoding a timestamp field: the field must be hexadecimal text and its
/// bytes must form a well-formed timestamp.
pub open spec fn parse_time_field(s: Seq<char>) -> Result<TaiTime, LiteSessionError> {
    if !hex_decodable(encode_utf8(s)) {
        Result::Err(LiteSessionError::InvalidHexString)
    } else {
        match parse_tai_bytes(hex_decode_bytes(encode_utf8(s))) {
            Option::None => Result::Err(LiteSessionError::InvalidTai64NTime),
            Option::Some(t) => Result::Ok(t),
        }
    }
}

/// Verifying a wire token against a server key at a given time, as an
/// ordered cascade. Each step either fails with a structural error, ends
/// with a semantic outcome, or hands its decoded value to the next step:
/// the size bound comes first; then the split into seven fields; then the
/// two timestamps; an expired token ends here, before the key is even
/// examined; then the key length; then the ciphertext hex, the nonce
/// length, the decryption and the record parse; and last the carried tag is
/// decoded and compared against the tag recomputed over the fields exactly
/// as carried — including the confidentiality text as carried, so a change
/// to that field is caught even though decoding it is fail-safe.
#[verifier::opaque]
pub open spec fn verify_token(server_key: Seq<u8>, token: Seq<char>, now: TaiTime) -> VerifySpec {
    if encode_utf8(token).len() > 1048576 {
        VerifySpec::Fail(LiteSessionError::TokenSizeTooLarge)
    } else {
        let fields = crate::text::split_chars(token, token_sep());
        if fields.len() != 7 {
            VerifySpec::Fail(LiteSessionError::TokenFieldsLengthError)
        } else if parse_time_field(fields[1]) is Err {
            VerifySpec::Fail(parse_time_field(fields[1]).unwrap_err())
        } else if parse_time_field(fields[2]) is Err {
            VerifySpec::Fail(parse_time_field(fields[2]).unwrap_err())
        } else {
            let issued = parse_time_field(fields[1]).unwrap();
            let expiry = parse_time_field(fields[2]).unwrap();
            if crate::tai::tai_le(expiry, now) {
                VerifySpec::Expired
            } else if !is_key_length(server_key) {
                VerifySpec::Fail(LiteSessionError::ServerKeyLengthError)
            } else if !hex_decodable(encode_utf8(fields[3])) {
                VerifySpec::Fail(LiteSessionError::InvalidHexString)
            } else {
                let confidentiality = crate::global::confidentiality_of_text(fields[5]);
                let k = derived_key(server_key, fields[0], issued, expiry, confidentiality);
                let cipher_bytes = hex_decode_bytes(encode_utf8(fields[3]));
                let nonce_bytes = encode_utf8(fields[4]);
                if nonce_bytes.len() != 12 {
                    VerifySpec::Fail(LiteSessionError::NonceLengthError)
                } else {
                    let plain = crate::crypto::chacha8_xor(k, nonce_bytes, cipher_bytes);
                    if !vstd::utf8::valid_utf8(plain) {
                        VerifySpec::Fail(LiteSessionError::FromUtf8TokenError)
                    } else if crate::data::parse_data(vstd::utf8::decode_utf8(plain)) is None {
                        VerifySpec::Fail(LiteSessionError::DataFieldsLengthError)
                    } else if !hex_decodable(encode_utf8(fields[6])) {
                        VerifySpec::Fail(LiteSessionError::InvalidHexString)
                    } else if hex_decode_bytes(encode_utf8(fields[6])).len() != 32 {
                        VerifySpec::Fail(LiteSessionError::InvalidBytesForBlake3)
                    } else {
                        let data = crate::data::parse_data(vstd::utf8::decode_utf8(plain)).unwrap();
                        let recomputed = tag_digest(
                            server_key,
                            fields[0],
                            issued,
                            expiry,
                            fields[3],
                            fields[4],
                            fields[5],
                        );
                        if recomputed == hex_decode_bytes(encode_utf8(fields[6])) {
                            VerifySpec::Authentic(
                                ParsedToken {
                                    identifier: fields[0],
                                    issued,
                                    expiry,
                                    cipher_hex: fields[3],
                                    nonce: fields[4],
                                    confidentiality,
                                    data,
                                    tag: recomputed,
                                },
                            )
                        } else {
                            VerifySpec::Rejected
                        }
                    }
                }
            }
        }
    }
}

/// What parsing and verifying a token does to the token value it is called
/// on: a structural error, an expired token and a rejected token leave the
/// value untouched; only an authentic token commits the parsed fields, the
/// decrypted record and the recomputed tag (the session binding mode is not
/// on the wire and is kept).
pub open spec fn from_string_post(
    before: TokenView,
    after: TokenView,
    r: Result<TokenOutcome, LiteSessionError>,
    server_key: Seq<u8>,
    token: Seq<char>,
    now: TaiTime,
) -> bool {
    match verify_token(server_key, token, now) {
        VerifySpec::Fail(e) => r == Result::<TokenOutcome, LiteSessionError>::Err(e) && after
            == before,
        VerifySpec::Expired => r == Result::<TokenOutcome, LiteSessionError>::Ok(
            TokenOutcome::SessionExpired,
        ) && after == before,
        VerifySpec::Rejected => r == Result::<TokenOutcome, LiteSessionError>::Ok(
            TokenOutcome::TokenRejected,
        ) && after == before,
        VerifySpec::Authentic(p) => r == Result::<TokenOutcome, LiteSessionError>::Ok(
            TokenOutcome::TokenAuthentic,
        ) && after == (TokenView {
            identifier: p.identifier,
            issued: p.issued,
            expiry: p.expiry,
            hmac_data: p.data,
            confidentiality: p.confidentiality,
            hmac: p.tag,
            mode: before.mode,
        }),
    }
}

/// What a successful build yields, for the nonce that was drawn: the wire
/// text of the seven fields, and the recomputed tag committed into the
/// token; every other field keeps its value.
pub open spec fn build_secure_ok(
    before: TokenView,
    after: TokenView,
    server_key: Seq<u8>,
    nonce: Seq<char>,
    wire: Seq<char>,
) -> bool {
    let k = derived_key(server_key, before.identifier, before.issued, before.expiry,
        before.confidentiality);
    let cipher_hex = crate::ciphertext::encrypt_cipher_hex(before.hmac_data, k, nonce);
    let tag = tag_digest(server_key, before.identifier, before.issued, before.expiry, cipher_hex,
        nonce, confidentiality_text(before.confidentiality));
    &&& wire == wire_text(before.identifier, before.issued, before.expiry, cipher_hex, nonce,
        before.confidentiality, tag)
    &&& after == (TokenView { hmac: tag, ..before })
    &&& tag.len() == 32
}

/// The conditions under which a token's fields survive the trip through
/// the wire format: the record round-trips through its own serialization,
/// the identifier holds no token separator, and both timestamps are
/// well-formed.
pub open spec fn token_round_trippable(t: TokenView) -> bool {
    &&& crate::data::data_round_trippable(t.hmac_data)
    &&& forall|j: int| 0 <= j < t.identifier.len() ==> t.identifier[j] != token_sep()
    &&& t.issued.wf()
    &&& t.expiry.wf()
}

/// Token round trip: the wire text built from these fields, under this key
/// and nonce, verifies as authentic under the same key at any time before
/// the expiry, and every field — identifier, timestamps, confidentiality
/// and record — is recovered exactly. The wire text must stay within the
/// size bound, and the tag must be the 32 bytes that the keyed hash
/// returns.
pub proof fn lemma_token_round_trip(
    server_key: Seq<u8>,
    t: TokenView,
    nonce: Seq<char>,
    now: TaiTime,
)
    requires
        is_key_length(server_key),
        token_round_trippable(t),
        vstd::utf8::is_ascii_chars(nonce),
        nonce.len() == 12,
        !crate::tai::tai_le(t.expiry, now),
        ({
            let k = derived_key(server_key, t.identifier, t.issued, t.expiry, t.confidentiality);
            let cipher_hex = crate::ciphertext::encrypt_cipher_hex(t.hmac_data, k, nonce);
            let tag = tag_digest(server_key, t.identifier, t.issued, t.expiry, cipher_hex, nonce,
                confidentiality_text(t.confidentiality));
            encode_utf8(
                wire_text(t.identifier, t.issued, t.expiry, cipher_hex, nonce, t.confidentiality,
                    tag),
            ).len() <= 1048576 && tag.len() == 32
        }),
    ensures
        ({
            let k = derived_key(server_key, t.identifier, t.issued, t.expiry, t.confidentiality);
            let cipher_hex = crate::ciphertext::encrypt_cipher_hex(t.hmac_data, k, nonce);
            let tag = tag_digest(server_key, t.identifier, t.issued, t.expiry, cipher_hex, nonce,
                confidentiality_text(t.confidentiality));
            verify_token(
                server_key,
                wire_text(t.identifier, t.issued, t.expiry, cipher_hex, nonce, t.confidentiality,
                    tag),
                now,
            ) == VerifySpec::Authentic(
                ParsedToken {
                    identifier: t.identifier,
                    issued: t.issued,
                    expiry: t.expiry,
                    cipher_hex,
                    nonce,
                    confidentiality: t.confidentiality,
                    data: t.hmac_data,
                    tag,
                },
            )
        }),
{
    reveal(verify_token);
    let k = derived_key(server_key, t.identifier, t.issued, t.expiry, t.confidentiality);
    let cipher_hex = crate::ciphertext::encrypt_cipher_hex(t.hmac_data, k, nonce);
    let tag = tag_digest(server_key, t.identifier, t.issued, t.expiry, cipher_hex, nonce,
        confidentiality_text(t.confidentiality));
    let wire = wire_text(t.identifier, t.issued, t.expiry, cipher_hex, nonce, t.confidentiality,
        tag);
    let plain0 = encode_utf8(crate::data::serialize_data(t.hmac_data));
    let nonce_bytes = encode_utf8(nonce);
    let cipher_bytes = crate::crypto::chacha8_xor(k, nonce_bytes, plain0);
    let issued_hex = bytes_to_hex(tai_bytes(t.issued));
    let expiry_hex = bytes_to_hex(tai_bytes(t.expiry));
    let conf_text = confidentiality_text(t.confidentiality);
    let tag_hex = bytes_to_hex(tag);
    let parts = seq![t.identifier, issued_hex, expiry_hex, cipher_hex, nonce, conf_text, tag_hex];

    crate::hexcode::lemma_bytes_to_hex_ascii(tai_bytes(t.issued));
    crate::hexcode::lemma_bytes_to_hex_ascii(tai_bytes(t.expiry));
    crate::hexcode::lemma_bytes_to_hex_ascii(cipher_bytes);
    crate::hexcode::lemma_bytes_to_hex_ascii(tag);
    crate::global::lemma_confidentiality_text_wf(t.confidentiality);
    assert(cipher_hex == bytes_to_hex(cipher_bytes));
    assert(!('\0' <= token_sep() <= '\u{7f}'));
    assert forall|i: int, j: int|
        0 <= i < parts.len() && 0 <= j < parts[i].len() implies parts[i][j] != token_sep() by {
        if i == 0 {
            assert(parts[i][j] == t.identifier[j]);
        } else if i == 1 {
            assert('\0' <= issued_hex[j] <= '\u{7f}');
        } else if i == 2 {
            assert('\0' <= expiry_hex[j] <= '\u{7f}');
        } else if i == 3 {
            assert('\0' <= cipher_hex[j] <= '\u{7f}');
        } else if i == 4 {
            assert('\0' <= nonce[j] <= '\u{7f}');
        } else if i == 5 {
            assert('\0' <= conf_text[j] <= '\u{7f}');
        } else {
            assert('\0' <= tag_hex[j] <= '\u{7f}');
        }
    }
    crate::text::lemma_split_join_chars(parts, token_sep());
    let fields = crate::text::split_chars(wire, token_sep());
    assert(fields =~= parts);
    assert(fields[0] == t.identifier);
    assert(fields[1] == issued_hex);
    assert(fields[2] == expiry_hex);
    assert(fields[3] == cipher_hex);
    assert(fields[4] == nonce);
    assert(fields[5] == conf_text);
    assert(fields[6] == tag_hex);

    crate::hexcode::lemma_hex_round_trip(tai_bytes(t.issued));
    crate::tai::lemma_tai_bytes_round_trip(t.issued);
    assert(parse_time_field(fields[1]) == Result::<TaiTime, LiteSessionError>::Ok(t.issued));
    crate::hexcode::lemma_hex_round_trip(tai_bytes(t.expiry));
    crate::tai::lemma_tai_bytes_round_trip(t.expiry);
    assert(parse_time_field(fields[2]) == Result::<TaiTime, LiteSessionError>::Ok(t.expiry));

    crate::hexcode::lemma_hex_round_trip(cipher_bytes);
    assert(hex_decodable(encode_utf8(fields[3])));
    assert(hex_decode_bytes(encode_utf8(fields[3])) =~= cipher_bytes);
    assert(crate::global::confidentiality_of_text(fields[5]) == t.confidentiality);
    vstd::utf8::is_ascii_chars_encode_utf8(nonce);
    assert(encode_utf8(fields[4]).len() == 12);

    crate::crypto::lemma_chacha8_xor_involution(k, nonce_bytes, plain0);
    let plain = crate::crypto::chacha8_xor(k, nonce_bytes, cipher_bytes);
    assert(plain == plain0);
    vstd::utf8::encode_utf8_valid_utf8(crate::data::serialize_data(t.hmac_data));
    vstd::utf8::encode_utf8_decode_utf8(crate::data::serialize_data(t.hmac_data));
    crate::data::lemma_serialize_parse_round_trip(t.hmac_data);
    assert(crate::data::parse_data(vstd::utf8::decode_utf8(plain)) == Option::Some(t.hmac_data));

    crate::hexcode::lemma_hex_round_trip(tag);
    assert(hex_decodable(encode_utf8(fields[6])));
    assert(hex_decode_bytes(encode_utf8(fields[6])) =~= tag);
    assert(tag_digest(server_key, fields[0], t.issued, t.expiry, fields[3], fields[4], fields[5])
        == tag);
    assert(verify_token(server_key, wire, now) == VerifySpec::Authentic(
        ParsedToken {
            identifier: t.identifier,
            issued: t.issued,
            expiry: t.expiry,
            cipher_hex,
            nonce,
            confidentiality: t.confidentiality,
            data: t.hmac_data,
            tag,
        },
    ));
}

/// Token round trip, end to end: a wire token that a build produced (as
/// `build_secure` promises of its result) is verified as authentic by a
/// parse under the same key (as `from_string_at` promises), at any time
/// before the expiry, and the parse recovers the identifier, the
/// timestamps, the confidentiality, the record and the tag; the parsing
/// token's own session binding mode is kept.
pub proof fn lemma_build_then_parse_authentic(
    before: TokenView,
    after: TokenView,
    server_key: Seq<u8>,
    nonce: Seq<char>,
    wire: Seq<char>,
    parse_before: TokenView,
    parse_after: TokenView,
    r: Result<TokenOutcome, LiteSessionError>,
    now: TaiTime,
)
    requires
        is_key_length(server_key),
        token_round_trippable(before),
        vstd::utf8::is_ascii_chars(nonce),
        nonce.len() == 12,
        !crate::tai::tai_le(before.expiry, now),
        build_secure_ok(before, after, server_key, nonce, wire),
        encode_utf8(wire).len() <= 1048576,
        from_string_post(parse_before, parse_after, r, server_key, wire, now),
    ensures
        r == Result::<TokenOutcome, LiteSessionError>::Ok(TokenOutcome::TokenAuthentic),
        parse_after.identifier == before.identifier,
        parse_after.issued == before.issued,
        parse_after.expiry == before.expiry,
        parse_after.hmac_data == before.hmac_data,
        parse_after.confidentiality == before.confidentiality,
        parse_after.hmac == after.hmac,
        parse_after.mode == parse_before.mode,
{
    lemma_token_round_trip(server_key, before, nonce, now);
}

/// A token is accepted as authentic only when the tag it carries is
/// exactly the keyed digest recomputed, under the verifying key, over the
/// fields exactly as carried — the confidentiality field included as raw
/// text. So a change to any carried field that changes that digest, a
/// change to the carried tag, or a verifying key under which the digest
/// differs, can never yield an authentic outcome: tamper or a wrong key go
/// undetected only where the keyed hash itself collides, which no contract
/// of this crate asserts or denies.
pub proof fn lemma_authentic_only_with_matching_tag(
    server_key: Seq<u8>,
    token: Seq<char>,
    now: TaiTime,
)
    requires
        verify_token(server_key, token, now) is Authentic,
    ensures
        ({
            let p = verify_token(server_key, token, now)->Authentic_0;
            let fields = crate::text::split_chars(token, token_sep());
            &&& fields.len() == 7
            &&& p.identifier == fields[0]
            &&& p.cipher_hex == fields[3]
            &&& p.nonce == fields[4]
            &&& p.confidentiality == crate::global::confidentiality_of_text(fields[5])
            &&& p.tag == tag_digest(server_key, fields[0], p.issued, p.expiry, fields[3],
                fields[4], fields[5])
            &&& hex_decodable(encode_utf8(fields[6]))
            &&& hex_decode_bytes(encode_utf8(fields[6])) == p.tag
        }),
{
    reveal(verify_token);
}

/// Expiry precedence: a token whose expiry has passed is reported expired
/// before the server key is even examined, so the same expired outcome
/// comes back under any key, right or wrong.
pub proof fn lemma_expiry_precedence(server_key: Seq<u8>, token: Seq<char>, now: TaiTime)
    requires
        encode_utf8(token).len() <= 1048576,
        crate::text::split_chars(token, token_sep()).len() == 7,
        parse_time_field(crate::text::split_chars(token, token_sep())[1]) is Ok,
        parse_time_field(crate::text::split_chars(token, token_sep())[2]) is Ok,
        crate::tai::tai_le(
            parse_time_field(crate::text::split_chars(token, token_sep())[2]).unwrap(),
            now,
        ),
    ensures
        verify_token(server_key, token, now) == VerifySpec::Expired,
{
    reveal(verify_token);
}

/// Key length guard: once a token is structurally sound through its
/// timestamps and not yet expired, a server key that is not exactly 32
/// bytes is the very next thing rejected.
pub proof fn lemma_key_length_guard(server_key: Seq<u8>, token: Seq<char>, now: TaiTime)
    requires
        encode_utf8(token).len() <= 1048576,
        crate::text::split_chars(token, token_sep()).len() == 7,
        parse_time_field(crate::text::split_chars(token, token_sep())[1]) is Ok,
        parse_time_field(crate::text::split_chars(token, token_sep())[2]) is Ok,
        !crate::tai::tai_le(
            parse_time_field(crate::text::split_chars(token, token_sep())[2]).unwrap(),
            now,
        ),
        !is_key_length(server_key),
    ensures
        verify_token(server_key, token, now) == VerifySpec::Fail(
            LiteSessionError::ServerKeyLengthError,
        ),
{
    reveal(verify_token);
}

/// Oversize guard: a token larger than the 1 MiB bound is rejected
/// outright, whatever the key and the time.
pub proof fn lemma_oversize_guard(server_key: Seq<u8>, token: Seq<char>, now: TaiTime)
    requires
        encode_utf8(token).len() > 1048576,
    ensures
        verify_token(server_key, token, now) == VerifySpec::Fail(
            LiteSessionError::TokenSizeTooLarge,
        ),
{
    reveal(verify_token);
}

/// The token structure that performs the token operations.
#[derive(Debug)]
pub struct LiteSessionToken {
    identifier: String,
    issued: TaiTime,
    expiry: TaiTime,
    hmac_data: LiteSessionData,
    confidentiality: ConfidentialityMode,
    hmac: Vec<u8>,
    mode: LiteSessionMode,
}

/// Specification-level value of a `LiteSessionToken`.
#[verifier::ext_equal]
pub struct TokenView {
    /// The token's identifier text.
    pub identifier: Seq<char>,
    /// When the token was issued.
    pub issued: TaiTime,
    /// When the session the token carries expires.
    pub expiry: TaiTime,
    /// The identity record the token carries.
    pub hmac_data: DataView,
    /// Whether the record travels encrypted.
    pub confidentiality: ConfidentialityMode,
    /// The token's authentication tag.
    pub hmac: Seq<u8>,
    /// Whether the token is bound to a transport session identifier.
    pub mode: ModeView,
}

impl View for LiteSessionToken {
    type V = TokenView;

    closed spec fn view(&self) -> TokenView {
        TokenView {
            identifier: self.identifier@,
            issued: self.issued,
            expiry: self.expiry,
            hmac_data: self.hmac_data@,
            confidentiality: self.confidentiality,
            hmac: self.hmac@,
            mode: self.mode@,
        }
    }
}

/// True when the byte sequence holds exactly 32 bytes, the length of both
/// the server key and a keyed digest.
pub open spec fn is_key_length(key: Seq<u8>) -> bool {
    key.len() == 32
}

/// Concatenates the key-derivation message and takes its keyed digest.
fn derive_key_exec(
    key: &[u8],
    identifier: &str,
    issued: &TaiTime,
    expiry: &TaiTime,
    confidentiality: &ConfidentialityMode,
) -> (r: Vec<u8>)
    requires
        is_key_length(key@),
    ensures
        r@ == derived_key(key@, identifier@, *issued, *expiry, *confidentiality),
        is_key_length(r@),
{
    let mut raw_key = String::new();
    let issued_bytes = issued.to_bytes();
    let expiry_bytes = expiry.to_bytes();
    let issued_hex = hex_encode(issued_bytes.as_slice());
    let expiry_hex = hex_encode(expiry_bytes.as_slice());
    raw_key.append(identifier);
    raw_key.append(issued_hex.as_str());
    raw_key.append(expiry_hex.as_str());
    raw_key.append(ConfidentialityMode::to_string(confidentiality));
    keyed_hash(key, raw_key.as_str().as_bytes())
}

/// Concatenates the tag message and takes its keyed digest; the
/// confidentiality portion is handed in as text, so the verifying side can
/// pass the field exactly as the wire carries it.
fn tag_exec(
    key: &[u8],
    identifier: &str,
    issued: &TaiTime,
    expiry: &TaiTime,
    ciphertext: &str,
    nonce: &str,
    mode_text: &str,
) -> (r: Vec<u8>)
    requires
        is_key_length(key@),
    ensures
        r@ == tag_digest(key@, identifier@, *issued, *expiry, ciphertext@, nonce@, mode_text@),
        is_key_length(r@),
{
    let mut prepare_hmac = String::new();
    let issued_bytes = issued.to_bytes();
    let expiry_bytes = expiry.to_bytes();
    let issued_hex = hex_encode(issued_bytes.as_slice());
    let expiry_hex = hex_encode(expiry_bytes.as_slice());
    prepare_hmac.append(identifier);
    prepare_hmac.append(issued_hex.as_str());
    prepare_hmac.append(expiry_hex.as_str());
    prepare_hmac.append(ciphertext);
    prepare_hmac.append(nonce);
    prepare_hmac.append(mode_text);
    keyed_hash(key, prepare_hmac.as_str().as_bytes())
}

/// Expanding the join of the seven wire fields into plain concatenation.
proof fn lemma_wire_join(
    p0: Seq<char>,
    p1: Seq<char>,
    p2: Seq<char>,
    p3: Seq<char>,
    p4: Seq<char>,
    p5: Seq<char>,
    p6: Seq<char>,
)
    ensures
        join_chars_token(seq![p0, p1, p2, p3, p4, p5, p6]) =~= p0 + seq![token_sep()] + p1 + seq![
            token_sep(),
        ] + p2 + seq![token_sep()] + p3 + seq![token_sep()] + p4 + seq![token_sep()] + p5 + seq![
            token_sep(),
        ] + p6,
{
    let sep = token_sep();
    crate::text::lemma_join_chars_push(seq![p0], sep, p1);
    crate::text::lemma_join_chars_push(seq![p0, p1], sep, p2);
    crate::text::lemma_join_chars_push(seq![p0, p1, p2], sep, p3);
    crate::text::lemma_join_chars_push(seq![p0, p1, p2, p3], sep, p4);
    crate::text::lemma_join_chars_push(seq![p0, p1, p2, p3, p4], sep, p5);
    crate::text::lemma_join_chars_push(seq![p0, p1, p2, p3, p4, p5], sep, p6);
    assert(seq![p0].push(p1) =~= seq![p0, p1]);
    assert(seq![p0, p1].push(p2) =~= seq![p0, p1, p2]);
    assert(seq![p0, p1, p2].push(p3) =~= seq![p0, p1, p2, p3]);
    assert(seq![p0, p1, p2, p3].push(p4) =~= seq![p0, p1, p2, p3, p4]);
    assert(seq![p0, p1, p2, p3, p4].push(p5) =~= seq![p0, p1, p2, p3, p4, p5]);
    assert(seq![p0, p1, p2, p3, p4, p5].push(p6) =~= seq![p0, p1, p2, p3, p4, p5, p6]);
}

/// True when the two byte vectors hold the same bytes. The lengths are
/// compared openly; equal-length vectors are then compared without an
/// early exit, folding every byte difference into one accumulator, so the
/// time taken does not depend on where the vectors first differ — the
/// digest comparison that gates authentication runs through here.
fn bytes_eq(a: &Vec<u8>, b: &Vec<u8>) -> (r: bool)
    ensures
        r == (a@ == b@),
{
    if a.len() != b.len() {
        return false;
    }
    let mut difference: u8 = 0;
    let mut i: usize = 0;
    while i < a.len()
        invariant
            i <= a@.len(),
            a@.len() == b@.len(),
            (difference == 0) <==> (forall|j: int| 0 <= j < i ==> a@[j] == b@[j]),
        decreases a@.len() - i,
    {
        let ghost old_difference = difference;
        difference = difference | (a[i] ^ b[i]);
        proof {
            let x = a@[i as int];
            let y = b@[i as int];
            assert(((old_difference | (x ^ y)) == 0) == (old_difference == 0 && x == y))
                by (bit_vector);
        }
        i = i + 1;
    }
    proof {
        if difference == 0 {
            assert(a@ =~= b@);
        }
    }
    difference == 0
}

impl Default for LiteSessionToken {
    /// A fresh token: a random 32-character identifier, issued now and
    /// expiring 24 hours later, an empty record, high confidentiality, the
    /// digest of the empty message as a placeholder tag, and no session
    /// binding.
    fn default() -> (r: Self)
        ensures
            r@.identifier.len() == 32,
            forall|i: int|
                0 <= i < r@.identifier.len() ==> rng_alphabet().contains(#[trigger] r@.identifier[i]),
            r@.issued.wf(),
            r@.expiry == tai_plus_secs(r@.issued, 86400),
            r@.hmac_data.username == Seq::<char>::empty(),
            r@.hmac_data.role == crate::global::RoleView::User,
            r@.hmac_data.tag == Option::<Seq<char>>::None,
            r@.hmac_data.acl == Seq::<Seq<char>>::empty(),
            r@.confidentiality == ConfidentialityMode::High,
            r@.hmac == blake3_plain(Seq::<u8>::empty()),
            r@.mode == ModeView::Passive,
    {
        let now = tai_now();
        let default_expiry = hours_to_secs(24);
        let empty_message: Vec<u8> = Vec::new();
        proof {
            assert(empty_message@ =~= Seq::<u8>::empty());
        }
        let hmac_default = plain_hash(empty_message.as_slice());
        Self {
            identifier: SessionTokenRng::alphanumeric(),
            issued: now,
            expiry: now.plus_secs(default_expiry),
            hmac_data: LiteSessionData::default(),
            confidentiality: ConfidentialityMode::default(),
            hmac: hmac_default,
            mode: LiteSessionMode::Passive,
        }
    }
}

impl PartialEq for LiteSessionToken {
    /// Token equality compares the identifier, the timestamps, the record,
    /// the tag and the session binding; the confidentiality field is not
    /// part of the comparison.
    fn eq(&self, other: &Self) -> (r: bool) {
        self.identifier.eq(&other.identifier) && self.issued == other.issued && self.expiry
            == other.expiry && self.hmac_data.eq(&other.hmac_data) && bytes_eq(
            &self.hmac,
            &other.hmac,
        ) && self.mode.eq(&other.mode)
    }
}

impl vstd::std_specs::cmp::PartialEqSpecImpl for LiteSessionToken {
    open spec fn obeys_eq_spec() -> bool {
        true
    }

    open spec fn eq_spec(&self, other: &Self) -> bool {
        &&& self@.identifier == other@.identifier
        &&& self@.issued == other@.issued
        &&& self@.expiry == other@.expiry
        &&& self@.hmac_data == other@.hmac_data
        &&& self@.hmac == other@.hmac
        &&& self@.mode == other@.mode
    }
}

impl Clone for LiteSessionToken {
    fn clone(&self) -> (r: Self)
        ensures
            r@ == self@,
    {
        let r = Self {
            identifier: self.identifier.clone(),
            issued: self.issued,
            expiry: self.expiry,
            hmac_data: self.hmac_data.clone(),
            confidentiality: self.confidentiality,
            hmac: self.hmac.clone(),
            mode: self.mode.clone(),
        };
        proof {
            assert(r@ =~= self@);
        }
        r
    }
}

impl LiteSessionToken {
    /// Set a custom identifier for the token.
    pub fn identifier(&mut self, identifier: &str) -> (ret: &mut Self)
        ensures
            ret@ == (TokenView { identifier: identifier@, ..old(self)@ }),
            *final(self) == *final(ret),
    {
        self.identifier = identifier.to_owned();
        self
    }

    /// Set a custom expiry, a number of seconds past the issue time; the
    /// default expiry is 24 hours.
    pub fn expiry(&mut self, expiry_in_secs: u64) -> (ret: &mut Self)
        ensures
            ret@ == (TokenView {
                expiry: tai_plus_secs(old(self)@.issued, expiry_in_secs),
                ..old(self)@
            }),
            *final(self) == *final(ret),
    {
        self.expiry = self.issued.plus_secs(expiry_in_secs);
        self
    }

    /// Set the record that describes the token and its capabilities.
    pub fn hmac_data(&mut self, data: LiteSessionData) -> (ret: &mut Self)
        ensures
            ret@ == (TokenView { hmac_data: data@, ..old(self)@ }),
            *final(self) == *final(ret),
    {
        self.hmac_data = data;
        self
    }

    /// Choose the security mode: `true` selects high confidentiality,
    /// `false` low.
    pub fn confidential(&mut self, bool_choice: bool) -> (ret: &mut Self)
        ensures
            ret@ == (TokenView {
                confidentiality: if bool_choice {
                    ConfidentialityMode::High
                } else {
                    ConfidentialityMode::Low
                },
                ..old(self)@
            }),
            *final(self) == *final(ret),
    {
        match bool_choice {
            true => self.confidentiality = ConfidentialityMode::High,
            false => self.confidentiality = ConfidentialityMode::Low,
        }
        self
    }

    /// Set the session mode: bound to a session identifier or passive.
    pub fn mode(&mut self, mode: LiteSessionMode) -> (ret: &mut Self)
        ensures
            ret@ == (TokenView { mode: mode@, ..old(self)@ }),
            *final(self) == *final(ret),
    {
        self.mode = mode;
        self
    }

    /// Borrow the token immutably.
    pub fn immutable(&mut self) -> (ret: &Self)
        ensures
            ret@ == old(self)@,
            *final(self) == *old(self),
    {
        self
    }

    /// Get the identifier text.
    pub fn get_identifier(&self) -> (r: &String)
        ensures
            r@ == self@.identifier,
    {
        &self.identifier
    }

    /// Get the issue timestamp.
    pub fn get_issued(&self) -> (r: &TaiTime)
        ensures
            *r == self@.issued,
    {
        &self.issued
    }

    /// Get the expiry timestamp.
    pub fn get_expiry(&self) -> (r: &TaiTime)
        ensures
            *r == self@.expiry,
    {
        &self.expiry
    }

    /// Get the record the token carries.
    pub fn get_hmac_data(&self) -> (r: &LiteSessionData)
        ensures
            r@ == self@.hmac_data,
    {
        &self.hmac_data
    }

    /// Get the confidentiality mode.
    pub fn get_confidentiality(&self) -> (r: &ConfidentialityMode)
        ensures
            *r == self@.confidentiality,
    {
        &self.confidentiality
    }

    /// Get the session binding mode.
    pub fn get_mode(&self) -> (r: &LiteSessionMode)
        ensures
            r@ == self@.mode,
    {
        &self.mode
    }

    fn separator() -> (c: char)
        ensures
            c == token_sep(),
    {
        '⊕'
    }

    fn transform_key(&self, server_key: &[u8]) -> (r: Result<Vec<u8>, LiteSessionError>)
        ensures
            r is Ok <==> is_key_length(server_key@),
            r is Ok ==> r.unwrap()@ == server_key@,
            r is Err ==> r.unwrap_err() == LiteSessionError::ServerKeyLengthError,
    {
        if server_key.len() == 32 {
            Result::Ok(slice_to_vec(server_key))
        } else {
            Result::Err(LiteSessionError::ServerKeyLengthError)
        }
    }

    /// The per-token encryption key, derived from the wire-visible fields
    /// and never transmitted itself.
    fn get_key(&self, key: &[u8]) -> (r: Vec<u8>)
        requires
            is_key_length(key@),
        ensures
            r@ == derived_key(key@, self@.identifier, self@.issued, self@.expiry,
                self@.confidentiality),
            is_key_length(r@),
    {
        derive_key_exec(key, self.identifier.as_str(), &self.issued, &self.expiry,
            &self.confidentiality)
    }

    fn compute_hmac(&self, server_key: &[u8], ciphertext: &str, nonce: &str) -> (r: Vec<u8>)
        requires
            is_key_length(server_key@),
        ensures
            r@ == tag_digest(server_key@, self@.identifier, self@.issued, self@.expiry,
                ciphertext@, nonce@, confidentiality_text(self@.confidentiality)),
            is_key_length(r@),
    {
        tag_exec(server_key, self.identifier.as_str(), &self.issued, &self.expiry, ciphertext,
            nonce, ConfidentialityMode::to_string(&self.confidentiality))
    }

    /// Build the wire token: derive the per-token key, encrypt the record
    /// under it with a fresh nonce, compute the authentication tag over the
    /// assembled fields, commit the tag into the token, and concatenate the
    /// seven fields. The record must hold a capability and its canonical
    /// text must stay below the cipher's input bound. The only failure is a
    /// server key that is not exactly 32 bytes, which leaves the token
    /// unchanged.
    pub fn build_secure(&mut self, server_key: &[u8]) -> (r: Result<String, LiteSessionError>)
        requires
            old(self)@.hmac_data.acl.len() >= 1,
            encode_utf8(crate::data::serialize_data(old(self)@.hmac_data)).len()
                < crate::crypto::cipher_input_bound(),
        ensures
            r is Err <==> !is_key_length(server_key@),
            r is Err ==> r.unwrap_err() == LiteSessionError::ServerKeyLengthError && *final(self)
                == *old(self),
            r is Ok ==> exists|nonce: Seq<char>|
                {
                    &&& #[trigger] vstd::utf8::is_ascii_chars(nonce)
                    &&& nonce.len() == 12
                    &&& forall|i: int|
                        0 <= i < nonce.len() ==> crate::global::rng_alphabet().contains(
                            #[trigger] nonce[i],
                        )
                    &&& build_secure_ok(old(self)@, final(self)@, server_key@, nonce, r.unwrap()@)
                },
    {
        if server_key.len() != 32 {
            return Result::Err(LiteSessionError::ServerKeyLengthError);
        }
        let issued_bytes = self.issued.to_bytes();
        let expiry_bytes = self.expiry.to_bytes();
        let issue_time = hex_encode(issued_bytes.as_slice());
        let expiry_time = hex_encode(expiry_bytes.as_slice());

        let server_key_owned = match self.transform_key(server_key) {
            Result::Ok(k) => k,
            Result::Err(e) => {
                return Result::Err(e);
            },
        };
        let encryption_key = self.get_key(server_key_owned.as_slice());
        let mut cipher_data = CipherText::default();
        match cipher_data.encrypt(&self.hmac_data, encryption_key.as_slice()) {
            Result::Ok(()) => (),
            Result::Err(e) => {
                return Result::Err(e);
            },
        }
        let hmac = self.compute_hmac(
            server_key_owned.as_slice(),
            cipher_data.cipher.as_str(),
            cipher_data.nonce.as_str(),
        );
        self.hmac = hmac;
        let hmac_hex = hex_encode(self.hmac.as_slice());

        let mut token = String::new();
        token.append(self.identifier.as_str());
        crate::text::push_char(&mut token, Self::separator());
        token.append(issue_time.as_str());
        crate::text::push_char(&mut token, Self::separator());
        token.append(expiry_time.as_str());
        crate::text::push_char(&mut token, Self::separator());
        token.append(cipher_data.cipher.as_str());
        crate::text::push_char(&mut token, Self::separator());
        token.append(cipher_data.nonce.as_str());
        crate::text::push_char(&mut token, Self::separator());
        token.append(ConfidentialityMode::to_string(&self.confidentiality));
        crate::text::push_char(&mut token, Self::separator());
        token.append(hmac_hex.as_str());
        proof {
            let nonce = choose|n: Seq<char>|
                {
                    &&& #[trigger] vstd::utf8::is_ascii_chars(n)
                    &&& n.len() == 12
                    &&& forall|i: int|
                        0 <= i < n.len() ==> crate::global::rng_alphabet().contains(
                            #[trigger] n[i],
                        )
                    &&& cipher_data.nonce@ == n
                    &&& cipher_data.cipher@ == crate::ciphertext::encrypt_cipher_hex(
                        old(self)@.hmac_data,
                        encryption_key@,
                        n,
                    )
                };
            lemma_wire_join(
                old(self)@.identifier,
                bytes_to_hex(tai_bytes(old(self)@.issued)),
                bytes_to_hex(tai_bytes(old(self)@.expiry)),
                cipher_data.cipher@,
                nonce,
                confidentiality_text(old(self)@.confidentiality),
                bytes_to_hex(self@.hmac),
            );
            assert(token@ =~= wire_text(
                old(self)@.identifier,
                old(self)@.issued,
                old(self)@.expiry,
                cipher_data.cipher@,
                nonce,
                old(self)@.confidentiality,
                self@.hmac,
            ));
            assert(self@ =~= (TokenView { hmac: self@.hmac, ..old(self)@ }));
            assert(build_secure_ok(old(self)@, self@, server_key@, nonce, token@));
        }
        Result::Ok(token)
    }

    /// Parse and verify a wire token at the given time, against the given
    /// server key, following the ordered checks of `verify_token`: the
    /// parsed fields are committed into this token only when the outcome is
    /// authentic; a structural error, an expired session and a rejected
    /// token leave it untouched.
    #[verifier::rlimit(100)]
    #[verifier::spinoff_prover]
    pub fn from_string_at(&mut self, server_key: &[u8], token: &str, now: &TaiTime) -> (r: Result<
        TokenOutcome,
        LiteSessionError,
    >)
        ensures
            from_string_post(old(self)@, final(self)@, r, server_key@, token@, *now),
    {
        proof {
            reveal(verify_token);
        }
        let ghost spec_result = verify_token(server_key@, token@, *now);
        if crate::text::str_byte_len(token) > 1048576 {
            proof {
                reveal(verify_token);
                assert(spec_result == VerifySpec::Fail(LiteSessionError::TokenSizeTooLarge));
            }
            return Result::Err(LiteSessionError::TokenSizeTooLarge);
        }
        let fields = crate::text::split_str(token, Self::separator());
        let ghost vfields = crate::text::split_chars(token@, token_sep());
        if fields.len() != 7 {
            proof {
                reveal(verify_token);
                assert(spec_result == VerifySpec::Fail(LiteSessionError::TokenFieldsLengthError));
            }
            return Result::Err(LiteSessionError::TokenFieldsLengthError);
        }
        proof {
            assert(fields.deep_view() =~= vfields);
            assert(fields.deep_view()[0] == vfields[0]);
            assert(fields.deep_view()[1] == vfields[1]);
            assert(fields.deep_view()[2] == vfields[2]);
            assert(fields.deep_view()[3] == vfields[3]);
            assert(fields.deep_view()[4] == vfields[4]);
            assert(fields.deep_view()[5] == vfields[5]);
            assert(fields.deep_view()[6] == vfields[6]);
        }
        let issued = match self.tai_time(fields[1].as_str()) {
            Result::Ok(t) => t,
            Result::Err(e) => {
                proof {
                    reveal(verify_token);
                    assert(parse_time_field(vfields[1]) == Result::<TaiTime, LiteSessionError>::Err(
                        e,
                    ));
                    assert(spec_result == VerifySpec::Fail(e));
                }
                return Result::Err(e);
            },
        };
        let expiry = match self.tai_time(fields[2].as_str()) {
            Result::Ok(t) => t,
            Result::Err(e) => {
                proof {
                    reveal(verify_token);
                    assert(parse_time_field(vfields[1]) == Result::<TaiTime, LiteSessionError>::Ok(
                        issued,
                    ));
                    assert(parse_time_field(vfields[2]) == Result::<TaiTime, LiteSessionError>::Err(
                        e,
                    ));
                    assert(spec_result == VerifySpec::Fail(e));
                }
                return Result::Err(e);
            },
        };
        proof {
            assert(parse_time_field(vfields[1]) == Result::<TaiTime, LiteSessionError>::Ok(issued));
            assert(parse_time_field(vfields[2]) == Result::<TaiTime, LiteSessionError>::Ok(expiry));
        }
        if expiry.le(now) {
            proof {
                reveal(verify_token);
                assert(spec_result == VerifySpec::Expired);
            }
            return Result::Ok(TokenOutcome::SessionExpired);
        }
        let server_key_owned = match self.transform_key(server_key) {
            Result::Ok(k) => k,
            Result::Err(e) => {
                proof {
                    assert(spec_result == VerifySpec::Fail(LiteSessionError::ServerKeyLengthError));
                }
                return Result::Err(e);
            },
        };
        let confidentiality = ConfidentialityMode::from_string(fields[5].as_str());
        let mut ciphertext_bytes = match hex_decode(fields[3].as_str()) {
            Option::Some(bytes) => bytes,
            Option::None => {
                proof {
                    assert(spec_result == VerifySpec::Fail(LiteSessionError::InvalidHexString));
                }
                return Result::Err(LiteSessionError::InvalidHexString);
            },
        };
        let encryption_key = derive_key_exec(
            server_key_owned.as_slice(),
            fields[0].as_str(),
            &issued,
            &expiry,
            &confidentiality,
        );
        proof {
            assert(encryption_key@ == derived_key(server_key@, vfields[0], issued, expiry,
                crate::global::confidentiality_of_text(vfields[5])));
            // The ciphertext bytes come from one field of a wire bounded
            // by the size check, so they stay far below the cipher bound.
            crate::text::lemma_split_chars_segment_len(token@, token_sep());
            crate::text::lemma_encode_utf8_len(vfields[3]);
            crate::text::lemma_encode_utf8_len(token@);
            assert(ciphertext_bytes@.len() < crate::crypto::cipher_input_bound());
        }
        let cipher_ops = CipherText::default();
        let data = match cipher_ops.decrypt(
            encryption_key.as_slice(),
            &mut ciphertext_bytes,
            fields[4].as_str().as_bytes(),
        ) {
            Result::Ok(d) => d,
            Result::Err(e) => {
                proof {
                    reveal(verify_token);
                    assert(spec_result == VerifySpec::Fail(e));
                }
                return Result::Err(e);
            },
        };
        let hmac = tag_exec(
            server_key_owned.as_slice(),
            fields[0].as_str(),
            &issued,
            &expiry,
            fields[3].as_str(),
            fields[4].as_str(),
            fields[5].as_str(),
        );
        let carried = match self.to_hmac(fields[6].as_str()) {
            Result::Ok(h) => h,
            Result::Err(e) => {
                proof {
                    reveal(verify_token);
                    assert(spec_result == VerifySpec::Fail(e));
                }
                return Result::Err(e);
            },
        };
        if !bytes_eq(&hmac, &carried) {
            proof {
                reveal(verify_token);
                assert(spec_result == VerifySpec::Rejected);
            }
            return Result::Ok(TokenOutcome::TokenRejected);
        }
        proof {
            reveal(verify_token);
            assert(spec_result matches VerifySpec::Authentic(p) && p == (ParsedToken {
                identifier: vfields[0],
                issued,
                expiry,
                cipher_hex: vfields[3],
                nonce: vfields[4],
                confidentiality,
                data: data@,
                tag: hmac@,
            }));
        }
        self.identifier = fields[0].clone();
        self.issued = issued;
        self.expiry = expiry;
        self.confidentiality = confidentiality;
        self.hmac_data = data;
        self.hmac = hmac;
        proof {
            assert(self@ =~= (TokenView {
                identifier: vfields[0],
                issued,
                expiry,
                hmac_data: self@.hmac_data,
                confidentiality,
                hmac: self@.hmac,
                mode: old(self)@.mode,
            }));
        }
        Result::Ok(TokenOutcome::TokenAuthentic)
    }

    /// Parse and verify a wire token against the clock: the ordered checks
    /// of `verify_token` run at the moment the call reads the clock. An
    /// oversized token is always rejected outright, before any parsing.
    #[verifier::rlimit(100)]
    #[verifier::spinoff_prover]
    pub fn from_string(&mut self, server_key: &[u8], token: &str) -> (r: Result<
        TokenOutcome,
        LiteSessionError,
    >)
        ensures
            exists|now: TaiTime|
                now.wf() && #[trigger] from_string_post(
                    old(self)@,
                    final(self)@,
                    r,
                    server_key@,
                    token@,
                    now,
                ),
            encode_utf8(token@).len() > 1048576 ==> r == Result::<
                TokenOutcome,
                LiteSessionError,
            >::Err(LiteSessionError::TokenSizeTooLarge) && final(self)@ == old(self)@,
    {
        let now = tai_now();
        let r = self.from_string_at(server_key, token, &now);
        proof {
            if encode_utf8(token@).len() > 1048576 {
                reveal(verify_token);
                assert(verify_token(server_key@, token@, now) == VerifySpec::Fail(
                    LiteSessionError::TokenSizeTooLarge,
                ));
            }
        }
        r
    }

    fn tai_time(&self, hex_str: &str) -> (r: Result<TaiTime, LiteSessionError>)
        ensures
            !hex_decodable(hex_str.spec_bytes()) ==> r == Result::<TaiTime, LiteSessionError>::Err(
                LiteSessionError::InvalidHexString,
            ),
            hex_decodable(hex_str.spec_bytes()) && parse_tai_bytes(
                hex_decode_bytes(hex_str.spec_bytes()),
            ) is None ==> r == Result::<TaiTime, LiteSessionError>::Err(
                LiteSessionError::InvalidTai64NTime,
            ),
            hex_decodable(hex_str.spec_bytes()) && parse_tai_bytes(
                hex_decode_bytes(hex_str.spec_bytes()),
            ) is Some ==> r == Result::<TaiTime, LiteSessionError>::Ok(
                parse_tai_bytes(hex_decode_bytes(hex_str.spec_bytes())).unwrap(),
            ),
    {
        let tai_bytes = match hex_decode(hex_str) {
            Option::Some(bytes) => bytes,
            Option::None => {
                return Result::Err(LiteSessionError::InvalidHexString);
            },
        };
        match TaiTime::from_bytes(&tai_bytes) {
            Option::Some(tai_time) => Result::Ok(tai_time),
            Option::None => Result::Err(LiteSessionError::InvalidTai64NTime),
        }
    }

    fn to_hmac(&self, hash_hex: &str) -> (r: Result<Vec<u8>, LiteSessionError>)
        ensures
            !hex_decodable(hash_hex.spec_bytes()) ==> r == Result::<Vec<u8>, LiteSessionError>::Err(
                LiteSessionError::InvalidHexString,
            ),
            hex_decodable(hash_hex.spec_bytes()) && hex_decode_bytes(hash_hex.spec_bytes()).len()
                != 32 ==> r == Result::<Vec<u8>, LiteSessionError>::Err(
                LiteSessionError::InvalidBytesForBlake3,
            ),
            hex_decodable(hash_hex.spec_bytes()) && hex_decode_bytes(hash_hex.spec_bytes()).len()
                == 32 ==> r is Ok && r.unwrap()@ == hex_decode_bytes(hash_hex.spec_bytes()),
    {
        let hash_bytes = match hex_decode(hash_hex) {
            Option::None => {
                return Result::Err(LiteSessionError::InvalidHexString);
            },
            Option::Some(bytes) => bytes,
        };
        if hash_bytes.len() != 32 {
            return Result::Err(LiteSessionError::InvalidBytesForBlake3);
        }
        Result::Ok(hash_bytes)
    }
}

} // verus!
