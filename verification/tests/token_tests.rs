use chacha20::cipher::KeyIvInit;
use chacha20::cipher::StreamCipher;
use lite_session::{
    ConfidentialityMode, LiteSessionData, LiteSessionError, LiteSessionMode, LiteSessionToken,
    Role, TaiTime, TokenOutcome,
};

fn sample_data() -> LiteSessionData {
    let mut data = LiteSessionData::default();
    data.username("foo_user");
    data.role(Role::SuperUser);
    data.tag("Foo-Tag");
    data.add_acl("Network-TCP");
    data.add_acl("Network-UDP");
    data
}

#[test]
fn tokens() -> Result<(), LiteSessionError> {
    let mut token = LiteSessionToken::default();
    assert_eq!(token.get_identifier().len(), 32_usize);

    let change_expiry = lite_session::hours_to_secs(32);
    token.expiry(change_expiry);
    let expected_expiry = token.get_issued().plus_secs(change_expiry);
    assert_eq!(token.get_expiry(), &expected_expiry);

    let data = sample_data();
    token.hmac_data(data.clone());
    assert_eq!(token.get_hmac_data(), &data);

    token.confidential(false);
    assert_eq!(token.get_confidentiality(), &ConfidentialityMode::Low);
    token.confidential(true);
    assert_eq!(token.get_confidentiality(), &ConfidentialityMode::High);

    token.mode(LiteSessionMode::SessionID("foobarbaz".into()));
    assert_eq!(
        token.get_mode(),
        &LiteSessionMode::SessionID("foobarbaz".into())
    );
    assert_ne!(
        token.get_mode(),
        &LiteSessionMode::SessionID("garbage".into())
    );
    token.mode(LiteSessionMode::Passive);
    assert_eq!(token.get_mode(), &LiteSessionMode::Passive);

    {
        let bad_key = [0_u8; 5];
        assert_eq!(
            token.build_secure(&bad_key),
            Err(LiteSessionError::ServerKeyLengthError)
        );
    }

    {
        let server_key = [0_u8; 32];
        let session_token = token.build_secure(&server_key)?;

        let mut destructured = LiteSessionToken::default();
        let outcome = destructured.from_string(&server_key, &session_token)?;

        assert_eq!(outcome, TokenOutcome::TokenAuthentic);
        assert_eq!(&destructured, token.immutable());
    }

    {
        let server_key = [0_u8; 32];
        let session_token = token.build_secure(&server_key)?;

        let mut destructured = LiteSessionToken::default();
        let outcome = destructured.from_string(&[1_u8; 32], &session_token);

        assert_eq!(outcome, Err(LiteSessionError::FromUtf8TokenError));
    }

    Ok(())
}

#[test]
fn round_trip_recovers_fields() -> Result<(), LiteSessionError> {
    let mut token = LiteSessionToken::default();
    token.identifier("q7rd2kfbu0x5sm34hw8zejap19nycvt6");
    token.hmac_data(sample_data());
    let server_key = [3_u8; 32];
    let wire = token.build_secure(&server_key)?;

    let mut parsed = LiteSessionToken::default();
    let outcome = parsed.from_string(&server_key, &wire)?;
    assert_eq!(outcome, TokenOutcome::TokenAuthentic);
    assert_eq!(parsed.get_identifier(), "q7rd2kfbu0x5sm34hw8zejap19nycvt6");
    assert_eq!(parsed.get_issued(), token.get_issued());
    assert_eq!(parsed.get_expiry(), token.get_expiry());
    assert_eq!(parsed.get_hmac_data(), token.get_hmac_data());
    assert_eq!(parsed.get_confidentiality(), &ConfidentialityMode::High);
    Ok(())
}

#[test]
fn tampered_ciphertext_is_rejected() -> Result<(), LiteSessionError> {
    let mut token = LiteSessionToken::default();
    token.hmac_data(sample_data());
    let server_key = [0_u8; 32];
    let wire = token.build_secure(&server_key)?;

    let mut fields: Vec<String> = wire.split('⊕').map(|f| f.to_owned()).collect();
    assert_eq!(fields.len(), 7);
    // Flip the last hexadecimal digit of the ciphertext: the low nibble of
    // the last plaintext byte changes, which keeps the decrypted text ASCII
    // and parseable, so only the tag comparison can catch the change.
    let mut cipher_field: Vec<char> = fields[3].chars().collect();
    let last = cipher_field.len() - 1;
    cipher_field[last] = if cipher_field[last] == '0' { '1' } else { '0' };
    fields[3] = cipher_field.into_iter().collect();
    let tampered = fields.join("⊕");
    assert_ne!(tampered, wire);

    let mut parsed = LiteSessionToken::default();
    let outcome = parsed.from_string(&server_key, &tampered)?;
    assert_eq!(outcome, TokenOutcome::TokenRejected);
    Ok(())
}

#[test]
fn tampered_confidentiality_is_rejected() -> Result<(), LiteSessionError> {
    let mut token = LiteSessionToken::default();
    token.hmac_data(sample_data());
    let server_key = [0_u8; 32];
    let wire = token.build_secure(&server_key)?;

    let mut fields: Vec<String> = wire.split('⊕').map(|f| f.to_owned()).collect();
    assert_eq!(fields.len(), 7);
    // Flip the last character of the confidentiality field. The flipped
    // text still decodes to High (the decode is fail-safe), so the derived
    // key and the decryption are unchanged; only the tag, recomputed over
    // the field exactly as carried, can catch the change.
    assert_eq!(fields[5], "ConfidentialityMode::High");
    fields[5] = "ConfidentialityMode::Hugh".to_owned();
    let tampered = fields.join("⊕");

    let mut parsed = LiteSessionToken::default();
    let outcome = parsed.from_string(&server_key, &tampered)?;
    assert_eq!(outcome, TokenOutcome::TokenRejected);
    Ok(())
}

#[test]
fn expiry_precedes_key_checks() -> Result<(), LiteSessionError> {
    let mut token = LiteSessionToken::default();
    token.hmac_data(sample_data());
    token.expiry(0);
    let server_key = [0_u8; 32];
    let wire = token.build_secure(&server_key)?;

    // A wrong key of the right length, and even a key of the wrong length:
    // the expiry check comes before any key is examined.
    let mut parsed = LiteSessionToken::default();
    assert_eq!(
        parsed.from_string(&[9_u8; 32], &wire)?,
        TokenOutcome::SessionExpired
    );
    let mut parsed2 = LiteSessionToken::default();
    assert_eq!(
        parsed2.from_string(&[9_u8; 5], &wire)?,
        TokenOutcome::SessionExpired
    );
    Ok(())
}

#[test]
fn key_length_guard_on_parse() -> Result<(), LiteSessionError> {
    let mut token = LiteSessionToken::default();
    token.hmac_data(sample_data());
    let server_key = [0_u8; 32];
    let wire = token.build_secure(&server_key)?;

    let mut parsed = LiteSessionToken::default();
    let outcome = parsed.from_string(&[0_u8; 31], &wire);
    assert_eq!(outcome, Err(LiteSessionError::ServerKeyLengthError));
    Ok(())
}

#[test]
fn oversize_guard() {
    let mut parsed = LiteSessionToken::default();
    let huge = "a".repeat(1048577);
    assert_eq!(
        parsed.from_string(&[0_u8; 32], &huge),
        Err(LiteSessionError::TokenSizeTooLarge)
    );
    // At the bound itself the size guard stays quiet; the field count is
    // what fails next.
    let mut parsed2 = LiteSessionToken::default();
    let at_bound = "a".repeat(1048576);
    assert_eq!(
        parsed2.from_string(&[0_u8; 32], &at_bound),
        Err(LiteSessionError::TokenFieldsLengthError)
    );
}

#[test]
fn structural_error_variants() -> Result<(), LiteSessionError> {
    let mut token = LiteSessionToken::default();
    token.hmac_data(sample_data());
    let server_key = [0_u8; 32];
    let wire = token.build_secure(&server_key)?;
    let fields: Vec<String> = wire.split('⊕').map(|f| f.to_owned()).collect();

    let mut parsed = LiteSessionToken::default();
    assert_eq!(
        parsed.from_string(&server_key, "too⊕few⊕fields"),
        Err(LiteSessionError::TokenFieldsLengthError)
    );

    // A timestamp field that is not hexadecimal text.
    let mut bad_hex = fields.clone();
    bad_hex[1] = "zz".to_owned();
    assert_eq!(
        parsed.from_string(&server_key, &bad_hex.join("⊕")),
        Err(LiteSessionError::InvalidHexString)
    );

    // Hexadecimal text whose nanosecond part is out of range.
    let mut bad_time = fields.clone();
    bad_time[1] = "4000000000000000ffffffff".to_owned();
    assert_eq!(
        parsed.from_string(&server_key, &bad_time.join("⊕")),
        Err(LiteSessionError::InvalidTai64NTime)
    );

    // A carried tag that decodes to fewer than 32 bytes.
    let mut short_tag = fields.clone();
    short_tag[6] = "aabb".to_owned();
    assert_eq!(
        parsed.from_string(&server_key, &short_tag.join("⊕")),
        Err(LiteSessionError::InvalidBytesForBlake3)
    );

    Ok(())
}

#[test]
fn wire_matches_external_crypto() -> Result<(), LiteSessionError> {
    let mut token = LiteSessionToken::default();
    token.hmac_data(sample_data());
    let server_key = [5_u8; 32];
    let wire = token.build_secure(&server_key)?;
    let fields: Vec<&str> = wire.split('⊕').collect();
    assert_eq!(fields.len(), 7);

    // The timestamp fields carry the hex form of the 12-byte timestamps.
    assert_eq!(fields[1], hex::encode(token.get_issued().to_bytes()));
    assert_eq!(fields[2], hex::encode(token.get_expiry().to_bytes()));
    assert_eq!(
        fields[5],
        ConfidentialityMode::to_string(&ConfidentialityMode::High)
    );

    // The tag is the blake3 keyed digest of the assembled fields.
    let tag_message = format!(
        "{}{}{}{}{}{}",
        fields[0], fields[1], fields[2], fields[3], fields[4], fields[5]
    );
    let expected_tag = blake3::keyed_hash(&server_key, tag_message.as_bytes());
    assert_eq!(fields[6], hex::encode(expected_tag.as_bytes()));

    // The ciphertext decrypts, under the derived key, to the record text.
    let key_message = format!("{}{}{}{}", fields[0], fields[1], fields[2], fields[5]);
    let derived = blake3::keyed_hash(&server_key, key_message.as_bytes());
    let mut buffer = match hex::decode(fields[3]) {
        Ok(bytes) => bytes,
        Err(_) => return Err(LiteSessionError::InvalidHexString),
    };
    let mut cipher = chacha20::ChaCha8::new(
        chacha20::Key::from_slice(derived.as_bytes()),
        chacha20::Nonce::from_slice(fields[4].as_bytes()),
    );
    cipher.apply_keystream(&mut buffer);
    let plain = String::from_utf8(buffer).expect("decrypted text must be UTF-8");
    assert_eq!(plain, "foo_user⥂SuperUser⥂Foo-Tag⥂Network-TCP⇅Network-UDP");
    Ok(())
}

#[test]
fn timestamp_bytes_exact() {
    let t = TaiTime {
        secs: 0x4000_0000_0000_000a,
        nanos: 123,
    };
    let bytes = t.to_bytes();
    assert_eq!(
        bytes,
        vec![0x40, 0, 0, 0, 0, 0, 0, 0x0a, 0, 0, 0, 123]
    );
    assert_eq!(TaiTime::from_bytes(&bytes), Some(t));
    assert_eq!(TaiTime::from_bytes(&vec![0_u8; 11]), None);
    let out_of_range = vec![0x40, 0, 0, 0, 0, 0, 0, 0x0a, 0xff, 0xff, 0xff, 0xff];
    assert_eq!(TaiTime::from_bytes(&out_of_range), None);
}

#[test]
fn default_expiry_is_a_day_after_issue() {
    let token = LiteSessionToken::default();
    let expected = token.get_issued().plus_secs(lite_session::hours_to_secs(24));
    assert_eq!(token.get_expiry(), &expected);
}
