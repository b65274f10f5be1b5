use chacha20::cipher::KeyIvInit;
use chacha20::cipher::StreamCipher;
use lite_session::{CipherText, LiteSessionData, LiteSessionError, Role};

#[test]
fn cipher() -> Result<(), LiteSessionError> {
    let mut data = LiteSessionData::default();

    data.username("foo_user");
    data.role(Role::SuperUser);
    data.tag("Foo-Tag");
    data.add_acl("Network-TCP");
    data.add_acl("Network-UDP");

    let bad_key = [0_u8; 32];
    let bad_key2 = [1_u8; 32];

    let mut ciphertext = CipherText::default();
    let _ = ciphertext.encrypt(&data, &bad_key);

    let decrypt_ops = CipherText::default();
    let mut ciphertext_bytes = match hex::decode(ciphertext.cipher) {
        Ok(bytes) => bytes,
        Err(_) => return Err(LiteSessionError::InvalidHexString),
    };

    let decryption = decrypt_ops.decrypt(
        &bad_key,
        &mut ciphertext_bytes,
        ciphertext.nonce.as_bytes(),
    )?;
    let bad_decryption = decrypt_ops.decrypt(
        &bad_key2,
        &mut ciphertext_bytes,
        ciphertext.nonce.as_bytes(),
    );

    assert_eq!(data, decryption);

    assert_eq!(bad_decryption, Err(LiteSessionError::FromUtf8TokenError));

    Ok(())
}

#[test]
fn decrypt_length_guards() {
    let decrypt_ops = CipherText::default();
    let mut buffer = vec![0_u8; 4];

    let short_key = decrypt_ops.decrypt(&[0_u8; 5], &mut buffer, b"abcdefghijkl");
    assert_eq!(short_key, Err(LiteSessionError::ServerKeyLengthError));

    let short_nonce = decrypt_ops.decrypt(&[0_u8; 32], &mut buffer, b"abcde");
    assert_eq!(short_nonce, Err(LiteSessionError::NonceLengthError));
}

#[test]
fn encrypt_key_length_guard() {
    let mut data = LiteSessionData::default();
    data.username("someone");
    data.add_acl("Network-TCP");

    let mut ciphertext = CipherText::default();
    let result = ciphertext.encrypt(&data, &[0_u8; 31]);
    assert_eq!(result, Err(LiteSessionError::ServerKeyLengthError));
    assert_eq!(ciphertext.cipher, String::new());
    assert_eq!(ciphertext.nonce, String::new());
}

#[test]
fn encrypt_matches_external_cipher() -> Result<(), LiteSessionError> {
    let mut data = LiteSessionData::default();
    data.username("foo_user");
    data.add_acl("Network-TCP");

    let key = [7_u8; 32];
    let mut ciphertext = CipherText::default();
    ciphertext.encrypt(&data, &key)?;

    // Undo the encryption with the chacha20 crate directly: the plaintext
    // must be the record's canonical text.
    let mut buffer = match hex::decode(&ciphertext.cipher) {
        Ok(bytes) => bytes,
        Err(_) => return Err(LiteSessionError::InvalidHexString),
    };
    let mut cipher = chacha20::ChaCha8::new(
        chacha20::Key::from_slice(&key),
        chacha20::Nonce::from_slice(ciphertext.nonce.as_bytes()),
    );
    cipher.apply_keystream(&mut buffer);
    let plain = String::from_utf8(buffer).expect("decrypted text must be UTF-8");
    assert_eq!(plain, "foo_user⥂User⥂None⥂Network-TCP");
    Ok(())
}
