use file_vault::cipher::{
    get_cipher, Aes128GcmCipher, Aes256GcmCipher, ChaChaCipher, Cipher, CipherError,
    EncryptionMethod,
};

const ALL: [EncryptionMethod; 3] = [
    EncryptionMethod::Aes256Gcm,
    EncryptionMethod::Aes128Gcm,
    EncryptionMethod::ChaCha20Poly1305,
];

#[test]
fn round_trip_every_algorithm() {
    let samples: [&[u8]; 4] = [b"", b"a", b"hello world", &[0u8; 1000]];
    for m in ALL {
        for p in samples {
            let (c, k, n) = m.encrypt(p).unwrap();
            assert_eq!(m.decrypt(&c, &k, &n).unwrap(), p.to_vec());
        }
    }
}

#[test]
fn ciphertext_is_plaintext_plus_tag() {
    for m in ALL {
        let (c, _, _) = m.encrypt(b"hello").unwrap();
        assert_eq!(c.len(), 5 + 16);
        assert_ne!(&c[..5], b"hello");
    }
}

#[test]
fn key_and_nonce_lengths() {
    let (_, k, n) = EncryptionMethod::Aes256Gcm.encrypt(b"x").unwrap();
    assert_eq!((k.len(), n.len()), (32, 12));
    let (_, k, n) = EncryptionMethod::Aes128Gcm.encrypt(b"x").unwrap();
    assert_eq!((k.len(), n.len()), (16, 12));
    let (_, k, n) = EncryptionMethod::ChaCha20Poly1305.encrypt(b"x").unwrap();
    assert_eq!((k.len(), n.len()), (32, 12));
}

#[test]
fn fresh_key_and_nonce_per_call() {
    for m in ALL {
        let (c1, k1, n1) = m.encrypt(b"same plaintext").unwrap();
        let (c2, k2, n2) = m.encrypt(b"same plaintext").unwrap();
        assert_ne!(k1, k2);
        assert_ne!(n1, n2);
        assert_ne!(c1, c2);
    }
}

#[test]
fn flipped_bits_fail_authentication() {
    for m in ALL {
        let (c, k, n) = m.encrypt(b"attack at dawn").unwrap();
        for bit in [0usize, 7, 40, 8 * c.len() - 1] {
            let mut c2 = c.clone();
            c2[bit / 8] ^= 1 << (bit % 8);
            assert_eq!(m.decrypt(&c2, &k, &n), Err(CipherError::AuthenticationFailure));
        }
        let mut k2 = k.clone();
        k2[0] ^= 0x80;
        assert_eq!(m.decrypt(&c, &k2, &n), Err(CipherError::AuthenticationFailure));
        let mut n2 = n.clone();
        n2[11] ^= 1;
        assert_eq!(m.decrypt(&c, &k, &n2), Err(CipherError::AuthenticationFailure));
    }
}

#[test]
fn wrong_lengths_and_short_ciphertext_fail_authentication() {
    let m = EncryptionMethod::ChaCha20Poly1305;
    let (c, k, n) = m.encrypt(b"data").unwrap();
    assert_eq!(m.decrypt(&c, &k[..16], &n), Err(CipherError::AuthenticationFailure));
    assert_eq!(m.decrypt(&c, &k, &n[..8]), Err(CipherError::AuthenticationFailure));
    assert_eq!(m.decrypt(&c[..10], &k, &n), Err(CipherError::AuthenticationFailure));
    assert_eq!(m.decrypt(&[], &k, &n), Err(CipherError::AuthenticationFailure));
}

#[test]
fn other_algorithm_does_not_open() {
    let (c, k, n) = EncryptionMethod::Aes256Gcm.encrypt(b"secret").unwrap();
    assert_eq!(
        EncryptionMethod::ChaCha20Poly1305.decrypt(&c, &k, &n),
        Err(CipherError::AuthenticationFailure)
    );
}

#[test]
fn cipher_types_dispatch() {
    let (c, k, n) = Aes256GcmCipher.encrypt(b"one").unwrap();
    assert_eq!(k.len(), 32);
    assert_eq!(Aes256GcmCipher.decrypt(&c, &k, &n).unwrap(), b"one".to_vec());
    assert_eq!(EncryptionMethod::Aes256Gcm.decrypt(&c, &k, &n).unwrap(), b"one".to_vec());

    let (c, k, n) = Aes128GcmCipher.encrypt(b"two").unwrap();
    assert_eq!(k.len(), 16);
    assert_eq!(Aes128GcmCipher.decrypt(&c, &k, &n).unwrap(), b"two".to_vec());

    let (c, k, n) = ChaChaCipher.encrypt(b"three").unwrap();
    assert_eq!(ChaChaCipher.decrypt(&c, &k, &n).unwrap(), b"three".to_vec());
}

#[test]
fn seal_is_deterministic_for_given_key_and_nonce() {
    let m = EncryptionMethod::ChaCha20Poly1305;
    let key = [7u8; 32];
    let nonce = [9u8; 12];
    let c1 = m.seal(&key, &nonce, b"abc").unwrap();
    let c2 = m.seal(&key, &nonce, b"abc").unwrap();
    assert_eq!(c1, c2);
    assert_eq!(c1.len(), 3 + 16);
    assert_eq!(m.decrypt(&c1, &key, &nonce).unwrap(), b"abc".to_vec());
}

#[test]
fn chacha_known_answer() {
    // With an all-zero key and nonce, the ChaCha20 keystream at block
    // counter 1 (RFC 8439, appendix A.1, vector 2) starts 9f 07 e7 be, and
    // a zero plaintext encrypts to the keystream itself.
    let m = EncryptionMethod::ChaCha20Poly1305;
    let c = m.seal(&[0u8; 32], &[0u8; 12], &[0u8; 4]).unwrap();
    assert_eq!(&c[..4], &[0x9f, 0x07, 0xe7, 0xbe]);
}

#[test]
fn registry_resolves_known_names() {
    assert_eq!(get_cipher("aes256gcm"), Ok(EncryptionMethod::Aes256Gcm));
    assert_eq!(get_cipher("aes128gcm"), Ok(EncryptionMethod::Aes128Gcm));
    assert_eq!(get_cipher("chacha20poly1305"), Ok(EncryptionMethod::ChaCha20Poly1305));
}

#[test]
fn registry_rejects_unknown_names() {
    assert_eq!(get_cipher("rot13"), Err(CipherError::UnsupportedAlgorithm));
    assert_eq!(get_cipher(""), Err(CipherError::UnsupportedAlgorithm));
    assert_eq!(get_cipher("AES256GCM"), Err(CipherError::UnsupportedAlgorithm));
    assert_eq!(get_cipher("aes256gcm "), Err(CipherError::UnsupportedAlgorithm));
}

#[test]
fn names_round_trip() {
    for m in ALL {
        assert_eq!(EncryptionMethod::from_name(m.as_str()), Some(m));
    }
    assert_eq!(EncryptionMethod::ChaCha20Poly1305.as_str(), "chacha20poly1305");
}

#[test]
fn chacha_limit_leaves_the_block_counter_room() {
    assert_eq!(file_vault::cipher::CHACHA_MAX_PLAINTEXT, (u32::MAX as u64 - 1) * 64);
    assert_eq!(file_vault::cipher::AES_GCM_MAX_PLAINTEXT, 1u64 << 36);
}
