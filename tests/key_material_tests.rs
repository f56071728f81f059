use file_vault::key_material::{KeyMaterial, KeyMaterialError};

#[test]
fn encode_known_value() {
    let m = KeyMaterial { key: b"key".to_vec(), nonce: vec![0, 1, 2] };
    assert_eq!(m.encode(), "AAEC::a2V5");
}

#[test]
fn encode_pads() {
    let m = KeyMaterial { key: vec![0xff], nonce: vec![0xfb, 0xef] };
    assert_eq!(m.encode(), "++8=::/w==");
}

#[test]
fn decode_known_value() {
    let m = KeyMaterial::decode("AAEC::a2V5").unwrap();
    assert_eq!(m.nonce, vec![0, 1, 2]);
    assert_eq!(m.key, b"key".to_vec());
}

#[test]
fn handle_round_trip() {
    let m = KeyMaterial { key: (0u8..32).collect(), nonce: (100u8..112).collect() };
    let d = KeyMaterial::decode(&m.encode()).unwrap();
    assert_eq!(d.key, m.key);
    assert_eq!(d.nonce, m.nonce);
}

#[test]
fn decode_rejects_malformed_handles() {
    let bad = [
        "",
        "AAEC",
        "AAEC:a2V5",
        "::a2V5",
        "AAEC::",
        "::",
        "AA!C::a2V5",
        "AAEC::a2V",
        "AAEC::a2V5::AAEC",
        "AAF=::a2V5",
        " AAEC::a2V5",
        "A=EC::a2V5",
        "====::a2V5",
        "AAEC::====",
        "AAEC::a2=5",
    ];
    for h in bad {
        assert_eq!(
            KeyMaterial::decode(h).err(),
            Some(KeyMaterialError::InvalidKeyMaterial),
            "{h}"
        );
    }
}
