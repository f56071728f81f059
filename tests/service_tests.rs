use file_vault::cipher::EncryptionMethod;
use file_vault::entity::Model;
use file_vault::service::{FileError, FileService};
use file_vault::store::{BlobStore, MetadataStore};

fn is_base64(s: &str) -> bool {
    !s.is_empty()
        && s.chars().all(|c| c.is_ascii_alphanumeric() || c == '+' || c == '/' || c == '=')
}

#[test]
fn encrypt_then_decrypt_chacha_hello() {
    let mut svc = FileService::new();
    let (meta, handle) = svc.encrypt_file("u1", "a.txt", "chacha20poly1305", b"hello").unwrap();
    assert_eq!(meta.name, "a.txt");
    assert_eq!(meta.size, 5);
    assert_eq!(meta.encryption_method, "chacha20poly1305");
    assert_eq!(meta.id.len(), 36);
    assert_eq!(meta.created_at, meta.updated_at);
    let parts: Vec<&str> = handle.split("::").collect();
    assert_eq!(parts.len(), 2);
    assert!(is_base64(parts[0]) && is_base64(parts[1]));

    let (name, bytes) = svc.decrypt_file(&meta.id, "u1", &handle).unwrap();
    assert_eq!(name, "a.txt");
    assert_eq!(bytes, b"hello".to_vec());
}

#[test]
fn delete_then_get_is_not_found() {
    let mut svc = FileService::new();
    let (meta, handle) = svc.encrypt_file("u1", "a.txt", "aes256gcm", b"data").unwrap();
    assert!(svc.get_file(&meta.id, "u1").is_ok());
    assert_eq!(svc.delete_file(&meta.id, "u1"), Ok(()));
    assert_eq!(svc.get_file(&meta.id, "u1").err(), Some(FileError::NotFound));
    assert_eq!(svc.decrypt_file(&meta.id, "u1", &handle).err(), Some(FileError::NotFound));
    assert_eq!(svc.delete_file(&meta.id, "u1"), Err(FileError::NotFound));
    assert!(svc.get_all_files("u1").is_empty());
}

#[test]
fn unknown_algorithm_is_invalid_argument() {
    let mut svc = FileService::new();
    let r = svc.encrypt_file("u1", "a.txt", "rot13", b"hello");
    assert_eq!(r.err(), Some(FileError::InvalidArgument));
    assert!(svc.get_all_files("u1").is_empty());
}

#[test]
fn other_owner_gets_not_found() {
    let mut svc = FileService::new();
    let (meta, handle) = svc.encrypt_file("owner_b", "b.txt", "aes128gcm", b"private").unwrap();
    assert_eq!(svc.get_file(&meta.id, "owner_a").err(), Some(FileError::NotFound));
    assert_eq!(svc.decrypt_file(&meta.id, "owner_a", &handle).err(), Some(FileError::NotFound));
    assert_eq!(svc.delete_file(&meta.id, "owner_a"), Err(FileError::NotFound));
    let still = svc.get_file(&meta.id, "owner_b").unwrap();
    assert_eq!(still.name, "b.txt");
    assert!(svc.get_all_files("owner_a").is_empty());
}

#[test]
fn get_file_returns_metadata() {
    let mut svc = FileService::new();
    let (meta, _) = svc.encrypt_file("u1", "report.pdf", "aes128gcm", &[1, 2, 3]).unwrap();
    let got = svc.get_file(&meta.id, "u1").unwrap();
    assert_eq!(got.id, meta.id);
    assert_eq!(got.name, "report.pdf");
    assert_eq!(got.size, 3);
    assert_eq!(got.encryption_method, "aes128gcm");
    assert_eq!(got.created_at, meta.created_at);
    assert_eq!(svc.get_file("no-such-id", "u1").err(), Some(FileError::NotFound));
}

#[test]
fn list_is_scoped_to_owner_in_order() {
    let mut svc = FileService::new();
    let (a, _) = svc.encrypt_file("u1", "a", "aes256gcm", b"1").unwrap();
    svc.encrypt_file("u2", "b", "aes256gcm", b"22").unwrap();
    let (c, _) = svc.encrypt_file("u1", "c", "chacha20poly1305", b"333").unwrap();
    let list = svc.get_all_files("u1");
    assert_eq!(list.len(), 2);
    assert_eq!(list[0].id, a.id);
    assert_eq!(list[1].id, c.id);
    assert_eq!(list[1].size, 3);
    assert_eq!(list[1].encryption_method, "chacha20poly1305");
    assert_eq!(svc.get_all_files("u2").len(), 1);
    assert!(svc.get_all_files("u3").is_empty());
}

#[test]
fn decrypt_uses_recorded_algorithm() {
    let mut svc = FileService::new();
    let (aes128, h128) = svc.encrypt_file("u1", "x", "aes128gcm", b"short key").unwrap();
    let (chacha, hchacha) = svc.encrypt_file("u1", "y", "chacha20poly1305", b"long key").unwrap();
    assert_eq!(svc.decrypt_file(&aes128.id, "u1", &h128).unwrap().1, b"short key".to_vec());
    assert_eq!(svc.decrypt_file(&chacha.id, "u1", &hchacha).unwrap().1, b"long key".to_vec());
    // A well-formed handle of a file under another algorithm does not
    // authenticate, whatever its key length.
    assert_eq!(
        svc.decrypt_file(&aes128.id, "u1", &hchacha).err(),
        Some(FileError::AuthenticationFailure)
    );
    assert_eq!(
        svc.decrypt_file(&chacha.id, "u1", &h128).err(),
        Some(FileError::AuthenticationFailure)
    );
}

#[test]
fn wrong_key_is_authentication_failure() {
    let mut svc = FileService::new();
    let (f1, _) = svc.encrypt_file("u1", "f1", "aes256gcm", b"first").unwrap();
    let (_, h2) = svc.encrypt_file("u1", "f2", "aes256gcm", b"second").unwrap();
    assert_eq!(svc.decrypt_file(&f1.id, "u1", &h2).err(), Some(FileError::AuthenticationFailure));
}

#[test]
fn malformed_handle_is_invalid_argument() {
    let mut svc = FileService::new();
    let (f, h) = svc.encrypt_file("u1", "f", "aes256gcm", b"content").unwrap();
    for bad in ["", "nonsense", "::", "a2V5::", "!!::a2V5"] {
        assert_eq!(svc.decrypt_file(&f.id, "u1", bad).err(), Some(FileError::InvalidArgument));
    }
    assert!(svc.decrypt_file(&f.id, "u1", &h).is_ok());
}

#[test]
fn empty_file_round_trip() {
    let mut svc = FileService::new();
    let (f, h) = svc.encrypt_file("u1", "empty", "aes128gcm", b"").unwrap();
    assert_eq!(f.size, 0);
    assert_eq!(svc.decrypt_file(&f.id, "u1", &h).unwrap().1, Vec::<u8>::new());
}

#[test]
fn store_encrypted_rejects_taken_id() {
    let mut svc = FileService::new();
    let key = vec![1u8; 32];
    let nonce = vec![2u8; 12];
    let ct = EncryptionMethod::ChaCha20Poly1305
        .seal(&key, &nonce, b"abc")
        .unwrap();
    let (meta, handle) = svc
        .store_encrypted(
            "fixed-id".to_string(),
            "u1",
            "n",
            EncryptionMethod::ChaCha20Poly1305,
            3,
            ct.clone(),
            key.clone(),
            nonce.clone(),
            "2024-01-01T00:00:00+00:00".to_string(),
        )
        .unwrap();
    assert_eq!(meta.id, "fixed-id");
    assert_eq!(meta.created_at, "2024-01-01T00:00:00+00:00");
    assert_eq!(svc.decrypt_file("fixed-id", "u1", &handle).unwrap().1, b"abc".to_vec());
    let again = svc.store_encrypted(
        "fixed-id".to_string(),
        "u2",
        "m",
        EncryptionMethod::ChaCha20Poly1305,
        3,
        ct,
        key,
        nonce,
        "t".to_string(),
    );
    assert_eq!(again.err(), Some(FileError::Internal));
    assert!(svc.get_all_files("u2").is_empty());
}

#[test]
fn file_id_is_version_four_uuid_and_timestamp_is_rfc3339() {
    let mut svc = FileService::new();
    let (meta, _) = svc.encrypt_file("u1", "t", "aes256gcm", b"x").unwrap();
    let id: Vec<char> = meta.id.chars().collect();
    assert_eq!(id.len(), 36);
    assert_eq!((id[8], id[13], id[14], id[18], id[23]), ('-', '-', '4', '-', '-'));
    assert!(matches!(id[19], '8' | '9' | 'a' | 'b'));
    let t: Vec<char> = meta.created_at.chars().collect();
    assert_eq!((t[4], t[7], t[10]), ('-', '-', 'T'));
    assert!(meta.created_at.ends_with("+00:00"));
}

#[test]
fn service_over_given_stores() {
    let record = || Model {
        id: "f1".to_string(),
        user_id: "u1".to_string(),
        name: "given.txt".to_string(),
        size: 3,
        encryption_method: EncryptionMethod::Aes256Gcm,
        created_at: "t".to_string(),
        updated_at: "t".to_string(),
    };
    let mut orphan = MetadataStore::new();
    orphan.insert(record()).unwrap();
    assert!(FileService::from_stores(orphan, BlobStore::new()).is_none());

    let mut store = MetadataStore::new();
    store.insert(record()).unwrap();
    let mut blobs = BlobStore::new();
    blobs.put("f1".to_string(), vec![0u8; 19]).unwrap();
    let svc = FileService::from_stores(store, blobs).unwrap();
    assert_eq!(svc.get_file("f1", "u1").unwrap().name, "given.txt");
    assert_eq!(svc.get_all_files("u1").len(), 1);
}
