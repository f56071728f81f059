use file_vault::cipher::EncryptionMethod;
use file_vault::entity::Model;

#[test]
fn to_proto_copies_fields_and_names_algorithm() {
    let m = Model {
        id: "id-1".to_string(),
        user_id: "u1".to_string(),
        name: "a.txt".to_string(),
        size: 42,
        encryption_method: EncryptionMethod::Aes128Gcm,
        created_at: "c".to_string(),
        updated_at: "u".to_string(),
    };
    let p = m.to_proto();
    assert_eq!(p.id, "id-1");
    assert_eq!(p.name, "a.txt");
    assert_eq!(p.size, 42);
    assert_eq!(p.encryption_method, "aes128gcm");
    assert_eq!(p.created_at, "c");
    assert_eq!(p.updated_at, "u");
}
