use iroh_base::{KeyParsingError, SecretKey};
use walkie::identity::{
    created_identity, load_or_create_secret_key, loaded_identity, shared_text, IdentityError,
};

#[test]
fn new_key_is_saved_in_hexadecimal() {
    let mut key = [0u8; 32];
    key[0] = 0x0f;
    key[31] = 0xa0;
    let identity = created_identity(key);
    let text = identity.to_save.unwrap();
    assert_eq!(identity.key, key);
    assert_eq!(text.len(), 64);
    assert!(text.starts_with("0f00"));
    assert!(text.ends_with("00a0"));
}

#[test]
fn saved_key_is_loaded_again() {
    let created = load_or_create_secret_key(None).unwrap();
    let text = created.to_save.unwrap();
    let loaded = load_or_create_secret_key(Some(&text)).unwrap();
    assert_eq!(loaded.key, created.key);
    assert_eq!(loaded.to_save, None);
    let spaced = format!("  {}\n", text);
    assert_eq!(load_or_create_secret_key(Some(&spaced)).unwrap().key, created.key);
}

#[test]
fn new_keys_differ() {
    let a = load_or_create_secret_key(None).unwrap();
    let b = load_or_create_secret_key(None).unwrap();
    assert_ne!(a.key, b.key);
}

#[test]
fn garbage_is_no_key() {
    for text in ["", "xyz", "0f00"] {
        assert!(matches!(
            load_or_create_secret_key(Some(text)),
            Err(IdentityError::Malformed(_))
        ));
    }
}

#[test]
fn result_of_the_key_parser_decides() {
    let loaded = loaded_identity(Ok([7; 32])).unwrap();
    assert_eq!(loaded.key, [7; 32]);
    assert_eq!(loaded.to_save, None);
    assert!(matches!(
        loaded_identity(Err(KeyParsingError::DecodeInvalidLength)),
        Err(IdentityError::Malformed(KeyParsingError::DecodeInvalidLength))
    ));
}

#[test]
fn shared_text_is_the_node_id_in_hexadecimal() {
    let id = SecretKey::from_bytes(&[9; 32]).public();
    assert_eq!(shared_text(*id.as_bytes()), Some(id.to_string()));
    let mut off_curve = [0u8; 32];
    off_curve[0] = 2;
    assert_eq!(
        shared_text(off_curve).is_some(),
        iroh_base::NodeId::from_bytes(&off_curve).is_ok()
    );
    assert_eq!(shared_text(off_curve), None);
}
