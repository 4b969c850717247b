use dbgm::keys::{
    bytes_code, bytes_eq, clone_bytes, CompareKey, FileKey, KeyData, KeyRelation, OriginalKey,
    HASH_SIZE,
};

fn hash_of(seed: u8) -> Vec<u8> {
    let mut h = vec![seed; HASH_SIZE];
    h[0] = seed.wrapping_add(1);
    h
}

fn folder_key(name: &str, seed: u8) -> OriginalKey {
    OriginalKey::Folder(FileKey { filename: name.to_owned(), hash: hash_of(seed) })
}

#[test]
fn same_name_same_hash_is_same_original() {
    let k1 = folder_key("a.png", 7);
    let k2 = folder_key("a.png", 7);
    assert!(matches!(k1.compare(&k2), KeyRelation::SameOriginal));
}

#[test]
fn same_name_different_hash_is_content_mismatch() {
    let k1 = folder_key("a.png", 7);
    let k2 = folder_key("a.png", 8);
    assert!(matches!(k1.compare(&k2), KeyRelation::ContentMismatch));
}

#[test]
fn different_name_is_distinct() {
    let k1 = folder_key("a.png", 7);
    let k2 = folder_key("b.png", 7);
    assert!(matches!(k1.compare(&k2), KeyRelation::Distinct));
}

#[test]
fn opaque_keys_are_distinct_from_everything() {
    let raw = OriginalKey::Opaque(KeyData { filename: "a.png".to_owned(), hash: vec![1, 2] });
    let live = folder_key("a.png", 7);
    assert!(matches!(raw.compare(&live), KeyRelation::Distinct));
    assert!(matches!(live.compare(&raw), KeyRelation::Distinct));
    let raw2 = OriginalKey::Opaque(KeyData { filename: "a.png".to_owned(), hash: vec![1, 2] });
    assert!(matches!(raw.compare(&raw2), KeyRelation::Distinct));
}

#[test]
fn same_original_keys_share_a_hash_code() {
    // the law proved in the library, checked on concrete values
    let k1 = folder_key("a.png", 7);
    let k2 = folder_key("a.png", 7);
    assert!(matches!(k1.compare(&k2), KeyRelation::SameOriginal));
    assert_eq!(k1.hash_code(), k2.hash_code());
}

#[test]
fn hash_code_depends_on_the_digest() {
    let k1 = folder_key("a.png", 7);
    let k2 = folder_key("a.png", 8);
    assert_ne!(k1.hash_code(), k2.hash_code());
}

#[test]
fn bytes_eq_compares_contents() {
    assert!(bytes_eq(&vec![1, 2, 3], &vec![1, 2, 3]));
    assert!(!bytes_eq(&vec![1, 2, 3], &vec![1, 2, 4]));
    assert!(!bytes_eq(&vec![1, 2, 3], &vec![1, 2]));
    assert!(bytes_eq(&vec![], &vec![]));
}

#[test]
fn clone_bytes_copies_contents() {
    let b = vec![9, 8, 7];
    assert_eq!(clone_bytes(&b), b);
}

#[test]
fn bytes_code_is_a_function_of_the_bytes() {
    assert_eq!(bytes_code(&vec![1, 2, 3]), bytes_code(&vec![1, 2, 3]));
    assert_ne!(bytes_code(&vec![1, 2, 3]), bytes_code(&vec![3, 2, 1]));
}

#[test]
fn key_data_round_trips_identity_and_digest() {
    let k = folder_key("a.png", 7);
    let data = k.to_key_data();
    assert_eq!(data.filename, "a.png");
    assert_eq!(data.hash, hash_of(7));
}
