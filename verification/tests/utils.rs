use sha2::Digest;
use sha2::Sha256;
use wombat::utils::generate_secret_key;
use wombat::utils::hash_key;
use wombat::utils::hash_key_bytes;
use wombat::utils::to_hex_lower;

#[test]
fn hex_is_lower_case_two_digits_a_byte() {
    assert_eq!(to_hex_lower(&[]), "");
    assert_eq!(to_hex_lower(&[0]), "00");
    assert_eq!(to_hex_lower(&[10, 20, 30]), "0a141e");
    assert_eq!(to_hex_lower(&[0xde, 0xad, 0xbe, 0xef, 0x01, 0xff]), "deadbeef01ff");
}

#[test]
fn hash_key_of_known_text() {
    assert_eq!(
        hash_key("abc"),
        "ba7816bf8f01cfea414140de5dae2223b00361a396177a9cb410ff61f20015ad"
    );
    assert_eq!(
        hash_key(""),
        "e3b0c44298fc1c149afbf4c8996fb92427ae41e4649b934ca495991b7852b855"
    );
}

#[test]
fn hash_key_is_the_formatted_digest() {
    for key in ["", "abc", "0123456789abcdefghijklmnopqrstuv", "k\u{e9}y"] {
        let mut hasher = Sha256::new();
        hasher.update(key);
        assert_eq!(hash_key(key), format!("{:x}", hasher.finalize()));
    }
}

#[test]
fn text_and_bytes_of_a_key_hash_alike() {
    let key = "0123456789abcdefghijklmnopqrstuv";
    assert_eq!(hash_key(key), hash_key_bytes(key.as_bytes()));
    assert_ne!(hash_key(key), hash_key("0123456789abcdefghijklmnopqrstuw"));
    assert_ne!(hash_key_bytes(b"abc"), "abc");
}

#[test]
fn generated_keys_have_the_length_asked_for() {
    for length in [0usize, 1, 16, 32, 100] {
        let key = generate_secret_key(length);
        assert_eq!(key.chars().count(), length);
        assert_eq!(key.len(), length);
        assert!(key.chars().all(|c| c.is_ascii_alphanumeric()));
    }
}

#[test]
fn generated_keys_differ() {
    assert_ne!(generate_secret_key(32), generate_secret_key(32));
}
