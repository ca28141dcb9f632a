use notify_sessions::codec::{ct_eq, to_hex};
use notify_sessions::hasher::{
    assemble_digest, hash, hash_with_salt, key_matches, verify, DIGEST_FORMAT, DIGEST_LEN, SALT_LEN,
};

#[test]
fn password_verifies_against_its_digest() {
    let d = hash("correct horse");
    assert_eq!(d.len(), DIGEST_LEN);
    assert_eq!(d[0], DIGEST_FORMAT);
    assert!(verify("correct horse", &d));
}

#[test]
fn other_password_does_not_verify() {
    let d = hash("correct horse");
    assert!(!verify("correct horsf", &d));
    assert!(!verify("", &d));
}

#[test]
fn two_digests_of_one_password_differ_and_both_verify() {
    let d1 = hash("swordfish");
    let d2 = hash("swordfish");
    assert_ne!(d1, d2);
    assert!(verify("swordfish", &d1));
    assert!(verify("swordfish", &d2));
}

#[test]
fn digest_with_given_salt_is_repeatable() {
    let salt = [7u8; SALT_LEN];
    let d1 = hash_with_salt("pw", &salt);
    let d2 = hash_with_salt("pw", &salt);
    assert_eq!(d1, d2);
    assert_eq!(&d1[1..1 + SALT_LEN], &salt[..]);
    assert_ne!(&d1[1 + SALT_LEN..], &[0u8; 32][..]);
    assert!(verify("pw", &d1));
    assert_ne!(hash_with_salt("pw2", &salt), d1);
}

#[test]
fn malformed_digest_does_not_verify() {
    let d = hash_with_salt("pw", &[3u8; SALT_LEN]);
    assert!(!verify("pw", &d[..DIGEST_LEN - 1]));
    assert!(!verify("pw", &[]));
    let mut wrong_format = d.clone();
    wrong_format[0] = 2;
    assert!(!verify("pw", &wrong_format));
    let mut flipped = d.clone();
    flipped[DIGEST_LEN - 1] ^= 1;
    assert!(!verify("pw", &flipped));
}

#[test]
fn key_matches_reads_stored_key() {
    let salt = [1u8; SALT_LEN];
    let key = [9u8; 32];
    let d = assemble_digest(&salt, &key);
    assert_eq!(d.len(), DIGEST_LEN);
    assert!(key_matches(&key, &d));
    assert!(!key_matches(&[8u8; 32], &d));
    assert!(!key_matches(&key, &d[..48]));
}

#[test]
fn assemble_digest_layout() {
    let d = assemble_digest(&[1, 2], &[3, 4, 5]);
    assert_eq!(d, vec![DIGEST_FORMAT, 1, 2, 3, 4, 5]);
}

#[test]
fn hex_encoding() {
    assert_eq!(to_hex(&[]), Vec::<u8>::new());
    assert_eq!(to_hex(&[0x00, 0x0f, 0xa5, 0xff]), b"000fa5ff".to_vec());
}

#[test]
fn constant_time_equality() {
    assert!(ct_eq(b"", b""));
    assert!(ct_eq(b"abc", b"abc"));
    assert!(!ct_eq(b"abc", b"abd"));
    assert!(!ct_eq(b"abc", b"ab"));
}
