use doc_sync::checksum::compute_checksum;
use doc_sync::checksum::verify_checksum;

#[test]
fn checksum_of_empty_delta_is_the_md5_of_nothing() {
    let digest = compute_checksum(&Vec::new());
    let expected = vec![
        0xd4, 0x1d, 0x8c, 0xd9, 0x8f, 0x00, 0xb2, 0x04, 0xe9, 0x80, 0x09, 0x98, 0xec, 0xf8, 0x42,
        0x7e,
    ];
    assert_eq!(digest, expected);
}

#[test]
fn checksum_of_abc_matches_reference_digest() {
    let digest = compute_checksum(&b"abc".to_vec());
    let expected = vec![
        0x90, 0x01, 0x50, 0x98, 0x3c, 0xd2, 0x4f, 0xb0, 0xd6, 0x96, 0x3f, 0x7d, 0x28, 0xe1, 0x7f,
        0x72,
    ];
    assert_eq!(digest, expected);
}

#[test]
fn matching_checksum_verifies() {
    let delta = b"some delta bytes".to_vec();
    let claimed = compute_checksum(&delta);
    assert!(verify_checksum(&delta, &claimed));
}

#[test]
fn mismatched_checksum_is_detected() {
    let delta = b"some delta bytes".to_vec();
    let mut claimed = compute_checksum(&delta);
    claimed[0] ^= 0xFF;
    assert!(!verify_checksum(&delta, &claimed));
}

#[test]
fn checksum_of_tampered_delta_is_detected() {
    let delta = b"original delta".to_vec();
    let claimed = compute_checksum(&delta);
    let tampered = b"tampered delta".to_vec();
    assert!(!verify_checksum(&tampered, &claimed));
}
