use vnc::client::security::des::{decrypt, encrypt};

#[test]
fn fips81_single_block_encrypt_decrypt_roundtrip() {
    let key = [0x13, 0x34, 0x57, 0x79, 0x9B, 0xBC, 0xDF, 0xF1];
    let plaintext = [0x01, 0x23, 0x45, 0x67, 0x89, 0xAB, 0xCD, 0xEF];
    let expected_cipher = [0x85, 0xE8, 0x13, 0x54, 0x0F, 0x0A, 0xB4, 0x05];

    assert_eq!(encrypt(&plaintext, &key), expected_cipher.to_vec());
    assert_eq!(decrypt(&expected_cipher, &key), plaintext.to_vec());
}

#[test]
fn encrypts_two_blocks_ecb() {
    let key = [0x13, 0x34, 0x57, 0x79, 0x9B, 0xBC, 0xDF, 0xF1];
    let plaintext = [
        0x01, 0x23, 0x45, 0x67, 0x89, 0xAB, 0xCD, 0xEF, 0x01, 0x23, 0x45, 0x67, 0x89, 0xAB, 0xCD,
        0xEF,
    ];
    let expected_cipher = [
        0x85, 0xE8, 0x13, 0x54, 0x0F, 0x0A, 0xB4, 0x05, 0x85, 0xE8, 0x13, 0x54, 0x0F, 0x0A, 0xB4,
        0x05,
    ];

    assert_eq!(encrypt(&plaintext, &key), expected_cipher.to_vec());
    assert_eq!(decrypt(&expected_cipher, &key), plaintext.to_vec());
}

#[test]
fn decryption_undoes_encryption() {
    let key = [1, 2, 3, 4, 5, 6, 7, 8];
    let message: Vec<u8> = (0..40).collect();
    let cipher = encrypt(&message, &key);
    assert_ne!(cipher, message);
    assert_eq!(decrypt(&cipher, &key), message);
    assert_eq!(encrypt(&decrypt(&message, &key), &key), message);
    assert_eq!(encrypt(&[], &key), Vec::<u8>::new());
}

#[test]
fn blocks_are_encrypted_independently() {
    let key = [1, 2, 3, 4, 5, 6, 7, 8];
    let message: Vec<u8> = (0..24).collect();
    let mut parts = encrypt(&message[..8], &key);
    parts.extend(encrypt(&message[8..], &key));
    assert_eq!(encrypt(&message, &key), parts);
}
