use aes::cipher::{BlockDecrypt, KeyInit};
use aes::{Aes128, Block};
use md5::{Digest, Md5};
use vnc::biguint::BigUint;
use vnc::client::security::ard::{
    authenticate_ard, choose_private_key, derive_aes_key, draw_ard_reply, encrypt_credentials,
    join_credentials, join_reply, make_ard_reply, pack_credential, pack_credential_with_rng,
    pad_to_length, ArdAction, ArdState, MAX_KEY_LENGTH,
};
use vnc::error::VncError;

/// Leads the dialogue through its first two steps, and hands in the server's parameters.
fn offer_parameters(generator: u16, key_length: u16) -> (ArdState, ArdAction) {
    let (state, action) = authenticate_ard(ArdState::Begin, &[], "admin", "password");
    assert!(matches!(action, ArdAction::Read(4)));
    let mut parameters = generator.to_be_bytes().to_vec();
    parameters.extend_from_slice(&key_length.to_be_bytes());
    authenticate_ard(state, &parameters, "admin", "password")
}

/// Leads the dialogue to its end, and returns its outcome and what the client sent.
fn converse(
    generator: u16,
    prime_bytes: &[u8],
    peer_pub_bytes: &[u8],
    security_result: u32,
    username: &str,
    password: &str,
) -> (Result<(), VncError>, Vec<u8>) {
    let (state, action) = offer_parameters(generator, prime_bytes.len() as u16);
    match action {
        ArdAction::Read(due) => assert_eq!(due, 2 * prime_bytes.len()),
        other => panic!("Expected a read, got {:?}", other),
    }
    let mut keys = prime_bytes.to_vec();
    keys.extend_from_slice(peer_pub_bytes);
    let (state, action) = authenticate_ard(state, &keys, username, password);
    let reply = match action {
        ArdAction::Send(reply, 4) => reply,
        other => panic!("Expected a reply, got {:?}", other),
    };
    let (state, action) =
        authenticate_ard(state, &security_result.to_be_bytes(), username, password);
    assert_eq!(state, ArdState::Finished);
    match action {
        ArdAction::Finish(result) => (result, reply),
        other => panic!("Expected the end, got {:?}", other),
    }
}

#[test]
fn test_pack_credential_username() {
    let packed = pack_credential_with_rng("admin", 64, &mut rand::thread_rng());
    assert_eq!(packed.len(), 64);
    assert_eq!(&packed[..5], b"admin");
    assert_eq!(packed[5], 0); // null terminator
}

#[test]
fn test_pack_credential_password() {
    let packed = pack_credential_with_rng("secret123", 64, &mut rand::thread_rng());
    assert_eq!(packed.len(), 64);
    assert_eq!(&packed[..9], b"secret123");
    assert_eq!(packed[9], 0); // null terminator
}

#[test]
fn test_pack_credential_empty() {
    let packed = pack_credential_with_rng("", 64, &mut rand::thread_rng());
    assert_eq!(packed.len(), 64);
    assert_eq!(packed[0], 0); // null terminator at start
}

#[test]
fn test_pack_credential_max_length() {
    // 63 bytes and the terminator fill the buffer
    let long_name = "a".repeat(63);
    let packed = pack_credential_with_rng(&long_name, 64, &mut rand::thread_rng());
    assert_eq!(packed.len(), 64);
    assert_eq!(&packed[..63], long_name.as_bytes());
    assert_eq!(packed[63], 0);
}

#[test]
fn test_pack_credential_truncates_at_buf_minus_one() {
    let long_name = "a".repeat(100);
    let packed = pack_credential_with_rng(&long_name, 64, &mut rand::thread_rng());
    assert_eq!(packed.len(), 64);
    assert_eq!(&packed[..63], "a".repeat(63).as_bytes());
    assert_eq!(packed[63], 0);
}

#[test]
fn random_padding_is_drawn_anew() {
    let mut rng = rand::thread_rng();
    let first = pack_credential_with_rng("admin", 64, &mut rng);
    let second = pack_credential_with_rng("admin", 64, &mut rng);
    assert!(first[6..].iter().any(|&b| b != 0));
    assert_ne!(first, second);
    assert_eq!(&first[..6], &second[..6]);
}

#[test]
fn given_padding_follows_the_terminator() {
    assert_eq!(pack_credential("ab", 6, &[7, 8, 9]), vec![b'a', b'b', 0, 7, 8, 9]);
    assert_eq!(pack_credential("abcdef", 4, &[]), vec![b'a', b'b', b'c', 0]);
    assert_eq!(pack_credential("abc", 1, &[]), vec![0]);
    // cut off between the two bytes of a character
    assert_eq!(pack_credential("a\u{e9}", 3, &[]), vec![b'a', 0xc3, 0]);
}

#[test]
fn packed_credential_reads_back_up_to_its_terminator() {
    let packed = pack_credential_with_rng("secret123", 64, &mut rand::thread_rng());
    let end = packed.iter().position(|&b| b == 0).unwrap();
    assert_eq!(&packed[..end], b"secret123");
}

#[test]
fn test_derive_aes_key_known_input() {
    let secret = BigUint::from(12345u32);
    let key = derive_aes_key(&secret);
    assert_eq!(key.len(), 16);

    let mut hasher = Md5::new();
    hasher.update(secret.to_bytes_be());
    let expected: [u8; 16] = hasher.finalize().into();
    assert_eq!(key, expected);
}

#[test]
fn aes_key_of_a_secret_in_bytes() {
    // the digest of the two bytes "09"
    let expected = [
        0x0a, 0x80, 0x05, 0xf5, 0x59, 0x4b, 0xd6, 0x70, 0x41, 0xf8, 0x8c, 0x61, 0x96, 0x19, 0x26,
        0x46,
    ];
    assert_eq!(derive_aes_key(&BigUint::from(12345u32)), expected);
}

#[test]
fn test_encrypt_credentials_produces_different_output() {
    let key = [0x42u8; 16];
    let mut plaintext = [0u8; 128];
    plaintext[..5].copy_from_slice(b"admin");
    plaintext[64..70].copy_from_slice(b"secret");

    let ciphertext = encrypt_credentials(&plaintext, &key);
    assert_ne!(&ciphertext[..], &plaintext[..]);
    assert_eq!(ciphertext.len(), 128);
}

#[test]
fn encrypts_every_block_for_itself() {
    let key: [u8; 16] = [0, 1, 2, 3, 4, 5, 6, 7, 8, 9, 10, 11, 12, 13, 14, 15];
    let block: [u8; 16] = [
        0x00, 0x11, 0x22, 0x33, 0x44, 0x55, 0x66, 0x77, 0x88, 0x99, 0xaa, 0xbb, 0xcc, 0xdd, 0xee,
        0xff,
    ];
    let sealed: [u8; 16] = [
        0x69, 0xc4, 0xe0, 0xd8, 0x6a, 0x7b, 0x04, 0x30, 0xd8, 0xcd, 0xb7, 0x80, 0x70, 0xb4, 0xc5,
        0x5a,
    ];
    let mut plaintext = [0u8; 128];
    for at in [0, 32, 112] {
        plaintext[at..at + 16].copy_from_slice(&block);
    }
    let ciphertext = encrypt_credentials(&plaintext, &key);
    for at in [0, 32, 112] {
        assert_eq!(&ciphertext[at..at + 16], &sealed);
    }
    assert_eq!(&ciphertext[16..32], &ciphertext[48..64]);
    assert_ne!(&ciphertext[16..32], &sealed);
}

#[test]
fn test_pad_to_length_shorter() {
    let val = BigUint::from(255u32);
    let padded = pad_to_length(&val, 4);
    assert_eq!(padded, vec![0, 0, 0, 0xFF]);
}

#[test]
fn test_pad_to_length_exact() {
    let val = BigUint::from_bytes_be(&[1, 2, 3, 4]);
    let padded = pad_to_length(&val, 4);
    assert_eq!(padded, vec![1, 2, 3, 4]);
}

#[test]
fn test_pad_to_length_longer() {
    let val = BigUint::from_bytes_be(&[0, 0, 1, 2, 3, 4]);
    let padded = pad_to_length(&val, 4);
    assert_eq!(padded, vec![1, 2, 3, 4]);
}

#[test]
fn padding_keeps_the_last_bytes() {
    let val = BigUint::from_bytes_be(&[9, 8, 7, 6]);
    assert_eq!(pad_to_length(&val, 2), vec![7, 6]);
    assert_eq!(pad_to_length(&val, 0), Vec::<u8>::new());
}

#[test]
fn private_key_is_never_zero_or_one() {
    let prime = BigUint::from(251u32);
    let drawn = [(0u8, 2u8), (1, 2), (2, 2), (3, 3), (250, 250), (251, 2), (252, 2), (254, 3)];
    for (random, expected) in drawn {
        assert_eq!(choose_private_key(&[random], &prime).to_bytes_be(), vec![expected]);
    }
}

#[test]
fn reply_for_given_draws() {
    // 2^7 mod 251 is 128, and 5^7 mod 251 is 64
    let mut credentials = [0u8; 128];
    for (i, b) in credentials.iter_mut().enumerate() {
        *b = i as u8;
    }
    let reply = make_ard_reply(2, &[0, 0, 251], &[0, 0, 5], &[0, 0, 7], &credentials);
    let aes_key = derive_aes_key(&BigUint::from(64u32));
    let ciphertext = encrypt_credentials(&credentials, &aes_key);
    assert_eq!(reply.len(), 131);
    assert_eq!(&reply[..128], &ciphertext[..]);
    assert_eq!(&reply[128..], &[0, 0, 128]);
    assert_eq!(join_reply(&ciphertext, &BigUint::from(128u32), 3), reply);
}

#[test]
fn server_finds_the_key_of_a_reply() {
    // the server's private key is 3, its public key 2^3
    let prime = BigUint::from(251u32);
    let credentials = join_credentials(&[1u8; 64], &[2u8; 64]);
    let reply = make_ard_reply(2, &[251], &[8], &[7], &credentials);
    let public_key = BigUint::from_bytes_be(&reply[128..]);
    let secret = public_key.modpow(&BigUint::from(3u32), &prime);
    let sealed = encrypt_credentials(&credentials, &derive_aes_key(&secret));
    assert_eq!(&reply[..128], &sealed[..]);
}

/// The decryption of the first 128 bytes of `ciphertext`, block by block.
fn decrypted(ciphertext: &[u8], key: &[u8; 16]) -> Vec<u8> {
    let cipher = Aes128::new(&(*key).into());
    let mut plaintext = Vec::new();
    for chunk in ciphertext[..128].chunks(16) {
        let mut block = Block::clone_from_slice(chunk);
        cipher.decrypt_block(&mut block);
        plaintext.extend_from_slice(&block);
    }
    plaintext
}

#[test]
fn encryption_is_undone_by_decryption() {
    let key = [0x42u8; 16];
    let mut plaintext = [0u8; 128];
    for (i, b) in plaintext.iter_mut().enumerate() {
        *b = (i * 7) as u8;
    }
    let ciphertext = encrypt_credentials(&plaintext, &key);
    assert_eq!(decrypted(&ciphertext, &key), plaintext.to_vec());
}

#[test]
fn server_recovers_the_credentials_of_a_drawn_reply() {
    // the server's private key is 3, its public key 2^3
    let prime = BigUint::from(251u32);
    let long_name = "u".repeat(70);
    let reply = draw_ard_reply(2, &[0, 251], &[0, 8], &long_name, "testpass");
    assert_eq!(reply.len(), 130);
    assert!(u16::from_be_bytes([reply[128], reply[129]]) < 251);
    let public_key = BigUint::from_bytes_be(&reply[128..]);
    let secret = public_key.modpow(&BigUint::from(3u32), &prime);
    let credentials = decrypted(&reply, &derive_aes_key(&secret));
    assert_eq!(&credentials[..63], "u".repeat(63).as_bytes());
    assert_eq!(credentials[63], 0);
    assert_eq!(&credentials[64..72], b"testpass");
    assert_eq!(credentials[72], 0);
}

#[test]
fn both_sides_compute_one_secret() {
    let prime = BigUint::from(65537u32);
    let generator = BigUint::from(3u32);
    let (client, server) = (BigUint::from(4711u32), BigUint::from(31415u32));
    let client_public = generator.modpow(&client, &prime);
    let server_public = generator.modpow(&server, &prime);
    assert_eq!(
        server_public.modpow(&client, &prime).to_bytes_be(),
        client_public.modpow(&server, &prime).to_bytes_be()
    );
}

#[test]
fn credentials_are_user_name_and_password() {
    let credentials = join_credentials(&[1u8; 64], &[2u8; 64]);
    assert_eq!(&credentials[..64], &[1u8; 64]);
    assert_eq!(&credentials[64..], &[2u8; 64]);
}

#[test]
fn replies_are_drawn_anew() {
    let prime = [0xffu8, 0xff, 0xff, 0xff, 0xff, 0xff, 0xff, 0xc5];
    let peer = [0u8, 0, 0, 0, 0, 0, 0, 5];
    let first = draw_ard_reply(2, &prime, &peer, "admin", "password");
    let second = draw_ard_reply(2, &prime, &peer, "admin", "password");
    assert_eq!(first.len(), 136);
    assert_eq!(second.len(), 136);
    assert_ne!(&first[..128], &second[..128]);
    assert_ne!(&first[128..], &second[128..]);
}

#[test]
fn test_ard_auth_failure() {
    let prime_bytes = [0, 0, 0, 0, 0, 0, 0, 251u8];
    let peer_pub_bytes = [0, 0, 0, 0, 0, 0, 0, 5u8];
    let (result, reply) = converse(2, &prime_bytes, &peer_pub_bytes, 1, "admin", "password");
    assert_eq!(reply.len(), 128 + 8);
    assert!(result.is_err());
    assert!(
        matches!(result, Err(VncError::WrongPassword)),
        "Expected WrongPassword, got {:?}",
        result
    );
}

#[test]
fn test_ard_auth_success() {
    let prime_bytes = [0, 0, 0, 0, 0, 0, 0, 251u8];
    let peer_pub_bytes = [0, 0, 0, 0, 0, 0, 0, 5u8];
    let (result, reply) = converse(2, &prime_bytes, &peer_pub_bytes, 0, "admin", "password");
    assert_eq!(reply.len(), 128 + 8);
    assert!(result.is_ok(), "Expected Ok, got {:?}", result);
}

#[test]
fn test_ard_invalid_key_length_zero() {
    let (state, action) = offer_parameters(2, 0);
    assert_eq!(state, ArdState::Finished);
    match action {
        ArdAction::Finish(Err(VncError::General(err))) => {
            assert!(
                err.contains("invalid key_length"),
                "Expected key_length error, got: {}",
                err
            );
            assert_eq!(err, "ARD: invalid key_length 0 (must be 1..=1024)");
        }
        other => panic!("Expected an error, got {:?}", other),
    }
}

#[test]
fn test_ard_invalid_key_length_too_large() {
    let (state, action) = offer_parameters(2, 2000);
    assert_eq!(state, ArdState::Finished);
    match action {
        ArdAction::Finish(Err(VncError::General(err))) => {
            assert!(
                err.contains("invalid key_length"),
                "Expected key_length error, got: {}",
                err
            );
            assert_eq!(err, "ARD: invalid key_length 2000 (must be 1..=1024)");
        }
        other => panic!("Expected an error, got {:?}", other),
    }
}

#[test]
fn key_length_bounds() {
    assert_eq!(MAX_KEY_LENGTH, 1024);
    let (state, action) = offer_parameters(5, 1024);
    assert_eq!(state, ArdState::Keys { generator: 5, key_length: 1024 });
    assert!(matches!(action, ArdAction::Read(2048)));
    let (state, action) = offer_parameters(5, 1);
    assert_eq!(state, ArdState::Keys { generator: 5, key_length: 1 });
    assert!(matches!(action, ArdAction::Read(2)));
    let (state, _) = offer_parameters(5, 1025);
    assert_eq!(state, ArdState::Finished);
}

#[test]
fn test_ard_credentials_packing_in_stream() {
    let prime_bytes = {
        let mut b = vec![0u8; 16];
        b[15] = 251; // prime = 251
        b
    };
    let peer_pub_bytes = {
        let mut b = vec![0u8; 16];
        b[15] = 5;
        b
    };
    let (result, reply) =
        converse(2, &prime_bytes, &peer_pub_bytes, 0, "testuser", "testpass");
    assert_eq!(reply.len(), 128 + 16);
    let pub_key = &reply[128..];
    assert!(
        pub_key.iter().any(|&b| b != 0),
        "Public key should not be all zeros"
    );
    assert!(result.is_ok(), "Expected Ok, got {:?}", result);
}
