use vnc::client::auth::{AuthHelper, AuthResult, SecurityRead, SecurityType};
use vnc::client::security::des::{decrypt, encrypt};
use vnc::error::VncError;
use vnc::types::VncVersion;

#[test]
fn test_security_type_30_parsing() {
    let st: SecurityType = 30u8.try_into().unwrap();
    assert_eq!(st, SecurityType::AppleRemoteDesktop);
    let byte: u8 = st.into();
    assert_eq!(byte, 30);
}

#[test]
fn test_security_type_roundtrip() {
    for val in [0, 1, 2, 5, 6, 16, 17, 18, 19, 20, 21, 22, 30] {
        let st: SecurityType = val.try_into().unwrap();
        let back: u8 = st.into();
        assert_eq!(back, val);
    }
}

#[test]
fn test_invalid_security_type() {
    let result: Result<SecurityType, _> = 99u8.try_into();
    assert!(result.is_err());
}

#[test]
fn security_types_come_in_pieces() {
    let message = [3u8, 2, 99, 30];
    for n in 0..message.len() {
        let more = if n == 0 { 1 } else { message.len() - n };
        match SecurityType::read(&message[..n], &VncVersion::RFB38) {
            SecurityRead::Read(due) => assert_eq!(due, more),
            other => panic!("Expected a read, got {:?}", other),
        }
    }
    match SecurityType::read(&message, &VncVersion::RFB37) {
        SecurityRead::Done(Ok(types)) => {
            assert_eq!(types, vec![SecurityType::VncAuth, SecurityType::AppleRemoteDesktop]);
        }
        other => panic!("Expected an offer, got {:?}", other),
    }
}

#[test]
fn server_decides_in_version_3_3() {
    assert!(matches!(SecurityType::read(&[], &VncVersion::RFB33), SecurityRead::Read(4)));
    assert!(matches!(SecurityType::read(&[0, 0, 0], &VncVersion::RFB33), SecurityRead::Read(1)));
    match SecurityType::read(&[0, 0, 0, 2], &VncVersion::RFB33) {
        SecurityRead::Done(Ok(types)) => assert_eq!(types, vec![SecurityType::VncAuth]),
        other => panic!("Expected an offer, got {:?}", other),
    }
    // only the last byte of the word counts
    match SecurityType::read(&[1, 2, 3, 1], &VncVersion::RFB33) {
        SecurityRead::Done(Ok(types)) => assert_eq!(types, vec![SecurityType::NoSecurity]),
        other => panic!("Expected an offer, got {:?}", other),
    }
    assert!(matches!(
        SecurityType::read(&[0, 0, 0, 99], &VncVersion::RFB33),
        SecurityRead::Done(Err(VncError::InvalidSecurityTyep(99)))
    ));
}

#[test]
fn server_refuses() {
    assert!(matches!(SecurityType::read(&[0], &VncVersion::RFB38), SecurityRead::Read(4)));
    let refusal = [0u8, 0, 0, 0, 4];
    assert!(matches!(SecurityType::read(&refusal, &VncVersion::RFB38), SecurityRead::ReadReason));
    assert!(matches!(SecurityType::read(&[0; 4], &VncVersion::RFB33), SecurityRead::Read(4)));
    assert!(matches!(SecurityType::read(&[0; 8], &VncVersion::RFB33), SecurityRead::ReadReason));
    match SecurityType::refused("busy".to_string()) {
        Err(VncError::General(reason)) => assert_eq!(reason, "busy"),
        other => panic!("Expected a refusal, got {:?}", other),
    }
}

#[test]
fn only_unknown_types_on_offer() {
    match SecurityType::read(&[2, 98, 99], &VncVersion::RFB38) {
        SecurityRead::Done(Err(VncError::General(text))) => {
            assert_eq!(text, "No supported security type offered by server");
        }
        other => panic!("Expected an error, got {:?}", other),
    }
}

#[test]
fn a_type_is_picked_by_its_number() {
    assert_eq!(SecurityType::VncAuth.write(), [2]);
    assert_eq!(SecurityType::AppleRemoteDesktop.write(), [30]);
    assert!(matches!(SecurityType::try_from(3u8), Err(VncError::InvalidSecurityTyep(3))));
}

#[test]
fn auth_results() {
    assert_eq!(AuthResult::from(0u32), AuthResult::Success);
    assert_eq!(AuthResult::from(1u32), AuthResult::Failed);
    assert_eq!(AuthResult::from(0x0100_0000u32), AuthResult::Failed);
    assert_eq!(u32::from(AuthResult::Success), 0);
    assert_eq!(u32::from(AuthResult::Failed), 1);
}

/// The challenge of two equal blocks, and its encryption under the key of [`PASSWORD`].
const CHALLENGE: [u8; 16] = [
    0x01, 0x23, 0x45, 0x67, 0x89, 0xAB, 0xCD, 0xEF, 0x01, 0x23, 0x45, 0x67, 0x89, 0xAB, 0xCD, 0xEF,
];
const RESPONSE: [u8; 16] = [
    0x85, 0xE8, 0x13, 0x54, 0x0F, 0x0A, 0xB4, 0x05, 0x85, 0xE8, 0x13, 0x54, 0x0F, 0x0A, 0xB4, 0x05,
];

/// Its bytes, mirrored, are 12 34 56 78 9A BC DE F0: up to parity, the key of the well-known vector.
const PASSWORD: &str = "\x48\x2c\x6a\x1e\x59\x3d\x7b\x0f";

#[test]
fn challenge_is_answered_under_the_mirrored_password() {
    let helper = AuthHelper::read(CHALLENGE, PASSWORD);
    assert_eq!(helper.write(), RESPONSE.to_vec());
    assert_eq!(
        decrypt(&helper.write(), &[0x12, 0x34, 0x56, 0x78, 0x9A, 0xBC, 0xDE, 0xF0]),
        CHALLENGE.to_vec()
    );
    assert_eq!(helper.finish([0, 0, 0, 0]), AuthResult::Success);
}

#[test]
fn only_eight_bytes_of_a_password_count() {
    let long = format!("{}and more", PASSWORD);
    assert_eq!(AuthHelper::read(CHALLENGE, &long).write(), RESPONSE.to_vec());
    let short = AuthHelper::read(CHALLENGE, "H,j");
    assert_eq!(short.write(), encrypt(&CHALLENGE, &[0x12, 0x34, 0x56, 0, 0, 0, 0, 0]));
    let empty = AuthHelper::read(CHALLENGE, "");
    assert_eq!(empty.write(), encrypt(&CHALLENGE, &[0; 8]));
}

#[test]
fn any_nonzero_result_word_is_a_failure() {
    for word in [[0, 0, 0, 1], [1, 0, 0, 0], [0, 0, 1, 0], [0, 1, 0, 0]] {
        assert_eq!(AuthHelper::read(CHALLENGE, PASSWORD).finish(word), AuthResult::Failed);
    }
}
