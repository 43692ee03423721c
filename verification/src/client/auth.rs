//! The choice of a security type, and VNC authentication (security type 2).

use crate::client::security::des;
use crate::error::VncError;
use crate::types::VncVersion;
use crate::wire::read_u32;
use vstd::prelude::*;
use vstd::std_specs::convert::{FromSpec, FromSpecImpl, TryFromSpecImpl};
use vstd::utf8::encode_utf8;

verus! {

use crate::client::security::des::{des_decrypted, des_encrypted, des_encrypted_block};

/// The security types that the client knows by name.
#[derive(Debug, Clone, Copy, PartialEq, Eq, Structural)]
pub enum SecurityType {
    Invalid,
    NoSecurity,
    VncAuth,
    RA2,
    RA2ne,
    Tight,
    Ultra,
    Tls,
    VeNCrypt,
    GtkVncSasl,
    Md5Hash,
    ColinDeanXvp,
    AppleRemoteDesktop,
}

/// The number of a security type on the wire.
pub open spec fn security_code(security_type: SecurityType) -> u8 {
    match security_type {
        SecurityType::Invalid => 0,
        SecurityType::NoSecurity => 1,
        SecurityType::VncAuth => 2,
        SecurityType::RA2 => 5,
        SecurityType::RA2ne => 6,
        SecurityType::Tight => 16,
        SecurityType::Ultra => 17,
        SecurityType::Tls => 18,
        SecurityType::VeNCrypt => 19,
        SecurityType::GtkVncSasl => 20,
        SecurityType::Md5Hash => 21,
        SecurityType::ColinDeanXvp => 22,
        SecurityType::AppleRemoteDesktop => 30,
    }
}

/// The security type of a number, where there is one.
pub open spec fn security_type_of(code: u8) -> Option<SecurityType> {
    match code {
        0 => Some(SecurityType::Invalid),
        1 => Some(SecurityType::NoSecurity),
        2 => Some(SecurityType::VncAuth),
        5 => Some(SecurityType::RA2),
        6 => Some(SecurityType::RA2ne),
        16 => Some(SecurityType::Tight),
        17 => Some(SecurityType::Ultra),
        18 => Some(SecurityType::Tls),
        19 => Some(SecurityType::VeNCrypt),
        20 => Some(SecurityType::GtkVncSasl),
        21 => Some(SecurityType::Md5Hash),
        22 => Some(SecurityType::ColinDeanXvp),
        30 => Some(SecurityType::AppleRemoteDesktop),
        _ => None,
    }
}

impl TryFromSpecImpl<u8> for SecurityType {
    open spec fn obeys_try_from_spec() -> bool {
        true
    }

    open spec fn try_from_spec(num: u8) -> Result<SecurityType, VncError> {
        match security_type_of(num) {
            Some(t) => Ok(t),
            None => Err(VncError::InvalidSecurityTyep(num)),
        }
    }
}

impl TryFrom<u8> for SecurityType {
    type Error = VncError;

    fn try_from(num: u8) -> (r: Result<SecurityType, VncError>) {
        match num {
            0 => Ok(SecurityType::Invalid),
            1 => Ok(SecurityType::NoSecurity),
            2 => Ok(SecurityType::VncAuth),
            5 => Ok(SecurityType::RA2),
            6 => Ok(SecurityType::RA2ne),
            16 => Ok(SecurityType::Tight),
            17 => Ok(SecurityType::Ultra),
            18 => Ok(SecurityType::Tls),
            19 => Ok(SecurityType::VeNCrypt),
            20 => Ok(SecurityType::GtkVncSasl),
            21 => Ok(SecurityType::Md5Hash),
            22 => Ok(SecurityType::ColinDeanXvp),
            30 => Ok(SecurityType::AppleRemoteDesktop),
            invalid => Err(VncError::InvalidSecurityTyep(invalid)),
        }
    }
}

impl FromSpecImpl<SecurityType> for u8 {
    open spec fn obeys_from_spec() -> bool {
        true
    }

    open spec fn from_spec(e: SecurityType) -> u8 {
        security_code(e)
    }
}

impl From<SecurityType> for u8 {
    fn from(e: SecurityType) -> (r: u8) {
        match e {
            SecurityType::Invalid => 0,
            SecurityType::NoSecurity => 1,
            SecurityType::VncAuth => 2,
            SecurityType::RA2 => 5,
            SecurityType::RA2ne => 6,
            SecurityType::Tight => 16,
            SecurityType::Ultra => 17,
            SecurityType::Tls => 18,
            SecurityType::VeNCrypt => 19,
            SecurityType::GtkVncSasl => 20,
            SecurityType::Md5Hash => 21,
            SecurityType::ColinDeanXvp => 22,
            SecurityType::AppleRemoteDesktop => 30,
        }
    }
}

/// The security types among the numbers in `codes`, in their order.
pub open spec fn known_types(codes: Seq<u8>) -> Seq<SecurityType>
    decreases codes.len(),
{
    if codes.len() == 0 {
        Seq::empty()
    } else {
        match security_type_of(codes.last()) {
            Some(t) => known_types(codes.drop_last()).push(t),
            None => known_types(codes.drop_last()),
        }
    }
}

/// What the bytes that a server has sent so far say of the security types.
#[derive(Debug)]
pub enum SecurityRead {
    /// So many bytes more are due.
    Read(usize),
    /// The server refuses; the rest of what it sends, to the end of the transport, says why.
    ReadReason,
    /// The types that the server offers, or why there are none to use.
    Done(Result<Vec<SecurityType>, VncError>),
}

/// The meaning of a [`SecurityRead`].
pub ghost enum SecurityReadView {
    Read(nat),
    ReadReason,
    Offer(Seq<SecurityType>),
    Unknown(u8),
    Unsupported,
}

/// What the client says where it knows none of the types on offer.
pub open spec fn no_supported_type_text() -> Seq<char> {
    "No supported security type offered by server"@
}

impl SecurityRead {
    /// Whether this is what `meaning` says.
    pub open spec fn says(self, meaning: SecurityReadView) -> bool {
        match meaning {
            SecurityReadView::Read(n) => self matches SecurityRead::Read(more) && more == n,
            SecurityReadView::ReadReason => self is ReadReason,
            SecurityReadView::Offer(types) => self matches SecurityRead::Done(Ok(v)) && v@ == types,
            SecurityReadView::Unknown(code) => self matches SecurityRead::Done(Err(e)) && e
                == VncError::InvalidSecurityTyep(code),
            SecurityReadView::Unsupported => {
                &&& self matches SecurityRead::Done(Err(VncError::General(text)))
                &&& text@ == no_supported_type_text()
            },
        }
    }
}

/// What `received` says of the security types. In version 3.3 the server decides on one, in the
/// last byte of a word; later it sends a count and so many numbers. A zero in either place
/// refuses the client: a word with the length of the reason follows, and the reason.
pub open spec fn security_read(received: Seq<u8>, version: VncVersion) -> SecurityReadView {
    if version is RFB33 {
        if received.len() < 4 {
            SecurityReadView::Read((4 - received.len()) as nat)
        } else if received[3] == 0 {
            if received.len() < 8 {
                SecurityReadView::Read((8 - received.len()) as nat)
            } else {
                SecurityReadView::ReadReason
            }
        } else {
            match security_type_of(received[3]) {
                Some(t) => SecurityReadView::Offer(seq![t]),
                None => SecurityReadView::Unknown(received[3]),
            }
        }
    } else {
        if received.len() < 1 {
            SecurityReadView::Read(1)
        } else if received[0] == 0 {
            if received.len() < 5 {
                SecurityReadView::Read((5 - received.len()) as nat)
            } else {
                SecurityReadView::ReadReason
            }
        } else if received.len() < 1 + received[0] {
            SecurityReadView::Read((1 + received[0] - received.len()) as nat)
        } else {
            let types = known_types(received.subrange(1, 1 + received[0]));
            if types.len() == 0 {
                SecurityReadView::Unsupported
            } else {
                SecurityReadView::Offer(types)
            }
        }
    }
}

impl SecurityType {
    /// Reads the security types out of what the server has sent so far.
    pub fn read(received: &[u8], version: &VncVersion) -> (r: SecurityRead)
        ensures
            r.says(security_read(received@, *version)),
            *version is RFB33 && received@.len() < 4 ==> (r matches SecurityRead::Read(more) && more
                == 4 - received@.len()),
            *version is RFB33 && 4 <= received@.len() < 8 && received@[3] == 0 ==> (
            r matches SecurityRead::Read(more) && more == 8 - received@.len()),
            *version is RFB33 && 8 <= received@.len() && received@[3] == 0 ==> r is ReadReason,
            *version is RFB33 && 4 <= received@.len() && received@[3] != 0 ==> match r {
                SecurityRead::Done(Ok(types)) => types@.len() == 1 && security_code(types@[0])
                    == received@[3],
                SecurityRead::Done(Err(e)) => e == VncError::InvalidSecurityTyep(received@[3])
                    && security_type_of(received@[3]) is None,
                _ => false,
            },
            *version !is RFB33 && received@.len() == 0 ==> (r matches SecurityRead::Read(more)
                && more == 1),
            *version !is RFB33 && 1 <= received@.len() < 5 && received@[0] == 0 ==> (
            r matches SecurityRead::Read(more) && more == 5 - received@.len()),
            *version !is RFB33 && 5 <= received@.len() && received@[0] == 0 ==> r is ReadReason,
            *version !is RFB33 && 1 <= received@.len() <= received@[0] ==> (
            r matches SecurityRead::Read(more) && more == 1 + received@[0] - received@.len()),
            *version !is RFB33 && received@.len() > received@[0] > 0 ==> match r {
                SecurityRead::Done(Ok(types)) => types@.len() > 0 && codes_of(types@)
                    == known_codes(received@.subrange(1, 1 + received@[0])),
                SecurityRead::Done(Err(VncError::General(_))) => forall|i: int|
                    1 <= i <= received@[0] ==> security_type_of(#[trigger] received@[i]) is None,
                _ => false,
            },
    {
        proof {
            if *version !is RFB33 && received@.len() > received@[0] > 0 {
                offers_are_read_in_full(received@, *version);
            }
        }
        match version {
            VncVersion::RFB33 => {
                if received.len() < 4 {
                    return SecurityRead::Read(4 - received.len());
                }
                match SecurityType::try_from(received[3]) {
                    Err(e) => SecurityRead::Done(Err(e)),
                    Ok(SecurityType::Invalid) => {
                        if received.len() < 8 {
                            SecurityRead::Read(8 - received.len())
                        } else {
                            SecurityRead::ReadReason
                        }
                    },
                    Ok(security_type) => {
                        let mut sec_types: Vec<SecurityType> = Vec::new();
                        sec_types.push(security_type);
                        assert(sec_types@ =~= seq![security_type]);
                        SecurityRead::Done(Ok(sec_types))
                    },
                }
            },
            _ => {
                if received.len() < 1 {
                    return SecurityRead::Read(1);
                }
                let num: usize = received[0] as usize;
                if num == 0 {
                    if received.len() < 5 {
                        return SecurityRead::Read(5 - received.len());
                    }
                    return SecurityRead::ReadReason;
                }
                if received.len() < 1 + num {
                    return SecurityRead::Read(1 + num - received.len());
                }
                let mut sec_types: Vec<SecurityType> = Vec::new();
                let mut i: usize = 0;
                while i < num
                    invariant
                        i <= num < received@.len(),
                        sec_types@ == known_types(received@.subrange(1, 1 + i)),
                    decreases num - i,
                {
                    let ghost codes = received@.subrange(1, 2 + i);
                    assert(codes.drop_last() =~= received@.subrange(1, 1 + i));
                    if let Ok(security_type) = SecurityType::try_from(received[1 + i]) {
                        sec_types.push(security_type);
                    }
                    i = i + 1;
                }
                if sec_types.is_empty() {
                    let text = "No supported security type offered by server".to_owned();
                    return SecurityRead::Done(Err(VncError::General(text)));
                }
                SecurityRead::Done(Ok(sec_types))
            },
        }
    }

    /// The outcome where the server refuses the client for `reason`.
    pub fn refused(reason: String) -> (r: Result<Vec<SecurityType>, VncError>)
        ensures
            r == Err::<Vec<SecurityType>, VncError>(VncError::General(reason)),
    {
        Err(VncError::General(reason))
    }

    /// The bytes by which the client picks this security type.
    pub fn write(&self) -> (bytes: [u8; 1])
        ensures
            bytes@ == seq![security_code(*self)],
            security_type_of(bytes@[0]) == Some(*self),
    {
        let bytes: [u8; 1] = [(*self).into()];
        assert(bytes@ =~= seq![security_code(*self)]);
        bytes
    }
}

/// How the server takes the answer to its challenge.
#[derive(Debug, Clone, Copy, PartialEq, Eq, Structural)]
pub enum AuthResult {
    Success,
    Failed,
}

impl FromSpecImpl<u32> for AuthResult {
    open spec fn obeys_from_spec() -> bool {
        true
    }

    open spec fn from_spec(num: u32) -> AuthResult {
        if num == 0 {
            AuthResult::Success
        } else {
            AuthResult::Failed
        }
    }
}

impl From<u32> for AuthResult {
    fn from(num: u32) -> (r: AuthResult) {
        match num {
            0 => AuthResult::Success,
            _ => AuthResult::Failed,
        }
    }
}

impl FromSpecImpl<AuthResult> for u32 {
    open spec fn obeys_from_spec() -> bool {
        true
    }

    open spec fn from_spec(e: AuthResult) -> u32 {
        match e {
            AuthResult::Success => 0,
            AuthResult::Failed => 1,
        }
    }
}

impl From<AuthResult> for u32 {
    fn from(e: AuthResult) -> (r: u32) {
        match e {
            AuthResult::Success => 0,
            AuthResult::Failed => 1,
        }
    }
}

/// `c` with its bits in reverse order.
pub open spec fn mirrored(c: u8) -> u8 {
    ((c & 1) << 7) | (((c >> 1) & 1) << 6) | (((c >> 2) & 1) << 5) | (((c >> 3) & 1) << 4) | (((c
        >> 4) & 1) << 3) | (((c >> 5) & 1) << 2) | (((c >> 6) & 1) << 1) | ((c >> 7) & 1)
}

/// The DES key of a password: its first eight bytes, mirrored, and zeros where it is shorter.
pub open spec fn password_key(credential: Seq<u8>) -> Seq<u8> {
    Seq::new(
        8,
        |i: int|
            if i < credential.len() {
                mirrored(credential[i])
            } else {
                0
            },
    )
}

/// Reverses the order of the bits in `c`.
fn mirror(c: u8) -> (m: u8)
    ensures
        m == mirrored(c),
{
    let mut m: u8 = 0;
    let mut j: u8 = 0;
    proof {
        assert(mirrored(c) & !(0xffu8 >> 0u8) == 0u8) by (bit_vector);
    }
    while j < 8
        invariant
            j <= 8,
            m == mirrored(c) & !(0xffu8 >> j),
        decreases 8 - j,
    {
        proof {
            let before = m;
            assert(before == mirrored(c) & !(0xffu8 >> j) ==> before | (((c >> j) & 1u8) << ((7u8
                - j) as u8)) == mirrored(c) & !(0xffu8 >> ((j + 1) as u8))) by (bit_vector)
                requires
                    j < 8,
            ;
        }
        m = m | (((c >> j) & 1) << (7 - j));
        j = j + 1;
    }
    proof {
        assert(mirrored(c) & !(0xffu8 >> 8u8) == mirrored(c)) by (bit_vector);
    }
    m
}

/// A challenge and the key with which it is to be encrypted.
#[derive(Debug)]
pub struct AuthHelper {
    challenge: [u8; 16],
    key: [u8; 8],
}

impl AuthHelper {
    /// The challenge of the server.
    pub closed spec fn challenge(self) -> Seq<u8> {
        self.challenge@
    }

    /// The DES key.
    pub closed spec fn key(self) -> Seq<u8> {
        self.key@
    }

    /// Takes the challenge that the server sent, and the password.
    pub fn read(challenge: [u8; 16], credential: &str) -> (helper: AuthHelper)
        ensures
            helper.challenge() == challenge@,
            helper.key() == password_key(encode_utf8(credential@)),
            helper.key().len() == 8,
            forall|i: int, j: u8|
                0 <= i < 8 && j < 8 ==> #[trigger] (helper.key()[i] >> j) & 1 == (if i
                    < encode_utf8(credential@).len() {
                    (encode_utf8(credential@)[i] >> ((7 - j) as u8)) & 1
                } else {
                    0
                }),
    {
        let bytes = credential.as_bytes();
        let mut key: [u8; 8] = [0u8; 8];
        let mut i: usize = 0;
        while i < 8
            invariant
                i <= 8,
                bytes@ == encode_utf8(credential@),
                forall|j: int| 0 <= j < i ==> key@[j] == password_key(bytes@)[j],
            decreases 8 - i,
        {
            let c: u8 = if i < bytes.len() {
                bytes[i]
            } else {
                0
            };
            key[i] = mirror(c);
            proof {
                assert(mirrored(0u8) == 0u8) by (bit_vector);
            }
            i = i + 1;
        }
        assert(key@ =~= password_key(bytes@));
        proof {
            assert forall|i: int, j: u8| 0 <= i < 8 && j < 8 implies #[trigger] (key@[i] >> j) & 1
                == (if i < bytes@.len() {
                (bytes@[i] >> ((7 - j) as u8)) & 1
            } else {
                0
            }) by {
                key_bits_are_password_bits(bytes@, i, j);
            }
        }
        AuthHelper { challenge, key }
    }

    /// The answer to the challenge: its encryption under the key.
    pub fn write(&self) -> (response: Vec<u8>)
        ensures
            response@ == des_encrypted(self.challenge(), self.key()),
            response@.len() == 16,
            response@.take(8) == des_encrypted_block(self.key(), self.challenge().take(8)),
            response@.skip(8) == des_encrypted_block(self.key(), self.challenge().skip(8)),
            des_decrypted(response@, self.key()) == self.challenge(),
    {
        let response = des::encrypt(&self.challenge, &self.key);
        proof {
            let (challenge, sealed) = (self.challenge@, response@);
            assert(sealed.take(8) =~= sealed.subrange(0, 8));
            assert(challenge.take(8) =~= challenge.subrange(0, 8));
            assert(sealed.skip(8) =~= sealed.subrange(8, 16));
            assert(challenge.skip(8) =~= challenge.subrange(8, 16));
        }
        response
    }

    /// Reads the result word of the server.
    pub fn finish(self, result: [u8; 4]) -> (r: AuthResult)
        ensures
            r is Success <==> result@ == seq![0u8, 0, 0, 0],
    {
        let word: u32 = read_u32(result[0], result[1], result[2], result[3]);
        proof {
            if result@ == seq![0u8, 0, 0, 0] {
                assert(result@[0] == 0 && result@[1] == 0 && result@[2] == 0 && result@[3] == 0);
            } else if word == 0 {
                assert(result@ =~= seq![0u8, 0, 0, 0]);
            }
        }
        word.into()
    }
}

/// Every security type is told by its number, and no two share one.
pub proof fn security_type_round_trip(t: SecurityType)
    ensures
        security_type_of(security_code(t)) == Some(t),
{
}

/// A number that stands for a security type is the number of that type.
pub proof fn security_code_round_trip(code: u8)
    ensures
        security_type_of(code) matches Some(t) ==> security_code(t) == code,
{
}

/// The numbers of the security types, as they are registered for the protocol.
pub proof fn security_numbers(code: u8)
    ensures
        security_type_of(code) == Some(SecurityType::Invalid) <==> code == 0,
        security_type_of(code) == Some(SecurityType::NoSecurity) <==> code == 1,
        security_type_of(code) == Some(SecurityType::VncAuth) <==> code == 2,
        security_type_of(code) == Some(SecurityType::RA2) <==> code == 5,
        security_type_of(code) == Some(SecurityType::RA2ne) <==> code == 6,
        security_type_of(code) == Some(SecurityType::Tight) <==> code == 16,
        security_type_of(code) == Some(SecurityType::Ultra) <==> code == 17,
        security_type_of(code) == Some(SecurityType::Tls) <==> code == 18,
        security_type_of(code) == Some(SecurityType::VeNCrypt) <==> code == 19,
        security_type_of(code) == Some(SecurityType::GtkVncSasl) <==> code == 20,
        security_type_of(code) == Some(SecurityType::Md5Hash) <==> code == 21,
        security_type_of(code) == Some(SecurityType::ColinDeanXvp) <==> code == 22,
        security_type_of(code) == Some(SecurityType::AppleRemoteDesktop) <==> code == 30,
        security_type_of(code) is None <==> (2 < code < 5 || 6 < code < 16 || 22 < code < 30 || code
            > 30),
{
}

/// Only the word zero is a success; a success is told by it, a failure by the word one.
pub proof fn only_zero_is_a_success(num: u32, r: AuthResult)
    ensures
        <AuthResult as FromSpec<u32>>::from_spec(num) is Success <==> num == 0,
        <u32 as FromSpec<AuthResult>>::from_spec(r) == (if r is Success {
            0u32
        } else {
            1u32
        }),
{
}

/// A result is read back from the word that stands for it.
pub proof fn auth_result_round_trip(r: AuthResult)
    ensures
        <AuthResult as FromSpec<u32>>::from_spec(<u32 as FromSpec<AuthResult>>::from_spec(r)) == r,
{
}

/// The number of bytes that a complete message on the security types takes, the reason of a
/// refusal aside.
pub open spec fn security_message_len(received: Seq<u8>, version: VncVersion) -> nat {
    if version is RFB33 {
        if received[3] == 0 {
            8
        } else {
            4
        }
    } else if received[0] == 0 {
        5
    } else {
        1 + received[0] as nat
    }
}

/// The numbers of `types`, in their order.
pub open spec fn codes_of(types: Seq<SecurityType>) -> Seq<u8> {
    types.map_values(|t: SecurityType| security_code(t))
}

/// Those of `codes` that stand for a security type, in their order.
pub open spec fn known_codes(codes: Seq<u8>) -> Seq<u8> {
    codes.filter(|code: u8| security_type_of(code) is Some)
}

/// The types on offer have just the numbers of the server that stand for types, in the order of the
/// server and each as often as it is there.
pub proof fn offered_types_keep_their_order(codes: Seq<u8>)
    ensures
        codes_of(known_types(codes)) == known_codes(codes),
    decreases codes.len(),
{
    reveal(Seq::filter);
    if codes.len() > 0 {
        offered_types_keep_their_order(codes.drop_last());
        security_code_round_trip(codes.last());
        assert(codes_of(known_types(codes)) =~= known_codes(codes));
    } else {
        assert(codes_of(known_types(codes)) =~= known_codes(codes));
    }
}

/// What a server offers in two parts is what it offers in the first and then in the second.
pub proof fn offers_are_read_in_order(first: Seq<u8>, second: Seq<u8>)
    ensures
        known_types(first + second) == known_types(first) + known_types(second),
    decreases second.len(),
{
    if second.len() == 0 {
        assert(first + second =~= first);
        assert(known_types(first) + known_types(second) =~= known_types(first));
    } else {
        offers_are_read_in_order(first, second.drop_last());
        assert((first + second).drop_last() =~= first + second.drop_last());
        assert(known_types(first + second) =~= known_types(first) + known_types(second));
    }
}

/// From version 3.7 on, a complete offer with even one type that the client knows is taken, with
/// all the types that it knows in their order; only an offer without any is an error.
pub proof fn offers_are_read_in_full(received: Seq<u8>, version: VncVersion)
    requires
        version !is RFB33,
        received.len() > received[0] > 0,
    ensures
        security_read(received, version) is Offer <==> exists|i: int|
            1 <= i <= received[0] && security_type_of(#[trigger] received[i]) is Some,
        security_read(received, version) is Unsupported <==> forall|i: int|
            1 <= i <= received[0] ==> security_type_of(#[trigger] received[i]) is None,
        security_read(received, version) matches SecurityReadView::Offer(types) ==> types.len() > 0
            && codes_of(types) == known_codes(received.subrange(1, 1 + received[0])),
{
    let codes = received.subrange(1, 1 + received[0]);
    offered_types_keep_their_order(codes);
    assert(known_types(codes).len() == codes_of(known_types(codes)).len());
    if exists|i: int| 1 <= i <= received[0] && security_type_of(#[trigger] received[i]) is Some {
        let i = choose|i: int|
            1 <= i <= received[0] && security_type_of(#[trigger] received[i]) is Some;
        let t = security_type_of(received[i]).unwrap();
        security_code_round_trip(received[i]);
        assert(codes[i - 1] == security_code(t));
        offered_types_are_the_known_ones(codes, t);
    } else if known_types(codes).len() > 0 {
        let t = known_types(codes)[0];
        offered_types_are_the_known_ones(codes, t);
        security_type_round_trip(t);
        let k = choose|k: int| 0 <= k < codes.len() && codes[k] == security_code(t);
        assert(received[k + 1] == security_code(t));
    }
}

/// In version 3.3 the server has decided: a complete message gives the one type of its number, or
/// says that the number stands for none.
pub proof fn decisions_are_read(received: Seq<u8>)
    requires
        received.len() >= 4,
        received[3] != 0,
    ensures
        match security_read(received, VncVersion::RFB33) {
            SecurityReadView::Offer(types) => types.len() == 1 && security_code(types[0])
                == received[3],
            SecurityReadView::Unknown(code) => code == received[3] && security_type_of(code)
                is None,
            _ => false,
        },
{
    security_code_round_trip(received[3]);
}

/// A refusal is noticed in every version, with the word that follows it and not before.
pub proof fn refusals_are_noticed(received: Seq<u8>, version: VncVersion)
    ensures
        security_read(received, version) is ReadReason <==> (if version is RFB33 {
            received.len() >= 8 && received[3] == 0
        } else {
            received.len() >= 5 && received[0] == 0
        }),
{
}

/// What comes after a complete message changes nothing of its meaning.
pub proof fn nothing_after_the_message_counts(
    received: Seq<u8>,
    more: Seq<u8>,
    version: VncVersion,
)
    requires
        security_read(received, version) !is Read,
    ensures
        security_read(received + more, version) == security_read(received, version),
{
    if version !is RFB33 && received[0] > 0 {
        assert((received + more).subrange(1, 1 + received[0]) =~= received.subrange(
            1,
            1 + received[0],
        ));
    }
}

/// However a message arrives in pieces, the client asks for no byte beyond it, and comes to an
/// end with its last byte.
pub proof fn security_read_takes_the_message(stream: Seq<u8>, version: VncVersion, n: int)
    requires
        stream.len() >= (if version is RFB33 {
            4int
        } else {
            1int
        }),
        stream.len() >= security_message_len(stream, version),
        0 <= n <= security_message_len(stream, version),
    ensures
        security_read(stream.take(n), version) matches SecurityReadView::Read(more) ==> {
            &&& more > 0
            &&& n + more <= security_message_len(stream, version)
        },
        security_read(stream.take(n), version) is Read <==> n < security_message_len(
            stream,
            version,
        ),
{
}

/// A number that stands for no security type makes no difference to an offer, wherever it stands.
pub proof fn unknown_types_are_skipped(before: Seq<u8>, code: u8, after: Seq<u8>)
    requires
        security_type_of(code) is None,
    ensures
        known_types(before.push(code) + after) == known_types(before + after),
    decreases after.len(),
{
    if after.len() == 0 {
        assert(before.push(code) + after =~= before.push(code));
        assert(before.push(code).drop_last() =~= before);
        assert(before + after =~= before);
    } else {
        unknown_types_are_skipped(before, code, after.drop_last());
        assert((before.push(code) + after).drop_last() =~= before.push(code) + after.drop_last());
        assert((before + after).drop_last() =~= before + after.drop_last());
    }
}

/// The types on offer are those that a number of the server stands for.
pub proof fn offered_types_are_the_known_ones(codes: Seq<u8>, t: SecurityType)
    ensures
        known_types(codes).contains(t) <==> codes.contains(security_code(t)),
    decreases codes.len(),
{
    if codes.len() > 0 {
        let rest = codes.drop_last();
        offered_types_are_the_known_ones(rest, t);
        security_type_round_trip(t);
        security_code_round_trip(codes.last());
        assert(codes =~= rest.push(codes.last()));
        lemma_push_contains(rest, codes.last(), security_code(t));
        if let Some(last) = security_type_of(codes.last()) {
            lemma_push_contains(known_types(rest), last, t);
        }
    }
}

proof fn lemma_push_contains<A>(s: Seq<A>, last: A, a: A)
    ensures
        s.push(last).contains(a) <==> s.contains(a) || last == a,
{
    if s.contains(a) {
        let i = choose|i: int| 0 <= i < s.len() && s[i] == a;
        assert(s.push(last)[i] == a);
    }
    assert(s.push(last)[s.len() as int] == last);
}

/// Bit `i` of a mirrored byte is bit `7 - i` of the byte.
pub proof fn mirrored_bits(c: u8, i: u8)
    requires
        i < 8,
    ensures
        (mirrored(c) >> i) & 1 == (c >> ((7 - i) as u8)) & 1,
{
    assert((mirrored(c) >> i) & 1u8 == (c >> ((7u8 - i) as u8)) & 1u8) by (bit_vector)
        requires
            i < 8,
    ;
}

/// Mirroring twice gives the byte back.
pub proof fn mirrored_twice(c: u8)
    ensures
        mirrored(mirrored(c)) == c,
{
    assert(mirrored(mirrored(c)) == c) by (bit_vector);
}

/// Each of the eight bytes of a key holds the bits of the byte of the password in its place in
/// reverse, and none where the password has no byte.
pub proof fn key_bits_are_password_bits(credential: Seq<u8>, i: int, j: u8)
    requires
        0 <= i < 8,
        j < 8,
    ensures
        password_key(credential).len() == 8,
        (password_key(credential)[i] >> j) & 1 == (if i < credential.len() {
            (credential[i] >> ((7 - j) as u8)) & 1
        } else {
            0
        }),
{
    if i < credential.len() {
        mirrored_bits(credential[i], j);
    } else {
        assert((0u8 >> j) & 1u8 == 0u8) by (bit_vector);
    }
}

/// Different passwords of up to eight bytes, none of them null, have different keys.
pub proof fn different_passwords_have_different_keys(a: Seq<u8>, b: Seq<u8>)
    requires
        a.len() <= 8,
        b.len() <= 8,
        !a.contains(0u8),
        !b.contains(0u8),
        a != b,
    ensures
        password_key(a) != password_key(b),
{
    if password_key(a) == password_key(b) {
        assert(mirrored(0u8) == 0u8) by (bit_vector);
        if a.len() < b.len() {
            let i = a.len() as int;
            assert(password_key(a)[i] == password_key(b)[i]);
            mirrored_twice(b[i]);
            assert(b[i] == 0);
        } else if b.len() < a.len() {
            let i = b.len() as int;
            assert(password_key(a)[i] == password_key(b)[i]);
            mirrored_twice(a[i]);
            assert(a[i] == 0);
        } else {
            assert forall|i: int| 0 <= i < a.len() implies a[i] == b[i] by {
                assert(password_key(a)[i] == password_key(b)[i]);
                mirrored_twice(a[i]);
                mirrored_twice(b[i]);
            }
            assert(a =~= b);
        }
    }
}

/// Only the first eight bytes of a password count.
pub proof fn password_key_takes_eight_bytes(credential: Seq<u8>)
    ensures
        credential.len() >= 8 ==> password_key(credential) == password_key(credential.take(8)),
{
    if credential.len() >= 8 {
        assert(password_key(credential) =~= password_key(credential.take(8)));
    }
}

} // verus!
