//! Apple Remote Desktop authentication (security type 30).
//!
//! The server sends a Diffie-Hellman generator, a key length, a prime and its public key. The
//! client draws a private key, derives an AES-128 key from the shared secret by MD5, encrypts
//! user name and password under it, and sends the ciphertext and its own public key. The server
//! answers with a result word.

use crate::biguint::BigUint;
use crate::error::VncError;
use crate::wire::{read_u16, read_u32};
use aes::cipher::{Block, BlockEncrypt, KeyInit};
use aes::Aes128;
use md5::{Digest, Md5};
use rand::rngs::ThreadRng;
use rand::Rng;
use vstd::arithmetic::div_mod::lemma_small_mod;
use vstd::arithmetic::power::{lemma_pow_mod_noop, lemma_pow_multiplies, pow};
use vstd::prelude::*;
use vstd::utf8::encode_utf8;

verus! {

use crate::biguint::{
    be_bytes,
    be_nat,
    lemma_be_bytes_spell,
    lemma_be_nat_bound,
    padded,
    padded_bytes_spell_fitting_number,
    padded_bytes_spell_remainder,
    power_mod,
};
use crate::wire::{be_u16, be_u32};

/// The longest Diffie-Hellman key that a server may announce, in bytes.
pub const MAX_KEY_LENGTH: u16 = 1024;

/// The sixteen bytes of the MD5 digest of `data`.
pub uninterp spec fn md5_digest(data: Seq<u8>) -> Seq<u8>;

/// The sixteen bytes that AES-128 makes of `block` under `key`.
pub uninterp spec fn aes128_encrypted_block(key: Seq<u8>, block: Seq<u8>) -> Seq<u8>;

/// Whether `block` is the only block that AES-128 turns into `sealed` under `key`.
pub open spec fn is_only_plaintext(block: Seq<u8>, key: Seq<u8>, sealed: Seq<u8>) -> bool {
    forall|other: Seq<u8>|
        other.len() == 16 && #[trigger] aes128_encrypted_block(key, other) == sealed ==> other
            == block
}

/// The thread's random number generator.
#[verifier::external_type_specification]
#[verifier::external_body]
pub struct ExThreadRng(ThreadRng);

/// `rand::thread_rng`: a handle on the thread's random number generator. Nothing is claimed
/// of it.
#[verifier::external_body]
fn thread_rng() -> ThreadRng {
    rand::thread_rng()
}

/// `rand::Rng::gen` for a byte. Nothing is claimed of the byte.
#[verifier::external_body]
fn random_byte(rng: &mut ThreadRng) -> u8 {
    rng.gen()
}

/// `rand::Rng::fill` on `len` bytes. Nothing is claimed of them but their number.
#[verifier::external_body]
fn random_bytes(rng: &mut ThreadRng, len: usize) -> (bytes: Vec<u8>)
    ensures
        bytes@.len() == len,
{
    let mut bytes = vec![0u8; len];
    rng.fill(&mut bytes[..]);
    bytes
}

/// `md5::Md5` fed with `data`.
///
/// Claimed of it: the digest depends on `data` alone.
#[verifier::external_body]
fn md5(data: &[u8]) -> (digest: [u8; 16])
    ensures
        digest@ == md5_digest(data@),
{
    let mut hasher = Md5::new();
    hasher.update(data);
    hasher.finalize().into()
}

/// `BlockEncrypt::encrypt_block` of `aes::Aes128` under `key`.
///
/// Claimed of it: the ciphertext depends on the key and the block alone, and no other block has
/// it under the same key (`BlockDecrypt::decrypt_block` takes it back to the block).
#[verifier::external_body]
fn aes128_encrypt_block(key: &[u8; 16], block: &[u8; 16]) -> (out: [u8; 16])
    ensures
        out@ == aes128_encrypted_block(key@, block@),
        is_only_plaintext(block@, key@, out@),
{
    let mut data: Block<Aes128> = (*block).into();
    Aes128::new(&(*key).into()).encrypt_block(&mut data);
    data.into()
}

/// How many bytes of a credential of `value_len` bytes go into a buffer of `buf_len`: all but
/// the one that the terminator takes.
pub open spec fn packed_len(value_len: nat, buf_len: nat) -> nat {
    if value_len <= buf_len - 1 {
        value_len
    } else {
        (buf_len - 1) as nat
    }
}

/// A credential as it is sent: its bytes, as many as fit, a null byte, and `padding`.
pub open spec fn packed_credential(value: Seq<u8>, buf_len: nat, padding: Seq<u8>) -> Seq<u8> {
    value.take(packed_len(value.len(), buf_len) as int).push(0u8) + padding
}

/// Whether `buf` is a way to send the credential `value` in `buf_len` bytes.
pub open spec fn is_packed(buf: Seq<u8>, value: Seq<u8>, buf_len: nat) -> bool {
    let n = packed_len(value.len(), buf_len) as int;
    &&& buf.len() == buf_len
    &&& buf.take(n) == value.take(n)
    &&& buf[n] == 0
}

/// A packed credential holds every byte of the value that leaves room for the terminator, in its
/// place, and the terminator right behind.
pub proof fn packed_credentials_hold_the_value(buf: Seq<u8>, value: Seq<u8>, buf_len: nat)
    requires
        buf_len >= 1,
        is_packed(buf, value, buf_len),
    ensures
        buf.len() == buf_len,
        forall|i: int| 0 <= i < buf_len - 1 && i < value.len() ==> #[trigger] buf[i] == value[i],
        value.len() < buf_len ==> buf[value.len() as int] == 0,
        value.len() >= buf_len ==> buf[buf_len - 1] == 0,
{
    let n = packed_len(value.len(), buf_len) as int;
    assert forall|i: int| 0 <= i < buf_len - 1 && i < value.len() implies #[trigger] buf[i]
        == value[i] by {
        assert(buf.take(n)[i] == value.take(n)[i]);
    }
}

/// Packs a credential into `buf_len` bytes: null-terminated, then `padding`.
pub fn pack_credential(value: &str, buf_len: usize, padding: &[u8]) -> (buf: Vec<u8>)
    requires
        buf_len >= 1,
        packed_len(encode_utf8(value@).len(), buf_len as nat) + 1 + padding@.len() == buf_len,
    ensures
        buf@ == packed_credential(encode_utf8(value@), buf_len as nat, padding@),
        buf@.skip(buf_len - padding@.len()) == padding@,
        is_packed(buf@, encode_utf8(value@), buf_len as nat),
        buf@.len() == buf_len,
        forall|i: int|
            0 <= i < buf_len - 1 && i < encode_utf8(value@).len() ==> #[trigger] buf@[i]
                == encode_utf8(value@)[i],
        encode_utf8(value@).len() < buf_len ==> buf@[encode_utf8(value@).len() as int] == 0,
        encode_utf8(value@).len() >= buf_len ==> buf@[buf_len - 1] == 0,
{
    let bytes = value.as_bytes();
    let copy_len: usize = if bytes.len() <= buf_len - 1 {
        bytes.len()
    } else {
        buf_len - 1
    };
    let mut buf: Vec<u8> = Vec::with_capacity(buf_len);
    let mut i: usize = 0;
    while i < copy_len
        invariant
            i <= copy_len <= bytes@.len(),
            buf@ == bytes@.take(i as int),
        decreases copy_len - i,
    {
        buf.push(bytes[i]);
        i = i + 1;
        assert(bytes@.take(i as int) =~= bytes@.take(i - 1).push(bytes@[i - 1]));
    }
    buf.push(0);
    let ghost head = buf@;
    buf.extend_from_slice(padding);
    proof {
        assert(buf@ =~= head + padding@);
        assert(buf@.take(copy_len as int) =~= bytes@.take(copy_len as int));
        assert(buf@.skip(buf_len - padding@.len()) =~= padding@);
        packed_credentials_hold_the_value(buf@, bytes@, buf_len as nat);
    }
    buf
}

/// Packs a credential into `buf_len` bytes: null-terminated, then random padding.
pub fn pack_credential_with_rng(value: &str, buf_len: usize, rng: &mut ThreadRng) -> (buf: Vec<u8>)
    requires
        buf_len >= 1,
    ensures
        is_packed(buf@, encode_utf8(value@), buf_len as nat),
        buf@.len() == buf_len,
        forall|i: int|
            0 <= i < buf_len - 1 && i < encode_utf8(value@).len() ==> #[trigger] buf@[i]
                == encode_utf8(value@)[i],
        encode_utf8(value@).len() < buf_len ==> buf@[encode_utf8(value@).len() as int] == 0,
        encode_utf8(value@).len() >= buf_len ==> buf@[buf_len - 1] == 0,
{
    let value_len: usize = value.as_bytes().len();
    let copy_len: usize = if value_len <= buf_len - 1 {
        value_len
    } else {
        buf_len - 1
    };
    let mut padding: Vec<u8> = Vec::new();
    while padding.len() < buf_len - 1 - copy_len
        invariant
            copy_len <= buf_len - 1,
            padding@.len() <= buf_len - 1 - copy_len,
        decreases buf_len - 1 - copy_len - padding@.len(),
    {
        padding.push(random_byte(rng));
    }
    pack_credential(value, buf_len, &padding)
}

/// The AES-128 key that belongs to a Diffie-Hellman secret: the MD5 digest of its bytes.
pub fn derive_aes_key(shared_secret: &BigUint) -> (key: [u8; 16])
    ensures
        key@ == md5_digest(be_bytes(shared_secret@)),
{
    md5(&shared_secret.to_bytes_be())
}

/// The sixteen bytes of `data` that hold position `i`, where blocks are counted from the start.
pub open spec fn aes_block_at(data: Seq<u8>, i: int) -> Seq<u8> {
    data.subrange(i / 16 * 16, i / 16 * 16 + 16)
}

/// ECB mode: every block of `plaintext` is encrypted for itself.
pub open spec fn aes128_encrypted(plaintext: Seq<u8>, key: Seq<u8>) -> Seq<u8> {
    Seq::new(
        plaintext.len(),
        |i: int| aes128_encrypted_block(key, aes_block_at(plaintext, i))[i % 16],
    )
}

/// Whether AES-128 in ECB mode takes `plaintext` to `ciphertext`, block by block.
pub open spec fn is_aes128_encryption(
    ciphertext: Seq<u8>,
    plaintext: Seq<u8>,
    key: Seq<u8>,
) -> bool {
    &&& plaintext.len() == ciphertext.len()
    &&& forall|i: int|
        0 <= i < ciphertext.len() ==> #[trigger] aes_block_at(ciphertext, i)
            == aes128_encrypted_block(key, aes_block_at(plaintext, i))
}

/// The decryption of `ciphertext` with AES-128 in ECB mode: what it is the encryption of.
pub open spec fn aes128_decrypted(ciphertext: Seq<u8>, key: Seq<u8>) -> Seq<u8> {
    choose|plaintext: Seq<u8>| is_aes128_encryption(ciphertext, plaintext, key)
}

/// Where every block has only one plaintext, so has the whole.
proof fn lemma_only_plaintext(ciphertext: Seq<u8>, plaintext: Seq<u8>, key: Seq<u8>)
    requires
        ciphertext.len() % 16 == 0,
        is_aes128_encryption(ciphertext, plaintext, key),
        forall|i: int|
            0 <= i < ciphertext.len() ==> is_only_plaintext(
                aes_block_at(plaintext, i),
                key,
                #[trigger] aes_block_at(ciphertext, i),
            ),
    ensures
        forall|other: Seq<u8>|
            #[trigger] is_aes128_encryption(ciphertext, other, key) ==> other == plaintext,
        aes128_decrypted(ciphertext, key) == plaintext,
{
    assert forall|other: Seq<u8>| #[trigger]
        is_aes128_encryption(ciphertext, other, key) implies other == plaintext by {
        assert forall|i: int| 0 <= i < ciphertext.len() implies other[i] == plaintext[i] by {
            let sealed = aes_block_at(ciphertext, i);
            assert(aes128_encrypted_block(key, aes_block_at(other, i)) == sealed);
            assert(aes_block_at(other, i)[i % 16] == other[i]);
            assert(aes_block_at(plaintext, i)[i % 16] == plaintext[i]);
        }
        assert(other =~= plaintext);
    }
}

/// Equal blocks have equal ciphertexts under one key, wherever they stand.
pub proof fn equal_blocks_are_encrypted_equally(
    ciphertext: Seq<u8>,
    plaintext: Seq<u8>,
    other_ciphertext: Seq<u8>,
    other_plaintext: Seq<u8>,
    key: Seq<u8>,
    i: int,
    j: int,
)
    requires
        is_aes128_encryption(ciphertext, plaintext, key),
        is_aes128_encryption(other_ciphertext, other_plaintext, key),
        0 <= i < plaintext.len(),
        0 <= j < other_plaintext.len(),
        aes_block_at(plaintext, i) == aes_block_at(other_plaintext, j),
    ensures
        aes_block_at(ciphertext, i) == aes_block_at(other_ciphertext, j),
{
}

/// Encrypts the block of credentials with AES-128 in ECB mode. No other credentials have the same
/// ciphertext under the key.
pub fn encrypt_credentials(plaintext: &[u8; 128], aes_key: &[u8; 16]) -> (ciphertext: [u8; 128])
    ensures
        ciphertext@ == aes128_encrypted(plaintext@, aes_key@),
        is_aes128_encryption(ciphertext@, plaintext@, aes_key@),
        forall|at: int, end: int|
            0 <= at && at % 16 == 0 && end == at + 16 && end <= 128
                ==> #[trigger] ciphertext@.subrange(at, end) == aes128_encrypted_block(
                aes_key@,
                plaintext@.subrange(at, end),
            ),
        forall|other: Seq<u8>|
            #[trigger] is_aes128_encryption(ciphertext@, other, aes_key@) ==> other == plaintext@,
        aes128_decrypted(ciphertext@, aes_key@) == plaintext@,
{
    let mut ciphertext: [u8; 128] = [0u8; 128];
    let mut at: usize = 0;
    while at < 128
        invariant
            at % 16 == 0,
            at <= 128,
            forall|i: int|
                0 <= i < at ==> #[trigger] aes_block_at(ciphertext@, i) == aes128_encrypted_block(
                    aes_key@,
                    aes_block_at(plaintext@, i),
                ),
            forall|i: int|
                0 <= i < at ==> is_only_plaintext(
                    aes_block_at(plaintext@, i),
                    aes_key@,
                    #[trigger] aes_block_at(ciphertext@, i),
                ),
        decreases 128 - at,
    {
        let mut block: [u8; 16] = [0u8; 16];
        let mut k: usize = 0;
        while k < 16
            invariant
                k <= 16,
                at + 16 <= 128,
                forall|i: int| 0 <= i < k ==> block@[i] == plaintext@[at + i],
            decreases 16 - k,
        {
            block[k] = plaintext[at + k];
            k = k + 1;
        }
        let sealed = aes128_encrypt_block(aes_key, &block);
        assert(block@ =~= plaintext@.subrange(at as int, at + 16));
        let ghost before = ciphertext@;
        k = 0;
        while k < 16
            invariant
                k <= 16,
                at + 16 <= 128,
                before.len() == 128,
                forall|i: int| 0 <= i < at ==> ciphertext@[i] == before[i],
                forall|i: int| at <= i < at + k ==> ciphertext@[i] == sealed@[i - at],
            decreases 16 - k,
        {
            ciphertext[at + k] = sealed[k];
            k = k + 1;
        }
        proof {
            assert(ciphertext@.subrange(at as int, at + 16) =~= sealed@);
            assert forall|i: int| 0 <= i < at + 16 implies {
                &&& #[trigger] aes_block_at(ciphertext@, i) == aes128_encrypted_block(
                    aes_key@,
                    aes_block_at(plaintext@, i),
                )
                &&& is_only_plaintext(
                    aes_block_at(plaintext@, i),
                    aes_key@,
                    aes_block_at(ciphertext@, i),
                )
            } by {
                if i >= at {
                    assert(i / 16 * 16 == at);
                } else {
                    assert(aes_block_at(ciphertext@, i) =~= aes_block_at(before, i));
                }
            }
        }
        at = at + 16;
    }
    proof {
        assert forall|i: int| 0 <= i < 128 implies ciphertext@[i] == aes128_encrypted(
            plaintext@,
            aes_key@,
        )[i] by {
            assert(aes_block_at(ciphertext@, i)[i % 16] == ciphertext@[i]);
        }
        assert(ciphertext@ =~= aes128_encrypted(plaintext@, aes_key@));
        lemma_only_plaintext(ciphertext@, plaintext@, aes_key@);
        assert forall|at: int, end: int|
            0 <= at && at % 16 == 0 && end == at + 16 && end <= 128 implies #[trigger]
            ciphertext@.subrange(at, end) == aes128_encrypted_block(
            aes_key@,
            plaintext@.subrange(at, end),
        ) by {
            assert(at / 16 * 16 == at);
            assert(ciphertext@.subrange(at, end) == aes_block_at(ciphertext@, at));
        }
    }
    ciphertext
}

/// The bytes of `value` in exactly `len` bytes, most significant byte first.
pub fn pad_to_length(value: &BigUint, len: usize) -> (out: Vec<u8>)
    ensures
        out@ == padded(be_bytes(value@), len as nat),
        out@.len() == len,
        be_nat(out@) == value@ as int % pow(256, len as nat),
{
    proof {
        lemma_be_bytes_spell(value@);
        padded_bytes_spell_remainder(be_bytes(value@), len as nat);
    }
    let bytes = value.to_bytes_be();
    let mut out: Vec<u8> = Vec::with_capacity(len);
    if bytes.len() >= len {
        let skipped: usize = bytes.len() - len;
        let mut i: usize = skipped;
        while i < bytes.len()
            invariant
                skipped <= i <= bytes@.len(),
                out@ == bytes@.subrange(skipped as int, i as int),
            decreases bytes@.len() - i,
        {
            out.push(bytes[i]);
            i = i + 1;
            assert(bytes@.subrange(skipped as int, i as int) =~= bytes@.subrange(
                skipped as int,
                i - 1,
            ).push(bytes@[i - 1]));
        }
    } else {
        let zeros: usize = len - bytes.len();
        while out.len() < zeros
            invariant
                out@.len() <= zeros,
                out@ =~= Seq::new(out@.len(), |i: int| 0u8),
            decreases zeros - out@.len(),
        {
            out.push(0);
        }
        let ghost front = out@;
        out.extend_from_slice(&bytes);
        assert(out@ =~= front + bytes@);
    }
    out
}

/// The private key that `random` bytes stand for: their number modulo the prime, and two in
/// place of zero and one.
pub open spec fn ard_private_key(random: Seq<u8>, prime: nat) -> nat {
    let key = be_nat(random) % prime;
    if key <= 1 {
        2
    } else {
        key
    }
}

/// A private key is never zero or one. It is what was drawn, where the draw is such a key below
/// the prime.
pub proof fn private_keys_are_what_was_drawn(random: Seq<u8>, prime: nat)
    requires
        prime != 0,
    ensures
        ard_private_key(random, prime) >= 2,
        2 <= be_nat(random) < prime ==> ard_private_key(random, prime) == be_nat(random),
        be_nat(random) % prime >= 2 ==> ard_private_key(random, prime) == be_nat(random) % prime,
        be_nat(random) % prime < 2 ==> ard_private_key(random, prime) == 2,
        prime > 2 ==> ard_private_key(random, prime) < prime,
{
    if be_nat(random) < prime {
        lemma_small_mod(be_nat(random), prime);
    }
}

/// What the client sends: the credentials under the key of the shared secret, then the
/// client's public key in as many bytes as the prime has.
pub open spec fn ard_reply(
    generator: u16,
    prime_bytes: Seq<u8>,
    peer_pub_bytes: Seq<u8>,
    random: Seq<u8>,
    credentials: Seq<u8>,
) -> Seq<u8> {
    let prime = be_nat(prime_bytes);
    let private_key = ard_private_key(random, prime);
    let shared_secret = power_mod(be_nat(peer_pub_bytes), private_key, prime);
    let client_public_key = power_mod(generator as nat, private_key, prime);
    aes128_encrypted(credentials, md5_digest(be_bytes(shared_secret))) + padded(
        be_bytes(client_public_key),
        prime_bytes.len(),
    )
}

/// The client's public key at the end of a reply.
pub open spec fn client_public_key(reply: Seq<u8>) -> nat {
    be_nat(reply.skip(128))
}

/// The credentials that a server with the private key `server` reads out of a reply: it raises
/// the client's public key to its own private key, and decrypts under the AES key of that secret.
pub open spec fn server_reads(reply: Seq<u8>, prime: nat, server: nat) -> Seq<u8> {
    let secret = power_mod(client_public_key(reply), server, prime);
    aes128_decrypted(reply.take(128), md5_digest(be_bytes(secret)))
}

/// Picks the private key for `random` bytes.
pub fn choose_private_key(random: &[u8], prime: &BigUint) -> (key: BigUint)
    requires
        prime@ != 0,
    ensures
        key@ == ard_private_key(random@, prime@),
        be_nat(random@) % prime@ >= 2 ==> key@ == be_nat(random@) % prime@,
        be_nat(random@) % prime@ < 2 ==> key@ == 2,
{
    let key = BigUint::from_bytes_be(random).modulo(prime);
    if key.is_one() || key.is_zero() {
        BigUint::from(2u32)
    } else {
        key
    }
}

/// A reply ends with the client's public key, in as many bytes as the prime has, and begins with
/// the credentials under the digest of the secret that the client shares with the server.
pub proof fn parts_of_a_reply(
    generator: u16,
    prime_bytes: Seq<u8>,
    peer_pub_bytes: Seq<u8>,
    random: Seq<u8>,
    credentials: Seq<u8>,
)
    requires
        be_nat(prime_bytes) != 0,
    ensures
        ({
            let reply = ard_reply(generator, prime_bytes, peer_pub_bytes, random, credentials);
            let n = credentials.len() as int;
            let p = be_nat(prime_bytes);
            let key = ard_private_key(random, p);
            &&& reply.len() == n + prime_bytes.len()
            &&& be_nat(reply.skip(n)) == power_mod(generator as nat, key, p)
            &&& reply.take(n) == aes128_encrypted(
                credentials,
                md5_digest(be_bytes(power_mod(be_nat(peer_pub_bytes), key, p))),
            )
        }),
{
    let reply = ard_reply(generator, prime_bytes, peer_pub_bytes, random, credentials);
    let n = credentials.len() as int;
    let p = be_nat(prime_bytes);
    let key = ard_private_key(random, p);
    let public_key = power_mod(generator as nat, key, p);
    lemma_be_nat_bound(prime_bytes);
    padded_bytes_spell_fitting_number(public_key, prime_bytes.len());
    assert(reply.skip(n) =~= padded(be_bytes(public_key), prime_bytes.len()));
    assert(reply.take(n) =~= aes128_encrypted(
        credentials,
        md5_digest(be_bytes(power_mod(be_nat(peer_pub_bytes), key, p))),
    ));
}

/// Puts the encrypted credentials and the client's public key one after the other.
pub fn join_reply(ciphertext: &[u8; 128], client_public_key: &BigUint, key_length: usize) -> (reply:
    Vec<u8>)
    ensures
        reply@ == ciphertext@ + padded(be_bytes(client_public_key@), key_length as nat),
{
    let mut pub_key_bytes = pad_to_length(client_public_key, key_length);
    let mut reply: Vec<u8> = Vec::new();
    reply.extend_from_slice(ciphertext);
    assert(reply@ =~= ciphertext@);
    reply.append(&mut pub_key_bytes);
    reply
}

/// Computes what the client sends, given all that is drawn at random. The server whose public key
/// it was made for reads the credentials out of it.
pub fn make_ard_reply(
    generator: u16,
    prime_bytes: &[u8],
    peer_pub_bytes: &[u8],
    random: &[u8],
    credentials: &[u8; 128],
) -> (reply: Vec<u8>)
    requires
        be_nat(prime_bytes@) != 0,
    ensures
        reply@ == ard_reply(generator, prime_bytes@, peer_pub_bytes@, random@, credentials@),
        reply@.len() == 128 + prime_bytes@.len(),
        client_public_key(reply@) < be_nat(prime_bytes@),
        be_nat(reply@.skip(128)) == power_mod(
            generator as nat,
            ard_private_key(random@, be_nat(prime_bytes@)),
            be_nat(prime_bytes@),
        ),
        forall|server: nat|
            be_nat(peer_pub_bytes@) == power_mod(generator as nat, server, be_nat(prime_bytes@))
                ==> #[trigger] server_reads(reply@, be_nat(prime_bytes@), server) == credentials@,
{
    let prime = BigUint::from_bytes_be(prime_bytes);
    let peer_public_key = BigUint::from_bytes_be(peer_pub_bytes);
    let gen = BigUint::from(generator as u32);
    let private_key = choose_private_key(random, &prime);
    let client_public_key = gen.modpow(&private_key, &prime);
    let shared_secret = peer_public_key.modpow(&private_key, &prime);
    let aes_key = derive_aes_key(&shared_secret);
    let ciphertext = encrypt_credentials(credentials, &aes_key);
    let reply = join_reply(&ciphertext, &client_public_key, prime_bytes.len());
    proof {
        let p = be_nat(prime_bytes@);
        lemma_be_nat_bound(prime_bytes@);
        padded_bytes_spell_fitting_number(client_public_key@, prime_bytes@.len());
        assert(reply@.take(128) =~= ciphertext@);
        assert(reply@.skip(128) =~= padded(be_bytes(client_public_key@), prime_bytes@.len()));
        assert forall|server: nat|
            be_nat(peer_pub_bytes@) == power_mod(generator as nat, server, p) implies #[trigger]
            server_reads(reply@, p, server) == credentials@ by {
            diffie_hellman_agreement(generator as nat, private_key@, server, p);
        }
    }
    reply
}

/// Puts the two packed credentials one after the other.
pub fn join_credentials(user_buf: &[u8], pass_buf: &[u8]) -> (credentials: [u8; 128])
    requires
        user_buf@.len() == 64,
        pass_buf@.len() == 64,
    ensures
        credentials@ == user_buf@ + pass_buf@,
{
    let mut credentials: [u8; 128] = [0u8; 128];
    let mut i: usize = 0;
    while i < 64
        invariant
            i <= 64,
            user_buf@.len() == 64,
            pass_buf@.len() == 64,
            forall|j: int| 0 <= j < i ==> credentials@[j] == user_buf@[j],
            forall|j: int| 64 <= j < 64 + i ==> credentials@[j] == pass_buf@[j - 64],
        decreases 64 - i,
    {
        credentials[i] = user_buf[i];
        credentials[64 + i] = pass_buf[i];
        i = i + 1;
    }
    assert(credentials@ =~= user_buf@ + pass_buf@);
    credentials
}

/// Whether `reply` is what the client sends for some outcome of the random draws: `random` for
/// the private key, `user_buf` and `pass_buf` for the packed credentials.
pub open spec fn is_ard_reply(
    reply: Seq<u8>,
    generator: u16,
    prime_bytes: Seq<u8>,
    peer_pub_bytes: Seq<u8>,
    username: Seq<char>,
    password: Seq<char>,
    random: Seq<u8>,
    user_buf: Seq<u8>,
    pass_buf: Seq<u8>,
) -> bool {
    &&& random.len() == prime_bytes.len()
    &&& is_packed(user_buf, encode_utf8(username), 64)
    &&& is_packed(pass_buf, encode_utf8(password), 64)
    &&& reply == ard_reply(generator, prime_bytes, peer_pub_bytes, random, user_buf + pass_buf)
}

/// Whether the server with the private key `server` reads user name and password out of `reply`.
pub open spec fn server_recovers(
    reply: Seq<u8>,
    prime: nat,
    server: nat,
    username: Seq<char>,
    password: Seq<char>,
) -> bool {
    let credentials = server_reads(reply, prime, server);
    &&& credentials.len() == 128
    &&& is_packed(credentials.take(64), encode_utf8(username), 64)
    &&& is_packed(credentials.skip(64), encode_utf8(password), 64)
}

/// Whether `reply` is of use to a server that sent its public key: the client's public key in it
/// is below the prime, and whichever private key belongs to the public key of the server, with it
/// the server reads user name and password.
pub open spec fn is_readable_reply(
    reply: Seq<u8>,
    generator: u16,
    prime: nat,
    peer_public_key: nat,
    username: Seq<char>,
    password: Seq<char>,
) -> bool {
    &&& client_public_key(reply) < prime
    &&& forall|server: nat|
        peer_public_key == power_mod(generator as nat, server, prime)
            ==> #[trigger] server_recovers(reply, prime, server, username, password)
}

/// Draws a private key and the padding of the credentials, and computes what the client sends.
pub fn draw_ard_reply(
    generator: u16,
    prime_bytes: &[u8],
    peer_pub_bytes: &[u8],
    username: &str,
    password: &str,
) -> (reply: Vec<u8>)
    requires
        be_nat(prime_bytes@) != 0,
    ensures
        reply@.len() == 128 + prime_bytes@.len(),
        exists|random: Seq<u8>, user_buf: Seq<u8>, pass_buf: Seq<u8>|
            is_ard_reply(
                reply@,
                generator,
                prime_bytes@,
                peer_pub_bytes@,
                username@,
                password@,
                random,
                user_buf,
                pass_buf,
            ),
        is_readable_reply(
            reply@,
            generator,
            be_nat(prime_bytes@),
            be_nat(peer_pub_bytes@),
            username@,
            password@,
        ),
{
    let mut rng = thread_rng();
    let random = random_bytes(&mut rng, prime_bytes.len());
    let user_buf = pack_credential_with_rng(username, 64, &mut rng);
    let pass_buf = pack_credential_with_rng(password, 64, &mut rng);
    let credentials = join_credentials(&user_buf, &pass_buf);
    let reply = make_ard_reply(generator, prime_bytes, peer_pub_bytes, &random, &credentials);
    assert(is_ard_reply(
        reply@,
        generator,
        prime_bytes@,
        peer_pub_bytes@,
        username@,
        password@,
        random@,
        user_buf@,
        pass_buf@,
    ));
    assert((user_buf@ + pass_buf@).take(64) =~= user_buf@);
    assert((user_buf@ + pass_buf@).skip(64) =~= pass_buf@);
    assert forall|server: nat|
        be_nat(peer_pub_bytes@) == power_mod(
            generator as nat,
            server,
            be_nat(prime_bytes@),
        ) implies #[trigger] server_recovers(
        reply@,
        be_nat(prime_bytes@),
        server,
        username@,
        password@,
    ) by {
        assert(server_reads(reply@, be_nat(prime_bytes@), server) == credentials@);
    }
    reply
}

/// The decimal digit for `d`.
pub open spec fn digit(d: nat) -> char {
    (48 + d) as char
}

/// `n` in decimal digits, without leading zeros.
pub open spec fn decimal(n: nat) -> Seq<char>
    decreases n,
{
    if n < 10 {
        seq![digit(n)]
    } else {
        decimal(n / 10).push(digit(n % 10))
    }
}

/// The number that decimal digits spell.
pub open spec fn digits_value(text: Seq<char>) -> int
    decreases text.len(),
{
    if text.len() == 0 {
        0
    } else {
        10 * digits_value(text.drop_last()) + (text.last() as int - '0' as int)
    }
}

/// A number in decimal digits consists of digits that spell it, without a zero in front.
pub proof fn decimal_spells_the_number(n: nat)
    ensures
        digits_value(decimal(n)) == n,
        decimal(n).len() >= 1,
        forall|i: int| 0 <= i < decimal(n).len() ==> '0' <= #[trigger] decimal(n)[i] <= '9',
        n > 0 ==> decimal(n)[0] != '0',
        n == 0 ==> decimal(n) == seq!['0'],
    decreases n,
{
    if n < 10 {
        reveal_with_fuel(digits_value, 2);
        assert(decimal(n).drop_last() =~= Seq::<char>::empty());
    } else {
        decimal_spells_the_number(n / 10);
        assert(decimal(n).drop_last() =~= decimal(n / 10));
    }
}

/// Appends `n` in decimal digits.
fn append_decimal(text: &mut String, n: u16)
    ensures
        final(text)@ == old(text)@ + decimal(n as nat),
    decreases n,
{
    if n >= 10 {
        append_decimal(text, n / 10);
    }
    let ghost before = text@;
    proof {
        reveal_strlit("0");
        reveal_strlit("1");
        reveal_strlit("2");
        reveal_strlit("3");
        reveal_strlit("4");
        reveal_strlit("5");
        reveal_strlit("6");
        reveal_strlit("7");
        reveal_strlit("8");
        reveal_strlit("9");
    }
    let last = match n % 10 {
        0 => "0",
        1 => "1",
        2 => "2",
        3 => "3",
        4 => "4",
        5 => "5",
        6 => "6",
        7 => "7",
        8 => "8",
        _ => "9",
    };
    text.append(last);
    assert(last@ =~= seq![digit((n % 10) as nat)]);
    assert(text@ =~= old(text)@ + decimal(n as nat));
}

/// What the client says of a key length that it does not accept.
pub open spec fn invalid_key_length_text(key_length: u16) -> Seq<char> {
    "ARD: invalid key_length "@ + decimal(key_length as nat) + " (must be 1..=1024)"@
}

/// What the client says of a key length names that length, so that no two are told alike.
pub proof fn refused_key_lengths_are_named(a: u16, b: u16)
    ensures
        digits_value(
            invalid_key_length_text(a).subrange(24, invalid_key_length_text(a).len() - 19),
        ) == a,
        invalid_key_length_text(a) == invalid_key_length_text(b) ==> a == b,
{
    reveal_strlit("ARD: invalid key_length ");
    reveal_strlit(" (must be 1..=1024)");
    decimal_spells_the_number(a as nat);
    decimal_spells_the_number(b as nat);
    let (ta, tb) = (invalid_key_length_text(a), invalid_key_length_text(b));
    assert(ta.subrange(24, ta.len() - 19) =~= decimal(a as nat));
    assert(tb.subrange(24, tb.len() - 19) =~= decimal(b as nat));
}

fn invalid_key_length(key_length: u16) -> (error: VncError)
    ensures
        error matches VncError::General(text) && text@ == invalid_key_length_text(key_length),
{
    let mut text = String::new();
    text.append("ARD: invalid key_length ");
    append_decimal(&mut text, key_length);
    text.append(" (must be 1..=1024)");
    assert(text@ =~= invalid_key_length_text(key_length));
    VncError::General(text)
}

/// Where the dialogue with the server stands.
#[derive(Debug, Clone, Copy, PartialEq, Eq, Structural)]
pub enum ArdState {
    /// Nothing is read yet.
    Begin,
    /// The generator and the key length are due.
    Parameters,
    /// The prime and the public key of the server are due.
    Keys { generator: u16, key_length: u16 },
    /// The result word is due.
    Verdict,
    /// The dialogue is over.
    Finished,
}

/// What is to be done on the transport.
#[derive(Debug)]
pub enum ArdAction {
    /// Read so many bytes and hand them in.
    Read(usize),
    /// Write these bytes, then read so many and hand them in.
    Send(Vec<u8>, usize),
    /// Stop: the server accepts the credentials, or the error says why not.
    Finish(Result<(), VncError>),
}

/// How many bytes the dialogue takes next.
pub open spec fn ard_due(state: ArdState) -> nat {
    match state {
        ArdState::Begin => 0,
        ArdState::Parameters => 4,
        ArdState::Keys { generator, key_length } => 2 * key_length as nat,
        ArdState::Verdict => 4,
        ArdState::Finished => 0,
    }
}

/// Takes the dialogue one step further with the bytes that were due.
pub fn authenticate_ard(state: ArdState, input: &[u8], username: &str, password: &str) -> (step: (
    ArdState,
    ArdAction,
))
    requires
        state !is Finished,
        input@.len() == ard_due(state),
        state matches ArdState::Keys { generator, key_length } ==> be_nat(
            input@.take(key_length as int),
        ) != 0,
    ensures
        state is Begin ==> step == (ArdState::Parameters, ArdAction::Read(4)),
        state is Parameters ==> {
            let generator = be_u16(input@[0], input@[1]);
            let key_length = be_u16(input@[2], input@[3]);
            if 1 <= key_length <= MAX_KEY_LENGTH {
                step == (
                    ArdState::Keys { generator, key_length },
                    ArdAction::Read((2 * key_length) as usize),
                )
            } else {
                &&& step.0 is Finished
                &&& step.1 matches ArdAction::Finish(Err(VncError::General(text)))
                &&& text@ == invalid_key_length_text(key_length)
            }
        },
        state matches ArdState::Keys { generator, key_length } ==> {
            &&& step.0 is Verdict
            &&& step.1 matches ArdAction::Send(reply, due)
            &&& due == 4
            &&& reply@.len() == 128 + key_length
            &&& exists|random: Seq<u8>, user_buf: Seq<u8>, pass_buf: Seq<u8>|
                is_ard_reply(
                    reply@,
                    generator,
                    input@.take(key_length as int),
                    input@.skip(key_length as int),
                    username@,
                    password@,
                    random,
                    user_buf,
                    pass_buf,
                )
            &&& is_readable_reply(
                reply@,
                generator,
                be_nat(input@.take(key_length as int)),
                be_nat(input@.skip(key_length as int)),
                username@,
                password@,
            )
        },
        state is Verdict ==> step == (
            ArdState::Finished,
            if be_u32(input@[0], input@[1], input@[2], input@[3]) == 0 {
                ArdAction::Finish(Ok(()))
            } else {
                ArdAction::Finish(Err(VncError::WrongPassword))
            },
        ),
        step.1 == ArdAction::Finish(Ok(())) <==> state is Verdict && input@ == seq![0u8, 0, 0, 0],
        step.1 == ArdAction::Finish(Err(VncError::WrongPassword)) <==> state is Verdict && input@
            != seq![0u8, 0, 0, 0],
        step.1 matches ArdAction::Read(due) ==> due == ard_due(step.0),
        step.1 matches ArdAction::Send(_, due) ==> due == ard_due(step.0),
        step.1 is Finish <==> step.0 is Finished,
{
    match state {
        ArdState::Begin => (ArdState::Parameters, ArdAction::Read(4)),
        ArdState::Parameters => {
            let generator: u16 = read_u16(input[0], input[1]);
            let key_length: u16 = read_u16(input[2], input[3]);
            if key_length == 0 || key_length > MAX_KEY_LENGTH {
                (ArdState::Finished, ArdAction::Finish(Err(invalid_key_length(key_length))))
            } else {
                (
                    ArdState::Keys { generator, key_length },
                    ArdAction::Read(2 * key_length as usize),
                )
            }
        },
        ArdState::Keys { generator, key_length } => {
            let (prime_bytes, peer_pub_bytes) = input.split_at(key_length as usize);
            assert(prime_bytes@ =~= input@.take(key_length as int));
            assert(peer_pub_bytes@ =~= input@.skip(key_length as int));
            let reply = draw_ard_reply(
                generator,
                prime_bytes,
                peer_pub_bytes,
                username,
                password,
            );
            (ArdState::Verdict, ArdAction::Send(reply, 4))
        },
        _ => {
            let result: u32 = read_u32(input[0], input[1], input[2], input[3]);
            assert(result == 0 ==> input@ =~= seq![0u8, 0, 0, 0]);
            assert(input@ == seq![0u8, 0, 0, 0] ==> input@[0] == 0 && input@[1] == 0 && input@[2]
                == 0 && input@[3] == 0);
            if result != 0 {
                (ArdState::Finished, ArdAction::Finish(Err(VncError::WrongPassword)))
            } else {
                (ArdState::Finished, ArdAction::Finish(Ok(())))
            }
        },
    }
}

/// The client and a server who hold each other's public keys compute the same secret.
pub proof fn diffie_hellman_agreement(generator: nat, client: nat, server: nat, prime: nat)
    requires
        prime != 0,
    ensures
        power_mod(power_mod(generator, server, prime), client, prime) == power_mod(
            power_mod(generator, client, prime),
            server,
            prime,
        ),
{
    let g = generator as int;
    let p = prime as int;
    lemma_pow_mod_noop(pow(g, server), client, p);
    lemma_pow_mod_noop(pow(g, client), server, p);
    lemma_pow_multiplies(g, server, client);
    lemma_pow_multiplies(g, client, server);
    assert(server * client == client * server) by (nonlinear_arith);
}

/// A server whose public key was sent finds, with its private key and the public key at the end
/// of the reply, the AES key under which the reply holds the credentials.
pub proof fn server_finds_the_key(
    generator: u16,
    prime_bytes: Seq<u8>,
    peer_pub_bytes: Seq<u8>,
    random: Seq<u8>,
    credentials: Seq<u8>,
    server: nat,
)
    requires
        be_nat(prime_bytes) != 0,
        be_nat(peer_pub_bytes) == power_mod(generator as nat, server, be_nat(prime_bytes)),
    ensures
        ({
            let reply = ard_reply(generator, prime_bytes, peer_pub_bytes, random, credentials);
            let n = credentials.len() as int;
            let secret = power_mod(be_nat(reply.skip(n)), server, be_nat(prime_bytes));
            reply.take(n) == aes128_encrypted(credentials, md5_digest(be_bytes(secret)))
        }),
{
    let prime = be_nat(prime_bytes);
    let client = ard_private_key(random, prime);
    let public_key = power_mod(generator as nat, client, prime);
    let reply = ard_reply(generator, prime_bytes, peer_pub_bytes, random, credentials);
    let n = credentials.len() as int;
    lemma_be_nat_bound(prime_bytes);
    padded_bytes_spell_fitting_number(public_key, prime_bytes.len());
    diffie_hellman_agreement(generator as nat, client, server, prime);
    assert(reply.skip(n) =~= padded(be_bytes(public_key), prime_bytes.len()));
    assert(reply.take(n) =~= aes128_encrypted(
        credentials,
        md5_digest(be_bytes(power_mod(be_nat(peer_pub_bytes), client, prime))),
    ));
}

/// What stands before the first null byte.
pub open spec fn before_null(buf: Seq<u8>) -> Seq<u8>
    decreases buf.len(),
{
    if buf.len() == 0 || buf[0] == 0 {
        Seq::empty()
    } else {
        seq![buf[0]] + before_null(buf.drop_first())
    }
}

/// A server that reads a packed credential up to its terminator finds the credential, cut off
/// where it leaves no room for the terminator, whatever the padding. That holds where no null
/// byte stands in the credential itself.
pub proof fn packed_credential_is_read_back(buf: Seq<u8>, value: Seq<u8>, buf_len: nat)
    requires
        buf_len >= 1,
        is_packed(buf, value, buf_len),
        !value.take(packed_len(value.len(), buf_len) as int).contains(0u8),
    ensures
        before_null(buf) == value.take(packed_len(value.len(), buf_len) as int),
        value.len() < buf_len ==> before_null(buf) == value,
{
    let n = packed_len(value.len(), buf_len) as int;
    lemma_before_null(buf, n);
    assert(value.len() < buf_len ==> value.take(n) =~= value);
}

proof fn lemma_before_null(buf: Seq<u8>, n: int)
    requires
        0 <= n < buf.len(),
        buf[n] == 0,
        !buf.take(n).contains(0u8),
    ensures
        before_null(buf) == buf.take(n),
    decreases n,
{
    if n == 0 {
        assert(buf.take(n) =~= Seq::<u8>::empty());
    } else {
        let rest = buf.drop_first();
        assert(buf.take(n)[0] == buf[0]);
        assert(rest.take(n - 1) =~= buf.take(n).drop_first());
        assert(!rest.take(n - 1).contains(0u8)) by {
            let head = rest.take(n - 1);
            if head.contains(0u8) {
                let i = choose|i: int| 0 <= i < head.len() && head[i] == 0u8;
                assert(buf.take(n)[i + 1] == 0u8);
            }
        }
        lemma_before_null(rest, n - 1);
        assert(seq![buf[0]] + rest.take(n - 1) =~= buf.take(n));
    }
}

/// Blocks are encrypted independently: what follows a whole number of blocks has no part in their
/// encryption, nor they in that of what follows.
pub proof fn aes128_encrypted_by_blocks(first: Seq<u8>, second: Seq<u8>, key: Seq<u8>)
    requires
        first.len() % 16 == 0,
        second.len() % 16 == 0,
    ensures
        aes128_encrypted(first + second, key) == aes128_encrypted(first, key) + aes128_encrypted(
            second,
            key,
        ),
{
    let whole = first + second;
    let n = first.len() as int;
    assert forall|i: int| 0 <= i < whole.len() implies #[trigger] aes128_encrypted(whole, key)[i]
        == (aes128_encrypted(first, key) + aes128_encrypted(second, key))[i] by {
        if i < n {
            assert(aes_block_at(whole, i) =~= aes_block_at(first, i));
        } else {
            assert((i - n) / 16 * 16 + n == i / 16 * 16);
            assert((i - n) % 16 == i % 16);
            assert(aes_block_at(whole, i) =~= aes_block_at(second, i - n));
        }
    }
    assert(aes128_encrypted(whole, key) =~= aes128_encrypted(first, key) + aes128_encrypted(
        second,
        key,
    ));
}

} // verus!
