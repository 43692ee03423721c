//! Challenge encryption for VNC authentication: single DES in ECB mode.

use des::cipher::{Block, BlockDecrypt, BlockEncrypt, KeyInit};
use des::Des;
use vstd::prelude::*;

verus! {

/// A DES key as it stands on the wire, parity bits included.
pub type Key = [u8; 8];

/// The eight bytes that single DES makes of `block` under `key`.
pub uninterp spec fn des_encrypted_block(key: Seq<u8>, block: Seq<u8>) -> Seq<u8>;

/// The eight bytes that the inverse of single DES makes of `block` under `key`.
pub uninterp spec fn des_decrypted_block(key: Seq<u8>, block: Seq<u8>) -> Seq<u8>;

/// The eight bytes of `data` that hold position `i`, where blocks are counted from the start.
pub open spec fn des_block_at(data: Seq<u8>, i: int) -> Seq<u8> {
    data.subrange(i / 8 * 8, i / 8 * 8 + 8)
}

/// ECB mode: every block of `message` is encrypted for itself.
pub open spec fn des_encrypted(message: Seq<u8>, key: Seq<u8>) -> Seq<u8> {
    Seq::new(message.len(), |i: int| des_encrypted_block(key, des_block_at(message, i))[i % 8])
}

/// ECB mode: every block of `cipher` is decrypted for itself.
pub open spec fn des_decrypted(cipher: Seq<u8>, key: Seq<u8>) -> Seq<u8> {
    Seq::new(cipher.len(), |i: int| des_decrypted_block(key, des_block_at(cipher, i))[i % 8])
}

/// `BlockEncrypt::encrypt_block` of `des::Des` under `key`.
///
/// Claimed of it: the ciphertext depends on the key and the block alone, and
/// `BlockDecrypt::decrypt_block` under the same key takes it back to the block.
#[verifier::external_body]
fn encrypt_block(key: &Key, block: &[u8; 8]) -> (out: [u8; 8])
    ensures
        out@ == des_encrypted_block(key@, block@),
        des_decrypted_block(key@, out@) == block@,
{
    let mut data: Block<Des> = (*block).into();
    Des::new(&(*key).into()).encrypt_block(&mut data);
    data.into()
}

/// `BlockDecrypt::decrypt_block` of `des::Des` under `key`.
///
/// Claimed of it: the plaintext depends on the key and the block alone, and
/// `BlockEncrypt::encrypt_block` under the same key takes it back to the block.
#[verifier::external_body]
fn decrypt_block(key: &Key, block: &[u8; 8]) -> (out: [u8; 8])
    ensures
        out@ == des_decrypted_block(key@, block@),
        des_encrypted_block(key@, out@) == block@,
{
    let mut data: Block<Des> = (*block).into();
    Des::new(&(*key).into()).decrypt_block(&mut data);
    data.into()
}

/// The eight bytes of `data` from `at` on.
fn block_from(data: &[u8], at: usize) -> (block: [u8; 8])
    requires
        at + 8 <= data@.len(),
    ensures
        block@ == data@.subrange(at as int, at + 8),
{
    let block: [u8; 8] = [
        data[at],
        data[at + 1],
        data[at + 2],
        data[at + 3],
        data[at + 4],
        data[at + 5],
        data[at + 6],
        data[at + 7],
    ];
    assert(block@ =~= data@.subrange(at as int, at + 8));
    block
}

/// Encrypts `message` under `key` with single DES in ECB mode.
pub fn encrypt(message: &[u8], key: &Key) -> (out: Vec<u8>)
    requires
        message@.len() % 8 == 0,
    ensures
        out@ == des_encrypted(message@, key@),
        forall|at: int, end: int|
            0 <= at && at % 8 == 0 && end == at + 8 && end <= message@.len()
                ==> #[trigger] out@.subrange(at, end) == des_encrypted_block(
                key@,
                message@.subrange(at, end),
            ),
        des_decrypted(out@, key@) == message@,
{
    let mut out: Vec<u8> = Vec::with_capacity(message.len());
    let mut at: usize = 0;
    while at < message.len()
        invariant
            message@.len() % 8 == 0,
            at % 8 == 0,
            at <= message@.len(),
            out@.len() == at,
            forall|i: int|
                0 <= i < at ==> #[trigger] des_block_at(out@, i) == des_encrypted_block(
                    key@,
                    des_block_at(message@, i),
                ),
            forall|i: int|
                0 <= i < at ==> des_decrypted_block(key@, #[trigger] des_block_at(out@, i))
                    == des_block_at(message@, i),
        decreases message@.len() - at,
    {
        let ghost before = out@;
        let block = block_from(message, at);
        let sealed = encrypt_block(key, &block);
        out.extend_from_slice(&sealed);
        proof {
            assert(out@ =~= before + sealed@);
            assert(out@.subrange(at as int, at + 8) =~= sealed@);
            assert forall|i: int| 0 <= i < at + 8 implies #[trigger] des_block_at(out@, i)
                == des_encrypted_block(key@, des_block_at(message@, i)) by {
                if i >= at {
                    assert(i / 8 * 8 == at);
                } else {
                    assert(des_block_at(out@, i) =~= des_block_at(before, i));
                }
            }
            assert forall|i: int| 0 <= i < at + 8 implies des_decrypted_block(
                key@,
                #[trigger] des_block_at(out@, i),
            ) == des_block_at(message@, i) by {
                if i >= at {
                    assert(i / 8 * 8 == at);
                } else {
                    assert(des_block_at(out@, i) =~= des_block_at(before, i));
                }
            }
        }
        at = at + 8;
    }
    proof {
        assert(out@ =~= des_encrypted(message@, key@)) by {
            assert forall|i: int| 0 <= i < message@.len() implies out@[i] == des_encrypted(
                message@,
                key@,
            )[i] by {
                assert(des_block_at(out@, i)[i % 8] == out@[i]);
            }
        }
        assert forall|at: int, end: int|
            0 <= at && at % 8 == 0 && end == at + 8 && end <= message@.len() implies #[trigger]
            out@.subrange(at, end) == des_encrypted_block(key@, message@.subrange(at, end)) by {
            assert(at / 8 * 8 == at);
            assert(out@.subrange(at, end) == des_block_at(out@, at));
        }
        assert(des_decrypted(out@, key@) =~= message@) by {
            assert forall|i: int| 0 <= i < message@.len() implies des_decrypted(out@, key@)[i]
                == message@[i] by {
                let _ = des_block_at(out@, i);
            }
        }
    }
    out
}

/// Decrypts `cipher` under `key` with single DES in ECB mode.
pub fn decrypt(cipher: &[u8], key: &Key) -> (out: Vec<u8>)
    requires
        cipher@.len() % 8 == 0,
    ensures
        out@ == des_decrypted(cipher@, key@),
        forall|at: int, end: int|
            0 <= at && at % 8 == 0 && end == at + 8 && end <= cipher@.len()
                ==> #[trigger] out@.subrange(at, end) == des_decrypted_block(
                key@,
                cipher@.subrange(at, end),
            ),
        des_encrypted(out@, key@) == cipher@,
{
    let mut out: Vec<u8> = Vec::with_capacity(cipher.len());
    let mut at: usize = 0;
    while at < cipher.len()
        invariant
            cipher@.len() % 8 == 0,
            at % 8 == 0,
            at <= cipher@.len(),
            out@.len() == at,
            forall|i: int|
                0 <= i < at ==> #[trigger] des_block_at(out@, i) == des_decrypted_block(
                    key@,
                    des_block_at(cipher@, i),
                ),
            forall|i: int|
                0 <= i < at ==> des_encrypted_block(key@, #[trigger] des_block_at(out@, i))
                    == des_block_at(cipher@, i),
        decreases cipher@.len() - at,
    {
        let ghost before = out@;
        let block = block_from(cipher, at);
        let opened = decrypt_block(key, &block);
        out.extend_from_slice(&opened);
        proof {
            assert(out@ =~= before + opened@);
            assert(out@.subrange(at as int, at + 8) =~= opened@);
            assert forall|i: int| 0 <= i < at + 8 implies #[trigger] des_block_at(out@, i)
                == des_decrypted_block(key@, des_block_at(cipher@, i)) by {
                if i >= at {
                    assert(i / 8 * 8 == at);
                } else {
                    assert(des_block_at(out@, i) =~= des_block_at(before, i));
                }
            }
            assert forall|i: int| 0 <= i < at + 8 implies des_encrypted_block(
                key@,
                #[trigger] des_block_at(out@, i),
            ) == des_block_at(cipher@, i) by {
                if i >= at {
                    assert(i / 8 * 8 == at);
                } else {
                    assert(des_block_at(out@, i) =~= des_block_at(before, i));
                }
            }
        }
        at = at + 8;
    }
    proof {
        assert(out@ =~= des_decrypted(cipher@, key@)) by {
            assert forall|i: int| 0 <= i < cipher@.len() implies out@[i] == des_decrypted(
                cipher@,
                key@,
            )[i] by {
                assert(des_block_at(out@, i)[i % 8] == out@[i]);
            }
        }
        assert forall|at: int, end: int|
            0 <= at && at % 8 == 0 && end == at + 8 && end <= cipher@.len() implies #[trigger]
            out@.subrange(at, end) == des_decrypted_block(key@, cipher@.subrange(at, end)) by {
            assert(at / 8 * 8 == at);
            assert(out@.subrange(at, end) == des_block_at(out@, at));
        }
        assert(des_encrypted(out@, key@) =~= cipher@) by {
            assert forall|i: int| 0 <= i < cipher@.len() implies des_encrypted(out@, key@)[i]
                == cipher@[i] by {
                let _ = des_block_at(out@, i);
            }
        }
    }
    out
}

/// Blocks are encrypted independently: what follows a whole number of blocks has no part in their
/// encryption, nor they in that of what follows.
pub proof fn des_encrypted_by_blocks(first: Seq<u8>, second: Seq<u8>, key: Seq<u8>)
    requires
        first.len() % 8 == 0,
        second.len() % 8 == 0,
    ensures
        des_encrypted(first + second, key) == des_encrypted(first, key) + des_encrypted(second, key),
{
    let whole = first + second;
    let n = first.len() as int;
    assert forall|i: int| 0 <= i < whole.len() implies #[trigger] des_encrypted(whole, key)[i] == (
    des_encrypted(first, key) + des_encrypted(second, key))[i] by {
        if i < n {
            assert(des_block_at(whole, i) =~= des_block_at(first, i));
        } else {
            assert((i - n) / 8 * 8 + n == i / 8 * 8);
            assert((i - n) % 8 == i % 8);
            assert(des_block_at(whole, i) =~= des_block_at(second, i - n));
        }
    }
    assert(des_encrypted(whole, key) =~= des_encrypted(first, key) + des_encrypted(second, key));
}

} // verus!
