//! Unsigned integers of any size, held as the bytes in which they travel.

use vstd::arithmetic::div_mod::{
    lemma_fundamental_div_mod_converse, lemma_mul_mod_noop_left, lemma_small_mod,
};
use vstd::arithmetic::power::{lemma_pow0, lemma_pow1, lemma_pow_adds, pow};
use vstd::prelude::*;

verus! {

/// The number that `bytes` spell, most significant byte first.
pub open spec fn be_nat(bytes: Seq<u8>) -> nat
    decreases bytes.len(),
{
    if bytes.len() == 0 {
        0
    } else {
        be_nat(bytes.drop_last()) * 256 + bytes.last() as nat
    }
}

/// The shortest nonempty byte sequence that spells `n`, most significant byte first.
pub open spec fn be_bytes(n: nat) -> Seq<u8>
    decreases n,
{
    if n < 256 {
        seq![n as u8]
    } else {
        be_bytes(n / 256).push((n % 256) as u8)
    }
}

/// `base` to the power of `exponent`, reduced modulo `modulus`.
pub open spec fn power_mod(base: nat, exponent: nat, modulus: nat) -> nat {
    (pow(base as int, exponent) % modulus as int) as nat
}

/// `bytes` in exactly `len` bytes: zeros are put in front of shorter ones, of longer ones the
/// last `len` are kept.
pub open spec fn padded(bytes: Seq<u8>, len: nat) -> Seq<u8> {
    if bytes.len() >= len {
        bytes.subrange(bytes.len() - len, bytes.len() as int)
    } else {
        Seq::new((len - bytes.len()) as nat, |i: int| 0u8) + bytes
    }
}

/// `num_bigint::BigUint::from_bytes_be`, handed back through `to_bytes_be`.
///
/// Claimed of them: the first takes the bytes for a number, most significant byte first (no
/// bytes at all for zero), and the second gives the shortest bytes of that number, one zero
/// byte for zero.
#[verifier::external_body]
fn shortest_bytes(bytes: &[u8]) -> (out: Vec<u8>)
    ensures
        out@ == be_bytes(be_nat(bytes@)),
{
    num_bigint::BigUint::from_bytes_be(bytes).to_bytes_be()
}

/// The `%` of `num_bigint::BigUint`, on operands and result in bytes.
///
/// Claimed of it: the remainder of the two numbers. It panics on a zero divisor.
#[verifier::external_body]
fn remainder_bytes(value: &[u8], divisor: &[u8]) -> (out: Vec<u8>)
    requires
        be_nat(divisor@) != 0,
    ensures
        out@ == be_bytes(be_nat(value@) % be_nat(divisor@)),
{
    let divisor = num_bigint::BigUint::from_bytes_be(divisor);
    (num_bigint::BigUint::from_bytes_be(value) % &divisor).to_bytes_be()
}

/// `num_bigint::BigUint::modpow`, on operands and result in bytes.
///
/// Claimed of it: the power, reduced modulo `modulus`. It panics on a zero modulus.
#[verifier::external_body]
fn modpow_bytes(base: &[u8], exponent: &[u8], modulus: &[u8]) -> (out: Vec<u8>)
    requires
        be_nat(modulus@) != 0,
    ensures
        out@ == be_bytes(power_mod(be_nat(base@), be_nat(exponent@), be_nat(modulus@))),
{
    let exponent = num_bigint::BigUint::from_bytes_be(exponent);
    let modulus = num_bigint::BigUint::from_bytes_be(modulus);
    num_bigint::BigUint::from_bytes_be(base).modpow(&exponent, &modulus).to_bytes_be()
}

/// An unsigned integer of any size. Its view is the number.
#[derive(Debug)]
pub struct BigUint {
    bytes: Vec<u8>,
}

impl View for BigUint {
    type V = nat;

    closed spec fn view(&self) -> nat {
        be_nat(self.bytes@)
    }
}

impl BigUint {
    /// The bytes are the shortest that spell the number.
    #[verifier::type_invariant]
    spec fn shortest(self) -> bool {
        self.bytes@ == be_bytes(be_nat(self.bytes@))
    }

    /// The number that `bytes` spell, most significant byte first.
    pub fn from_bytes_be(bytes: &[u8]) -> (n: BigUint)
        ensures
            n@ == be_nat(bytes@),
    {
        let bytes_out = shortest_bytes(bytes);
        proof {
            lemma_be_bytes_spell(be_nat(bytes@));
        }
        BigUint { bytes: bytes_out }
    }

    /// The shortest bytes that spell the number, most significant byte first.
    pub fn to_bytes_be(&self) -> (bytes: Vec<u8>)
        ensures
            bytes@ == be_bytes(self@),
            be_nat(bytes@) == self@,
            bytes@.len() >= 1,
            bytes@.len() > 1 ==> bytes@[0] != 0,
    {
        proof {
            use_type_invariant(self);
            lemma_be_bytes_spell(self@);
            no_byte_is_wasted(self@);
        }
        let bytes = self.bytes.clone();
        assert(bytes@ =~= self.bytes@);
        bytes
    }

    /// The remainder of the number on division by `divisor`.
    pub fn modulo(&self, divisor: &BigUint) -> (n: BigUint)
        requires
            divisor@ != 0,
        ensures
            n@ == self@ % divisor@,
    {
        proof {
            lemma_be_bytes_spell(self@ % divisor@);
        }
        BigUint { bytes: remainder_bytes(&self.bytes, &divisor.bytes) }
    }

    /// The number to the power of `exponent`, reduced modulo `modulus`.
    pub fn modpow(&self, exponent: &BigUint, modulus: &BigUint) -> (n: BigUint)
        requires
            modulus@ != 0,
        ensures
            n@ == power_mod(self@, exponent@, modulus@),
    {
        proof {
            lemma_be_bytes_spell(power_mod(self@, exponent@, modulus@));
        }
        BigUint { bytes: modpow_bytes(&self.bytes, &exponent.bytes, &modulus.bytes) }
    }

    /// Whether the number is zero.
    pub fn is_zero(&self) -> (b: bool)
        ensures
            b == (self@ == 0),
    {
        proof {
            use_type_invariant(self);
            lemma_single_byte(self.bytes@);
        }
        self.bytes.len() == 1 && self.bytes[0] == 0
    }

    /// Whether the number is one.
    pub fn is_one(&self) -> (b: bool)
        ensures
            b == (self@ == 1),
    {
        proof {
            use_type_invariant(self);
            lemma_single_byte(self.bytes@);
        }
        self.bytes.len() == 1 && self.bytes[0] == 1
    }
}

impl From<u32> for BigUint {
    fn from(n: u32) -> (r: BigUint)
        ensures
            r@ == n,
    {
        let bytes: [u8; 4] = [
            (n / 0x100_0000) as u8,
            (n / 0x1_0000 % 0x100) as u8,
            (n / 0x100 % 0x100) as u8,
            (n % 0x100) as u8,
        ];
        proof {
            reveal_with_fuel(be_nat, 5);
            assert(bytes@.drop_last() =~= seq![bytes@[0], bytes@[1], bytes@[2]]);
            assert(bytes@.drop_last().drop_last() =~= seq![bytes@[0], bytes@[1]]);
            assert(bytes@.drop_last().drop_last().drop_last() =~= seq![bytes@[0]]);
        }
        BigUint::from_bytes_be(&bytes)
    }
}

impl vstd::std_specs::convert::FromSpecImpl<u32> for BigUint {
    open spec fn obeys_from_spec() -> bool {
        false
    }

    open spec fn from_spec(n: u32) -> BigUint {
        arbitrary()
    }
}

/// Spelling a number and reading it back gives the number.
pub proof fn lemma_be_bytes_spell(n: nat)
    ensures
        be_nat(be_bytes(n)) == n,
        be_bytes(n).len() >= 1,
    decreases n,
{
    if n < 256 {
        reveal_with_fuel(be_nat, 2);
        assert(seq![n as u8].drop_last() =~= Seq::<u8>::empty());
    } else {
        lemma_be_bytes_spell(n / 256);
        assert(be_bytes(n).drop_last() =~= be_bytes(n / 256));
    }
}

/// A shortest spelling has one byte just where the number is below 256, and is then that byte.
proof fn lemma_single_byte(bytes: Seq<u8>)
    requires
        bytes == be_bytes(be_nat(bytes)),
    ensures
        be_nat(bytes) < 256 <==> bytes.len() == 1,
        bytes.len() == 1 ==> be_nat(bytes) == bytes[0],
{
    let n = be_nat(bytes);
    if n >= 256 {
        lemma_be_bytes_spell(n / 256);
    }
}

/// A number above zero is spelled without a zero in front, and zero by one byte.
pub proof fn no_byte_is_wasted(n: nat)
    ensures
        n > 0 ==> be_bytes(n)[0] != 0,
        n == 0 ==> be_bytes(n) == seq![0u8],
    decreases n,
{
    if n >= 256 {
        no_byte_is_wasted(n / 256);
        lemma_be_bytes_spell(n / 256);
    }
}

/// One byte spells itself, and no bytes spell zero.
pub proof fn one_byte_spells_itself(b: u8)
    ensures
        be_nat(seq![b]) == b,
        be_nat(Seq::empty()) == 0,
{
    reveal_with_fuel(be_nat, 2);
    assert(seq![b].drop_last() =~= Seq::<u8>::empty());
}

/// Each further power multiplies by the base once more, and all of them stay below the modulus.
pub proof fn powers_are_repeated_products(base: nat, exponent: nat, modulus: nat)
    requires
        modulus != 0,
    ensures
        power_mod(base, 0, modulus) == 1nat % modulus,
        power_mod(base, exponent + 1, modulus) == (power_mod(base, exponent, modulus) * base)
            % modulus,
        power_mod(base, exponent, modulus) < modulus,
{
    let (b, m) = (base as int, modulus as int);
    lemma_pow0(b);
    lemma_pow1(b);
    lemma_pow_adds(b, exponent, 1);
    lemma_mul_mod_noop_left(pow(b, exponent), b, m);
}

/// Bytes put in front weigh as much as the bytes behind them make room for.
pub proof fn lemma_be_nat_concat(high: Seq<u8>, low: Seq<u8>)
    ensures
        be_nat(high + low) == be_nat(high) * pow(256, low.len()) + be_nat(low),
    decreases low.len(),
{
    if low.len() == 0 {
        lemma_pow0(256);
        assert(high + low =~= high);
    } else {
        let rest = low.drop_last();
        lemma_be_nat_concat(high, rest);
        assert((high + low).drop_last() =~= high + rest);
        lemma_pow_adds(256, rest.len(), 1);
        lemma_pow1(256);
        let (h, p, r) = (be_nat(high) as int, pow(256, rest.len()), be_nat(rest) as int);
        assert((h * p + r) * 256 == h * (p * 256) + r * 256) by (nonlinear_arith);
    }
}

/// As many bytes as there are hold only numbers below the matching power of 256.
pub proof fn lemma_be_nat_bound(bytes: Seq<u8>)
    ensures
        be_nat(bytes) < pow(256, bytes.len()),
    decreases bytes.len(),
{
    if bytes.len() == 0 {
        lemma_pow0(256);
    } else {
        lemma_be_nat_bound(bytes.drop_last());
        lemma_pow_adds(256, bytes.drop_last().len(), 1);
        lemma_pow1(256);
    }
}

/// Zero bytes spell zero.
proof fn lemma_be_nat_zeros(bytes: Seq<u8>)
    requires
        forall|i: int| 0 <= i < bytes.len() ==> bytes[i] == 0,
    ensures
        be_nat(bytes) == 0,
    decreases bytes.len(),
{
    if bytes.len() > 0 {
        lemma_be_nat_zeros(bytes.drop_last());
    }
}

/// Bytes brought to a fixed length spell the number modulo what that length can hold.
pub proof fn padded_bytes_spell_remainder(bytes: Seq<u8>, len: nat)
    ensures
        padded(bytes, len).len() == len,
        be_nat(padded(bytes, len)) == be_nat(bytes) as int % pow(256, len),
{
    lemma_be_nat_bound(padded(bytes, len));
    if bytes.len() >= len {
        let high = bytes.subrange(0, bytes.len() - len);
        let low = padded(bytes, len);
        assert(high + low =~= bytes);
        lemma_be_nat_concat(high, low);
        lemma_fundamental_div_mod_converse(
            be_nat(bytes) as int,
            pow(256, len),
            be_nat(high) as int,
            be_nat(low) as int,
        );
    } else {
        let zeros = Seq::new((len - bytes.len()) as nat, |i: int| 0u8);
        lemma_be_nat_zeros(zeros);
        lemma_be_nat_concat(zeros, bytes);
        lemma_small_mod(be_nat(bytes), pow(256, len) as nat);
    }
}

/// A number that fits into `len` bytes is read back whole from its bytes brought to that
/// length.
pub proof fn padded_bytes_spell_fitting_number(n: nat, len: nat)
    requires
        n < pow(256, len),
    ensures
        padded(be_bytes(n), len).len() == len,
        be_nat(padded(be_bytes(n), len)) == n,
{
    lemma_be_bytes_spell(n);
    padded_bytes_spell_remainder(be_bytes(n), len);
    lemma_small_mod(n, pow(256, len) as nat);
}

} // verus!
