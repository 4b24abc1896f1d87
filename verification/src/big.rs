//! Unsigned arbitrary-precision integers, stored as big-endian bytes.
//!
//! The protocol works over numbers far wider than any machine word, so a
//! value is kept as its big-endian byte string and specified through
//! [`nat_of`], the mathematical value of that string.  The arithmetic the
//! protocol needs (addition, subtraction, multiplication, remainder,
//! modular exponentiation, comparison) is delegated to `num_bigint`
//! through thin trusted wrappers; everything layered on top is verified
//! against the wrappers' contracts.

use num_bigint::BigUint;
use vstd::arithmetic::div_mod::*;
use vstd::arithmetic::mul::*;
use vstd::arithmetic::power::*;
use vstd::prelude::*;

verus! {

/// The value of a big-endian byte string: the first byte is the most
/// significant, so each byte in front scales the rest by 256.
pub open spec fn nat_of(s: Seq<u8>) -> nat
    decreases s.len(),
{
    if s.len() == 0 {
        0
    } else {
        nat_of(s.drop_last()) * 256 + (s.last() as nat)
    }
}

/// Prepending a byte adds its value scaled by 256 to the power of the
/// old length.
pub proof fn lemma_nat_of_prepend(s: Seq<u8>, b: u8)
    ensures
        nat_of(s.insert(0, b)) == b * pow(256, s.len()) + nat_of(s),
    decreases s.len(),
{
    let t = s.insert(0, b);
    if s.len() == 0 {
        assert(t =~= seq![b]);
        assert(t.drop_last() =~= Seq::<u8>::empty());
        assert(nat_of(t) == nat_of(t.drop_last()) * 256 + b);
        assert(pow(256, 0) == 1) by {
            lemma_pow0(256);
        }
    } else {
        assert(t.drop_last() =~= s.drop_last().insert(0, b));
        assert(t.last() == s.last());
        lemma_nat_of_prepend(s.drop_last(), b);
        let n: nat = (s.len() - 1) as nat;
        let p: int = pow(256, n);
        assert(pow(256, s.len()) == 256 * p) by {
            lemma_pow1(256);
            lemma_pow_adds(256, 1, n);
        }
        assert(nat_of(t) == nat_of(t.drop_last()) * 256 + s.last());
        assert(nat_of(t.drop_last()) == b * p + nat_of(s.drop_last()));
        assert((b * p + nat_of(s.drop_last())) * 256 == b * (256 * p) + nat_of(
            s.drop_last(),
        ) * 256) by (nonlinear_arith);
        assert(nat_of(s) == nat_of(s.drop_last()) * 256 + s.last());
    }
}

/// An unsigned arbitrary-precision integer as a big-endian byte string.
/// Leading zero bytes are permitted and do not change the value; the
/// empty string stands for zero.
#[derive(Debug)]
pub struct Big {
    pub bytes: Vec<u8>,
}

impl View for Big {
    type V = nat;

    open spec fn view(&self) -> nat {
        nat_of(self.bytes@)
    }
}

impl Big {
    /// Wraps a big-endian byte string without copying it.
    pub fn from_bytes(bytes: Vec<u8>) -> (r: Big)
        ensures
            r@ == nat_of(bytes@),
    {
        Big { bytes }
    }

    /// Builds the byte string of a machine word, most significant byte
    /// first.
    pub fn from_u64(v: u64) -> (r: Big)
        ensures
            r@ == v,
    {
        let mut bytes: Vec<u8> = Vec::new();
        let mut rest: u64 = v;
        proof {
            lemma_pow0(256);
        }
        while rest > 0
            invariant
                nat_of(bytes@) + rest * pow(256, bytes@.len()) == v,
            decreases rest,
        {
            let digit: u8 = (rest % 256) as u8;
            proof {
                let l: nat = bytes@.len();
                lemma_nat_of_prepend(bytes@, digit);
                lemma_fundamental_div_mod(rest as int, 256);
                assert(pow(256, l + 1) == 256 * pow(256, l)) by {
                    lemma_pow1(256);
                    lemma_pow_adds(256, 1, l);
                }
                assert(digit * pow(256, l) + (rest as int / 256) * (256 * pow(256, l)) == (digit
                    + 256 * (rest as int / 256)) * pow(256, l)) by (nonlinear_arith);
            }
            bytes.insert(0, digit);
            rest = rest / 256;
        }
        proof {
            assert(rest * pow(256, bytes@.len()) == 0);
        }
        Big { bytes }
    }

    /// An independent copy with the same value.
    pub fn duplicate(&self) -> (r: Big)
        ensures
            r@ == self@,
            r.bytes@ == self.bytes@,
    {
        let mut copy: Vec<u8> = Vec::new();
        let mut i: usize = 0;
        while i < self.bytes.len()
            invariant
                i <= self.bytes.len(),
                copy@ == self.bytes@.subrange(0, i as int),
            decreases self.bytes.len() - i,
        {
            copy.push(self.bytes[i]);
            proof {
                assert(copy@ =~= self.bytes@.subrange(0, i + 1));
            }
            i = i + 1;
        }
        proof {
            assert(copy@ =~= self.bytes@);
        }
        Big { bytes: copy }
    }

    /// The underlying big-endian byte string.
    pub fn bytes(&self) -> (r: &Vec<u8>)
        ensures
            nat_of(r@) == self@,
    {
        &self.bytes
    }

    /// Numerical equality, independent of leading zero bytes.
    pub fn eq_value(&self, other: &Big) -> (r: bool)
        ensures
            r == (self@ == other@),
    {
        big_eq(self, other)
    }

    /// Numerical strict order.
    pub fn lt_value(&self, other: &Big) -> (r: bool)
        ensures
            r == (self@ < other@),
    {
        big_lt(self, other)
    }
}

/// Relies on `num_bigint`: `BigUint::from_bytes_be` reads a big-endian
/// byte string, `+` on `BigUint` adds the values, `to_bytes_be` writes
/// the sum back in big-endian order.
#[verifier::external_body]
pub(crate) fn big_add(a: &Big, b: &Big) -> (r: Big)
    ensures
        r@ == a@ + b@,
{
    let x = BigUint::from_bytes_be(a.bytes.as_slice());
    let y = BigUint::from_bytes_be(b.bytes.as_slice());
    Big { bytes: (x + y).to_bytes_be() }
}

/// Relies on `num_bigint`: `-` on `BigUint` subtracts the values and
/// panics when the subtrahend is larger, which the precondition rules
/// out.
#[verifier::external_body]
pub(crate) fn big_sub(a: &Big, b: &Big) -> (r: Big)
    requires
        b@ <= a@,
    ensures
        r@ == a@ - b@,
{
    let x = BigUint::from_bytes_be(a.bytes.as_slice());
    let y = BigUint::from_bytes_be(b.bytes.as_slice());
    Big { bytes: (x - y).to_bytes_be() }
}

/// Relies on `num_bigint`: `*` on `BigUint` multiplies the values.
#[verifier::external_body]
pub(crate) fn big_mul(a: &Big, b: &Big) -> (r: Big)
    ensures
        r@ == a@ * b@,
{
    let x = BigUint::from_bytes_be(a.bytes.as_slice());
    let y = BigUint::from_bytes_be(b.bytes.as_slice());
    Big { bytes: (x * y).to_bytes_be() }
}

/// Relies on `num_bigint`: `%` on `BigUint` yields the remainder of
/// division and panics on a zero divisor, which the precondition rules
/// out.
#[verifier::external_body]
pub(crate) fn big_rem(a: &Big, m: &Big) -> (r: Big)
    requires
        m@ > 0,
    ensures
        r@ == a@ % m@,
{
    let x = BigUint::from_bytes_be(a.bytes.as_slice());
    let y = BigUint::from_bytes_be(m.bytes.as_slice());
    Big { bytes: (x % y).to_bytes_be() }
}

/// Relies on `num_bigint`: `BigUint::modpow` returns
/// `(self ^ exponent) % modulus` and panics on a zero modulus, which the
/// precondition rules out.
#[verifier::external_body]
pub(crate) fn big_modpow(base: &Big, exp: &Big, m: &Big) -> (r: Big)
    requires
        m@ > 0,
    ensures
        r@ == pow(base@ as int, exp@) % (m@ as int),
{
    let b = BigUint::from_bytes_be(base.bytes.as_slice());
    let e = BigUint::from_bytes_be(exp.bytes.as_slice());
    let n = BigUint::from_bytes_be(m.bytes.as_slice());
    Big { bytes: b.modpow(&e, &n).to_bytes_be() }
}

/// Relies on `num_bigint`: `==` on `BigUint` compares the numerical
/// values, independent of leading zero bytes in the inputs.
#[verifier::external_body]
pub(crate) fn big_eq(a: &Big, b: &Big) -> (r: bool)
    ensures
        r == (a@ == b@),
{
    let x = BigUint::from_bytes_be(a.bytes.as_slice());
    let y = BigUint::from_bytes_be(b.bytes.as_slice());
    x == y
}

/// Relies on `num_bigint`: `<` on `BigUint` compares the numerical
/// values.
#[verifier::external_body]
pub(crate) fn big_lt(a: &Big, b: &Big) -> (r: bool)
    ensures
        r == (a@ < b@),
{
    let x = BigUint::from_bytes_be(a.bytes.as_slice());
    let y = BigUint::from_bytes_be(b.bytes.as_slice());
    x < y
}

} // verus!
