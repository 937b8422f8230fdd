//! Token amounts of any size.
//!
//! An amount is a natural number, held as its bytes in big-endian order.
//! Sums, differences and comparisons are computed by the `num-bigint`
//! crate, from bytes to bytes.

use vstd::prelude::*;

use crate::bytes::{be_bytes, be_value, bytes_clone, u64_to_be_bytes};

verus! {

/// The base-256 digits of `x`, most significant first and without leading
/// zeros; zero has no digits.
pub open spec fn minimal_be_bytes(x: nat) -> Seq<u8>
    decreases x,
{
    if x == 0 {
        Seq::empty()
    } else {
        minimal_be_bytes(x / 256).push((x % 256) as u8)
    }
}

/// The bytes that `num-bigint` gives for a number: its digits without
/// leading zeros, but the single byte 0 for zero.
pub open spec fn bigint_bytes(x: nat) -> Seq<u8> {
    if x == 0 {
        seq![0u8]
    } else {
        minimal_be_bytes(x)
    }
}

/// `BigUint::from_bytes_be`, `+` and `BigUint::to_bytes_be` of
/// `num-bigint`: the bytes of the sum of the numbers that two byte strings
/// denote. The numbers grow as needed, so the addition cannot overflow.
#[verifier::external_body]
fn bytes_sum(a: &Vec<u8>, b: &Vec<u8>) -> (r: Vec<u8>)
    ensures
        r@ == bigint_bytes(be_value(a@) + be_value(b@)),
{
    (num_bigint::BigUint::from_bytes_be(a) + num_bigint::BigUint::from_bytes_be(b)).to_bytes_be()
}

/// `BigUint::from_bytes_be`, `-` and `BigUint::to_bytes_be` of
/// `num-bigint`: the bytes of the difference of the numbers that two byte
/// strings denote. The subtraction panics when the second number is the
/// larger one, so that case is excluded.
#[verifier::external_body]
fn bytes_difference(a: &Vec<u8>, b: &Vec<u8>) -> (r: Vec<u8>)
    requires
        be_value(a@) >= be_value(b@),
    ensures
        r@ == bigint_bytes((be_value(a@) - be_value(b@)) as nat),
{
    (num_bigint::BigUint::from_bytes_be(a) - num_bigint::BigUint::from_bytes_be(b)).to_bytes_be()
}

/// `BigUint::from_bytes_be` and `<` of `num-bigint`: whether the first
/// byte string denotes the smaller number.
#[verifier::external_body]
fn bytes_less(a: &Vec<u8>, b: &Vec<u8>) -> (r: bool)
    ensures
        r == (be_value(a@) < be_value(b@)),
{
    num_bigint::BigUint::from_bytes_be(a) < num_bigint::BigUint::from_bytes_be(b)
}

/// A leading zero byte does not change the number.
pub proof fn lemma_leading_zero(s: Seq<u8>)
    requires
        s.len() > 0,
        s[0] == 0,
    ensures
        be_value(s) == be_value(s.drop_first()),
    decreases s.len(),
{
    if s.len() == 1 {
        assert(s.drop_last() =~= Seq::empty());
        assert(s.drop_first() =~= Seq::empty());
    } else {
        lemma_leading_zero(s.drop_last());
        assert(s.drop_first().drop_last() =~= s.drop_last().drop_first());
    }
}

/// A byte string that does not start with zero denotes a number above
/// zero.
pub proof fn lemma_leading_digit(s: Seq<u8>)
    requires
        s.len() > 0,
        s[0] != 0,
    ensures
        be_value(s) > 0,
    decreases s.len(),
{
    if s.len() > 1 {
        lemma_leading_digit(s.drop_last());
    } else {
        assert(s.drop_last() =~= Seq::empty());
    }
}

/// A byte string without leading zeros is the digits of its number.
pub proof fn lemma_digits_of_value(s: Seq<u8>)
    requires
        s.len() == 0 || s[0] != 0,
    ensures
        minimal_be_bytes(be_value(s)) == s,
    decreases s.len(),
{
    if s.len() > 0 {
        lemma_leading_digit(s);
        let init = s.drop_last();
        let x = be_value(s);
        assert(x == be_value(init) * 256 + s.last());
        assert(x / 256 == be_value(init) && x % 256 == s.last());
        lemma_digits_of_value(init);
        assert(init.push(s.last()) =~= s);
    }
}

/// The digits of a number denote that number.
pub proof fn lemma_value_of_digits(x: nat)
    ensures
        be_value(minimal_be_bytes(x)) == x,
        be_value(bigint_bytes(x)) == x,
    decreases x,
{
    if x > 0 {
        lemma_value_of_digits(x / 256);
        let digits = minimal_be_bytes(x);
        assert(digits.drop_last() =~= minimal_be_bytes(x / 256));
        assert(digits.last() == (x % 256) as u8);
    } else {
        assert(seq![0u8].drop_last() =~= Seq::<u8>::empty());
    }
}

/// 256 to the power of `n`.
pub open spec fn pow256(n: nat) -> nat
    decreases n,
{
    if n == 0 {
        1
    } else {
        256 * pow256((n - 1) as nat)
    }
}

/// The `n` low-order digits of a number below 256 to the power of `n`
/// denote that number.
pub proof fn lemma_value_of_be_bytes(x: nat, n: nat)
    requires
        x < pow256(n),
    ensures
        be_value(be_bytes(x, n)) == x,
    decreases n,
{
    if n > 0 {
        lemma_value_of_be_bytes(x / 256, (n - 1) as nat);
        let bytes = be_bytes(x, n);
        assert(bytes.drop_last() =~= be_bytes(x / 256, (n - 1) as nat));
        assert(bytes.last() == (x % 256) as u8);
    }
}

/// A byte string without its leading zero bytes.
pub fn strip_leading_zeros(bytes: &[u8]) -> (r: Vec<u8>)
    ensures
        be_value(r@) == be_value(bytes@),
        r@ == minimal_be_bytes(be_value(bytes@)),
{
    let mut start: usize = 0;
    assert(bytes@.skip(0) =~= bytes@);
    while start < bytes.len() && bytes[start] == 0
        invariant
            start <= bytes@.len(),
            be_value(bytes@.skip(start as int)) == be_value(bytes@),
        decreases bytes@.len() - start,
    {
        proof {
            lemma_leading_zero(bytes@.skip(start as int));
            assert(bytes@.skip(start as int).drop_first() =~= bytes@.skip(start + 1));
        }
        start += 1;
    }
    let mut r: Vec<u8> = Vec::new();
    let mut i: usize = start;
    while i < bytes.len()
        invariant
            start <= i <= bytes@.len(),
            r@ == bytes@.subrange(start as int, i as int),
        decreases bytes@.len() - i,
    {
        r.push(bytes[i]);
        assert(bytes@.subrange(start as int, i + 1) =~= bytes@.subrange(start as int, i as int).push(
            bytes@[i as int],
        ));
        i += 1;
    }
    proof {
        assert(r@ =~= bytes@.skip(start as int));
        lemma_digits_of_value(r@);
    }
    r
}

/// An unsigned integer of any size.
#[derive(Clone, Debug, PartialEq, Eq)]
pub struct BigUint {
    /// The digits in base 256, most significant first, without leading
    /// zeros.
    bytes: Vec<u8>,
}

impl View for BigUint {
    type V = nat;

    closed spec fn view(&self) -> nat {
        be_value(self.bytes@)
    }
}

impl BigUint {
    /// The number zero.
    pub fn zero() -> (r: Self)
        ensures
            r@ == 0,
    {
        BigUint { bytes: Vec::new() }
    }

    /// The number that the bytes denote, most significant byte first; the
    /// empty byte string denotes zero.
    pub fn from_bytes_be(bytes: &[u8]) -> (r: Self)
        ensures
            r@ == be_value(bytes@),
    {
        BigUint { bytes: strip_leading_zeros(bytes) }
    }

    /// The number with the value of `x`.
    pub fn from_u64(x: u64) -> (r: Self)
        ensures
            r@ == x,
    {
        let bytes = u64_to_be_bytes(x);
        proof {
            assert(pow256(8) == 0x1_0000_0000_0000_0000) by {
                assert(pow256(0) == 1);
                assert(pow256(1) == 0x100);
                assert(pow256(2) == 0x1_0000);
                assert(pow256(3) == 0x100_0000);
                assert(pow256(4) == 0x1_0000_0000);
                assert(pow256(5) == 0x100_0000_0000);
                assert(pow256(6) == 0x1_0000_0000_0000);
                assert(pow256(7) == 0x100_0000_0000_0000);
            }
            lemma_value_of_be_bytes(x as nat, 8);
        }
        Self::from_bytes_be(bytes.as_slice())
    }

    /// The digits of the number in base 256, most significant first and
    /// without leading zeros; zero has no digits.
    pub fn to_bytes_be(&self) -> (r: Vec<u8>)
        ensures
            r@ == minimal_be_bytes(self@),
    {
        strip_leading_zeros(self.bytes.as_slice())
    }

    /// Whether the number is zero.
    pub fn is_zero(&self) -> (r: bool)
        ensures
            r == (self@ == 0),
    {
        let digits = strip_leading_zeros(self.bytes.as_slice());
        proof {
            if digits@.len() > 0 {
                lemma_value_of_digits(0);
            }
        }
        digits.len() == 0
    }

    /// The sum of two numbers.
    pub fn plus(&self, other: &BigUint) -> (r: Self)
        ensures
            r@ == self@ + other@,
    {
        let sum = bytes_sum(&self.bytes, &other.bytes);
        proof {
            lemma_value_of_digits(self@ + other@);
        }
        BigUint { bytes: strip_leading_zeros(sum.as_slice()) }
    }

    /// The difference of two numbers, of which the second is not the
    /// larger one.
    pub fn minus(&self, other: &BigUint) -> (r: Self)
        requires
            self@ >= other@,
        ensures
            r@ == self@ - other@,
    {
        let difference = bytes_difference(&self.bytes, &other.bytes);
        proof {
            lemma_value_of_digits((self@ - other@) as nat);
        }
        BigUint { bytes: strip_leading_zeros(difference.as_slice()) }
    }

    /// Whether this number is the smaller one.
    pub fn less_than(&self, other: &BigUint) -> (r: bool)
        ensures
            r == (self@ < other@),
    {
        bytes_less(&self.bytes, &other.bytes)
    }

    /// A copy of the number.
    pub fn duplicate(&self) -> (r: Self)
        ensures
            r@ == self@,
    {
        BigUint { bytes: bytes_clone(&self.bytes) }
    }
}

} // verus!
