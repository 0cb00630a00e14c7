//! Unsigned amounts of arbitrary size, held as little-endian base-256 digits.

use vstd::prelude::*;

verus! {

/// The weight of the digit at position `n`: 256 to the power `n`.
pub open spec fn weight(n: nat) -> nat
    decreases n,
{
    if n == 0 {
        1
    } else {
        256 * weight((n - 1) as nat)
    }
}

/// The digit at position `i`; positions past the end hold zero.
pub open spec fn digit(s: Seq<u8>, i: int) -> nat {
    if 0 <= i < s.len() {
        s[i] as nat
    } else {
        0
    }
}

/// The number written by the `n` lowest digits of `s`.
pub open spec fn low_value(s: Seq<u8>, n: nat) -> nat
    decreases n,
{
    if n == 0 {
        0
    } else {
        low_value(s, (n - 1) as nat) + digit(s, n - 1) * weight((n - 1) as nat)
    }
}

/// The number that the little-endian digits `s` write.
pub open spec fn value_of(s: Seq<u8>) -> nat {
    low_value(s, s.len())
}

/// The number that the big-endian bytes `bytes` write.
pub open spec fn be_value(bytes: Seq<u8>) -> nat {
    value_of(bytes.reverse())
}

/// `n` digits write a number below the weight of position `n`.
pub proof fn lemma_low_value_bound(s: Seq<u8>, n: nat)
    ensures
        low_value(s, n) < weight(n),
    decreases n,
{
    if n > 0 {
        let m = (n - 1) as nat;
        lemma_low_value_bound(s, m);
        let w = weight(m);
        let d = digit(s, m as int);
        assert(d * w <= 255 * w) by (nonlinear_arith)
            requires
                d <= 255,
                w >= 0,
        ;
    }
}

/// Digits that agree at the `n` lowest positions write the same number there.
pub proof fn lemma_low_value_agrees(a: Seq<u8>, b: Seq<u8>, n: nat)
    requires
        forall|j: int| 0 <= j < n ==> digit(a, j) == digit(b, j),
    ensures
        low_value(a, n) == low_value(b, n),
    decreases n,
{
    if n > 0 {
        lemma_low_value_agrees(a, b, (n - 1) as nat);
    }
}

/// Positions past the end add nothing to the number.
pub proof fn lemma_low_value_beyond(s: Seq<u8>, n: nat)
    requires
        n >= s.len(),
    ensures
        low_value(s, n) == value_of(s),
    decreases n,
{
    if n > s.len() {
        let m = (n - 1) as nat;
        lemma_low_value_beyond(s, m);
        assert(digit(s, m as int) * weight(m) == 0) by (nonlinear_arith)
            requires
                digit(s, m as int) == 0,
        ;
    }
}

/// The highest position at which two numbers differ decides their order.
pub proof fn lemma_low_value_decided(a: Seq<u8>, b: Seq<u8>, n: nat, k: nat)
    requires
        k < n,
        digit(a, k as int) < digit(b, k as int),
        forall|j: int| k < j < n ==> digit(a, j) == digit(b, j),
    ensures
        low_value(a, n) < low_value(b, n),
    decreases n,
{
    let m = (n - 1) as nat;
    if m == k {
        lemma_low_value_bound(a, k);
        let w = weight(k);
        let da = digit(a, k as int);
        let db = digit(b, k as int);
        assert(da * w + w <= db * w) by (nonlinear_arith)
            requires
                da + 1 <= db,
                w >= 0,
        ;
    } else {
        lemma_low_value_decided(a, b, m, k);
    }
}

/// A digit added at the high end adds its own weight times itself.
pub proof fn lemma_value_push(s: Seq<u8>, d: u8)
    ensures
        value_of(s.push(d)) == value_of(s) + d * weight(s.len()),
{
    lemma_low_value_agrees(s.push(d), s, s.len());
}

/// An unsigned integer of arbitrary size. `digits` holds it in base 256, lowest
/// digit first; zero digits at the high end do not change the value.
#[derive(Debug)]
pub struct Amount {
    pub digits: Vec<u8>,
}

impl View for Amount {
    type V = nat;

    open spec fn view(&self) -> nat {
        value_of(self.digits@)
    }
}

impl Clone for Amount {
    fn clone(&self) -> (r: Amount)
        ensures
            r.digits@ == self.digits@,
    {
        let digits = self.digits.clone();
        assert(digits@ =~= self.digits@);
        Amount { digits }
    }
}

impl Amount {
    /// The amount that the big-endian bytes `bytes` write; no bytes write zero.
    pub fn from_bytes_be(bytes: &[u8]) -> (r: Amount)
        ensures
            r.digits@ == bytes@.reverse(),
            r@ == be_value(bytes@),
    {
        let mut digits: Vec<u8> = Vec::new();
        let mut i: usize = bytes.len();
        while i > 0
            invariant
                i <= bytes@.len(),
                digits@.len() == bytes@.len() - i,
                forall|j: int| 0 <= j < digits@.len() ==> digits@[j] == bytes@[bytes@.len() - 1 - j],
            decreases i,
        {
            i -= 1;
            digits.push(bytes[i]);
        }
        assert(digits@ =~= bytes@.reverse());
        Amount { digits }
    }

    /// The digits of `self` in big-endian order, as many as `self` holds.
    pub fn to_bytes_be(&self) -> (r: Vec<u8>)
        ensures
            r@ == self.digits@.reverse(),
            be_value(r@) == self@,
    {
        let mut bytes: Vec<u8> = Vec::new();
        let mut i: usize = self.digits.len();
        while i > 0
            invariant
                i <= self.digits@.len(),
                bytes@.len() == self.digits@.len() - i,
                forall|j: int| 0 <= j < bytes@.len() ==> bytes@[j] == self.digits@[self.digits@.len() - 1 - j],
            decreases i,
        {
            i -= 1;
            bytes.push(self.digits[i]);
        }
        assert(bytes@ =~= self.digits@.reverse());
        assert(bytes@.reverse() =~= self.digits@);
        bytes
    }

    /// The amount zero.
    pub fn zero() -> (r: Amount)
        ensures
            r@ == 0,
    {
        Amount { digits: Vec::new() }
    }

    /// The amount `v`.
    pub fn from_u64(v: u64) -> (r: Amount)
        ensures
            r@ == v,
    {
        let mut digits: Vec<u8> = Vec::new();
        let mut rest: u64 = v;
        assert(rest * weight(0) == v) by (nonlinear_arith)
            requires
                weight(0) == 1,
                rest == v,
        ;
        while rest > 0
            invariant
                value_of(digits@) + rest * weight(digits@.len()) == v,
            decreases rest,
        {
            let low: u8 = (rest % 256) as u8;
            proof {
                lemma_value_push(digits@, low);
                let w = weight(digits@.len());
                let high = rest / 256;
                assert(rest * w == low * w + high * (256 * w)) by (nonlinear_arith)
                    requires
                        rest == low + 256 * high,
                ;
            }
            digits.push(low);
            rest = rest / 256;
        }
        Amount { digits }
    }

    /// Whether `self` is less than `other`.
    pub fn lt(&self, other: &Amount) -> (r: bool)
        ensures
            r == (self@ < other@),
    {
        let n: usize = if self.digits.len() >= other.digits.len() {
            self.digits.len()
        } else {
            other.digits.len()
        };
        let mut i: usize = n;
        while i > 0
            invariant
                i <= n,
                n >= self.digits@.len(),
                n >= other.digits@.len(),
                forall|j: int| i <= j < n ==> digit(self.digits@, j) == digit(other.digits@, j),
            decreases i,
        {
            i -= 1;
            let x: u8 = if i < self.digits.len() {
                self.digits[i]
            } else {
                0
            };
            let y: u8 = if i < other.digits.len() {
                other.digits[i]
            } else {
                0
            };
            if x != y {
                proof {
                    lemma_low_value_beyond(self.digits@, n as nat);
                    lemma_low_value_beyond(other.digits@, n as nat);
                    if x < y {
                        lemma_low_value_decided(self.digits@, other.digits@, n as nat, i as nat);
                    } else {
                        lemma_low_value_decided(other.digits@, self.digits@, n as nat, i as nat);
                    }
                }
                return x < y;
            }
        }
        proof {
            lemma_low_value_beyond(self.digits@, n as nat);
            lemma_low_value_beyond(other.digits@, n as nat);
            lemma_low_value_agrees(self.digits@, other.digits@, n as nat);
        }
        false
    }

    /// Whether `self` is at least `other`.
    pub fn ge(&self, other: &Amount) -> (r: bool)
        ensures
            r == (self@ >= other@),
    {
        !self.lt(other)
    }

    /// Whether the two amounts are the same number, whatever their digits.
    pub fn same(&self, other: &Amount) -> (r: bool)
        ensures
            r == (self@ == other@),
    {
        !self.lt(other) && !other.lt(self)
    }

    /// Whether `self` is zero.
    pub fn is_zero(&self) -> (r: bool)
        ensures
            r == (self@ == 0),
    {
        let zero = Amount::zero();
        !zero.lt(self)
    }

    /// The sum of the two amounts.
    pub fn add(&self, other: &Amount) -> (r: Amount)
        ensures
            r@ == self@ + other@,
    {
        let n: usize = if self.digits.len() >= other.digits.len() {
            self.digits.len()
        } else {
            other.digits.len()
        };
        let mut digits: Vec<u8> = Vec::new();
        let mut carry: u16 = 0;
        let mut i: usize = 0;
        while i < n
            invariant
                i <= n,
                n >= self.digits@.len(),
                n >= other.digits@.len(),
                digits@.len() == i,
                carry <= 1,
                value_of(digits@) + carry * weight(i as nat) == low_value(self.digits@, i as nat)
                    + low_value(other.digits@, i as nat),
            decreases n - i,
        {
            let x: u16 = if i < self.digits.len() {
                self.digits[i] as u16
            } else {
                0
            };
            let y: u16 = if i < other.digits.len() {
                other.digits[i] as u16
            } else {
                0
            };
            let sum: u16 = x + y + carry;
            let low: u8 = (sum % 256) as u8;
            let high: u16 = sum / 256;
            proof {
                lemma_value_push(digits@, low);
                let w = weight(i as nat);
                assert(x == digit(self.digits@, i as int));
                assert(y == digit(other.digits@, i as int));
                assert(low * w + high * (256 * w) == x * w + y * w + carry * w) by (nonlinear_arith)
                    requires
                        low + 256 * high == x + y + carry,
                ;
            }
            digits.push(low);
            carry = high;
            i += 1;
        }
        proof {
            lemma_low_value_beyond(self.digits@, n as nat);
            lemma_low_value_beyond(other.digits@, n as nat);
        }
        if carry > 0 {
            proof {
                lemma_value_push(digits@, 1u8);
                assert(1 * weight(n as nat) == weight(n as nat));
            }
            digits.push(1u8);
        }
        Amount { digits }
    }
}

} // verus!
