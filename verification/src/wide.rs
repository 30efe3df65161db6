//! Checked arithmetic on unsigned 256-bit integers.
//!
//! A [`Wide`] holds four 64-bit words, lowest first. Its view is the natural
//! number that the words spell. Multiplication, addition and the two divisions
//! are done by `spl_math`'s `U256`; each of those calls stands behind one small
//! function whose contract is taken on trust.

use vstd::prelude::*;
use spl_math::checked_ceil_div::CheckedCeilDiv;
use spl_math::uint::U256;

verus! {

/// 2^64, the weight of the second word.
pub open spec fn word1() -> nat {
    0x1_0000_0000_0000_0000nat
}

/// 2^128, the weight of the third word.
pub open spec fn word2() -> nat {
    0x1_0000_0000_0000_0000_0000_0000_0000_0000nat
}

/// 2^192, the weight of the fourth word.
pub open spec fn word3() -> nat {
    0x1_0000_0000_0000_0000_0000_0000_0000_0000_0000_0000_0000_0000nat
}

/// 2^256, the first number that a [`Wide`] cannot hold.
pub open spec fn wide_limit() -> nat {
    0x1_0000_0000_0000_0000_0000_0000_0000_0000_0000_0000_0000_0000_0000_0000_0000_0000nat
}

/// An unsigned 256-bit integer, as four words from the lowest to the highest.
#[derive(Clone, Copy, Debug, PartialEq, Eq, Structural)]
pub struct Wide {
    /// Bits 0 to 63.
    pub w0: u64,
    /// Bits 64 to 127.
    pub w1: u64,
    /// Bits 128 to 191.
    pub w2: u64,
    /// Bits 192 to 255.
    pub w3: u64,
}

impl View for Wide {
    type V = nat;

    open spec fn view(&self) -> nat {
        self.w0 as nat + self.w1 as nat * word1() + self.w2 as nat * word2() + self.w3 as nat
            * word3()
    }
}

/// `floor(a * b / c)` in 256 bits: nothing when the product does not fit or
/// `c` is zero.
pub open spec fn mul_div_spec(a: nat, b: nat, c: nat) -> Option<nat> {
    if a * b >= wide_limit() || c == 0 {
        None
    } else {
        Some(a * b / c)
    }
}

/// `a / b` rounded up: nothing when `b` is zero.
pub open spec fn ceil_div_spec(a: nat, b: nat) -> Option<nat> {
    if b == 0 {
        None
    } else {
        Some(((a + b - 1) / b as int) as nat)
    }
}

/// The quotient that `spl_math`'s ceiling division gives: nothing when `b` is
/// zero or larger than `a`, else `a / b` rounded up.
pub open spec fn outside_ceil_div_spec(a: nat, b: nat) -> Option<nat> {
    if b == 0 || a < b {
        None
    } else if a % b == 0 {
        Some(a / b)
    } else {
        Some(a / b + 1)
    }
}

/// `ceil(a * b / c)` in 256 bits: nothing when the product does not fit or
/// `c` is zero.
pub open spec fn mul_ceil_div_spec(a: nat, b: nat, c: nat) -> Option<nat> {
    if a * b >= wide_limit() {
        None
    } else {
        ceil_div_spec(a * b, c)
    }
}

/// Every [`Wide`] is below 2^256, and two of them with the same value are the
/// same four words.
pub proof fn lemma_wide_bounds(a: Wide, b: Wide)
    ensures
        a@ < wide_limit(),
        a@ == b@ ==> a == b,
        (a.w2 == 0 && a.w3 == 0) <==> a@ < word2(),
{
}

/// What the two divisions say of their quotient: rounded down it is the
/// largest number whose product with the divisor is at most the dividend,
/// rounded up the smallest whose product is at least the dividend.
pub proof fn lemma_quotients(a: nat, b: nat)
    requires
        b > 0,
    ensures
        (a / b) * b <= a < (a / b + 1) * b,
        ceil_div_spec(a, b) is Some,
        (ceil_div_spec(a, b).unwrap() - 1) * b < a <= ceil_div_spec(a, b).unwrap() * b,
        ceil_div_spec(a, b) == if a % b == 0 {
            Some(a / b)
        } else {
            Some(a / b + 1)
        },
{
    vstd::arithmetic::div_mod::lemma_fundamental_div_mod(a as int, b as int);
    vstd::arithmetic::div_mod::lemma_mod_bound(a as int, b as int);
    let q = a / b;
    let rest = a % b;
    assert(q * b == b * q) by (nonlinear_arith);
    assert((q + 1) * b == b * q + b) by (nonlinear_arith);
    assert((q - 1) * b == b * q - b) by (nonlinear_arith);
    if rest == 0 {
        vstd::arithmetic::div_mod::lemma_fundamental_div_mod_converse(
            a + b - 1,
            b as int,
            q as int,
            b - 1,
        );
    } else {
        vstd::arithmetic::div_mod::lemma_fundamental_div_mod_converse(
            a + b - 1,
            b as int,
            (q + 1) as int,
            rest - 1,
        );
        assert((q + 1 - 1) * b == q * b);
    }
}

/// `U256::checked_mul`: the product, or nothing when it needs more than 256
/// bits.
#[verifier::external_body]
pub(crate) fn wide_checked_mul(a: Wide, b: Wide) -> (r: Option<Wide>)
    ensures
        match r {
            Some(w) => w@ == a@ * b@,
            None => a@ * b@ >= wide_limit(),
        },
{
    match U256([a.w0, a.w1, a.w2, a.w3]).checked_mul(U256([b.w0, b.w1, b.w2, b.w3])) {
        Some(p) => Some(Wide { w0: p.0[0], w1: p.0[1], w2: p.0[2], w3: p.0[3] }),
        None => None,
    }
}

/// `U256::checked_add`: the sum, or nothing when it needs more than 256 bits.
#[verifier::external_body]
pub(crate) fn wide_checked_add(a: Wide, b: Wide) -> (r: Option<Wide>)
    ensures
        match r {
            Some(w) => w@ == a@ + b@,
            None => a@ + b@ >= wide_limit(),
        },
{
    match U256([a.w0, a.w1, a.w2, a.w3]).checked_add(U256([b.w0, b.w1, b.w2, b.w3])) {
        Some(s) => Some(Wide { w0: s.0[0], w1: s.0[1], w2: s.0[2], w3: s.0[3] }),
        None => None,
    }
}

/// `U256::checked_div`: the quotient rounded down, or nothing when the
/// divisor is zero.
#[verifier::external_body]
pub(crate) fn wide_checked_div(a: Wide, b: Wide) -> (r: Option<Wide>)
    ensures
        match r {
            Some(w) => b@ != 0 && w@ == a@ / b@,
            None => b@ == 0,
        },
{
    match U256([a.w0, a.w1, a.w2, a.w3]).checked_div(U256([b.w0, b.w1, b.w2, b.w3])) {
        Some(q) => Some(Wide { w0: q.0[0], w1: q.0[1], w2: q.0[2], w3: q.0[3] }),
        None => None,
    }
}

/// `CheckedCeilDiv::checked_ceil_div` on `U256`, of which only the quotient
/// is kept: nothing when the divisor is zero or larger than the dividend, else
/// the quotient rounded up.
#[verifier::external_body]
pub(crate) fn wide_checked_ceil_div(a: Wide, b: Wide) -> (r: Option<Wide>)
    ensures
        match r {
            Some(w) => outside_ceil_div_spec(a@, b@) == Some(w@),
            None => outside_ceil_div_spec(a@, b@) is None,
        },
{
    match U256([a.w0, a.w1, a.w2, a.w3]).checked_ceil_div(U256([b.w0, b.w1, b.w2, b.w3])) {
        Some((q, _)) => Some(Wide { w0: q.0[0], w1: q.0[1], w2: q.0[2], w3: q.0[3] }),
        None => None,
    }
}

impl Wide {
    /// Zero.
    pub fn zero() -> (r: Wide)
        ensures
            r@ == 0,
    {
        Wide { w0: 0, w1: 0, w2: 0, w3: 0 }
    }

    /// Widens a 128-bit integer.
    pub fn from_u128(x: u128) -> (r: Wide)
        ensures
            r@ == x,
    {
        let low: u64 = (x % 0x1_0000_0000_0000_0000u128) as u64;
        let high: u64 = (x / 0x1_0000_0000_0000_0000u128) as u64;
        Wide { w0: low, w1: high, w2: 0, w3: 0 }
    }

    /// Narrows to 128 bits; nothing when the value does not fit.
    pub fn to_u128(&self) -> (r: Option<u128>)
        ensures
            r == if self@ <= u128::MAX {
                Some(self@ as u128)
            } else {
                None
            },
    {
        if self.w2 == 0 && self.w3 == 0 {
            let high: u128 = self.w1 as u128;
            let low: u128 = self.w0 as u128;
            Some(high * 0x1_0000_0000_0000_0000u128 + low)
        } else {
            None
        }
    }

    /// Whether the value is zero.
    pub fn is_zero(&self) -> (r: bool)
        ensures
            r == (self@ == 0),
    {
        self.w0 == 0 && self.w1 == 0 && self.w2 == 0 && self.w3 == 0
    }

    /// Whether `self` is strictly larger than `other`.
    pub fn gt(&self, other: &Wide) -> (r: bool)
        ensures
            r == (self@ > other@),
    {
        if self.w3 != other.w3 {
            self.w3 > other.w3
        } else if self.w2 != other.w2 {
            self.w2 > other.w2
        } else if self.w1 != other.w1 {
            self.w1 > other.w1
        } else {
            self.w0 > other.w0
        }
    }

    /// The smaller of the two.
    pub fn min(self, other: Wide) -> (r: Wide)
        ensures
            r@ == if self@ <= other@ {
                self@
            } else {
                other@
            },
    {
        if self.gt(&other) {
            other
        } else {
            self
        }
    }

    /// `floor(self * b / c)`, or nothing when the product needs more than 256
    /// bits or `c` is zero.
    pub fn mul_div(self, b: Wide, c: Wide) -> (r: Option<Wide>)
        ensures
            match r {
                Some(w) => mul_div_spec(self@, b@, c@) == Some(w@),
                None => mul_div_spec(self@, b@, c@) is None,
            },
    {
        match wide_checked_mul(self, b) {
            Some(p) => wide_checked_div(p, c),
            None => None,
        }
    }

    /// `ceil(self / b)`, or nothing when `b` is zero. A dividend below the
    /// divisor gives one, and zero gives zero.
    pub fn ceil_div(self, b: Wide) -> (r: Option<Wide>)
        ensures
            match r {
                Some(w) => ceil_div_spec(self@, b@) == Some(w@),
                None => ceil_div_spec(self@, b@) is None,
            },
    {
        if b.is_zero() {
            return None;
        }
        proof {
            lemma_quotients(self@, b@);
            if self@ < b@ {
                vstd::arithmetic::div_mod::lemma_small_mod(self@, b@);
                vstd::arithmetic::div_mod::lemma_basic_div(self@ as int, b@ as int);
            }
        }
        if b.gt(&self) {
            if self.is_zero() {
                Some(Wide::zero())
            } else {
                Some(Wide::from_u128(1))
            }
        } else {
            wide_checked_ceil_div(self, b)
        }
    }

    /// `ceil(self * b / c)`, or nothing when the product needs more than 256
    /// bits or `c` is zero.
    pub fn mul_ceil_div(self, b: Wide, c: Wide) -> (r: Option<Wide>)
        ensures
            match r {
                Some(w) => mul_ceil_div_spec(self@, b@, c@) == Some(w@),
                None => mul_ceil_div_spec(self@, b@, c@) is None,
            },
    {
        match wide_checked_mul(self, b) {
            Some(p) => p.ceil_div(c),
            None => None,
        }
    }
}

} // verus!
