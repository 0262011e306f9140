//! Unsigned 256-bit integers: enough room for the product of two 128-bit
//! balances, with a division that brings the result back down.
//!
//! A value is held as two 128-bit halves and stands for the natural number
//! `hi * 2^128 + lo`. Every operation is stated over that number.

use vstd::prelude::*;
use vstd::arithmetic::div_mod::lemma_fundamental_div_mod_converse;
use vstd::arithmetic::power2::{pow2, lemma_pow2_unfold, lemma_pow2_adds, lemma2_to64};

verus! {

/// 2^64, the weight of the upper half of a 128-bit word.
pub const WORD: u128 = 0x1_0000_0000_0000_0000;

/// 2^127, the weight of the top bit of a 128-bit word.
pub const TOP_BIT: u128 = 0x8000_0000_0000_0000_0000_0000_0000_0000;

/// 2^128.
#[verifier::inline]
pub open spec fn pow128() -> int {
    0x1_0000_0000_0000_0000_0000_0000_0000_0000int
}

/// 2^256.
#[verifier::inline]
pub open spec fn pow256() -> int {
    0x1_0000_0000_0000_0000_0000_0000_0000_0000_0000_0000_0000_0000_0000_0000_0000_0000int
}

/// An unsigned integer below 2^256.
#[derive(Clone, Copy, Debug, PartialEq, Eq, Structural)]
pub struct U256 {
    pub hi: u128,
    pub lo: u128,
}

impl View for U256 {
    type V = nat;

    open spec fn view(&self) -> nat {
        (self.hi * pow128() + self.lo) as nat
    }
}

/// Every 256-bit value is below 2^256.
pub proof fn lemma_u256_bounds(x: U256)
    ensures
        0 <= x@ < pow256(),
        x@ == x.hi * pow128() + x.lo,
{
    assert(x.hi * pow128() <= (pow128() - 1) * pow128()) by (nonlinear_arith)
        requires
            0 <= x.hi <= pow128() - 1,
    ;
}

proof fn lemma_pow2_256()
    ensures
        pow2(64) == 0x1_0000_0000_0000_0000,
        pow2(128) == pow128(),
        pow2(255) * 2 == pow256(),
        pow2(256) == pow256(),
{
    lemma2_to64();
    lemma_pow2_adds(64, 64);
    lemma_pow2_adds(128, 128);
    lemma_pow2_unfold(256);
    assert(pow2(64) * pow2(64) == pow128()) by (nonlinear_arith)
        requires
            pow2(64) == 0x1_0000_0000_0000_0000,
    ;
    assert(pow2(128) * pow2(128) == pow256()) by (nonlinear_arith)
        requires
            pow2(128) == pow128(),
    ;
}

proof fn lemma_pow2_monotone(a: nat, b: nat)
    requires
        a <= b,
    ensures
        pow2(a) <= pow2(b),
    decreases b - a,
{
    if a < b {
        lemma_pow2_monotone(a, (b - 1) as nat);
        lemma_pow2_unfold(b);
    }
}

/// The product of two half words fits a word, with room to spare.
proof fn lemma_half_product(x: u128, y: u128)
    requires
        x < WORD,
        y < WORD,
    ensures
        x * y <= 0xffff_ffff_ffff_fffe_0000_0000_0000_0001,
{
    assert(x * y <= (WORD - 1) * (WORD - 1)) by (nonlinear_arith)
        requires
            0 <= x <= WORD - 1,
            0 <= y <= WORD - 1,
    ;
}

impl U256 {
    /// Zero.
    pub fn zero() -> (r: U256)
        ensures
            r@ == 0,
    {
        U256 { hi: 0, lo: 0 }
    }

    /// The 128-bit number `x`, widened.
    pub fn from_u128(x: u128) -> (r: U256)
        ensures
            r@ == x,
    {
        U256 { hi: 0, lo: x }
    }

    /// The number, if it fits 128 bits.
    pub fn as_u128(self) -> (r: Option<u128>)
        ensures
            match r {
                Some(x) => x == self@,
                None => self@ > u128::MAX,
            },
    {
        if self.hi == 0 {
            Some(self.lo)
        } else {
            proof {
                assert(self.hi * pow128() >= pow128()) by (nonlinear_arith)
                    requires
                        self.hi >= 1,
                ;
            }
            None
        }
    }

    /// Whether `self` is at least `other`.
    pub fn ge(self, other: U256) -> (r: bool)
        ensures
            r == (self@ >= other@),
    {
        proof {
            lemma_u256_bounds(self);
            lemma_u256_bounds(other);
            if self.hi > other.hi {
                assert(self.hi * pow128() >= (other.hi + 1) * pow128()) by (nonlinear_arith)
                    requires
                        self.hi >= other.hi + 1,
                ;
            }
            if self.hi < other.hi {
                assert(other.hi * pow128() >= (self.hi + 1) * pow128()) by (nonlinear_arith)
                    requires
                        other.hi >= self.hi + 1,
                ;
            }
        }
        self.hi > other.hi || (self.hi == other.hi && self.lo >= other.lo)
    }

    /// The full product of two 128-bit numbers.
    pub fn mul_u128(a: u128, b: u128) -> (r: U256)
        ensures
            r@ == a * b,
    {
        let a1: u128 = a / WORD;
        let a0: u128 = a % WORD;
        let b1: u128 = b / WORD;
        let b0: u128 = b % WORD;
        proof {
            lemma_half_product(a0, b0);
            lemma_half_product(a0, b1);
            lemma_half_product(a1, b0);
            lemma_half_product(a1, b1);
        }
        let ll: u128 = a0 * b0;
        let lh: u128 = a0 * b1;
        let hl: u128 = a1 * b0;
        let hh: u128 = a1 * b1;
        let mid: u128 = ll / WORD + lh % WORD + hl % WORD;
        let lo: u128 = ll % WORD + (mid % WORD) * WORD;
        let hi: u128 = hh + lh / WORD + hl / WORD + mid / WORD;
        proof {
            assert(a * b == (a1 * b1) * pow128() + (a0 * b1) * WORD + (a1 * b0) * WORD + a0 * b0)
                by (nonlinear_arith)
                requires
                    a == a1 * WORD + a0,
                    b == b1 * WORD + b0,
                    WORD * WORD == pow128(),
            ;
        }
        U256 { hi, lo }
    }

    /// The sum, unless it needs more than 256 bits.
    pub fn checked_add(self, rhs: U256) -> (r: Option<U256>)
        ensures
            match r {
                Some(s) => s@ == self@ + rhs@,
                None => self@ + rhs@ >= pow256(),
            },
    {
        proof {
            lemma_u256_bounds(self);
            lemma_u256_bounds(rhs);
        }
        let (lo, carry): (u128, u128) = match self.lo.checked_add(rhs.lo) {
            Some(s) => (s, 0),
            None => ((self.lo - (u128::MAX - rhs.lo)) - 1, 1),
        };
        match self.hi.checked_add(rhs.hi) {
            None => None,
            Some(h) => match h.checked_add(carry) {
                None => None,
                Some(hi) => Some(U256 { hi, lo }),
            },
        }
    }

    /// The product, unless it needs more than 256 bits.
    pub fn checked_mul(self, rhs: U256) -> (r: Option<U256>)
        ensures
            match r {
                Some(p) => p@ == self@ * rhs@,
                None => self@ * rhs@ >= pow256(),
            },
    {
        proof {
            lemma_u256_bounds(self);
            lemma_u256_bounds(rhs);
        }
        if self.hi != 0 && rhs.hi != 0 {
            proof {
                assert(self@ * rhs@ >= pow256()) by (nonlinear_arith)
                    requires
                        self@ >= pow128(),
                        rhs@ >= pow128(),
                        pow128() * pow128() == pow256(),
                ;
            }
            return None;
        }
        let (wide, narrow): (U256, u128) = if self.hi == 0 {
            (rhs, self.lo)
        } else {
            (self, rhs.lo)
        };
        let low = U256::mul_u128(wide.lo, narrow);
        let high = U256::mul_u128(wide.hi, narrow);
        proof {
            lemma_u256_bounds(low);
            lemma_u256_bounds(high);
            lemma_u256_bounds(wide);
            assert(self@ * rhs@ == wide@ * narrow) by (nonlinear_arith)
                requires
                    (self@ == wide@ && rhs@ == narrow) || (rhs@ == wide@ && self@ == narrow),
            ;
            assert(wide@ * narrow == (wide.hi * narrow) * pow128() + wide.lo * narrow)
                by (nonlinear_arith)
                requires
                    wide@ == wide.hi * pow128() + wide.lo,
            ;
        }
        if high.hi != 0 {
            return None;
        }
        match high.lo.checked_add(low.hi) {
            None => None,
            Some(hi) => Some(U256 { hi, lo: low.lo }),
        }
    }

    /// Twice the number plus `bit`, in two parts: the low 256 bits, and
    /// whether a 257th bit fell out.
    fn double_plus(self, bit: bool) -> (r: (U256, bool))
        ensures
            2 * self@ + (if bit { 1int } else { 0int }) == (if r.1 { pow256() } else { 0int }) + r.0@,
    {
        proof {
            lemma_u256_bounds(self);
        }
        let hi_top = self.hi >= TOP_BIT;
        let lo_top = self.lo >= TOP_BIT;
        let hi_rest: u128 = if hi_top { self.hi - TOP_BIT } else { self.hi };
        let lo_rest: u128 = if lo_top { self.lo - TOP_BIT } else { self.lo };
        let lo: u128 = lo_rest * 2 + (if bit { 1 } else { 0 });
        let hi: u128 = hi_rest * 2 + (if lo_top { 1 } else { 0 });
        (U256 { hi, lo }, hi_top)
    }

    /// The difference modulo 2^256.
    fn wrapping_sub(self, rhs: U256) -> (r: U256)
        ensures
            r@ == if self@ >= rhs@ { self@ - rhs@ } else { self@ - rhs@ + pow256() },
    {
        proof {
            lemma_u256_bounds(self);
            lemma_u256_bounds(rhs);
        }
        let borrow = self.lo < rhs.lo;
        let lo: u128 = if borrow {
            (u128::MAX - rhs.lo) + self.lo + 1
        } else {
            self.lo - rhs.lo
        };
        let hi_wrap = self.hi < rhs.hi;
        let hi_diff: u128 = if hi_wrap {
            (u128::MAX - rhs.hi) + self.hi + 1
        } else {
            self.hi - rhs.hi
        };
        let hi: u128 = if borrow {
            if hi_diff == 0 {
                u128::MAX
            } else {
                hi_diff - 1
            }
        } else {
            hi_diff
        };
        let r = U256 { hi, lo };
        proof {
            lemma_u256_bounds(r);
        }
        r
    }

    /// Quotient and remainder of the division by a positive number.
    pub fn div_rem(self, d: U256) -> (r: (U256, U256))
        requires
            d@ > 0,
        ensures
            r.0@ == self@ / d@,
            r.1@ == self@ % d@,
    {
        let mut q = U256::zero();
        let mut rem = U256::zero();
        let mut rest = self;
        let mut k: u32 = 0;
        proof {
            lemma_pow2_256();
            lemma2_to64();
            lemma_u256_bounds(self);
        }
        while k < 256
            invariant
                k <= 256,
                d@ > 0,
                rem@ < d@,
                q@ < pow2(k as nat),
                (q@ * d@ + rem@) * pow256() + rest@ == self@ * pow2(k as nat),
            decreases 256 - k,
        {
            let ghost q0 = q@;
            let ghost rem0 = rem@;
            let (rest2, top) = rest.double_plus(false);
            let (rem2, carry) = rem.double_plus(top);
            let (q2, q_carry) = q.double_plus(false);
            proof {
                lemma_pow2_unfold((k + 1) as nat);
                lemma_pow2_monotone(k as nat, 255);
                lemma_pow2_256();
                lemma_u256_bounds(q);
                lemma_u256_bounds(q2);
                lemma_u256_bounds(rem);
                lemma_u256_bounds(rem2);
                lemma_u256_bounds(rest);
                lemma_u256_bounds(rest2);
                lemma_u256_bounds(d);
                assert(!q_carry);
                assert(self@ * pow2((k + 1) as nat) == 2 * (self@ * pow2(k as nat)))
                    by (nonlinear_arith)
                    requires
                        pow2((k + 1) as nat) == 2 * pow2(k as nat),
                ;
            }
            let ghost bit: int = if top { 1 } else { 0 };
            if carry || rem2.ge(d) {
                rem = rem2.wrapping_sub(d);
                q = U256 { hi: q2.hi, lo: q2.lo + 1 };
                proof {
                    lemma_u256_bounds(q);
                    assert(q@ == 2 * q0 + 1);
                    assert(rem@ == 2 * rem0 + bit - d@);
                    assert(q@ * d@ + rem@ == 2 * (q0 * d@ + rem0) + bit) by (nonlinear_arith)
                        requires
                            q@ == 2 * q0 + 1,
                            rem@ == 2 * rem0 + bit - d@,
                    ;
                }
            } else {
                rem = rem2;
                q = q2;
                proof {
                    assert(q@ * d@ + rem@ == 2 * (q0 * d@ + rem0) + bit) by (nonlinear_arith)
                        requires
                            q@ == 2 * q0,
                            rem@ == 2 * rem0 + bit,
                    ;
                }
            }
            rest = rest2;
            k = k + 1;
        }
        proof {
            lemma_pow2_256();
            lemma_u256_bounds(rest);
            lemma_u256_bounds(self);
            let p = q@ * d@ + rem@;
            assert(self@ * pow2(256) == self@ * pow256());
            assert(p * pow256() + rest@ == self@ * pow256());
            assert(p == self@) by (nonlinear_arith)
                requires
                    p * pow256() + rest@ == self@ * pow256(),
                    0 <= rest@ < pow256(),
            ;
            lemma_fundamental_div_mod_converse(self@ as int, d@ as int, q@ as int, rem@ as int);
        }
        (q, rem)
    }

    /// The quotient of the division by a positive number.
    pub fn div(self, d: U256) -> (r: U256)
        requires
            d@ > 0,
        ensures
            r@ == self@ / d@,
    {
        self.div_rem(d).0
    }
}

/// `a * b / d`, with the product taken in 256 bits: the quotient if it fits
/// 128 bits.
pub fn mul_div(a: u128, b: u128, d: u128) -> (r: Option<u128>)
    requires
        d > 0,
    ensures
        match r {
            Some(q) => q == (a * b) / (d as int),
            None => (a * b) / (d as int) > u128::MAX,
        },
{
    U256::mul_u128(a, b).div(U256::from_u128(d)).as_u128()
}

} // verus!
