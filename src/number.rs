use vstd::arithmetic::power2::{
    lemma2_to64, lemma2_to64_rest, lemma_pow2_adds, lemma_pow2_pos, lemma_pow2_unfold, pow2,
};
use vstd::prelude::*;

verus! {

/// The sign bit of a binary64 word.
pub const SIGN_BIT: u64 = 0x8000_0000_0000_0000;

/// The magnitude field of positive infinity; anything above it is a NaN.
pub const INFINITY_MAGNITUDE: u64 = 0x7FF0_0000_0000_0000;

/// The word of the real number one.
pub const ONE_BITS: u64 = 0x3FF0_0000_0000_0000;

/// Integers of smaller magnitude than this are exactly representable.
pub const EXACT_INT_LIMIT: u64 = 0x20_0000_0000_0000;

/// A real number in IEEE-754 binary64 form, held as its 64-bit word.
///
/// The library never does arithmetic on reals: it stores them, compares
/// them and converts small integers and flags into them.
#[derive(Clone, Copy, Debug, PartialEq, Eq, Structural)]
pub struct Real {
    pub bits: u64,
}

/// Position of the highest set bit of a positive number.
pub open spec fn top_bit(a: nat) -> nat
    decreases a,
{
    if a < 2 {
        0
    } else {
        1 + top_bit(a / 2)
    }
}

/// The binary64 word of an integer whose magnitude is below 2^53: the
/// magnitude is shifted until its top bit sits at position 52, that bit is
/// dropped, and the exponent records the original position of the top bit.
pub open spec fn int_bits(k: int) -> int {
    if k == 0 {
        0
    } else {
        let a = if k < 0 {
            -k
        } else {
            k
        };
        let t = top_bit(a as nat);
        (if k < 0 {
            SIGN_BIT as int
        } else {
            0
        }) + (1023 + t) * pow2(52) + (a * pow2((52 - t) as nat) - pow2(52))
    }
}

/// Whether `k` has an exact binary64 form that this library produces.
pub open spec fn int_in_exact_range(k: int) -> bool {
    -(EXACT_INT_LIMIT as int) < k < EXACT_INT_LIMIT as int
}

impl Real {
    pub open spec fn sign_set(self) -> bool {
        self.bits >= SIGN_BIT
    }

    /// Exponent and mantissa together, which order non-negative reals.
    pub open spec fn magnitude(self) -> nat {
        (self.bits % SIGN_BIT) as nat
    }

    pub open spec fn nan_spec(self) -> bool {
        self.magnitude() > INFINITY_MAGNITUDE
    }

    /// `self < o` as IEEE-754 defines it: false when either is a NaN, and
    /// the two zeros are equal.
    pub open spec fn lt_spec(self, o: Real) -> bool {
        &&& !self.nan_spec()
        &&& !o.nan_spec()
        &&& if self.sign_set() {
            if o.sign_set() {
                o.magnitude() < self.magnitude()
            } else {
                self.magnitude() + o.magnitude() > 0
            }
        } else {
            !o.sign_set() && self.magnitude() < o.magnitude()
        }
    }

    /// `self <= o` as IEEE-754 defines it.
    pub open spec fn le_spec(self, o: Real) -> bool {
        !self.nan_spec() && !o.nan_spec() && !o.lt_spec(self)
    }

    pub fn from_bits(bits: u64) -> (r: Real)
        ensures
            r.bits == bits,
    {
        Real { bits }
    }

    pub fn to_bits(&self) -> (r: u64)
        ensures
            r == self.bits,
    {
        self.bits
    }

    pub fn zero() -> (r: Real)
        ensures
            r.bits == 0,
    {
        Real { bits: 0 }
    }

    pub fn one() -> (r: Real)
        ensures
            r.bits == ONE_BITS,
    {
        Real { bits: ONE_BITS }
    }

    /// The real 1 for `true` and 0 for `false`.
    pub fn from_flag(b: bool) -> (r: Real)
        ensures
            r.bits == (if b {
                ONE_BITS
            } else {
                0
            }),
    {
        if b {
            Real::one()
        } else {
            Real::zero()
        }
    }

    pub fn is_nan(&self) -> (r: bool)
        ensures
            r == self.nan_spec(),
    {
        self.bits % SIGN_BIT > INFINITY_MAGNITUDE
    }

    pub fn lt(&self, o: &Real) -> (r: bool)
        ensures
            r == self.lt_spec(*o),
    {
        if self.is_nan() || o.is_nan() {
            return false;
        }
        let a = self.bits % SIGN_BIT;
        let b = o.bits % SIGN_BIT;
        if self.bits >= SIGN_BIT {
            if o.bits >= SIGN_BIT {
                b < a
            } else {
                a > 0 || b > 0
            }
        } else {
            o.bits < SIGN_BIT && a < b
        }
    }

    pub fn le(&self, o: &Real) -> (r: bool)
        ensures
            r == self.le_spec(*o),
    {
        !self.is_nan() && !o.is_nan() && !o.lt(self)
    }

    /// The exact binary64 form of an integer, or `None` when its magnitude
    /// is 2^53 or more (such integers are refused rather than rounded).
    pub fn from_int(k: i128) -> (r: Option<Real>)
        ensures
            r is Some <==> int_in_exact_range(k as int),
            r matches Some(x) ==> x.bits as int == int_bits(k as int),
    {
        if k <= -(EXACT_INT_LIMIT as i128) || k >= EXACT_INT_LIMIT as i128 {
            return None;
        }
        if k == 0 {
            return Some(Real::zero());
        }
        let a: u64 = if k < 0 {
            (-k) as u64
        } else {
            k as u64
        };
        // find the top bit of the magnitude
        let mut x: u64 = a;
        let mut t: u64 = 0;
        while x >= 2
            invariant
                1 <= x <= a,
                top_bit(a as nat) == t + top_bit(x as nat),
                t + x <= a,
            decreases x,
        {
            x = x / 2;
            t = t + 1;
        }
        proof {
            lemma_top_bit_bounds(a as nat);
            lemma_pow2_small(a as nat);
            lemma2_to64();
        }
        // shift the magnitude up until its top bit sits at position 52
        let mut m: u64 = a;
        let mut s: u64 = 0;
        while s < 52 - t
            invariant
                t == top_bit(a as nat),
                t <= 52,
                s <= 52 - t,
                m as int == a * pow2(s as nat),
                pow2(t as nat) <= a < pow2((t + 1) as nat),
                pow2(52) == 0x10_0000_0000_0000,
            decreases 52 - t - s,
        {
            proof {
                lemma_pow2_adds(t as nat, s as nat);
                lemma_pow2_adds((t + 1) as nat, s as nat);
                lemma_pow2_adds((t + s) as nat, 1);
                lemma_pow2_mono((t + s + 1) as nat, 52);
                lemma_pow2_unfold((s + 1) as nat);
                lemma_pow2_pos(s as nat);
                lemma2_to64();
                vstd::arithmetic::mul::lemma_mul_strict_inequality(
                    a as int,
                    pow2((t + 1) as nat) as int,
                    pow2(s as nat) as int,
                );
                vstd::arithmetic::mul::lemma_mul_is_associative(
                    a as int,
                    pow2(s as nat) as int,
                    2,
                );
            }
            m = m * 2;
            s = s + 1;
        }
        proof {
            lemma_pow2_adds(t as nat, s as nat);
            lemma_pow2_adds((t + 1) as nat, s as nat);
            lemma_pow2_pos(s as nat);
            lemma2_to64_rest();
            vstd::arithmetic::mul::lemma_mul_inequality(
                pow2(t as nat) as int,
                a as int,
                pow2(s as nat) as int,
            );
            vstd::arithmetic::mul::lemma_mul_strict_inequality(
                a as int,
                pow2((t + 1) as nat) as int,
                pow2(s as nat) as int,
            );
            lemma_pow2_unfold(53);
        }
        let exponent: u64 = 1023 + t;
        let mantissa: u64 = m - 0x10_0000_0000_0000;
        let word: u64 = exponent * 0x10_0000_0000_0000 + mantissa;
        if k < 0 {
            Some(Real { bits: SIGN_BIT + word })
        } else {
            Some(Real { bits: word })
        }
    }
}

/// The top bit of `a` lies where `a` is.
pub proof fn lemma_top_bit_bounds(a: nat)
    requires
        a >= 1,
    ensures
        pow2(top_bit(a)) <= a < pow2(top_bit(a) + 1),
    decreases a,
{
    if a < 2 {
        lemma2_to64();
    } else {
        lemma_top_bit_bounds(a / 2);
        lemma_pow2_unfold(top_bit(a));
        lemma_pow2_unfold(top_bit(a) + 1);
    }
}

/// Powers of two grow with their exponent.
pub proof fn lemma_pow2_mono(e1: nat, e2: nat)
    requires
        e1 <= e2,
    ensures
        pow2(e1) <= pow2(e2),
    decreases e2,
{
    if e1 < e2 {
        lemma_pow2_mono(e1, (e2 - 1) as nat);
        lemma_pow2_unfold(e2);
    }
}

/// A number below 2^53 has its top bit at position 52 or lower.
pub proof fn lemma_pow2_small(a: nat)
    requires
        1 <= a < 0x20_0000_0000_0000,
    ensures
        top_bit(a) <= 52,
        pow2(52) == 0x10_0000_0000_0000,
{
    lemma2_to64_rest();
    lemma_top_bit_bounds(a);
    lemma_pow2_unfold(53);
    if top_bit(a) > 52 {
        lemma_pow2_mono(53, top_bit(a));
    }
}

} // verus!
