//! Single-precision numbers held by their IEEE-754 bit pattern.
//!
//! A [`Scalar`] is the 32 bits of a binary32 value: one sign bit, eight
//! exponent bits, twenty-three fraction bits.  Comparisons are decided on the
//! bits alone and mean what IEEE-754 says: both zeros are equal, and a NaN is
//! neither below, above nor equal to anything.

use vstd::prelude::*;
use vstd::arithmetic::power2::{
    pow2,
    lemma2_to64,
    lemma_pow2_adds,
    lemma_pow2_pos,
    lemma_pow2_strictly_increases,
    lemma_pow2_unfold,
};
use vstd::arithmetic::div_mod::{
    lemma_basic_div,
    lemma_div_by_multiple,
    lemma_div_is_ordered,
    lemma_div_multiples_vanish_quotient,
};
use vstd::bits::lemma_u32_shr_is_div;

verus! {

/// The sign bit of a binary32 pattern.
pub const SIGN_BIT: u32 = 0x8000_0000;

/// The pattern of positive infinity; every larger magnitude is a NaN.
pub const INFINITY_BITS: u32 = 0x7f80_0000;

/// The pattern of `1.0`.
pub const ONE_BITS: u32 = 0x3f80_0000;

/// Two to the number of fraction bits.
pub const FRACTION_RANGE: u32 = 0x80_0000;

/// A finite number is a whole multiple of two to the minus this.
pub const UNIT_EXPONENT: u32 = 149;

#[derive(Clone, Copy, Debug)]
pub struct Scalar {
    pub bits: u32,
}

impl Scalar {
    /// The pattern with its sign bit cleared.
    pub open spec fn magnitude(self) -> u32 {
        if self.bits >= SIGN_BIT {
            (self.bits - SIGN_BIT) as u32
        } else {
            self.bits
        }
    }

    /// The sign bit is set; true of negative zero too.
    pub open spec fn is_sign_negative(self) -> bool {
        self.bits >= SIGN_BIT
    }

    /// The pattern is not a number.
    pub open spec fn spec_is_nan(self) -> bool {
        self.magnitude() > INFINITY_BITS
    }

    /// The pattern is a number other than an infinity.
    pub open spec fn is_finite(self) -> bool {
        self.magnitude() < INFINITY_BITS
    }

    /// The eight exponent bits.
    pub open spec fn exponent(self) -> int {
        self.magnitude() as int / FRACTION_RANGE as int
    }

    /// The twenty-three fraction bits.
    pub open spec fn fraction(self) -> int {
        self.magnitude() as int % FRACTION_RANGE as int
    }

    /// The absolute value of a finite number, counted in units of 2^-149:
    /// the fraction itself for a subnormal number, and else the fraction with
    /// its leading one, doubled once for each exponent step above the first.
    pub open spec fn units(self) -> int {
        if self.exponent() == 0 {
            self.fraction()
        } else {
            (FRACTION_RANGE + self.fraction()) * pow2((self.exponent() - 1) as nat)
        }
    }

    /// The value of a finite number, counted in units of 2^-149.
    pub open spec fn scaled(self) -> int {
        if self.is_sign_negative() {
            -self.units()
        } else {
            self.units()
        }
    }

    /// The number as a colour channel: its whole part, held to 0..=255.  A
    /// NaN and every negative number give 0.
    pub open spec fn channel(self) -> int {
        if self.is_nan() || self.is_sign_negative() {
            0
        } else if !self.is_finite() {
            255
        } else if self.units() / (pow2(UNIT_EXPONENT as nat) as int) > 255 {
            255
        } else {
            self.units() / (pow2(UNIT_EXPONENT as nat) as int)
        }
    }

    /// An integer that orders the numbers as their values do: for `a` and `b`
    /// that are not NaN, `a` is below `b` exactly when `a.key() < b.key()`, and
    /// the two are equal exactly when their keys are.  Both zeros have key 0.
    pub open spec fn key(self) -> int {
        if self.is_sign_negative() {
            -(self.magnitude() as int)
        } else {
            self.magnitude() as int
        }
    }

    /// `self < other` as IEEE-754 decides it.
    pub open spec fn spec_lt(self, other: Scalar) -> bool {
        !self.is_nan() && !other.is_nan() && self.key() < other.key()
    }

    /// `self <= other` as IEEE-754 decides it.
    pub open spec fn spec_le(self, other: Scalar) -> bool {
        !self.is_nan() && !other.is_nan() && self.key() <= other.key()
    }

    /// The number without its sign.
    pub open spec fn spec_abs(self) -> Scalar {
        Scalar { bits: self.magnitude() }
    }

    /// `self > 0` as IEEE-754 decides it.
    pub open spec fn spec_is_positive(self) -> bool {
        !self.is_nan() && self.key() > 0
    }

    /// `self == 0` as IEEE-754 decides it: true of both zeros.
    pub open spec fn spec_is_zero(self) -> bool {
        self.key() == 0
    }

    pub fn from_bits(bits: u32) -> (s: Scalar)
        ensures
            s.bits == bits,
    {
        Scalar { bits }
    }

    pub fn to_bits(self) -> (bits: u32)
        ensures
            bits == self.bits,
    {
        self.bits
    }

    #[verifier::when_used_as_spec(spec_is_nan)]
    pub fn is_nan(self) -> (r: bool)
        ensures
            r == self.is_nan(),
    {
        let mag: u32 = if self.bits >= SIGN_BIT { self.bits - SIGN_BIT } else { self.bits };
        mag > INFINITY_BITS
    }

    /// The order key as a machine integer.
    pub fn order_key(self) -> (k: i64)
        ensures
            k == self.key(),
    {
        if self.bits >= SIGN_BIT {
            let mag: u32 = self.bits - SIGN_BIT;
            -(mag as i64)
        } else {
            self.bits as i64
        }
    }

    pub fn zero() -> (s: Scalar)
        ensures
            s.bits == 0,
    {
        Scalar { bits: 0 }
    }

    pub fn infinity() -> (s: Scalar)
        ensures
            s.bits == INFINITY_BITS,
    {
        Scalar { bits: INFINITY_BITS }
    }

    #[verifier::when_used_as_spec(spec_abs)]
    pub fn abs(self) -> (s: Scalar)
        ensures
            s == self.abs(),
    {
        if self.bits >= SIGN_BIT {
            Scalar { bits: self.bits - SIGN_BIT }
        } else {
            self
        }
    }

    #[verifier::when_used_as_spec(spec_is_positive)]
    pub fn is_positive(self) -> (r: bool)
        ensures
            r == self.is_positive(),
    {
        !self.is_nan() && self.order_key() > 0
    }

    #[verifier::when_used_as_spec(spec_is_zero)]
    pub fn is_zero(self) -> (r: bool)
        ensures
            r == self.is_zero(),
    {
        self.order_key() == 0
    }

    /// Converts to a colour channel, as a saturating cast to `u8` does.
    pub fn to_channel(self) -> (c: u8)
        ensures
            c == self.channel(),
    {
        if self.is_nan() || self.bits >= SIGN_BIT {
            return 0;
        }
        let exponent: u32 = self.bits / FRACTION_RANGE;
        let fraction: u32 = self.bits % FRACTION_RANGE;
        if exponent < 127 {
            proof {
                lemma_units_below_one(self);
            }
            0
        } else if exponent >= 135 {
            proof {
                if self.is_finite() {
                    lemma_units_above_byte(self);
                }
            }
            255
        } else {
            let significand: u32 = FRACTION_RANGE + fraction;
            let shift: u32 = 150 - exponent;
            let whole: u32 = significand >> shift;
            proof {
                lemma_u32_shr_is_div(significand, shift);
                lemma_units_whole_part(self);
                lemma2_to64();
                lemma_pow2_pos(shift as nat);
                if shift > 16 {
                    lemma_pow2_strictly_increases(16, shift as nat);
                }
                assert(significand as int / (pow2(shift as nat) as int) < 256) by (nonlinear_arith)
                    requires
                        significand < 0x100_0000,
                        pow2(shift as nat) >= 0x1_0000,
                ;
            }
            whole as u8
        }
    }

    #[verifier::when_used_as_spec(spec_lt)]
    pub fn lt(self, other: Scalar) -> (r: bool)
        ensures
            r == self.lt(other),
    {
        !self.is_nan() && !other.is_nan() && self.order_key() < other.order_key()
    }

    #[verifier::when_used_as_spec(spec_le)]
    pub fn le(self, other: Scalar) -> (r: bool)
        ensures
            r == self.le(other),
    {
        !self.is_nan() && !other.is_nan() && self.order_key() <= other.order_key()
    }
}

/// A positive finite number below one has no whole part.
proof fn lemma_units_below_one(s: Scalar)
    requires
        s.is_finite(),
        s.exponent() < 127,
    ensures
        0 <= s.units(),
        s.units() / (pow2(UNIT_EXPONENT as nat) as int) == 0,
{
    let e = s.exponent();
    let f = s.fraction();
    lemma2_to64();
    lemma_pow2_pos(149);
    if e == 0 {
        lemma_pow2_strictly_increases(23, 149);
    } else {
        let p = pow2((e - 1) as nat) as int;
        lemma_pow2_pos((e - 1) as nat);
        lemma_pow2_adds(24, (e - 1) as nat);
        if e + 23 < 149 {
            lemma_pow2_strictly_increases((e + 23) as nat, 149);
        }
        assert((0x80_0000 + f) * p < 0x100_0000 * p) by (nonlinear_arith)
            requires
                0 <= f < 0x80_0000,
                p > 0,
        ;
        assert((0x80_0000 + f) * p >= 0) by (nonlinear_arith)
            requires
                0 <= f,
                p > 0,
        ;
    }
    lemma_basic_div(s.units(), pow2(149) as int);
}

/// A finite number of exponent 135 or more is at least 256.
proof fn lemma_units_above_byte(s: Scalar)
    requires
        s.is_finite(),
        s.exponent() >= 135,
    ensures
        s.units() / (pow2(UNIT_EXPONENT as nat) as int) > 255,
{
    let e = s.exponent();
    let f = s.fraction();
    let p = pow2((e - 1) as nat) as int;
    let unit = pow2(149) as int;
    lemma2_to64();
    lemma_pow2_pos(149);
    lemma_pow2_pos((e - 1) as nat);
    lemma_pow2_adds(8, 149);
    if e - 1 > 134 {
        lemma_pow2_strictly_increases(134, (e - 1) as nat);
    }
    lemma_pow2_adds(23, 134);
    assert((0x80_0000 + f) * p >= 0x80_0000 * pow2(134)) by (nonlinear_arith)
        requires
            0 <= f,
            p >= pow2(134),
            pow2(134) > 0,
    ;
    assert(pow2(157) == 256 * unit);
    lemma_div_is_ordered(256 * unit, s.units(), unit);
    lemma_div_by_multiple(256, unit);
}

/// The whole part of a finite number between 1 and 256 is its significand
/// shifted right.
proof fn lemma_units_whole_part(s: Scalar)
    requires
        s.is_finite(),
        127 <= s.exponent() < 135,
    ensures
        s.units() / (pow2(UNIT_EXPONENT as nat) as int) == (FRACTION_RANGE + s.fraction()) / (pow2(
            (150 - s.exponent()) as nat,
        ) as int),
{
    let e = s.exponent();
    let m = FRACTION_RANGE + s.fraction();
    let p = pow2((e - 1) as nat) as int;
    let d = pow2((150 - e) as nat) as int;
    lemma_pow2_pos((e - 1) as nat);
    lemma_pow2_pos((150 - e) as nat);
    lemma_pow2_adds((e - 1) as nat, (150 - e) as nat);
    lemma_div_multiples_vanish_quotient(p, m, d);
    assert(m * p == p * m) by (nonlinear_arith);
}

/// Finite numbers grow with their magnitude bits.
proof fn lemma_units_grow(a: Scalar, b: Scalar)
    requires
        a.is_finite(),
        b.is_finite(),
        a.magnitude() < b.magnitude(),
    ensures
        0 <= a.units() < b.units(),
{
    let ea = a.exponent();
    let fa = a.fraction();
    let eb = b.exponent();
    let fb = b.fraction();
    let pb = pow2((eb - 1) as nat) as int;
    if eb > 0 {
        lemma_pow2_pos((eb - 1) as nat);
    }
    if ea == eb {
        if ea > 0 {
            assert((0x80_0000 + fa) * pb < (0x80_0000 + fb) * pb && 0 <= (0x80_0000 + fa) * pb)
                by (nonlinear_arith)
                requires
                    0 <= fa < fb,
                    pb > 0,
            ;
        }
    } else {
        assert(ea < eb);
        assert((0x80_0000 + fb) * pb >= 0x80_0000 * pb) by (nonlinear_arith)
            requires
                0 <= fb,
                pb > 0,
        ;
        if ea > 0 {
            let pa = pow2((ea - 1) as nat) as int;
            lemma_pow2_pos((ea - 1) as nat);
            lemma_pow2_unfold(ea as nat);
            if ea < eb - 1 {
                lemma_pow2_strictly_increases(ea as nat, (eb - 1) as nat);
            }
            assert((0x80_0000 + fa) * pa < 0x80_0000 * (2 * pa) && 0 <= (0x80_0000 + fa) * pa)
                by (nonlinear_arith)
                requires
                    0 <= fa < 0x80_0000,
                    pa > 0,
            ;
            assert(0x80_0000 * (2 * pa) <= 0x80_0000 * pb) by (nonlinear_arith)
                requires
                    2 * pa <= pb,
            ;
        } else {
            assert(0x80_0000 * pb >= 0x80_0000) by (nonlinear_arith)
                requires
                    pb >= 1,
            ;
        }
    }
}

/// The order key orders finite numbers as their values do, and gives equal
/// keys to equal values only.
pub proof fn law_key_orders_as_value(a: Scalar, b: Scalar)
    requires
        a.is_finite(),
        b.is_finite(),
    ensures
        a.key() < b.key() <==> a.scaled() < b.scaled(),
        a.key() == b.key() <==> a.scaled() == b.scaled(),
{
    let zero = Scalar { bits: 0 };
    assert(zero.units() == 0);
    if a.magnitude() < b.magnitude() {
        lemma_units_grow(a, b);
    }
    if b.magnitude() < a.magnitude() {
        lemma_units_grow(b, a);
    }
    if 0 < a.magnitude() {
        lemma_units_grow(zero, a);
    }
    if 0 < b.magnitude() {
        lemma_units_grow(zero, b);
    }
}

/// Positive infinity is above every finite number and negative infinity
/// below, and a NaN is in no order with anything.
pub proof fn law_infinities_bound_the_finite(a: Scalar)
    requires
        a.is_finite(),
    ensures
        a.lt(Scalar { bits: INFINITY_BITS }),
        (Scalar { bits: (SIGN_BIT + INFINITY_BITS) as u32 }).lt(a),
        forall|n: Scalar| n.is_nan() ==> !a.lt(n) && !n.lt(a) && !a.le(n) && !n.le(a),
{
}

} // verus!
