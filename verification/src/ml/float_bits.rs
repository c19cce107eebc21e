//! Single-precision numbers as their IEEE bits, and how they compare.
//!
//! Numbers pass through the library unchanged and are compared; arithmetic on
//! them is the caller's.
use vstd::prelude::*;

verus! {

/// A single-precision number.
#[derive(Clone, Copy, Debug, PartialEq, Eq, Structural)]
pub struct F32Bits {
    pub bits: u32,
}

/// The bits of 0.0.
pub const ZERO: u32 = 0;

/// The bits of 1.0.
pub const ONE: u32 = 0x3f80_0000;

/// The bits of 0.5.
pub const HALF: u32 = 0x3f00_0000;

/// The bits of -0.5.
pub const MINUS_HALF: u32 = 0xbf00_0000;

/// The bits of 2.0.
pub const TWO: u32 = 0x4000_0000;

/// The bits of 100.0.
pub const HUNDRED: u32 = 0x42c8_0000;

/// The bits of the number next to 0.1.
pub const TENTH: u32 = 0x3dcc_cccd;

/// The bits of the number next to 0.01.
pub const HUNDREDTH: u32 = 0x3c23_d70a;

/// The bits of the number next to 0.6.
pub const SIX_TENTHS: u32 = 0x3f19_999a;

/// The bits of the number next to 0.7.
pub const SEVEN_TENTHS: u32 = 0x3f33_3333;

/// The bits of the number next to 0.8.
pub const EIGHT_TENTHS: u32 = 0x3f4c_cccd;

/// The bits of the number next to 0.9.
pub const NINE_TENTHS: u32 = 0x3f66_6666;

/// The bits of a number without its sign.
pub open spec fn magnitude(x: F32Bits) -> int {
    x.bits as int % 0x8000_0000
}

impl F32Bits {
    /// Not a number: exponent all ones, fraction not zero.
    pub open spec fn is_nan_spec(self) -> bool {
        magnitude(self) > 0x7f80_0000
    }

    /// Neither infinite nor NaN: exponent not all ones.
    pub open spec fn is_finite_spec(self) -> bool {
        magnitude(self) < 0x7f80_0000
    }

    /// Where a number stands among all numbers. The magnitude's bits, read as an
    /// integer, grow with the magnitude; both zeros stand at the same place.
    pub open spec fn rank(self) -> int {
        if self.bits < 0x8000_0000 {
            magnitude(self)
        } else {
            -magnitude(self)
        }
    }

    /// `self < other`; false where either is NaN.
    pub open spec fn lt_spec(self, other: F32Bits) -> bool {
        !self.is_nan_spec() && !other.is_nan_spec() && self.rank() < other.rank()
    }

    /// `self >= other`; false where either is NaN.
    pub open spec fn ge_spec(self, other: F32Bits) -> bool {
        !self.is_nan_spec() && !other.is_nan_spec() && self.rank() >= other.rank()
    }

    /// The smaller of two numbers, or the one that is a number.
    pub open spec fn min_spec(self, other: F32Bits) -> F32Bits {
        if self.is_nan_spec() {
            other
        } else if other.lt_spec(self) {
            other
        } else {
            self
        }
    }

    /// The larger of two numbers, or the one that is a number.
    pub open spec fn max_spec(self, other: F32Bits) -> F32Bits {
        if self.is_nan_spec() {
            other
        } else if self.lt_spec(other) {
            other
        } else {
            self
        }
    }

    /// Whether this is not a number.
    pub fn is_nan(self) -> (b: bool)
        ensures
            b == self.is_nan_spec(),
    {
        self.bits % 0x8000_0000 > 0x7f80_0000
    }

    /// Whether this is neither infinite nor NaN.
    pub fn is_finite(self) -> (b: bool)
        ensures
            b == self.is_finite_spec(),
    {
        self.bits % 0x8000_0000 < 0x7f80_0000
    }

    pub(crate) fn signed(self) -> (r: i64)
        ensures
            r == self.rank(),
    {
        let m: i64 = (self.bits % 0x8000_0000) as i64;
        if self.bits < 0x8000_0000 {
            m
        } else {
            -m
        }
    }

    /// `self < other`.
    pub fn lt(self, other: F32Bits) -> (b: bool)
        ensures
            b == self.lt_spec(other),
    {
        !self.is_nan() && !other.is_nan() && self.signed() < other.signed()
    }

    /// `self >= other`.
    pub fn ge(self, other: F32Bits) -> (b: bool)
        ensures
            b == self.ge_spec(other),
    {
        !self.is_nan() && !other.is_nan() && self.signed() >= other.signed()
    }

    /// The smaller of two numbers, or the one that is a number.
    pub fn min(self, other: F32Bits) -> (r: F32Bits)
        ensures
            r == self.min_spec(other),
    {
        if self.is_nan() {
            other
        } else if other.lt(self) {
            other
        } else {
            self
        }
    }

    /// The larger of two numbers, or the one that is a number.
    pub fn max(self, other: F32Bits) -> (r: F32Bits)
        ensures
            r == self.max_spec(other),
    {
        if self.is_nan() {
            other
        } else if self.lt(other) {
            other
        } else {
            self
        }
    }
}

/// Numbers that are not NaN are totally ordered.
pub proof fn order_is_total(a: F32Bits, b: F32Bits, c: F32Bits)
    requires
        !a.is_nan_spec(),
        !b.is_nan_spec(),
        !c.is_nan_spec(),
    ensures
        a.ge_spec(b) || b.ge_spec(a),
        a.ge_spec(b) <==> !a.lt_spec(b),
        a.ge_spec(b) && b.ge_spec(c) ==> a.ge_spec(c),
{
}

/// NaN compares with nothing.
pub proof fn nan_compares_with_nothing(a: F32Bits, b: F32Bits)
    requires
        a.is_nan_spec(),
    ensures
        !a.lt_spec(b) && !b.lt_spec(a) && !a.ge_spec(b) && !b.ge_spec(a),
{
}

/// The number that the bits of a finite number stand for, in units of the smallest
/// number there is: a fraction of 23 bits, an exponent of eight with a hidden bit where
/// it is not zero, and a sign.
pub open spec fn units(x: F32Bits) -> int {
    let m = x.bits as int % 0x8000_0000;
    let exponent = m / 0x80_0000;
    let fraction = m % 0x80_0000;
    let size = if exponent == 0 {
        fraction
    } else {
        (0x80_0000 + fraction) * vstd::arithmetic::power2::pow2((exponent - 1) as nat)
    };
    if x.bits < 0x8000_0000 {
        size
    } else {
        -size
    }
}

/// The size of a number grows with its bits.
proof fn lemma_size_grows(a: F32Bits, b: F32Bits)
    requires
        a.bits < b.bits < 0x7f80_0000,
    ensures
        0 <= units(a) < units(b),
{
    let ea = a.bits as int / 0x80_0000;
    let fa = a.bits as int % 0x80_0000;
    let eb = b.bits as int / 0x80_0000;
    let fb = b.bits as int % 0x80_0000;
    assert(a.bits as int % 0x8000_0000 == a.bits);
    assert(b.bits as int % 0x8000_0000 == b.bits);
    if eb == 0 {
    } else {
        let pb = vstd::arithmetic::power2::pow2((eb - 1) as nat) as int;
        vstd::arithmetic::power2::lemma_pow2_pos((eb - 1) as nat);
        if ea == 0 {
            assert((0x80_0000 + fb) * pb >= 0x80_0000) by (nonlinear_arith)
                requires
                    fb >= 0,
                    pb >= 1,
            ;
        } else {
            let pa = vstd::arithmetic::power2::pow2((ea - 1) as nat) as int;
            vstd::arithmetic::power2::lemma_pow2_pos((ea - 1) as nat);
            if ea == eb {
                assert((0x80_0000 + fa) * pb < (0x80_0000 + fb) * pb) by (nonlinear_arith)
                    requires
                        fa < fb,
                        pb >= 1,
                ;
                assert(0 <= (0x80_0000 + fa) * pa) by (nonlinear_arith)
                    requires
                        fa >= 0,
                        pa >= 1,
                ;
            } else {
                assert(ea < eb);
                let p = vstd::arithmetic::power2::pow2(ea as nat) as int;
                vstd::arithmetic::power2::lemma_pow2_unfold(ea as nat);
                if ea < eb - 1 {
                    vstd::arithmetic::power2::lemma_pow2_strictly_increases(
                        ea as nat,
                        (eb - 1) as nat,
                    );
                }
                assert(p == 2 * pa && p <= pb);
                assert(0 <= (0x80_0000 + fa) * pa < 0x80_0000 * p) by (nonlinear_arith)
                    requires
                        0 <= fa < 0x80_0000,
                        p == 2 * pa,
                        pa >= 1,
                ;
                assert(0x80_0000 * p <= (0x80_0000 + fb) * pb) by (nonlinear_arith)
                    requires
                        fb >= 0,
                        1 <= p <= pb,
                ;
            }
        }
    }
}

/// Finite numbers compare as the numbers that their bits stand for; both zeros are
/// equal.
pub proof fn numbers_compare_by_value(a: F32Bits, b: F32Bits)
    requires
        a.is_finite_spec(),
        b.is_finite_spec(),
    ensures
        a.lt_spec(b) <==> units(a) < units(b),
        a.ge_spec(b) <==> units(a) >= units(b),
{
    let pa = F32Bits { bits: (a.bits as int % 0x8000_0000) as u32 };
    let pb = F32Bits { bits: (b.bits as int % 0x8000_0000) as u32 };
    let zero = F32Bits { bits: 0 };
    assert(units(zero) == 0);
    if pa.bits < pb.bits {
        lemma_size_grows(pa, pb);
    } else if pb.bits < pa.bits {
        lemma_size_grows(pb, pa);
    }
    if pa.bits > 0 {
        lemma_size_grows(zero, pa);
    }
    if pb.bits > 0 {
        lemma_size_grows(zero, pb);
    }
}

/// The smaller and the larger of two numbers are two of them, in order; next to no
/// number, the number is taken.
pub proof fn smaller_and_larger(a: F32Bits, b: F32Bits)
    ensures
        a.min_spec(b) == a || a.min_spec(b) == b,
        a.max_spec(b) == a || a.max_spec(b) == b,
        !a.is_nan_spec() && !b.is_nan_spec() ==> {
            &&& a.ge_spec(a.min_spec(b)) && b.ge_spec(a.min_spec(b))
            &&& a.max_spec(b).ge_spec(a) && a.max_spec(b).ge_spec(b)
        },
        a.is_nan_spec() ==> a.min_spec(b) == b && a.max_spec(b) == b,
        b.is_nan_spec() && !a.is_nan_spec() ==> a.min_spec(b) == a && a.max_spec(b) == a,
{
}

proof fn lemma_units(bits: u32, exponent: int, significand: int)
    requires
        bits < 0x8000_0000,
        exponent > 0,
        bits as int == exponent * 0x80_0000 + (significand - 0x80_0000),
        0x80_0000 <= significand < 0x100_0000,
    ensures
        units(F32Bits { bits }) == significand * vstd::arithmetic::power2::pow2(
            (exponent - 1) as nat,
        ),
{
    assert(bits as int / 0x80_0000 == exponent && bits as int % 0x80_0000 == significand
        - 0x80_0000);
}

/// The named numbers are what they are called: tenths and hundredths to within half of
/// the last place, the others exactly.
pub proof fn named_numbers_are_what_they_are_called()
    ensures
        ({
            let one = units(F32Bits { bits: ONE });
            let value = |bits: u32| units(F32Bits { bits });
            &&& value(ZERO) == 0
            &&& 2 * value(HALF) == one
            &&& 2 * value(MINUS_HALF) == -one
            &&& value(TWO) == 2 * one
            &&& value(HUNDRED) == 100 * one
            &&& -one < (10 * value(TENTH) - one) * 0x80_0000 < one
            &&& -one < (100 * value(HUNDREDTH) - one) * 0x40_0000 < one
            &&& -one < (10 * value(SIX_TENTHS) - 6 * one) * 0x20_0000 < one
            &&& -one < (10 * value(SEVEN_TENTHS) - 7 * one) * 0x20_0000 < one
            &&& -one < (10 * value(EIGHT_TENTHS) - 8 * one) * 0x20_0000 < one
            &&& -one < (10 * value(NINE_TENTHS) - 9 * one) * 0x20_0000 < one
        }),
{
    let p = vstd::arithmetic::power2::pow2(119) as int;
    vstd::arithmetic::power2::lemma_pow2_pos(119);
    let at = |e: nat| vstd::arithmetic::power2::pow2(e) as int;
    vstd::arithmetic::power2::lemma_pow2_unfold(120);
    vstd::arithmetic::power2::lemma_pow2_unfold(121);
    vstd::arithmetic::power2::lemma_pow2_unfold(122);
    vstd::arithmetic::power2::lemma_pow2_unfold(123);
    vstd::arithmetic::power2::lemma_pow2_unfold(124);
    vstd::arithmetic::power2::lemma_pow2_unfold(125);
    vstd::arithmetic::power2::lemma_pow2_unfold(126);
    vstd::arithmetic::power2::lemma_pow2_unfold(127);
    vstd::arithmetic::power2::lemma_pow2_unfold(128);
    vstd::arithmetic::power2::lemma_pow2_unfold(129);
    vstd::arithmetic::power2::lemma_pow2_unfold(130);
    vstd::arithmetic::power2::lemma_pow2_unfold(131);
    vstd::arithmetic::power2::lemma_pow2_unfold(132);
    assert(at(122) == 8 * p && at(125) == 64 * p && at(126) == 128 * p);
    assert(at(127) == 256 * p && at(132) == 8192 * p);
    lemma_units(ONE, 127, 8388608);
    lemma_units(HALF, 126, 8388608);
    lemma_units(TWO, 128, 8388608);
    lemma_units(HUNDRED, 133, 13107200);
    lemma_units(TENTH, 123, 13421773);
    lemma_units(HUNDREDTH, 120, 10737418);
    lemma_units(SIX_TENTHS, 126, 10066330);
    lemma_units(SEVEN_TENTHS, 126, 11744051);
    lemma_units(EIGHT_TENTHS, 126, 13421773);
    lemma_units(NINE_TENTHS, 126, 15099494);
    lemma_units(HALF, 126, 8388608);
    assert(units(F32Bits { bits: MINUS_HALF }) == -units(F32Bits { bits: HALF }));
}

/// A number is finite, infinite or none: every bit pattern is one of the three, and the
/// sign does not matter. The infinities lie beyond all that is finite.
pub proof fn numbers_are_finite_infinite_or_none(x: F32Bits, y: F32Bits)
    ensures
        x.is_finite_spec() || x.is_nan_spec() || x.bits == 0x7f80_0000 || x.bits == 0xff80_0000,
        !(x.is_finite_spec() && x.is_nan_spec()),
        x.bits == 0x7f80_0000 || x.bits == 0xff80_0000 ==> !x.is_finite_spec()
            && !x.is_nan_spec(),
        x.bits + 0x8000_0000 == y.bits ==> x.is_nan_spec() == y.is_nan_spec()
            && x.is_finite_spec() == y.is_finite_spec(),
        x.bits == 0x7f80_0000 && y.is_finite_spec() ==> y.lt_spec(x),
        x.bits == 0xff80_0000 && y.is_finite_spec() ==> x.lt_spec(y),
        x.is_nan_spec() ==> !x.lt_spec(y) && !y.lt_spec(x) && !x.ge_spec(y) && !y.ge_spec(x),
{
}

} // verus!
