//! IEEE-754 values carried by their bit patterns.
//!
//! The library never does floating-point arithmetic. Where its logic only
//! classifies or orders floating-point samples (finiteness, `<`, `<=`, `==`,
//! `abs`, `total_cmp`), it does so exactly on the binary encoding, which is
//! what `f64::to_bits` / `f32::to_bits` hand over.
use vstd::prelude::*;

verus! {

/// Mask of every bit but the sign bit of a binary64 encoding.
pub const F64_MAGNITUDE_MASK: u64 = 0x7fff_ffff_ffff_ffff;

/// Mask of every bit but the sign bit of a binary32 encoding.
pub const F32_MAGNITUDE_MASK: u32 = 0x7fff_ffff;

/// A binary64 (`f64`) value, held by its bit pattern.
#[derive(Clone, Copy, Debug, PartialEq, Eq)]
pub struct F64Bits(pub u64);

impl F64Bits {
    /// The biased exponent field.
    pub open spec fn exponent_field(self) -> u64 {
        (self.0 >> 52u64) & 0x7ffu64
    }

    /// The fraction (mantissa) field.
    pub open spec fn fraction_field(self) -> u64 {
        self.0 & 0x000f_ffff_ffff_ffffu64
    }

    /// The encoding without its sign bit: for non-NaN values, the larger the
    /// magnitude field, the larger the absolute value.
    pub open spec fn magnitude(self) -> u64 {
        self.0 & F64_MAGNITUDE_MASK
    }

    pub open spec fn sign_set(self) -> bool {
        self.0 >> 63u64 == 1u64
    }

    pub open spec fn finite(self) -> bool {
        self.exponent_field() != 0x7ffu64
    }

    pub open spec fn nan(self) -> bool {
        self.exponent_field() == 0x7ffu64 && self.fraction_field() != 0u64
    }

    /// Position of a non-NaN value on the real line (with both zeros at 0):
    /// `a < b` holds between two non-NaN values exactly when their keys do.
    pub open spec fn order_key(self) -> int {
        if self.sign_set() {
            -(self.magnitude() as int)
        } else {
            self.magnitude() as int
        }
    }

    /// `self < other` as `f64` compares (false when either is NaN).
    pub open spec fn less_than(self, other: F64Bits) -> bool {
        !self.nan() && !other.nan() && self.order_key() < other.order_key()
    }

    /// `self <= other` as `f64` compares (false when either is NaN).
    pub open spec fn at_most(self, other: F64Bits) -> bool {
        !self.nan() && !other.nan() && self.order_key() <= other.order_key()
    }

    /// `self == other` as `f64` compares: `0.0 == -0.0`, NaN equals nothing.
    pub open spec fn same_value(self, other: F64Bits) -> bool {
        !self.nan() && !other.nan() && self.order_key() == other.order_key()
    }

    /// The encoding of `self.abs()`.
    pub open spec fn abs_spec(self) -> F64Bits {
        F64Bits(self.magnitude())
    }

    /// `+0.0`.
    pub open spec fn zero() -> F64Bits {
        F64Bits(0u64)
    }

    /// Same as `f64::is_finite`.
    pub fn is_finite(self) -> (r: bool)
        ensures
            r == self.finite(),
    {
        (self.0 >> 52u64) & 0x7ffu64 != 0x7ffu64
    }

    /// Same as `f64::is_nan`.
    pub fn is_nan(self) -> (r: bool)
        ensures
            r == self.nan(),
    {
        (self.0 >> 52u64) & 0x7ffu64 == 0x7ffu64 && self.0 & 0x000f_ffff_ffff_ffffu64 != 0u64
    }

    fn key(self) -> (k: i64)
        ensures
            k == self.order_key(),
    {
        let m = self.0 & F64_MAGNITUDE_MASK;
        let x = self.0;
        assert(x & 0x7fff_ffff_ffff_ffffu64 <= 0x7fff_ffff_ffff_ffffu64) by (bit_vector);
        if self.0 >> 63u64 == 1u64 {
            -(m as i64)
        } else {
            m as i64
        }
    }

    /// Same as `self < other` on `f64`.
    pub fn lt(self, other: F64Bits) -> (r: bool)
        ensures
            r == self.less_than(other),
    {
        if self.is_nan() || other.is_nan() {
            false
        } else {
            self.key() < other.key()
        }
    }

    /// Same as `self <= other` on `f64`.
    pub fn le(self, other: F64Bits) -> (r: bool)
        ensures
            r == self.at_most(other),
    {
        if self.is_nan() || other.is_nan() {
            false
        } else {
            self.key() <= other.key()
        }
    }

    /// Same as `self == other` on `f64`.
    pub fn value_eq(self, other: F64Bits) -> (r: bool)
        ensures
            r == self.same_value(other),
    {
        if self.is_nan() || other.is_nan() {
            false
        } else {
            self.key() == other.key()
        }
    }

    /// Same as `f64::abs`.
    pub fn abs(self) -> (r: F64Bits)
        ensures
            r == self.abs_spec(),
    {
        F64Bits(self.0 & F64_MAGNITUDE_MASK)
    }
}

/// A binary32 (`f32`) value, held by its bit pattern.
#[derive(Clone, Copy, Debug, PartialEq, Eq)]
pub struct F32Bits(pub u32);

impl F32Bits {
    pub open spec fn exponent_field(self) -> u32 {
        (self.0 >> 23u32) & 0xffu32
    }

    pub open spec fn fraction_field(self) -> u32 {
        self.0 & 0x007f_ffffu32
    }

    pub open spec fn magnitude(self) -> u32 {
        self.0 & F32_MAGNITUDE_MASK
    }

    pub open spec fn sign_set(self) -> bool {
        self.0 >> 31u32 == 1u32
    }

    pub open spec fn finite(self) -> bool {
        self.exponent_field() != 0xffu32
    }

    pub open spec fn nan(self) -> bool {
        self.exponent_field() == 0xffu32 && self.fraction_field() != 0u32
    }

    /// Position of a non-NaN value on the real line (both zeros at 0).
    pub open spec fn order_key(self) -> int {
        if self.sign_set() {
            -(self.magnitude() as int)
        } else {
            self.magnitude() as int
        }
    }

    /// The key by which `f32::total_cmp` orders: `-0.0` just below `+0.0`,
    /// negative NaNs below everything, positive NaNs above everything.
    pub open spec fn total_key(self) -> int {
        if self.sign_set() {
            -1 - (self.magnitude() as int)
        } else {
            self.magnitude() as int
        }
    }

    pub open spec fn less_than(self, other: F32Bits) -> bool {
        !self.nan() && !other.nan() && self.order_key() < other.order_key()
    }

    pub open spec fn at_most(self, other: F32Bits) -> bool {
        !self.nan() && !other.nan() && self.order_key() <= other.order_key()
    }

    /// `+0.0`.
    pub open spec fn zero() -> F32Bits {
        F32Bits(0u32)
    }

    /// Same as `f32::is_finite`.
    pub fn is_finite(self) -> (r: bool)
        ensures
            r == self.finite(),
    {
        (self.0 >> 23u32) & 0xffu32 != 0xffu32
    }

    /// Same as `f32::is_nan`.
    pub fn is_nan(self) -> (r: bool)
        ensures
            r == self.nan(),
    {
        (self.0 >> 23u32) & 0xffu32 == 0xffu32 && self.0 & 0x007f_ffffu32 != 0u32
    }

    fn key(self) -> (k: i64)
        ensures
            k == self.order_key(),
    {
        let m = self.0 & F32_MAGNITUDE_MASK;
        if self.0 >> 31u32 == 1u32 {
            -(m as i64)
        } else {
            m as i64
        }
    }

    /// The key of `f32::total_cmp`, as an integer.
    pub fn total_order_key(self) -> (k: i64)
        ensures
            k == self.total_key(),
    {
        let m = self.0 & F32_MAGNITUDE_MASK;
        if self.0 >> 31u32 == 1u32 {
            -1 - (m as i64)
        } else {
            m as i64
        }
    }

    /// Same as `self < other` on `f32`.
    pub fn lt(self, other: F32Bits) -> (r: bool)
        ensures
            r == self.less_than(other),
    {
        if self.is_nan() || other.is_nan() {
            false
        } else {
            self.key() < other.key()
        }
    }

    /// Same as `self <= other` on `f32`.
    pub fn le(self, other: F32Bits) -> (r: bool)
        ensures
            r == self.at_most(other),
    {
        if self.is_nan() || other.is_nan() {
            false
        } else {
            self.key() <= other.key()
        }
    }
}

/// `<` on `f64` is a strict order on the non-NaN values, NaN compares
/// false with everything, and `<=` is `<` or equal value.
pub proof fn lemma_f64_comparisons_order(a: F64Bits, b: F64Bits, c: F64Bits)
    ensures
        !a.less_than(a),
        a.less_than(b) ==> !b.less_than(a),
        a.less_than(b) && b.less_than(c) ==> a.less_than(c),
        a.nan() ==> !a.less_than(b) && !b.less_than(a) && !a.at_most(b) && !b.at_most(a)
            && !a.same_value(b),
        a.at_most(b) <==> a.less_than(b) || a.same_value(b),
        !a.nan() && !b.nan() ==> a.less_than(b) || a.same_value(b) || b.less_than(a),
{
}

/// `<` on `f32` is a strict order on the non-NaN values, NaN compares false
/// with everything, `<=` is `<` or equal value, and `total_cmp` agrees with
/// `<` on the non-NaN values apart from ordering `-0.0` before `+0.0`.
pub proof fn lemma_f32_comparisons_order(a: F32Bits, b: F32Bits, c: F32Bits)
    ensures
        !a.less_than(a),
        a.less_than(b) ==> !b.less_than(a),
        a.less_than(b) && b.less_than(c) ==> a.less_than(c),
        a.nan() ==> !a.less_than(b) && !b.less_than(a) && !a.at_most(b) && !b.at_most(a),
        a.at_most(b) <==> a.less_than(b) || (!a.nan() && !b.nan() && a.order_key()
            == b.order_key()),
        a.less_than(b) ==> a.total_key() < b.total_key(),
        a.total_key() == b.total_key() <==> a == b,
{
    let (x, y) = (a.0, b.0);
    assert((x >> 31u32 == y >> 31u32) && (x & 0x7fff_ffffu32 == y & 0x7fff_ffffu32) ==> x == y)
        by (bit_vector);
    assert(x >> 31u32 == 1u32 || x >> 31u32 == 0u32) by (bit_vector);
    assert(y >> 31u32 == 1u32 || y >> 31u32 == 0u32) by (bit_vector);
}

/// `+0.0` is a finite number at the origin of the order, in both widths.
pub proof fn lemma_zero_is_origin()
    ensures
        F64Bits::zero().finite(),
        !F64Bits::zero().nan(),
        F64Bits::zero().order_key() == 0,
        F32Bits::zero().finite(),
        !F32Bits::zero().nan(),
        F32Bits::zero().order_key() == 0,
{
    assert((0u64 >> 52u64) & 0x7ffu64 == 0u64) by (bit_vector);
    assert(0u64 >> 63u64 == 0u64) by (bit_vector);
    assert(0u64 & 0x7fff_ffff_ffff_ffffu64 == 0u64) by (bit_vector);
    assert((0u32 >> 23u32) & 0xffu32 == 0u32) by (bit_vector);
    assert(0u32 >> 31u32 == 0u32) by (bit_vector);
    assert(0u32 & 0x7fff_ffffu32 == 0u32) by (bit_vector);
}

} // verus!
