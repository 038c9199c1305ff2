//! Alignment-stable 128-bit wrappers and small integer helpers.
//!
//! `U128` and `I128` carry one native 128-bit value. Their arithmetic
//! helpers saturate instead of wrapping, so no helper here can panic.
use vstd::prelude::*;

verus! {

/// Unsigned 128-bit quantity stored in an alignment-stable wrapper.
#[derive(Clone, Copy, Debug, PartialEq, Eq, Structural)]
pub struct U128(pub u128);

/// Signed 128-bit quantity stored in an alignment-stable wrapper.
#[derive(Clone, Copy, Debug, PartialEq, Eq, Structural)]
pub struct I128(pub i128);

pub open spec fn u128_sat(v: int) -> u128 {
    if v > u128::MAX {
        u128::MAX
    } else if v < 0 {
        0
    } else {
        v as u128
    }
}

pub open spec fn i128_sat(v: int) -> i128 {
    if v > i128::MAX {
        i128::MAX
    } else if v < i128::MIN {
        i128::MIN
    } else {
        v as i128
    }
}

impl U128 {
    pub fn new(v: u128) -> (r: U128)
        ensures
            r.0 == v,
    {
        U128(v)
    }

    pub fn get(&self) -> (r: u128)
        ensures
            r == self.0,
    {
        self.0
    }

    pub fn is_zero(&self) -> (r: bool)
        ensures
            r == (self.0 == 0),
    {
        self.0 == 0
    }

    /// Saturating addition of a plain `u128`.
    pub fn saturating_add(self, v: u128) -> (r: U128)
        ensures
            r.0 == u128_sat(self.0 + v),
    {
        U128(sat_add_u128(self.0, v))
    }

    /// Saturating subtraction of a plain `u128` (floors at zero).
    pub fn saturating_sub(self, v: u128) -> (r: U128)
        ensures
            r.0 == u128_sat(self.0 - v),
    {
        U128(sat_sub_u128(self.0, v))
    }

    /// Saturating addition of another wrapper.
    pub fn saturating_add_u128(self, v: U128) -> (r: U128)
        ensures
            r.0 == u128_sat(self.0 + v.0),
    {
        U128(sat_add_u128(self.0, v.0))
    }

    /// The larger of two wrapped values.
    pub fn max(self, other: U128) -> (r: U128)
        ensures
            r.0 == (if self.0 >= other.0 { self.0 } else { other.0 }),
    {
        if self.0 >= other.0 {
            self
        } else {
            other
        }
    }
}

impl I128 {
    pub fn new(v: i128) -> (r: I128)
        ensures
            r.0 == v,
    {
        I128(v)
    }

    pub fn get(&self) -> (r: i128)
        ensures
            r == self.0,
    {
        self.0
    }

    pub fn is_negative(&self) -> (r: bool)
        ensures
            r == (self.0 < 0),
    {
        self.0 < 0
    }

    /// Saturating addition of a plain `i128`.
    pub fn saturating_add(self, v: i128) -> (r: I128)
        ensures
            r.0 == i128_sat(self.0 + v),
    {
        I128(sat_add_i128(self.0, v))
    }

    /// Saturating subtraction of a plain `i128`.
    pub fn saturating_sub(self, v: i128) -> (r: I128)
        ensures
            r.0 == i128_sat(self.0 - v),
    {
        I128(sat_sub_i128(self.0, v))
    }
}

pub fn sat_add_u128(a: u128, b: u128) -> (r: u128)
    ensures
        r == u128_sat(a + b),
{
    if a > u128::MAX - b {
        u128::MAX
    } else {
        a + b
    }
}

pub fn sat_sub_u128(a: u128, b: u128) -> (r: u128)
    ensures
        r == u128_sat(a - b),
{
    if a < b {
        0
    } else {
        a - b
    }
}

pub fn sat_add_u64(a: u64, b: u64) -> (r: u64)
    ensures
        r == (if a + b > u64::MAX { u64::MAX as int } else { a + b }),
{
    if a > u64::MAX - b {
        u64::MAX
    } else {
        a + b
    }
}

pub fn sat_sub_u64(a: u64, b: u64) -> (r: u64)
    ensures
        r == (if a < b { 0 } else { a - b }),
{
    if a < b {
        0
    } else {
        a - b
    }
}

pub fn sat_mul_u128(a: u128, b: u128) -> (r: u128)
    ensures
        r == u128_sat(a * b),
{
    match a.checked_mul(b) {
        Some(v) => v,
        None => u128::MAX,
    }
}

pub fn sat_add_i128(a: i128, b: i128) -> (r: i128)
    ensures
        r == i128_sat(a + b),
{
    match a.checked_add(b) {
        Some(v) => v,
        None => {
            if b > 0 {
                i128::MAX
            } else {
                i128::MIN
            }
        },
    }
}

pub fn sat_sub_i128(a: i128, b: i128) -> (r: i128)
    ensures
        r == i128_sat(a - b),
{
    match a.checked_sub(b) {
        Some(v) => v,
        None => {
            if b < 0 {
                i128::MAX
            } else {
                i128::MIN
            }
        },
    }
}

pub fn sat_mul_i128(a: i128, b: i128) -> (r: i128)
    ensures
        r == i128_sat(a * b),
{
    match a.checked_mul(b) {
        Some(v) => v,
        None => {
            proof {
                assert(a * b > i128::MAX || a * b < i128::MIN);
                if (a > 0 && b > 0) || (a < 0 && b < 0) {
                    assert(a * b > 0) by (nonlinear_arith)
                        requires
                            (a > 0 && b > 0) || (a < 0 && b < 0),
                    ;
                } else {
                    assert(a * b <= 0) by (nonlinear_arith)
                        requires
                            !((a > 0 && b > 0) || (a < 0 && b < 0)),
                    ;
                }
            }
            if (a > 0) == (b > 0) {
                i128::MAX
            } else {
                i128::MIN
            }
        },
    }
}

/// |v| as an unsigned value; exact for every `i128`, including `i128::MIN`.
pub fn abs_i128(v: i128) -> (r: u128)
    ensures
        r == (if v < 0 { -v } else { v as int }),
{
    if v >= 0 {
        v as u128
    } else if v == i128::MIN {
        (i128::MAX as u128) + 1
    } else {
        (-v) as u128
    }
}

/// |v| clamped so that the result stays an `i128` (`i128::MIN` maps to `i128::MAX`).
pub fn saturating_abs_i128(v: i128) -> (r: i128)
    ensures
        r == (if v == i128::MIN { i128::MAX as int } else if v < 0 { -v } else { v as int }),
{
    if v == i128::MIN {
        i128::MAX
    } else if v < 0 {
        -v
    } else {
        v
    }
}

/// max(v, 0) as an unsigned value.
pub fn i128_clamp_pos(v: i128) -> (r: u128)
    ensures
        r == (if v > 0 { v as int } else { 0 }),
{
    if v > 0 {
        v as u128
    } else {
        0
    }
}

/// Alias of `i128_clamp_pos`.
pub fn clamp_pos_i128(val: i128) -> (r: u128)
    ensures
        r == (if val > 0 { val as int } else { 0 }),
{
    i128_clamp_pos(val)
}

/// The magnitude of a negative value, zero otherwise.
pub fn clamp_neg_i128(val: i128) -> (r: u128)
    ensures
        r == (if val < 0 { -val } else { 0 }),
{
    if val < 0 {
        neg_i128_to_u128(val)
    } else {
        0
    }
}

/// -val as an unsigned value, exact for `i128::MIN`.
pub fn neg_i128_to_u128(val: i128) -> (r: u128)
    requires
        val < 0,
    ensures
        r == -val,
{
    if val == i128::MIN {
        (i128::MAX as u128) + 1
    } else {
        (-val) as u128
    }
}

/// x as an `i128`, clamped to `i128::MAX`.
pub fn u128_to_i128_clamped(x: u128) -> (r: i128)
    ensures
        r == (if x > i128::MAX { i128::MAX as int } else { x as int }),
{
    if x > i128::MAX as u128 {
        i128::MAX
    } else {
        x as i128
    }
}

pub fn min_u128(a: u128, b: u128) -> (r: u128)
    ensures
        r == (if a <= b { a } else { b }),
{
    if a <= b {
        a
    } else {
        b
    }
}

pub fn max_u128(a: u128, b: u128) -> (r: u128)
    ensures
        r == (if a >= b { a } else { b }),
{
    if a >= b {
        a
    } else {
        b
    }
}

pub fn min_u64(a: u64, b: u64) -> (r: u64)
    ensures
        r == (if a <= b { a } else { b }),
{
    if a <= b {
        a
    } else {
        b
    }
}

pub fn min_i128(a: i128, b: i128) -> (r: i128)
    ensures
        r == (if a <= b { a } else { b }),
{
    if a <= b {
        a
    } else {
        b
    }
}

} // verus!
