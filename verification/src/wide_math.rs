//! Exact multiply-then-divide on 128-bit operands whose product may need
//! 256 bits, plus a small signed 256-bit value type used for margin buffers.
use vstd::prelude::*;
use vstd::arithmetic::div_mod::{
    lemma_div_is_ordered, lemma_div_multiples_vanish, lemma_fundamental_div_mod,
    lemma_fundamental_div_mod_converse, lemma_mod_pos_bound,
};

verus! {

pub open spec fn two_pow_128() -> int {
    u128::MAX as int + 1
}

/// floor(a * b / d) for a positive divisor.
pub open spec fn floor_div(a: int, b: int, d: int) -> int {
    (a * b) / d
}

/// ceil(a * b / d) for a positive divisor and non-negative operands.
pub open spec fn ceil_div(a: int, b: int, d: int) -> int {
    (a * b + d - 1) / d
}

proof fn lemma_shr_step(y: u128, s: u128)
    by (bit_vector)
    requires
        s < 127,
    ensures
        y >> s == 2 * (y >> (s + 1)) + ((y >> s) & 1),
        (y >> s) & 1 <= 1,
{
}

proof fn lemma_shr_top(y: u128)
    by (bit_vector)
    ensures
        y >> 127u128 == (y >> 127u128) & 1,
        (y >> 127u128) & 1 <= 1,
{
}

proof fn lemma_shr_le(y: u128, s: u128)
    by (bit_vector)
    ensures
        y >> s <= y,
{
}

proof fn lemma_shr_zero(y: u128)
    by (bit_vector)
    ensures
        y >> 0u128 == y,
{
}

/// a / d >= c whenever a >= c * d.
proof fn lemma_div_lower(a: int, c: int, d: int)
    requires
        d > 0,
        c >= 0,
        a >= c * d,
    ensures
        a / d >= c,
{
    lemma_div_multiples_vanish(c, d);
    assert(d * c == c * d) by (nonlinear_arith);
    lemma_div_is_ordered(c * d, a, d);
}

/// The quotient x * p / d grows with p.
proof fn lemma_quot_mono(x: int, p: int, y: int, d: int)
    requires
        d > 0,
        x >= 0,
        0 <= p <= y,
    ensures
        (x * p) / d <= (x * y) / d,
{
    assert(x * p <= x * y) by (nonlinear_arith)
        requires
            x >= 0,
            p <= y,
    ;
    lemma_div_is_ordered(x * p, x * y, d);
}

/// floor(x * y / d) together with the remainder, or `None` exactly when the
/// quotient does not fit in a `u128`. The product is never formed in 128 bits.
pub fn mul_div_rem_checked(x: u128, y: u128, d: u128) -> (res: Option<(u128, u128)>)
    requires
        d > 0,
    ensures
        match res {
            Some((q, r)) => q == (x * y) / (d as int) && r == (x * y) % (d as int),
            None => (x * y) / (d as int) > u128::MAX,
        },
{
    let xq: u128 = x / d;
    let xr: u128 = x % d;
    proof {
        lemma_fundamental_div_mod(x as int, d as int);
        lemma_mod_pos_bound(x as int, d as int);
        assert(x == xq * d + xr) by (nonlinear_arith)
            requires
                x == d * xq + xr,
        ;
    }
    let mut q: u128 = 0;
    let mut r: u128 = 0;
    let mut k: u128 = 0;
    let ghost mut p: int = 0;
    while k < 128
        invariant
            k <= 128,
            d > 0,
            x == xq * d + xr,
            xr < d,
            r < d,
            q * d + r == x * p,
            k == 0 ==> p == 0,
            0 < k ==> p == (y >> ((128 - k) as u128)),
            0 <= p <= y,
        decreases 128 - k,
    {
        let s: u128 = 127 - k;
        let bit: u128 = (y >> s) & 1;
        let ghost p_new: int = (y >> s) as int;
        proof {
            lemma_shr_le(y, s);
            if s < 127 {
                lemma_shr_step(y, s);
                assert((s + 1) as u128 == (128 - k) as u128);
            } else {
                lemma_shr_top(y);
            }
            assert(p_new == 2 * p + bit);
        }
        // Doubling: x * 2p = 2qd + 2r.
        let q2: u128;
        let r2: u128;
        let ghost c1: int;
        if r >= d - r {
            if q > (u128::MAX - 1) / 2 {
                proof {
                    assert(x * p_new >= (2 * q + 1) * d) by (nonlinear_arith)
                        requires
                            q * d + r == x * p,
                            p_new >= 2 * p,
                            x >= 0,
                            2 * r >= d,
                    ;
                    lemma_div_lower(x * p_new, 2 * q + 1, d as int);
                    lemma_quot_mono(x as int, p_new, y as int, d as int);
                }
                return None;
            }
            q2 = 2 * q + 1;
            r2 = r - (d - r);
            proof {
                c1 = 1;
            }
        } else {
            if q > u128::MAX / 2 {
                proof {
                    assert(x * p_new >= (2 * q) * d) by (nonlinear_arith)
                        requires
                            q * d + r == x * p,
                            p_new >= 2 * p,
                            x >= 0,
                            r >= 0,
                    ;
                    lemma_div_lower(x * p_new, 2 * q, d as int);
                    lemma_quot_mono(x as int, p_new, y as int, d as int);
                }
                return None;
            }
            q2 = 2 * q;
            r2 = r + r;
            proof {
                c1 = 0;
            }
        }
        assert(q2 * d + r2 == x * (2 * p)) by (nonlinear_arith)
            requires
                q * d + r == x * p,
                q2 == 2 * q + c1,
                r2 == 2 * r - c1 * d,
        ;
        if bit == 1 {
            // Adding x = xq * d + xr.
            let c: u128;
            let r3: u128;
            if r2 >= d - xr {
                c = 1;
                r3 = r2 - (d - xr);
            } else {
                c = 0;
                r3 = r2 + xr;
            }
            if q2 > u128::MAX - c || q2 + c > u128::MAX - xq {
                proof {
                    assert(x * p_new == (q2 + xq + c) * d + r3) by (nonlinear_arith)
                        requires
                            q2 * d + r2 == x * (2 * p),
                            x == xq * d + xr,
                            p_new == 2 * p + 1,
                            r3 == r2 + xr - c * d,
                    ;
                    lemma_div_lower(x * p_new, q2 + xq + c, d as int);
                    lemma_quot_mono(x as int, p_new, y as int, d as int);
                }
                return None;
            }
            proof {
                assert(x * p_new == (q2 + c + xq) * d + r3) by (nonlinear_arith)
                    requires
                        q2 * d + r2 == x * (2 * p),
                        x == xq * d + xr,
                        p_new == 2 * p + 1,
                        r3 == r2 + xr - c * d,
                ;
            }
            q = q2 + c + xq;
            r = r3;
        } else {
            q = q2;
            r = r2;
        }
        proof {
            p = p_new;
        }
        k = k + 1;
    }
    proof {
        lemma_shr_zero(y);
        lemma_fundamental_div_mod_converse(x * y, d as int, q as int, r as int);
    }
    Some((q, r))
}

/// (x * y) % d without any bound on the quotient.
pub fn mul_mod(x: u128, y: u128, d: u128) -> (r: u128)
    requires
        d > 0,
    ensures
        r == (x * y) % (d as int),
{
    // Reduce both factors first: the quotient of the reduced product is < d.
    let xr = x % d;
    let yr = y % d;
    proof {
        lemma_mod_pos_bound(x as int, d as int);
        lemma_mod_pos_bound(y as int, d as int);
        assert(xr * yr < d * d) by (nonlinear_arith)
            requires
                0 <= xr < d,
                0 <= yr < d,
        ;
        lemma_div_is_ordered(xr * yr, d * d - 1, d as int);
        assert((d * d - 1) / (d as int) < d) by {
            lemma_div_multiples_vanish(d as int, d as int);
            lemma_div_is_ordered(d * d - 1, d * d, d as int);
            assert((d * d - 1) / (d as int) != d) by {
                lemma_fundamental_div_mod(d * d - 1, d as int);
                lemma_mod_pos_bound(d * d - 1, d as int);
                if (d * d - 1) / (d as int) == d {
                    assert(d * ((d * d - 1) / (d as int)) == d * d) by (nonlinear_arith)
                        requires
                            (d * d - 1) / (d as int) == d,
                    ;
                }
            }
        }
    }
    match mul_div_rem_checked(xr, yr, d) {
        Some((_q, rem)) => {
            proof {
                lemma_mul_mod_reduce(x as int, y as int, d as int);
            }
            rem
        },
        None => {
            proof {
                assert(false);
            }
            0
        },
    }
}

proof fn lemma_mul_mod_reduce(x: int, y: int, d: int)
    requires
        d > 0,
        x >= 0,
        y >= 0,
    ensures
        ((x % d) * (y % d)) % d == (x * y) % d,
{
    vstd::arithmetic::div_mod::lemma_mul_mod_noop_general(x, y, d);
}

/// floor(a * b / d), saturating at `u128::MAX` when the quotient does not fit.
pub fn mul_div_floor_u128(a: u128, b: u128, d: u128) -> (r: u128)
    requires
        d > 0,
    ensures
        r == (if floor_div(a as int, b as int, d as int) > u128::MAX {
            u128::MAX as int
        } else {
            floor_div(a as int, b as int, d as int)
        }),
{
    match mul_div_rem_checked(a, b, d) {
        Some((q, _r)) => q,
        None => u128::MAX,
    }
}

/// Same quotient as `mul_div_floor_u128`; the name marks callers whose
/// product is expected to need more than 128 bits.
pub fn wide_mul_div_floor_u128(a: u128, b: u128, d: u128) -> (r: u128)
    requires
        d > 0,
    ensures
        r == (if floor_div(a as int, b as int, d as int) > u128::MAX {
            u128::MAX as int
        } else {
            floor_div(a as int, b as int, d as int)
        }),
{
    mul_div_floor_u128(a, b, d)
}

/// ceil(a * b / d), saturating at `u128::MAX` when the quotient does not fit.
pub fn mul_div_ceil_u128(a: u128, b: u128, d: u128) -> (r: u128)
    requires
        d > 0,
    ensures
        r == (if ceil_div(a as int, b as int, d as int) > u128::MAX {
            u128::MAX as int
        } else {
            ceil_div(a as int, b as int, d as int)
        }),
{
    match mul_div_rem_checked(a, b, d) {
        Some((q, rem)) => {
            proof {
                lemma_ceil_from_floor(a * b, d as int, q as int, rem as int);
            }
            if rem == 0 {
                q
            } else if q == u128::MAX {
                u128::MAX
            } else {
                q + 1
            }
        },
        None => {
            proof {
                lemma_fundamental_div_mod(a * b, d as int);
                lemma_mod_pos_bound(a * b, d as int);
                lemma_div_is_ordered(a * b, a * b + d - 1, d as int);
            }
            u128::MAX
        },
    }
}

proof fn lemma_ceil_from_floor(n: int, d: int, q: int, r: int)
    requires
        d > 0,
        n >= 0,
        q == n / d,
        r == n % d,
    ensures
        r == 0 ==> (n + d - 1) / d == q,
        r != 0 ==> (n + d - 1) / d == q + 1,
{
    lemma_fundamental_div_mod(n, d);
    lemma_mod_pos_bound(n, d);
    assert(n == q * d + r) by (nonlinear_arith)
        requires
            n == d * q + r,
    ;
    assert((q + 1) * d == q * d + d) by (nonlinear_arith);
    if r == 0 {
        lemma_fundamental_div_mod_converse(n + d - 1, d, q, d - 1);
    } else {
        lemma_fundamental_div_mod_converse(n + d - 1, d, q + 1, r - 1);
    }
}


/// |a - b| for two signed 128-bit values; always fits in a `u128`.
pub fn abs_diff_i128(a: i128, b: i128) -> (r: u128)
    ensures
        r == (if a >= b { a - b } else { b - a }),
{
    if a >= b {
        if b >= 0 || a < 0 {
            (a - b) as u128
        } else {
            // a >= 0 > b
            (a as u128) + crate::num::neg_i128_to_u128(b)
        }
    } else {
        if a >= 0 || b < 0 {
            (b - a) as u128
        } else {
            (b as u128) + crate::num::neg_i128_to_u128(a)
        }
    }
}

/// floor(n / d) for a positive divisor (rounds toward negative infinity).
pub fn floor_div_signed_conservative_i128(n: i128, d: u128) -> (r: i128)
    requires
        d > 0,
    ensures
        r == (n as int) / (d as int),
{
    if n >= 0 {
        let q = (n as u128) / d;
        proof {
            lemma_div_is_ordered(0, n as int, d as int);
            lemma_div_le_self(n as int, d as int);
        }
        q as i128
    } else {
        let m = crate::num::neg_i128_to_u128(n);
        let q = m / d;
        let rem = m % d;
        proof {
            lemma_div_le_self(m as int, d as int);
            lemma_fundamental_div_mod(m as int, d as int);
            lemma_mod_pos_bound(m as int, d as int);
            assert(m == q * d + rem) by (nonlinear_arith)
                requires
                    m == d * q + rem,
            ;
        }
        if rem == 0 {
            proof {
                assert(n == (-(q as int)) * d) by (nonlinear_arith)
                    requires
                        n == -(m as int),
                        m == q * d,
                ;
                lemma_fundamental_div_mod_converse(n as int, d as int, -(q as int), 0);
            }
            if q > i128::MAX as u128 {
                i128::MIN
            } else {
                -(q as i128)
            }
        } else {
            proof {
                assert(q < m) by {
                    if q == m {
                        assert(q * d + rem > m) by (nonlinear_arith)
                            requires
                                q == m,
                                d >= 1,
                                rem > 0,
                        ;
                    }
                }
                assert(n == (-(q as int) - 1) * d + (d - rem)) by (nonlinear_arith)
                    requires
                        n == -(m as int),
                        m == q * d + rem,
                ;
                lemma_fundamental_div_mod_converse(n as int, d as int, -(q as int) - 1, d - rem);
            }
            -(q as i128) - 1
        }
    }
}

proof fn lemma_div_le_self(n: int, d: int)
    requires
        n >= 0,
        d >= 1,
    ensures
        0 <= n / d <= n,
{
    lemma_div_is_ordered(0, n, d);
    vstd::arithmetic::div_mod::lemma_div_is_ordered_by_denominator(n, 1, d);
}

/// floor(abs_basis * (k_now - k_then) / den), or `None` when the quotient
/// is not an `i128` strictly greater than `i128::MIN`.
pub fn wide_signed_mul_div_floor_from_k_pair(
    abs_basis: u128,
    k_then: i128,
    k_now: i128,
    den: u128,
) -> (r: Option<i128>)
    requires
        den > 0,
    ensures
        match r {
            Some(v) => v == (abs_basis * (k_now - k_then)) / (den as int) && v != i128::MIN,
            None => ((abs_basis * (k_now - k_then)) / (den as int) > i128::MAX
                || (abs_basis * (k_now - k_then)) / (den as int) <= i128::MIN),
        },
{
    let mag = abs_diff_i128(k_now, k_then);
    match mul_div_rem_checked(abs_basis, mag, den) {
        None => {
            proof {
                if k_now >= k_then {
                    assert(abs_basis * (k_now - k_then) == abs_basis * mag);
                } else {
                    lemma_neg_floor(abs_basis * mag, den as int);
                    assert(abs_basis * (k_now - k_then) == -(abs_basis * mag)) by (nonlinear_arith)
                        requires
                            mag == k_then - k_now,
                    ;
                }
            }
            None
        },
        Some((q, rem)) => {
            if k_now >= k_then {
                proof {
                    assert(abs_basis * (k_now - k_then) == abs_basis * mag);
                }
                if q > i128::MAX as u128 {
                    None
                } else {
                    Some(q as i128)
                }
            } else {
                proof {
                    assert(abs_basis * (k_now - k_then) == -(abs_basis * mag)) by (nonlinear_arith)
                        requires
                            mag == k_then - k_now,
                    ;
                    lemma_fundamental_div_mod(abs_basis * mag, den as int);
                    lemma_mod_pos_bound(abs_basis * mag, den as int);
                    lemma_neg_floor_exact(abs_basis * mag, den as int, q as int, rem as int);
                }
                if rem == 0 {
                    if q > i128::MAX as u128 {
                        None
                    } else {
                        Some(-(q as i128))
                    }
                } else {
                    if q >= i128::MAX as u128 {
                        None
                    } else {
                        Some(-(q as i128) - 1)
                    }
                }
            }
        },
    }
}

/// For n >= 0: (-n) / d == -(n / d) when d divides n, and -(n / d) - 1 otherwise.
proof fn lemma_neg_floor_exact(n: int, d: int, q: int, r: int)
    requires
        d > 0,
        n >= 0,
        n == d * q + r,
        0 <= r < d,
    ensures
        r == 0 ==> (-n) / d == -q,
        r != 0 ==> (-n) / d == -q - 1,
{
    if r == 0 {
        assert(-n == (-q) * d + 0) by (nonlinear_arith)
            requires
                n == d * q + r,
                r == 0,
        ;
        lemma_fundamental_div_mod_converse(-n, d, -q, 0);
    } else {
        assert(-n == (-q - 1) * d + (d - r)) by (nonlinear_arith)
            requires
                n == d * q + r,
        ;
        lemma_fundamental_div_mod_converse(-n, d, -q - 1, d - r);
    }
}

/// A quotient that does not fit in a `u128` stays out of the `i128` range after negation.
proof fn lemma_neg_floor(n: int, d: int)
    requires
        d > 0,
        n >= 0,
        n / d > u128::MAX,
    ensures
        (-n) / d <= i128::MIN,
{
    lemma_fundamental_div_mod(n, d);
    lemma_mod_pos_bound(n, d);
    lemma_neg_floor_exact(n, d, n / d, n % d);
}

/// ceil(a * b / d) when it is at most `i128::MAX`, `Err(())` otherwise.
pub fn wide_mul_div_ceil_u128_or_over_i128max(a: u128, b: u128, d: u128) -> (r: Result<u128, ()>)
    requires
        d > 0,
    ensures
        match r {
            Ok(v) => v == ceil_div(a as int, b as int, d as int) && v <= i128::MAX,
            Err(_) => ceil_div(a as int, b as int, d as int) > i128::MAX,
        },
{
    let c = mul_div_ceil_u128(a, b, d);
    if c > i128::MAX as u128 {
        Err(())
    } else {
        Ok(c)
    }
}

/// ceil((x + y) / a) for a positive divisor, saturating at `u128::MAX`.
pub fn ceil_div_sum_saturating(x: u128, y: u128, a: u128) -> (r: u128)
    requires
        a > 0,
    ensures
        r == (if (x + y + a - 1) / (a as int) > u128::MAX {
            u128::MAX as int
        } else {
            (x + y + a - 1) / (a as int)
        }),
{
    let qx = x / a;
    let rx = x % a;
    let qy = y / a;
    let ry = y % a;
    proof {
        lemma_fundamental_div_mod(x as int, a as int);
        lemma_mod_pos_bound(x as int, a as int);
        lemma_fundamental_div_mod(y as int, a as int);
        lemma_mod_pos_bound(y as int, a as int);
    }
    let carry: u128;
    let rem: u128;
    if rx >= a - ry {
        carry = 1;
        rem = rx - (a - ry);
    } else {
        carry = 0;
        rem = rx + ry;
    }
    let up: u128 = if rem == 0 { 0 } else { 1 };
    let ghost total: int = qx + qy + carry + up;
    proof {
        assert(x + y == (qx + qy + carry) * a + rem) by (nonlinear_arith)
            requires
                x == a * qx + rx,
                y == a * qy + ry,
                rem == rx + ry - carry * a,
        ;
        lemma_ceil_from_floor_sum(x + y, a as int, qx + qy + carry, rem as int);
    }
    let s1 = crate::num::sat_add_u128(qx, qy);
    let s2 = crate::num::sat_add_u128(s1, carry);
    crate::num::sat_add_u128(s2, up)
}

proof fn lemma_ceil_from_floor_sum(n: int, d: int, q: int, r: int)
    requires
        d > 0,
        n == q * d + r,
        0 <= r < d,
    ensures
        r == 0 ==> (n + d - 1) / d == q,
        r != 0 ==> (n + d - 1) / d == q + 1,
{
    assert((q + 1) * d == q * d + d) by (nonlinear_arith);
    if r == 0 {
        lemma_fundamental_div_mod_converse(n + d - 1, d, q, d - 1);
    } else {
        lemma_fundamental_div_mod_converse(n + d - 1, d, q + 1, r - 1);
    }
}

/// (q, r) with q = floor(a * b / d) and r = (a * b) % d; the caller
/// guarantees the quotient fits.
pub fn mul_div_floor_with_rem(a: u128, b: u128, d: u128) -> (res: (u128, u128))
    requires
        d > 0,
        (a * b) / (d as int) <= u128::MAX,
    ensures
        res.0 == (a * b) / (d as int),
        res.1 == (a * b) % (d as int),
{
    match mul_div_rem_checked(a, b, d) {
        Some((q, r)) => (q, r),
        None => {
            proof {
                assert(false);
            }
            (0, 0)
        },
    }
}


/// Signed 256-bit value `hi * 2^128 + lo`, used for exact equity buffers.
#[derive(Clone, Copy, Debug, PartialEq, Eq, Structural)]
pub struct I256 {
    pub hi: i128,
    pub lo: u128,
}

impl I256 {
    pub open spec fn value(self) -> int {
        self.hi * two_pow_128() + self.lo
    }

    pub fn zero() -> (r: I256)
        ensures
            r.value() == 0,
    {
        I256 { hi: 0, lo: 0 }
    }

    pub fn from_u128(v: u128) -> (r: I256)
        ensures
            r.value() == v,
    {
        I256 { hi: 0, lo: v }
    }

    pub fn from_i128(v: i128) -> (r: I256)
        ensures
            r.value() == v,
    {
        if v >= 0 {
            I256 { hi: 0, lo: v as u128 }
        } else {
            let m = (-(v + 1)) as u128;
            let r = I256 { hi: -1, lo: u128::MAX - m };
            assert(r.value() == v) by {
                assert(two_pow_128() == u128::MAX + 1);
            }
            r
        }
    }

    pub fn is_negative(&self) -> (r: bool)
        ensures
            r == (self.value() < 0),
    {
        proof {
            lemma_i256_sign(*self);
        }
        self.hi < 0
    }

    /// Exact sum, or `None` when it leaves the 256-bit signed range.
    pub fn checked_add(self, other: I256) -> (r: Option<I256>)
        ensures
            match r {
                Some(v) => v.value() == self.value() + other.value(),
                None => !i256_in_range(self.value() + other.value()),
            },
    {
        let lo: u128;
        let carry: i128;
        if self.lo > u128::MAX - other.lo {
            lo = self.lo - (u128::MAX - other.lo) - 1;
            carry = 1;
        } else {
            lo = self.lo + other.lo;
            carry = 0;
        }
        let ghost total: int = self.value() + other.value();
        proof {
            assert(total == (self.hi + other.hi + carry) * two_pow_128() + lo) by (nonlinear_arith)
                requires
                    total == self.hi * two_pow_128() + self.lo + other.hi * two_pow_128() + other.lo,
                    lo == self.lo + other.lo - carry * two_pow_128(),
            ;
        }
        let h: Option<i128> = if carry == 1 && self.hi == i128::MAX {
            if other.hi < 0 {
                Some(self.hi + other.hi + 1)
            } else {
                None
            }
        } else {
            (self.hi + carry).checked_add(other.hi)
        };
        match h {
            None => {
                proof {
                    lemma_i256_range_hi(self.hi + other.hi + carry, lo as int, total);
                }
                None
            },
            Some(h2) => Some(I256 { hi: h2, lo }),
        }
    }

    /// Exact difference, or `None` when it leaves the 256-bit signed range.
    pub fn checked_sub(self, other: I256) -> (r: Option<I256>)
        ensures
            match r {
                Some(v) => v.value() == self.value() - other.value(),
                None => !i256_in_range(self.value() - other.value()),
            },
    {
        let lo: u128;
        let borrow: i128;
        if self.lo < other.lo {
            lo = u128::MAX - (other.lo - self.lo) + 1;
            borrow = 1;
        } else {
            lo = self.lo - other.lo;
            borrow = 0;
        }
        let ghost total: int = self.value() - other.value();
        proof {
            assert(total == (self.hi - other.hi - borrow) * two_pow_128() + lo) by (nonlinear_arith)
                requires
                    total == self.hi * two_pow_128() + self.lo - other.hi * two_pow_128() - other.lo,
                    lo == self.lo - other.lo + borrow * two_pow_128(),
            ;
        }
        let h: Option<i128> = if borrow == 1 && self.hi == i128::MIN {
            if other.hi < 0 {
                Some(self.hi - other.hi - 1)
            } else {
                None
            }
        } else {
            (self.hi - borrow).checked_sub(other.hi)
        };
        match h {
            None => {
                proof {
                    lemma_i256_range_hi(self.hi - other.hi - borrow, lo as int, total);
                }
                None
            },
            Some(h2) => Some(I256 { hi: h2, lo }),
        }
    }

    /// self < other by value.
    pub fn is_lt(&self, other: &I256) -> (r: bool)
        ensures
            r == (self.value() < other.value()),
    {
        proof {
            lemma_i256_order(*self, *other);
        }
        self.hi < other.hi || (self.hi == other.hi && self.lo < other.lo)
    }

    /// self <= other by value.
    pub fn is_le(&self, other: &I256) -> (r: bool)
        ensures
            r == (self.value() <= other.value()),
    {
        proof {
            lemma_i256_order(*self, *other);
        }
        self.hi < other.hi || (self.hi == other.hi && self.lo <= other.lo)
    }

    /// The value as an `i128`, or `None` when it does not fit.
    pub fn try_into_i128(&self) -> (r: Option<i128>)
        ensures
            match r {
                Some(v) => v == self.value(),
                None => self.value() > i128::MAX || self.value() < i128::MIN,
            },
    {
        proof {
            lemma_i256_sign(*self);
        }
        if self.hi == 0 {
            if self.lo <= i128::MAX as u128 {
                Some(self.lo as i128)
            } else {
                None
            }
        } else if self.hi == -1 {
            if self.lo > i128::MAX as u128 {
                let m = u128::MAX - self.lo;
                Some(-(m as i128) - 1)
            } else {
                None
            }
        } else {
            proof {
                if self.hi > 0 {
                    assert(self.value() >= two_pow_128()) by (nonlinear_arith)
                        requires
                            self.hi >= 1,
                            self.lo >= 0,
                            self.value() == self.hi * two_pow_128() + self.lo,
                            two_pow_128() > 0,
                    ;
                } else {
                    assert(self.value() <= -two_pow_128()) by (nonlinear_arith)
                        requires
                            self.hi <= -2,
                            self.lo < two_pow_128(),
                            self.value() == self.hi * two_pow_128() + self.lo,
                            two_pow_128() > 0,
                    ;
                }
            }
            None
        }
    }
}

pub open spec fn i256_in_range(v: int) -> bool {
    i128::MIN * two_pow_128() <= v < (i128::MAX + 1) * two_pow_128()
}

proof fn lemma_i256_range_hi(h: int, lo: int, v: int)
    requires
        0 <= lo < two_pow_128(),
        v == h * two_pow_128() + lo,
        h > i128::MAX || h < i128::MIN,
    ensures
        !i256_in_range(v),
{
    if h > i128::MAX {
        assert(v >= (i128::MAX + 1) * two_pow_128()) by (nonlinear_arith)
            requires
                h >= i128::MAX + 1,
                lo >= 0,
                v == h * two_pow_128() + lo,
                two_pow_128() > 0,
        ;
    } else {
        assert(v < i128::MIN * two_pow_128()) by (nonlinear_arith)
            requires
                h <= i128::MIN - 1,
                lo < two_pow_128(),
                v == h * two_pow_128() + lo,
                two_pow_128() > 0,
        ;
    }
}

proof fn lemma_i256_sign(a: I256)
    ensures
        (a.value() < 0) == (a.hi < 0),
        a.hi == 0 ==> a.value() == a.lo,
        a.hi == -1 ==> a.value() == a.lo - two_pow_128(),
{
    let t = two_pow_128();
    if a.hi < 0 {
        assert(a.value() < 0) by (nonlinear_arith)
            requires
                a.hi <= -1,
                a.lo < t,
                a.value() == a.hi * t + a.lo,
                t > 0,
        ;
    } else {
        assert(a.value() >= 0) by (nonlinear_arith)
            requires
                a.hi >= 0,
                a.lo >= 0,
                a.value() == a.hi * t + a.lo,
                t > 0,
        ;
    }
}

proof fn lemma_i256_order(a: I256, b: I256)
    ensures
        a.hi < b.hi ==> a.value() < b.value(),
        a.hi > b.hi ==> a.value() > b.value(),
        a.hi == b.hi ==> (a.value() - b.value() == a.lo - b.lo),
{
    let t = two_pow_128();
    if a.hi < b.hi {
        assert(a.value() < b.value()) by (nonlinear_arith)
            requires
                a.hi + 1 <= b.hi,
                a.lo < t,
                b.lo >= 0,
                a.value() == a.hi * t + a.lo,
                b.value() == b.hi * t + b.lo,
                t > 0,
        ;
    }
    if a.hi > b.hi {
        assert(a.value() > b.value()) by (nonlinear_arith)
            requires
                b.hi + 1 <= a.hi,
                b.lo < t,
                a.lo >= 0,
                a.value() == a.hi * t + a.lo,
                b.value() == b.hi * t + b.lo,
                t > 0,
        ;
    }
}

} // verus!
