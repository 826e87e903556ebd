//! Exact 256-bit arithmetic over values held as two 128-bit halves.
//!
//! The pricing formulas multiply two 128-bit reserves, so their intermediate
//! values need 256 bits.  Such a value is carried as a [`Wide`].  The two
//! operations taken on trust are the combined multiply-divide, whose 512-bit
//! intermediate an outside crate supplies, and the integer square root; all
//! other operations are verified here against `Wide::val`.

use vstd::arithmetic::div_mod::{
    lemma_div_by_multiple, lemma_div_is_ordered, lemma_div_nonincreasing, lemma_div_pos_is_pos,
    lemma_fundamental_div_mod, lemma_fundamental_div_mod_converse,
};
use vstd::arithmetic::mul::{
    lemma_mul_inequality, lemma_mul_is_commutative, lemma_mul_is_distributive_add_other_way,
    lemma_mul_nonnegative, lemma_mul_strict_inequality,
};
use vstd::prelude::*;

verus! {

/// The weight of the high half: 2^128.
pub open spec fn half_base() -> int {
    0x1_0000_0000_0000_0000_0000_0000_0000_0000int
}

/// The first integer too large for 256 bits: 2^256.
pub open spec fn wide_limit() -> int {
    0x1_0000_0000_0000_0000_0000_0000_0000_0000_0000_0000_0000_0000_0000_0000_0000_0000int
}

/// An unsigned 256-bit value: `hi * 2^128 + lo`.
#[derive(Clone, Copy, PartialEq, Eq, Structural, Debug)]
pub struct Wide {
    pub hi: u128,
    pub lo: u128,
}

impl Wide {
    /// The integer this value stands for.
    pub open spec fn val(self) -> int {
        self.hi * 0x1_0000_0000_0000_0000_0000_0000_0000_0000int + self.lo
    }

    pub proof fn lemma_val_bounds(self)
        ensures
            0 <= self.val() < wide_limit(),
    {
        assert(self.hi * half_base() <= (u128::MAX as int) * half_base()) by {
            lemma_mul_inequality(self.hi as int, u128::MAX as int, half_base());
        }
        assert(self.hi * half_base() >= 0) by {
            lemma_mul_nonnegative(self.hi as int, half_base());
        }
    }

    pub fn from_u128(x: u128) -> (r: Wide)
        ensures
            r.val() == x,
    {
        Wide { hi: 0, lo: x }
    }

    /// Whether the value fits in 128 bits.
    pub fn fits_u128(&self) -> (r: bool)
        ensures
            r <==> self.val() <= u128::MAX,
    {
        proof {
            if self.hi >= 1 {
                lemma_mul_inequality(1, self.hi as int, half_base());
            }
        }
        self.hi == 0
    }

    pub fn to_u128(&self) -> (r: u128)
        requires
            self.val() <= u128::MAX,
        ensures
            r == self.val(),
    {
        proof {
            if self.hi >= 1 {
                lemma_mul_inequality(1, self.hi as int, half_base());
            }
        }
        self.lo
    }

    /// Strict comparison of two 256-bit values.
    pub fn wide_lt(&self, other: &Wide) -> (r: bool)
        ensures
            r <==> self.val() < other.val(),
    {
        proof {
            if self.hi < other.hi {
                lemma_mul_strict_inequality(self.hi as int, other.hi as int, half_base());
            }
            if other.hi < self.hi {
                lemma_mul_strict_inequality(other.hi as int, self.hi as int, half_base());
            }
        }
        self.hi < other.hi || (self.hi == other.hi && self.lo < other.lo)
    }

    /// Subtraction; the callers establish that no borrow out of the high
    /// half is needed.
    pub fn wide_sub(&self, other: &Wide) -> (r: Wide)
        requires
            other.val() <= self.val(),
        ensures
            r.val() == self.val() - other.val(),
    {
        proof {
            if self.hi < other.hi {
                lemma_mul_strict_inequality(self.hi as int, other.hi as int, half_base());
            }
        }
        if self.lo >= other.lo {
            Wide { hi: self.hi - other.hi, lo: self.lo - other.lo }
        } else {
            Wide { hi: self.hi - other.hi - 1, lo: (u128::MAX - other.lo) + self.lo + 1 }
        }
    }
}

/// Relies on `cosmwasm_std::Uint256::checked_multiply_ratio`: the full
/// 512-bit product `a * b` divided by `d` and rounded down, or an error
/// exactly when `d` is zero or the quotient does not fit in 256 bits.
#[verifier::external_body]
fn mul_div_floor_raw(a: Wide, b: Wide, d: Wide) -> (r: Option<Wide>)
    ensures
        match r {
            Some(q) => d.val() != 0 && q.val() == (a.val() * b.val()) / d.val(),
            None => d.val() == 0 || (a.val() * b.val()) / d.val() >= wide_limit(),
        },
{
    let au = (cosmwasm_std::Uint256::from(a.hi) << 128) + cosmwasm_std::Uint256::from(a.lo);
    let bu = (cosmwasm_std::Uint256::from(b.hi) << 128) + cosmwasm_std::Uint256::from(b.lo);
    let du = (cosmwasm_std::Uint256::from(d.hi) << 128) + cosmwasm_std::Uint256::from(d.lo);
    match au.checked_multiply_ratio(bu, du) {
        Ok(q) => {
            let bytes = q.to_be_bytes();
            let hi = u128::from_be_bytes(bytes[..16].try_into().unwrap());
            let lo = u128::from_be_bytes(bytes[16..].try_into().unwrap());
            Some(Wide { hi, lo })
        },
        Err(_) => None,
    }
}

/// Relies on `cosmwasm_std::Isqrt::isqrt` for `Uint256`: the integer square
/// root, the largest `r` with `r * r <= a`.
#[verifier::external_body]
fn isqrt_raw(a: Wide) -> (r: u128)
    ensures
        r * r <= a.val() < (r + 1) * (r + 1),
{
    let au = (cosmwasm_std::Uint256::from(a.hi) << 128) + cosmwasm_std::Uint256::from(a.lo);
    let q = cosmwasm_std::Isqrt::isqrt(au);
    let bytes = q.to_be_bytes();
    u128::from_be_bytes(bytes[16..].try_into().unwrap())
}

/// The full product of two 128-bit values.
pub fn mul_u128(a: u128, b: u128) -> (r: Wide)
    ensures
        r.val() == a * b,
{
    proof {
        lemma_mul_nonnegative(a as int, b as int);
        assert((a * b) / 1 == a * b) by {
            lemma_div_by_multiple(a * b, 1);
        }
        assert(a * b < wide_limit()) by {
            lemma_mul_inequality(a as int, u128::MAX as int, b as int);
            lemma_mul_inequality(b as int, u128::MAX as int, u128::MAX as int);
            lemma_mul_is_commutative(a as int, b as int);
            lemma_mul_is_commutative(b as int, u128::MAX as int);
        }
    }
    let r = mul_div_floor_raw(Wide::from_u128(a), Wide::from_u128(b), Wide::from_u128(1));
    match r {
        Some(q) => q,
        None => {
            // unreachable: the quotient is below 2^256
            proof {
                assert(false);
            }
            Wide { hi: 0, lo: 0 }
        },
    }
}

/// The product of a 256-bit value and a 128-bit value; the callers
/// establish that it fits in 256 bits.
pub fn mul_wide_u128(a: Wide, b: u128) -> (r: Wide)
    requires
        a.val() * b < wide_limit(),
    ensures
        r.val() == a.val() * b,
{
    proof {
        a.lemma_val_bounds();
        lemma_mul_nonnegative(a.val(), b as int);
        lemma_div_by_multiple(a.val() * b, 1);
    }
    let r = mul_div_floor_raw(a, Wide::from_u128(b), Wide::from_u128(1));
    match r {
        Some(q) => q,
        None => {
            proof {
                assert(false);
            }
            Wide { hi: 0, lo: 0 }
        },
    }
}

/// The product `a * b` divided by `d`, rounded down, at full 256-bit width.
pub fn mul_div_floor_wide(a: u128, b: u128, d: u128) -> (r: Wide)
    requires
        d >= 1,
    ensures
        r.val() == (a * b) / (d as int),
{
    proof {
        lemma_mul_nonnegative(a as int, b as int);
        lemma_div_nonincreasing(a * b, d as int);
        assert(a * b < wide_limit()) by {
            lemma_mul_inequality(a as int, u128::MAX as int, b as int);
            lemma_mul_inequality(b as int, u128::MAX as int, u128::MAX as int);
            lemma_mul_is_commutative(a as int, b as int);
            lemma_mul_is_commutative(b as int, u128::MAX as int);
        }
    }
    match mul_div_floor_raw(Wide::from_u128(a), Wide::from_u128(b), Wide::from_u128(d)) {
        Some(q) => q,
        None => {
            proof {
                assert(false);
            }
            Wide { hi: 0, lo: 0 }
        },
    }
}

/// Addition modulo 2^128, the intentional wraparound of the oracle
/// accumulators.
pub fn wrapping_add_u128(a: u128, b: u128) -> (r: u128)
    ensures
        r == (a + b) % half_base(),
{
    if b <= u128::MAX - a {
        proof {
            lemma_fundamental_div_mod_converse(a + b, half_base(), 0, a + b);
        }
        a + b
    } else {
        proof {
            lemma_fundamental_div_mod_converse(
                a + b,
                half_base(),
                1,
                a + b - 0x1_0000_0000_0000_0000_0000_0000_0000_0000int,
            );
        }
        b - (u128::MAX - a) - 1
    }
}

/// The sum of two 128-bit values, which always fits in 256 bits.
pub fn wide_add_u128(a: u128, b: u128) -> (r: Wide)
    ensures
        r.val() == a + b,
{
    if b <= u128::MAX - a {
        Wide { hi: 0, lo: a + b }
    } else {
        Wide { hi: 1, lo: a - (u128::MAX - b) - 1 }
    }
}

/// Division of a 256-bit value by a 128-bit divisor, with remainder.
pub fn div_rem_wide(a: Wide, d: u128) -> (r: (Wide, u128))
    requires
        d >= 1,
    ensures
        r.0.val() == a.val() / (d as int),
        r.1 == a.val() % (d as int),
        a.val() == r.0.val() * d + r.1,
{
    proof {
        a.lemma_val_bounds();
        lemma_div_nonincreasing(a.val(), d as int);
    }
    let q = match mul_div_floor_raw(a, Wide::from_u128(1), Wide::from_u128(d)) {
        Some(q) => q,
        None => {
            proof {
                assert(false);
            }
            Wide { hi: 0, lo: 0 }
        },
    };
    proof {
        lemma_fundamental_div_mod(a.val(), d as int);
        lemma_mul_is_commutative(d as int, a.val() / (d as int));
        lemma_mul_nonnegative(a.val() / (d as int), d as int);
        assert((a.val() / (d as int)) * d <= a.val());
        assert((a.val() / (d as int)) * d / 1 == (a.val() / (d as int)) * d) by {
            lemma_div_by_multiple((a.val() / (d as int)) * d, 1);
        }
    }
    let qd = match mul_div_floor_raw(q, Wide::from_u128(d), Wide::from_u128(1)) {
        Some(p) => p,
        None => {
            proof {
                assert(false);
            }
            Wide { hi: 0, lo: 0 }
        },
    };
    let rem_wide = a.wide_sub(&qd);
    let rem = rem_wide.to_u128();
    (q, rem)
}

/// How an exact fraction comparison reduces to quotients and remainders.
proof fn lemma_fraction_cmp(x: int, y: int, dx: int, dy: int, q0: int, r0: int, q1: int, r1: int)
    by (nonlinear_arith)
    requires
        dx >= 1,
        dy >= 1,
        x == q0 * dx + r0,
        0 <= r0 < dx,
        y == q1 * dy + r1,
        0 <= r1 < dy,
        q0 >= 0,
        q1 >= 0,
    ensures
        (x * dy > y * dx) <==> (q0 > q1 || (q0 == q1 && r0 * dy > r1 * dx)),
{
}

/// Exact comparison of the rationals `x / dx` and `y / dy`, that is of the
/// products `x * dy` and `y * dx`, which may exceed 256 bits.
pub fn wide_ratio_gt(x: Wide, dx: u128, y: Wide, dy: u128) -> (r: bool)
    requires
        dx >= 1,
        dy >= 1,
    ensures
        r <==> x.val() * dy > y.val() * dx,
{
    let (q0, r0) = div_rem_wide(x, dx);
    let (q1, r1) = div_rem_wide(y, dy);
    proof {
        lemma_div_pos_is_pos(x.val(), dx as int);
        lemma_div_pos_is_pos(y.val(), dy as int);
        x.lemma_val_bounds();
        y.lemma_val_bounds();
        lemma_fraction_cmp(
            x.val(), y.val(), dx as int, dy as int, q0.val(), r0 as int, q1.val(), r1 as int,
        );
    }
    if q1.wide_lt(&q0) {
        true
    } else if q0.wide_lt(&q1) {
        false
    } else {
        let a = mul_u128(r0, dy);
        let b = mul_u128(r1, dx);
        b.wide_lt(&a)
    }
}

/// The product `a * b` divided by `d`, rounded down, when the quotient fits
/// in 128 bits.
pub fn mul_div_floor(a: u128, b: u128, d: u128) -> (r: Option<u128>)
    ensures
        match r {
            Some(q) => d != 0 && q == (a * b) / (d as int) && (a * b) / (d as int) <= u128::MAX,
            None => d == 0 || (a * b) / (d as int) > u128::MAX,
        },
{
    if d == 0 {
        return None;
    }
    proof {
        lemma_mul_nonnegative(a as int, b as int);
    }
    match mul_div_floor_raw(Wide::from_u128(a), Wide::from_u128(b), Wide::from_u128(d)) {
        Some(q) => {
            if q.fits_u128() {
                Some(q.to_u128())
            } else {
                None
            }
        },
        None => {
            proof {
                assert((a * b) / (d as int) <= a * b) by {
                    lemma_div_nonincreasing(a * b, d as int);
                }
                assert(a * b < wide_limit()) by {
                    lemma_mul_inequality(a as int, u128::MAX as int, b as int);
                    lemma_mul_inequality(b as int, u128::MAX as int, u128::MAX as int);
                    lemma_mul_is_commutative(a as int, b as int);
                    lemma_mul_is_commutative(b as int, u128::MAX as int);
                }
                assert(false);
            }
            None
        },
    }
}

/// The product `a * b` divided by `d`, rounded up, when the quotient fits
/// in 128 bits.
pub fn mul_div_ceil(a: u128, b: u128, d: u128) -> (r: Option<u128>)
    ensures
        match r {
            Some(q) => d != 0 && q == (a * b + d - 1) / (d as int) && (a * b + d - 1) / (
            d as int) <= u128::MAX,
            None => d == 0 || (a * b + d - 1) / (d as int) > u128::MAX,
        },
{
    if d == 0 {
        return None;
    }
    proof {
        lemma_mul_nonnegative(a as int, b as int);
        lemma_fundamental_div_mod(a * b, d as int);
        lemma_ceil_div_structure(a * b, d as int);
    }
    let floor_opt = mul_div_floor(a, b, d);
    match floor_opt {
        Some(q) => {
            let p = mul_u128(a, b);
            let qd = mul_u128(q, d);
            proof {
                lemma_mul_is_commutative(d as int, q as int);
                lemma_val_injective(p, qd);
            }
            if p == qd {
                Some(q)
            } else {
                // the division has a nonzero remainder, so the ceiling is one more
                if q == u128::MAX {
                    None
                } else {
                    Some(q + 1)
                }
            }
        },
        None => None,
    }
}

/// Two halves stand for the same integer only when they are equal.
proof fn lemma_val_injective(a: Wide, b: Wide)
    ensures
        a.val() == b.val() ==> a == b,
{
    if a.val() == b.val() && a.hi != b.hi {
        if a.hi < b.hi {
            lemma_mul_inequality(a.hi + 1, b.hi as int, half_base());
        } else {
            lemma_mul_inequality(b.hi + 1, a.hi as int, half_base());
        }
        assert(false);
    }
}

/// How the ceiling `(n + d - 1) / d` relates to the floor `n / d`.
proof fn lemma_ceil_div_structure(n: int, d: int)
    requires
        n >= 0,
        d >= 1,
    ensures
        n % d == 0 ==> (n + d - 1) / d == n / d,
        n % d != 0 ==> (n + d - 1) / d == n / d + 1,
{
    lemma_fundamental_div_mod(n, d);
    let q = n / d;
    let r = n % d;
    lemma_mul_is_commutative(d, q);
    if r == 0 {
        assert(n + d - 1 == q * d + (d - 1));
        lemma_fundamental_div_mod_converse(n + d - 1, d, q, d - 1);
    } else {
        assert((q + 1) * d == q * d + d) by {
            lemma_mul_is_distributive_add_other_way(d, q, 1);
        }
        assert(n + d - 1 == (q + 1) * d + (r - 1));
        lemma_fundamental_div_mod_converse(n + d - 1, d, q + 1, r - 1);
    }
}

/// The integer square root of the product `a * b`.
pub fn isqrt_of_product(a: u128, b: u128) -> (r: u128)
    ensures
        r * r <= a * b < (r + 1) * (r + 1),
{
    let p = mul_u128(a, b);
    isqrt_raw(p)
}

} // verus!
