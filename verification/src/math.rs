//! Overflow-free fixed-point arithmetic: `a * b / c` computed with a
//! 256-bit intermediate product, so that share and yield conversions on
//! values close to `i128::MAX` neither overflow nor lose precision.

use vstd::prelude::*;
use vstd::arithmetic::power2::*;
use vstd::arithmetic::div_mod::*;

verus! {

/// 2^128, the base of the two-word representation of a product.
pub open spec fn word_base() -> int {
    0x1_0000_0000_0000_0000_0000_0000_0000_0000int
}

/// The integer represented by the two 128-bit words `hi` and `lo`.
pub open spec fn wide_value(hi: u128, lo: u128) -> int {
    hi * word_base() + lo
}

/// Rounding-up division of a non-negative numerator by a positive divisor.
pub open spec fn ceil_div(n: int, d: int) -> int {
    (n + d - 1) / d
}

proof fn lemma_pow2_values()
    ensures
        pow2(64) == 0x1_0000_0000_0000_0000int,
        pow2(127) == 0x8000_0000_0000_0000_0000_0000_0000_0000int,
        pow2(128) == word_base(),
{
    lemma2_to64();
    lemma2_to64_rest();
    lemma_pow2_adds(63, 64);
    lemma_pow2_adds(64, 64);
}

/// Exact product of two values below 2^127, as two 128-bit words.
fn mul_wide(x: u128, y: u128) -> (r: (u128, u128))
    requires
        x < 0x8000_0000_0000_0000_0000_0000_0000_0000u128,
        y < 0x8000_0000_0000_0000_0000_0000_0000_0000u128,
    ensures
        wide_value(r.0, r.1) == x * y,
{
    let b: u128 = 0x1_0000_0000_0000_0000;
    let x1: u128 = x / b;
    let x0: u128 = x % b;
    let y1: u128 = y / b;
    let y0: u128 = y % b;
    proof {
        lemma_fundamental_div_mod(x as int, b as int);
        lemma_fundamental_div_mod(y as int, b as int);
        assert(x1 < 0x8000_0000_0000_0000u128);
        assert(y1 < 0x8000_0000_0000_0000u128);
    }
    assert(x0 * y0 <= 0xffff_ffff_ffff_ffff * 0xffff_ffff_ffff_ffffint) by (nonlinear_arith)
        requires
            x0 < 0x1_0000_0000_0000_0000u128,
            y0 < 0x1_0000_0000_0000_0000u128,
    ;
    assert(x0 * y1 <= 0xffff_ffff_ffff_ffff * 0x7fff_ffff_ffff_ffffint) by (nonlinear_arith)
        requires
            x0 < 0x1_0000_0000_0000_0000u128,
            y1 < 0x8000_0000_0000_0000u128,
    ;
    assert(x1 * y0 <= 0x7fff_ffff_ffff_ffff * 0xffff_ffff_ffff_ffffint) by (nonlinear_arith)
        requires
            x1 < 0x8000_0000_0000_0000u128,
            y0 < 0x1_0000_0000_0000_0000u128,
    ;
    assert(x1 * y1 <= 0x7fff_ffff_ffff_ffff * 0x7fff_ffff_ffff_ffffint) by (nonlinear_arith)
        requires
            x1 < 0x8000_0000_0000_0000u128,
            y1 < 0x8000_0000_0000_0000u128,
    ;
    let p00: u128 = x0 * y0;
    let p01: u128 = x0 * y1;
    let p10: u128 = x1 * y0;
    let p11: u128 = x1 * y1;
    let mid: u128 = p01 + p10;
    let m1: u128 = mid / b;
    let m0: u128 = mid % b;
    proof {
        lemma_fundamental_div_mod(mid as int, b as int);
    }
    let m0s: u128 = m0 * b;
    let (lo, carry): (u128, u128) = if p00 <= u128::MAX - m0s {
        (p00 + m0s, 0)
    } else {
        (p00 - (u128::MAX - m0s) - 1, 1)
    };
    assert(m1 < 0x1_0000_0000_0000_0000u128);
    let hi: u128 = p11 + m1 + carry;
    assert(lo + carry * word_base() == m0 * b + p00);
    assert(x * y == p11 * (b * b) + mid * b + p00) by (nonlinear_arith)
        requires
            x == b * x1 + x0,
            y == b * y1 + y0,
            p00 == x0 * y0,
            p01 == x0 * y1,
            p10 == x1 * y0,
            p11 == x1 * y1,
            mid == p01 + p10,
    ;
    assert(mid * b == m1 * (b * b) + m0 * b) by (nonlinear_arith)
        requires
            mid == b * m1 + m0,
    ;
    assert(b * b == word_base());
    assert(wide_value(hi, lo) == hi * word_base() + lo);
    assert(hi * word_base() == p11 * word_base() + m1 * word_base() + carry * word_base())
        by (nonlinear_arith)
        requires
            hi == p11 + m1 + carry,
    ;
    (hi, lo)
}

/// Quotient and remainder of the two-word value `hi * 2^128 + lo` by `c`,
/// computed by binary long division over the bits of `lo`.
fn div_wide(hi: u128, lo: u128, c: u128) -> (r: (u128, u128))
    requires
        0 < c < 0x8000_0000_0000_0000_0000_0000_0000_0000u128,
        hi < c,
    ensures
        r.0 == wide_value(hi, lo) / (c as int),
        r.1 == wide_value(hi, lo) % (c as int),
{
    let top: u128 = 0x8000_0000_0000_0000_0000_0000_0000_0000;
    let mut q: u128 = 0;
    let mut rem: u128 = hi;
    let mut rest: u128 = lo;
    let mut i: u32 = 0;
    let ghost mut p: int = hi as int;
    let ghost mut w: int = lo as int;
    proof {
        lemma_pow2_values();
        lemma_pow2_pos(0);
        assert(pow2(0) == 1) by {
            lemma2_to64();
        }
        assert(p * pow2(128) + w == wide_value(hi, lo));
    }
    while i < 128
        invariant
            i <= 128,
            0 < c < top,
            top == 0x8000_0000_0000_0000_0000_0000_0000_0000u128,
            pow2(127) == top,
            pow2(128) == word_base(),
            0 <= w < pow2((128 - i) as nat),
            rest == w * pow2(i as nat),
            p * pow2((128 - i) as nat) + w == wide_value(hi, lo),
            q * c + rem == p,
            rem < c,
            q < pow2(i as nat),
        decreases 128 - i,
    {
        let ghost e: nat = (127 - i) as nat;
        proof {
            lemma_pow2_adds(i as nat, e);
            lemma_pow2_unfold((128 - i) as nat);
            lemma_pow2_pos(i as nat);
            lemma_pow2_pos(e);
            assert((128 - i) as nat - 1 == e);
            assert(pow2((128 - i) as nat) == 2 * pow2(e));
            assert(pow2(i as nat) * pow2(e) == top);
        }
        let bit: u128 = if rest >= top {
            1
        } else {
            0
        };
        proof {
            if bit == 1 {
                assert(w >= pow2(e)) by (nonlinear_arith)
                    requires
                        w * pow2(i as nat) >= pow2(i as nat) * pow2(e),
                        pow2(i as nat) > 0,
                ;
            } else {
                assert(w < pow2(e)) by (nonlinear_arith)
                    requires
                        w * pow2(i as nat) < pow2(i as nat) * pow2(e),
                        pow2(i as nat) > 0,
                ;
            }
        }
        let ghost w2: int = w - bit * pow2(e);
        assert(0 <= w2 < pow2(e));
        assert(q < pow2(127)) by {
            if i < 127 {
                lemma_pow2_strictly_increases(i as nat, 127);
            }
        }
        let r2: u128 = 2 * rem + bit;
        let ghost q0: int = q as int;
        let ghost rem0: int = rem as int;
        if r2 >= c {
            q = 2 * q + 1;
            rem = r2 - c;
        } else {
            q = 2 * q;
            rem = r2;
        }
        assert(rest - bit * top == w2 * pow2(i as nat)) by (nonlinear_arith)
            requires
                rest == w * pow2(i as nat),
                w2 == w - bit * pow2(e),
                pow2(i as nat) * pow2(e) == top,
        ;
        assert(w2 * pow2(i as nat) < top) by (nonlinear_arith)
            requires
                w2 < pow2(e),
                pow2(i as nat) > 0,
                pow2(i as nat) * pow2(e) == top,
        ;
        rest = (rest - bit * top) * 2;
        proof {
            lemma_pow2_unfold((i + 1) as nat);
            assert((i + 1) as nat - 1 == i as nat);
            assert(rest == w2 * pow2((i + 1) as nat)) by (nonlinear_arith)
                requires
                    rest == (w2 * pow2(i as nat)) * 2,
                    pow2((i + 1) as nat) == 2 * pow2(i as nat),
            ;
            assert((128 - (i + 1)) as nat == e);
            assert((2 * p + bit) * pow2(e) + w2 == p * pow2((128 - i) as nat) + w)
                by (nonlinear_arith)
                requires
                    w2 == w - bit * pow2(e),
                    pow2((128 - i) as nat) == 2 * pow2(e),
            ;
            assert(q * c + rem == 2 * p + bit) by (nonlinear_arith)
                requires
                    q0 * c + rem0 == p,
                    r2 == 2 * rem0 + bit,
                    (q == 2 * q0 + 1 && rem == r2 - c) || (q == 2 * q0 && rem == r2),
            ;
            assert(q < pow2((i + 1) as nat));
            p = 2 * p + bit;
            w = w2;
        }
        i = i + 1;
    }
    proof {
        assert(pow2(0) == 1) by {
            lemma2_to64();
        }
        assert(i == 128);
        assert((128 - i) as nat == 0);
        assert(w == 0);
        assert(p * pow2(0) == p);
        assert(p == wide_value(hi, lo));
        lemma_fundamental_div_mod_converse(p, c as int, q as int, rem as int);
    }
    (q, rem)
}

/// The product `a * b` is at least `c * 2^128` when its high word is `>= c`,
/// so its quotient by `c` is at least 2^128.
proof fn lemma_high_word_overflows(hi: u128, lo: u128, c: int)
    requires
        0 < c,
        hi >= c,
    ensures
        wide_value(hi, lo) / c >= word_base(),
{
    assert(wide_value(hi, lo) >= c * word_base()) by (nonlinear_arith)
        requires
            hi >= c,
            c > 0,
            lo >= 0,
            wide_value(hi, lo) == hi * word_base() + lo,
            word_base() > 0,
    ;
    lemma_div_is_ordered(c * word_base(), wide_value(hi, lo), c);
    lemma_div_multiples_vanish(word_base(), c);
}

/// `a * b / c` rounded down, for non-negative `a`, `b` and positive `c`.
/// The product is formed exactly, so the only failure is a quotient above
/// `i128::MAX`, reported as `None`.
pub fn mul_div_floor(a: i128, b: i128, c: i128) -> (r: Option<i128>)
    requires
        a >= 0,
        b >= 0,
        c > 0,
    ensures
        r is Some <==> a * b / (c as int) <= i128::MAX,
        r matches Some(v) ==> v == a * b / (c as int),
{
    let (hi, lo): (u128, u128) = mul_wide(a as u128, b as u128);
    let cu: u128 = c as u128;
    if hi >= cu {
        proof {
            lemma_high_word_overflows(hi, lo, c as int);
        }
        return None;
    }
    let (q, _rem): (u128, u128) = div_wide(hi, lo, cu);
    if q > 0x7fff_ffff_ffff_ffff_ffff_ffff_ffff_ffffu128 {
        None
    } else {
        Some(q as i128)
    }
}

/// `a * b / c` rounded up, for non-negative `a`, `b` and positive `c`;
/// `None` exactly when the rounded-up quotient exceeds `i128::MAX`.
pub fn mul_div_ceil(a: i128, b: i128, c: i128) -> (r: Option<i128>)
    requires
        a >= 0,
        b >= 0,
        c > 0,
    ensures
        r is Some <==> ceil_div(a * b, c as int) <= i128::MAX,
        r matches Some(v) ==> v == ceil_div(a * b, c as int),
{
    let (hi, lo): (u128, u128) = mul_wide(a as u128, b as u128);
    let cu: u128 = c as u128;
    let ghost n: int = a * b;
    if hi >= cu {
        proof {
            lemma_high_word_overflows(hi, lo, c as int);
            lemma_div_is_ordered(n, n + c - 1, c as int);
        }
        return None;
    }
    let (q, rem): (u128, u128) = div_wide(hi, lo, cu);
    proof {
        lemma_fundamental_div_mod(n, c as int);
        if rem == 0 {
            lemma_fundamental_div_mod_converse(n + c - 1, c as int, q as int, (c - 1) as int);
        } else {
            assert(n + c - 1 == (q + 1) * c + (rem - 1)) by (nonlinear_arith)
                requires
                    n == c * q + rem,
            ;
            lemma_fundamental_div_mod_converse(
                n + c - 1,
                c as int,
                q + 1,
                (rem - 1) as int,
            );
        }
    }
    if rem == 0 {
        if q > 0x7fff_ffff_ffff_ffff_ffff_ffff_ffff_ffffu128 {
            None
        } else {
            Some(q as i128)
        }
    } else {
        if q >= 0x7fff_ffff_ffff_ffff_ffff_ffff_ffff_ffffu128 {
            None
        } else {
            Some((q + 1) as i128)
        }
    }
}

} // verus!
