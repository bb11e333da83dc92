use vstd::prelude::*;
use vstd::arithmetic::power2::{
    pow2, lemma_pow2_adds, lemma_pow2_pos, lemma_pow2_strictly_increases, lemma2_to64,
    lemma2_to64_rest,
};
use crate::math::ieee::{
    SIGN_DIV, FRAC_DIV, mag_of, sign_of, exp_of, frac_of, mag_val149, ulp149, sqrt_rounds,
    sqrt_rel,
};

verus! {

// IEEE-754 requires the square root to be correctly rounded, so the result
// is a pure function of the operand's bit pattern and can be computed with
// integer arithmetic alone: split the magnitude into an integer mantissa and
// a power of two with an even shift, take an integer square root, and round
// to nearest (the exact root of a single is never halfway between two
// singles, so no tie can arise).

/// IEEE-754 single-precision square root, computed on the bit pattern.
pub fn f32_sqrt(b: u32) -> (r: u32)
    ensures
        sqrt_rel(b, r),
{
    let sign: u32 = b / SIGN_DIV;
    let mag: u32 = b % SIGN_DIV;
    let e: u32 = mag / FRAC_DIV;
    let f: u32 = mag % FRAC_DIV;
    if e == 255 && f != 0 {
        return b;  // NaN propagates
    }
    if sign == 1 && mag != 0 {
        return 0x7FC0_0000;  // negative operand: NaN
    }
    if mag == 0 {
        return b;  // +0 and -0 keep their sign
    }
    if e == 255 {
        return b;  // +infinity
    }
    // positive finite operand: the magnitude is worth m * 2^(ep - 149) exactly
    let m: u64 = if e == 0 {
        f as u64
    } else {
        (f as u64) + 0x0080_0000
    };
    let ep: u32 = if e == 0 {
        0
    } else {
        e - 1
    };
    proof {
        lemma2_to64();
        assert(mag_val149(b) == m as int * pow2(ep as nat));
    }
    // scale the mantissa into [2^46, 2^48) with an even remaining exponent,
    // so the root of the scaled mantissa has exactly 24 bits
    let mut a: u64 = m;
    let mut t: u32 = 0;
    while a < 0x4000_0000_0000
        invariant
            1 <= m < 0x100_0000,
            a == m as int * pow2(t as nat),
            a < 0x8000_0000_0000,
            t <= 47,
        decreases 47 - t,
    {
        proof {
            lemma_pow2_adds(t as nat, 1);
            lemma2_to64();
            assert(m as int * (pow2(t as nat) * 2) == (m as int * pow2(t as nat)) * 2)
                by (nonlinear_arith);
            if t >= 47 {
                lemma2_to64_rest();
                lemma_pow2_pos(t as nat);
                if t > 47 {
                    lemma_pow2_strictly_increases(47, t as nat);
                }
                assert(m as int * pow2(t as nat) >= pow2(t as nat)) by (nonlinear_arith)
                    requires
                        m >= 1,
                        pow2(t as nat) > 0,
                ;
                assert(false);
            }
        }
        a = a * 2;
        t = t + 1;
    }
    if (ep + 149 + t) % 2 == 1 {
        proof {
            lemma_pow2_adds(t as nat, 1);
            lemma2_to64();
            assert(m as int * (pow2(t as nat) * 2) == (m as int * pow2(t as nat)) * 2)
                by (nonlinear_arith);
        }
        a = a * 2;
        t = t + 1;
    }
    proof {
        // a < 2^48 together with m < 2^24 forces t >= 22, which keeps the
        // result exponent below the top of the representable range
        if t < 22 {
            lemma2_to64();
            if t < 22 {
                lemma_pow2_strictly_increases(t as nat, 22);
            }
            assert(m as int * pow2(t as nat) < 0x100_0000 * 0x40_0000) by (nonlinear_arith)
                requires
                    m < 0x100_0000,
                    0 < pow2(t as nat) <= 0x40_0000,
            ;
            assert(false);
        }
    }
    let jj: u32 = (ep + 149 - t) / 2;
    proof {
        assert((ep + 149 - t) % 2 == 0);
        assert(ep + 149 - t == 2 * jj);
        assert(ep as nat + 149 == 2 * (jj as nat) + t as nat);
        assert(jj <= 190);
    }
    // integer square root of a by descending powers of two
    let mut s: u64 = 0;
    let mut half: u64 = 0x0100_0000;
    let ghost mut hk: nat = 24;
    proof {
        lemma2_to64();
        assert(a < (s + 2 * half) * (s + 2 * half)) by (nonlinear_arith)
            requires
                a < 0x1_0000_0000_0000,
                s == 0,
                half == 0x0100_0000,
        ;
    }
    while half > 0
        invariant
            a < 0x1_0000_0000_0000,
            s as int * s as int <= a,
            s + 2 * half <= 0x200_0000,
            half == 0 || half == pow2(hk),
            if half > 0 {
                a < (s + 2 * half) * (s + 2 * half)
            } else {
                a < (s + 1) * (s + 1)
            },
        decreases half,
    {
        proof {
            assert((s + half) * (s + half) <= 0x200_0000u64 * 0x200_0000u64) by (nonlinear_arith)
                requires
                    s + half <= 0x200_0000,
            ;
        }
        let c: u64 = s + half;
        let took: bool = c * c <= a;
        if took {
            s = c;
        }
        proof {
            lemma_pow2_pos(hk);
            if hk == 0 {
                // last step: the exit bound a < (s + 1)^2 holds either way
                assert(pow2(0) == 1) by {
                    lemma2_to64();
                };
            } else {
                lemma_pow2_adds((hk - 1) as nat, 1);
                assert(pow2(1) == 2) by {
                    lemma2_to64();
                };
                assert(half == 2 * pow2((hk - 1) as nat));
                assert(half / 2 == pow2((hk - 1) as nat));
                hk = (hk - 1) as nat;
            }
        }
        half = half / 2;
    }
    proof {
        // the root of a value in [2^46, 2^48) has exactly 24 bits
        assert(s >= 0x80_0000) by (nonlinear_arith)
            requires
                a >= 0x4000_0000_0000,
                a < (s + 1) * (s + 1),
                s >= 0,
        ;
        assert(s < 0x100_0000) by (nonlinear_arith)
            requires
                s as int * s as int <= a,
                a < 0x1_0000_0000_0000,
                s >= 0,
        ;
    }
    // round to nearest: 4a is even while (2s+1)^2 is odd, so never a tie
    proof {
        assert((2 * s + 1) * (2 * s + 1) <= 0x200_0001u64 * 0x200_0001u64) by (nonlinear_arith)
            requires
                s < 0x100_0000,
        ;
    }
    let round_up: bool = 4 * a >= (2 * s + 1) * (2 * s + 1);
    let n: u64 = if round_up {
        s + 1
    } else {
        s
    };
    proof {
        if round_up {
            lemma_round_up_bounds(a, s);
        } else {
            lemma_round_down_bounds(a, s);
        }
        assert((2 * n - 1) * (2 * n - 1) < 4 * a);
        assert(4 * a < (2 * n + 1) * (2 * n + 1));
    }
    if n == 0x100_0000 {
        // the rounding stepped up into the next binade
        let er: u32 = jj + 2;
        let r: u32 = er * 0x80_0000;
        proof {
            lemma_result_fields(r, er, 0);
            lemma_pow2_adds(jj as nat, 1);
            lemma2_to64();
            assert(mag_val149(r) == (0x80_0000 + 0) * pow2((jj + 1) as nat));
            assert(mag_val149(r) == 0x100_0000 * pow2(jj as nat)) by (nonlinear_arith)
                requires
                    mag_val149(r) == 0x80_0000 * (pow2(jj as nat) * 2),
            ;
            assert(ulp149(r) == 2 * pow2(jj as nat)) by {
                assert(pow2((er - 1) as nat) == pow2(jj as nat) * 2);
            };
            lemma_pow2_pos(jj as nat);
            lemma_final_rounding(b, r, m as int, ep as nat, a as int, t as nat, jj as nat,
                0x100_0000, mag_val149(r), 2 * pow2(jj as nat) as int);
        }
        return r;
    }
    let er: u32 = jj + 1;
    let r: u32 = er * 0x80_0000 + (n as u32 - 0x80_0000);
    proof {
        lemma_result_fields(r, er, (n - 0x80_0000) as u32);
        lemma2_to64();
        assert(mag_val149(r) == n as int * pow2(jj as nat));
        assert(ulp149(r) == 1 * pow2(jj as nat));
        lemma_pow2_pos(jj as nat);
        lemma_final_rounding(b, r, m as int, ep as nat, a as int, t as nat, jj as nat, n as int,
            mag_val149(r), pow2(jj as nat) as int);
    }
    r
}

/// Rounding down keeps the exact root within half an ulp from below.
proof fn lemma_round_down_bounds(a: u64, s: u64)
    requires
        s >= 1,
        s as int * s as int <= a,
        4 * a < (2 * s + 1) * (2 * s + 1),
    ensures
        (2 * s - 1) * (2 * s - 1) < 4 * a,
        4 * a < (2 * s + 1) * (2 * s + 1),
{
    assert((2 * s - 1) * (2 * s - 1) < 4 * (s as int * s as int)) by (nonlinear_arith)
        requires
            s >= 1,
    ;
}

/// Rounding up keeps the exact root within half an ulp on both sides.
proof fn lemma_round_up_bounds(a: u64, s: u64)
    requires
        s >= 1,
        a < (s + 1) * (s + 1),
        4 * a >= (2 * s + 1) * (2 * s + 1),
    ensures
        (2 * (s + 1) - 1) * (2 * (s + 1) - 1) < 4 * a,
        4 * a < (2 * (s + 1) + 1) * (2 * (s + 1) + 1),
{
    // 4a is even and (2s+1)^2 is odd, so the lower bound is strict
    assert((2 * s + 1) * (2 * s + 1) == 4 * (s as int * s as int + s) + 1) by (nonlinear_arith);
    assert(4 * a != (2 * s + 1) * (2 * s + 1));
    assert(4 * a < (2 * (s + 1) + 1) * (2 * (s + 1) + 1)) by (nonlinear_arith)
        requires
            a < (s + 1) * (s + 1),
            s >= 0,
    ;
}

/// Decodes the assembled pattern: sign zero, the given exponent field and
/// fraction field.
proof fn lemma_result_fields(r: u32, er: u32, fr: u32)
    requires
        1 <= er < 255,
        fr < 0x80_0000,
        r == er * 0x80_0000 + fr,
    ensures
        sign_of(r) == 0,
        exp_of(r) == er,
        frac_of(r) == fr,
        mag_of(r) != 0,
        mag_val149(r) == (0x80_0000 + fr) * pow2((er - 1) as nat),
{
    assert(r < 0x8000_0000) by (nonlinear_arith)
        requires
            r == er * 0x80_0000 + fr,
            er < 255,
            fr < 0x80_0000,
    ;
    assert(r as int / 0x80_0000 == er) by (nonlinear_arith)
        requires
            r == er * 0x80_0000 + fr,
            fr < 0x80_0000,
    ;
    assert(r as int % 0x80_0000 == fr) by (nonlinear_arith)
        requires
            r == er * 0x80_0000 + fr,
            fr < 0x80_0000,
    ;
}

/// Carries the integer rounding bounds on the scaled mantissa over to the
/// rounding-interval bounds of the specification.
proof fn lemma_final_rounding(
    b: u32,
    r: u32,
    m: int,
    ep: nat,
    a: int,
    t: nat,
    jj: nat,
    n: int,
    rv: int,
    u: int,
)
    requires
        n >= 1,
        mag_val149(b) == m * pow2(ep),
        a == m * pow2(t),
        ep + 149 == 2 * jj + t,
        mag_val149(r) == rv,
        ulp149(r) == u,
        rv == n * pow2(jj),
        u == 1 * pow2(jj) || u == 2 * pow2(jj),
        u == 2 * pow2(jj) ==> frac_of(r) == 0 && exp_of(r) >= 2,
        frac_of(r) == 0 && exp_of(r) >= 2 && u == 1 * pow2(jj) ==> n == 0x80_0000 && a
            >= 0x4000_0000_0000,
        (2 * n - 1) * (2 * n - 1) < 4 * a,
        4 * a < (2 * n + 1) * (2 * n + 1),
    ensures
        sqrt_rounds(b, r),
{
    lemma_pow2_pos(jj);
    lemma_pow2_pos(t);
    lemma_pow2_pos(ep);
    lemma_pow2_pos(2 * jj);
    // X * 2^149 == a * 2^(2 jj)
    lemma_pow2_adds(ep, 149);
    lemma_pow2_adds(t, 2 * jj);
    assert(mag_val149(b) * pow2(149) == m * pow2(ep + 149)) by (nonlinear_arith)
        requires
            mag_val149(b) == m * pow2(ep),
            pow2(ep) * pow2(149) == pow2(ep + 149),
    ;
    assert(m * pow2(ep + 149) == a * pow2(2 * jj)) by (nonlinear_arith)
        requires
            a == m * pow2(t),
            pow2(t) * pow2(2 * jj) == pow2(t + 2 * jj),
            t + 2 * jj == ep + 149,
    ;
    let p = pow2(jj) as int;
    let p2 = pow2(2 * jj) as int;
    lemma_pow2_adds(jj, jj);
    assert(p * p == p2) by (nonlinear_arith)
        requires
            pow2(jj) * pow2(jj) == pow2(jj + jj),
            p == pow2(jj),
            p2 == pow2(2 * jj),
            pow2(jj + jj) == pow2(2 * jj),
    ;
    // integer bound coefficients: the spec bounds are lo_c * p and hi_c * p
    let bottom = frac_of(r) == 0 && exp_of(r) >= 2 && u == 1 * p;
    let lo_c = if bottom {
        4 * n - 1
    } else {
        4 * n - 2
    };
    let hi_c = if u == 1 * p {
        4 * n + 2
    } else {
        4 * n + 4
    };
    let lo = if frac_of(r) == 0 && exp_of(r) >= 2 {
        4 * rv - u
    } else {
        4 * rv - 2 * u
    };
    assert(lo == lo_c * p) by (nonlinear_arith)
        requires
            rv == n * p,
            u == 1 * p || u == 2 * p,
            p > 0,
            bottom <==> (frac_of(r) == 0 && exp_of(r) >= 2 && u == 1 * p),
            u == 2 * p ==> (frac_of(r) == 0 && exp_of(r) >= 2),
            lo_c == if bottom { 4 * n - 1 } else { 4 * n - 2 },
            (lo == if frac_of(r) == 0 && exp_of(r) >= 2 { 4 * rv - u } else { 4 * rv - 2 * u }),
    ;
    assert(4 * rv + 2 * u == hi_c * p) by (nonlinear_arith)
        requires
            rv == n * p,
            u == 1 * p || u == 2 * p,
            hi_c == if u == 1 * p { 4 * n + 2 } else { 4 * n + 4 },
    ;
    assert(lo_c * lo_c < 16 * a) by (nonlinear_arith)
        requires
            lo_c == 4 * n - 1 && n == 0x80_0000 && a >= 0x4000_0000_0000 || lo_c == 4 * n - 2
                && (2 * n - 1) * (2 * n - 1) < 4 * a,
            n >= 1,
    ;
    assert(16 * a < hi_c * hi_c) by (nonlinear_arith)
        requires
            hi_c == 4 * n + 2 || hi_c == 4 * n + 4,
            n >= 1,
            4 * a < (2 * n + 1) * (2 * n + 1),
    ;
    assert((lo_c * p) * (lo_c * p) == (lo_c * lo_c) * p2) by (nonlinear_arith)
        requires
            p * p == p2,
    ;
    assert((hi_c * p) * (hi_c * p) == (hi_c * hi_c) * p2) by (nonlinear_arith)
        requires
            p * p == p2,
    ;
    assert((lo_c * lo_c) * p2 < (16 * a) * p2) by (nonlinear_arith)
        requires
            lo_c * lo_c < 16 * a,
            p2 > 0,
    ;
    assert((hi_c * hi_c) * p2 > (16 * a) * p2) by (nonlinear_arith)
        requires
            16 * a < hi_c * hi_c,
            p2 > 0,
    ;
    assert(16 * mag_val149(b) * pow2(149) == (16 * a) * p2) by (nonlinear_arith)
        requires
            mag_val149(b) * pow2(149) == a * p2,
    ;
}

} // verus!
