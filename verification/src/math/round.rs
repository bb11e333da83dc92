use vstd::prelude::*;
use vstd::arithmetic::power2::{pow2, lemma_pow2_adds, lemma_pow2_pos, lemma2_to64};
use vstd::arithmetic::div_mod::{
    lemma_div_is_ordered, lemma_div_multiples_vanish, lemma_fundamental_div_mod_converse,
};
use crate::math::ieee::{SIGN_DIV, FRAC_DIV, frac_of, mag_val149, round_to_i32_val};

verus! {

// `f32::round` followed by `as i32` is an exactly specified integer
// function of the bit pattern: round half away from zero, saturate to the
// i32 range, send NaN to zero. It is computed here with integer shifts of
// the mantissa.

/// Rounds the encoded value to the nearest integer, half away from zero,
/// and saturates into the i32 range, as `f32::round` followed by `as i32`
/// does.
pub fn f32_round_to_i32(b: u32) -> (r: i32)
    ensures
        r as int == round_to_i32_val(b),
{
    let sign: u32 = b / SIGN_DIV;
    let mag: u32 = b % SIGN_DIV;
    let e: u32 = mag / FRAC_DIV;
    let f: u32 = mag % FRAC_DIV;
    if e == 255 && f != 0 {
        return 0;  // NaN
    }
    let m: u64 = if e == 0 {
        f as u64
    } else {
        (f as u64) + 0x0080_0000
    };
    let ep: u32 = if e == 0 {
        0
    } else {
        e - 1
    };
    proof {
        lemma2_to64();
        assert(crate::math::ieee::mag_of(b) == mag);
        assert(crate::math::ieee::exp_of(b) == e);
        assert(crate::math::ieee::frac_of(b) == f);
        assert(mag_val149(b) == m as int * pow2(ep as nat)) by {
            lemma2_to64();
            if e == 0 {
                assert(mag_val149(b) == frac_of(b));
                assert(pow2(0) == 1);
            } else {
                assert(mag_val149(b) == (0x0080_0000 + frac_of(b)) * pow2((e - 1) as nat));
            }
        };
        lemma_pow2_pos(ep as nat);
        lemma_pow2_pos(148);
        lemma_pow2_pos(149);
        vstd::arithmetic::power2::lemma_pow2_strictly_increases(148, 149);
    }
    if ep >= 157 {
        // the magnitude is at least 2^31, so both signs saturate
        proof {
            lemma_pow2_adds((ep - 149) as nat, 149);
            assert(mag_val149(b) == (m as int * pow2((ep - 149) as nat)) * pow2(149))
                by (nonlinear_arith)
                requires
                    mag_val149(b) == m as int * pow2(ep as nat),
                    pow2((ep - 149) as nat) * pow2(149) == pow2(ep as nat),
            ;
            lemma_div_multiples_vanish(m as int * pow2((ep - 149) as nat), pow2(149) as int);
            lemma_div_is_ordered(
                (m as int * pow2((ep - 149) as nat)) * pow2(149),
                mag_val149(b) + pow2(148),
                pow2(149) as int,
            );
            // m >= 2^23 and the shift is at least 8, so the quotient is large
            assert(pow2(8) <= pow2((ep - 149) as nat)) by {
                if ep > 157 {
                    vstd::arithmetic::power2::lemma_pow2_strictly_increases(8, (ep - 149) as nat);
                }
            };
            assert(m as int * pow2((ep - 149) as nat) >= 0x80_0000 * 0x100) by (nonlinear_arith)
                requires
                    m >= 0x80_0000,
                    pow2((ep - 149) as nat) >= 0x100,
            ;
        }
        if sign == 0 {
            return i32::MAX;
        }
        return i32::MIN;
    }
    let v: u64 = if ep >= 149 {
        // the value is an integer below 2^31: shift the mantissa up
        let mut w: u64 = m;
        let mut i: u32 = 149;
        proof {
            lemma2_to64();
            assert(w == m as int * pow2(0));
        }
        while i < ep
            invariant
                149 <= i <= ep,
                ep < 157,
                m < 0x100_0000,
                w == m as int * pow2((i - 149) as nat),
                w < 0x8000_0000,
            decreases ep - i,
    {
            proof {
                lemma_pow2_adds((i - 149) as nat, 1);
                lemma2_to64();
                assert(m as int * (pow2((i - 149) as nat) * 2) == (m as int * pow2(
                    (i - 149) as nat,
                )) * 2) by (nonlinear_arith);
                assert(pow2((i + 1 - 149) as nat) <= pow2(7)) by {
                    if i + 1 - 149 < 7 {
                        vstd::arithmetic::power2::lemma_pow2_strictly_increases(
                            (i + 1 - 149) as nat,
                            7,
                        );
                    }
                };
                assert(m as int * pow2((i + 1 - 149) as nat) < 0x100_0000 * 0x80)
                    by (nonlinear_arith)
                    requires
                        m < 0x100_0000,
                        0 < pow2((i + 1 - 149) as nat) <= 0x80,
                ;
            }
            w = w * 2;
            i = i + 1;
        }
        proof {
            lemma2_to64();
            assert(pow2((ep - 149) as nat) <= pow2(8)) by {
                if ep - 149 < 8 {
                    vstd::arithmetic::power2::lemma_pow2_strictly_increases(
                        (ep - 149) as nat,
                        8,
                    );
                }
            };
            assert(w < 0x1_0000_0000) by (nonlinear_arith)
                requires
                    w == m as int * pow2((ep - 149) as nat),
                    m < 0x100_0000,
                    pow2((ep - 149) as nat) <= 0x100,
            ;
            lemma_pow2_adds((ep - 149) as nat, 149);
            assert(mag_val149(b) == w as int * pow2(149)) by (nonlinear_arith)
                requires
                    mag_val149(b) == m as int * pow2(ep as nat),
                    w == m as int * pow2((ep - 149) as nat),
                    pow2((ep - 149) as nat) * pow2(149) == pow2(ep as nat),
            ;
            lemma_fundamental_div_mod_converse(
                mag_val149(b) + pow2(148),
                pow2(149) as int,
                w as int,
                pow2(148) as int,
            );
        }
        w
    } else {
        let sh: u32 = 149 - ep;  // 1 to 149
        if sh >= 25 {
            // the magnitude is below a half: rounds to zero
            proof {
                assert(pow2((24 + ep) as nat) <= pow2(148)) by {
                    if 24 + ep < 148 {
                        vstd::arithmetic::power2::lemma_pow2_strictly_increases(
                            (24 + ep) as nat,
                            148,
                        );
                    }
                };
                lemma_pow2_adds(24, ep as nat);
                lemma2_to64();
                assert(m as int * pow2(ep as nat) < 0x100_0000 * pow2(ep as nat))
                    by (nonlinear_arith)
                    requires
                        m < 0x100_0000,
                        pow2(ep as nat) > 0,
                ;
                assert(mag_val149(b) + pow2(148) < pow2(149)) by {
                    lemma_pow2_adds(148, 1);
                };
                assert((mag_val149(b) + pow2(148)) / pow2(149) as int == 0) by {
                    lemma_fundamental_div_mod_converse(
                        mag_val149(b) + pow2(148),
                        pow2(149) as int,
                        0,
                        mag_val149(b) + pow2(148),
                    );
                };
            }
            0
        } else {
            // v = (m + 2^(sh-1)) / 2^sh
            let mut pw: u64 = 1;
            let mut i: u32 = 0;
            while i < sh - 1
                invariant
                    i <= sh - 1 <= 23,
                    pw == pow2(i as nat),
                    pw <= 0x80_0000,
                decreases sh - i,
            {
                proof {
                    lemma_pow2_adds(i as nat, 1);
                    lemma2_to64();
                    assert(pow2((i + 1) as nat) <= pow2(23)) by {
                        if i + 1 < 23 {
                            vstd::arithmetic::power2::lemma_pow2_strictly_increases(
                                (i + 1) as nat,
                                23,
                            );
                        }
                    };
                }
                pw = pw * 2;
                i = i + 1;
            }
            let w: u64 = (m + pw) / (2 * pw);
            proof {
                lemma_pow2_pos((sh - 1) as nat);
                lemma_pow2_adds((sh - 1) as nat, 1);
                lemma2_to64();
                assert(2 * pw == pow2(sh as nat));
                assert(w == (m + pw) as int / pow2(sh as nat) as int);
                let q = w as int;
                let r0 = (m + pw) as int % (pow2(sh as nat) as int);
                assert(m + pw == q * pow2(sh as nat) + r0 && 0 <= r0 < pow2(sh as nat)) by {
                    vstd::arithmetic::div_mod::lemma_fundamental_div_mod(
                        (m + pw) as int,
                        pow2(sh as nat) as int,
                    );
                };
                // multiply the division by 2^ep to reach the 149 scale
                lemma_pow2_adds((sh - 1) as nat, ep as nat);
                lemma_pow2_adds(sh as nat, ep as nat);
                assert((m + pw) * pow2(ep as nat) == mag_val149(b) + pow2(148))
                    by (nonlinear_arith)
                    requires
                        mag_val149(b) == m as int * pow2(ep as nat),
                        pw == pow2((sh - 1) as nat),
                        pow2((sh - 1) as nat) * pow2(ep as nat) == pow2((sh - 1 + ep) as nat),
                        sh - 1 + ep == 148,
                        pow2(148) == pow2((sh - 1 + ep) as nat),
                ;
                assert((q * pow2(sh as nat) + r0) * pow2(ep as nat) == q * pow2(149) + r0 * pow2(
                    ep as nat,
                )) by (nonlinear_arith)
                    requires
                        pow2(sh as nat) * pow2(ep as nat) == pow2((sh + ep) as nat),
                        sh + ep == 149,
                        pow2(149) == pow2((sh + ep) as nat),
                ;
                assert(r0 * pow2(ep as nat) < pow2(149)) by (nonlinear_arith)
                    requires
                        r0 < pow2(sh as nat),
                        pow2(ep as nat) > 0,
                        pow2(sh as nat) * pow2(ep as nat) == pow2((sh + ep) as nat),
                        sh + ep == 149,
                        pow2(149) == pow2((sh + ep) as nat),
                ;
                assert(r0 * pow2(ep as nat) >= 0) by (nonlinear_arith)
                    requires
                        r0 >= 0,
                        pow2(ep as nat) > 0,
                ;
                assert((m + pw) * pow2(ep as nat) == q * pow2(149) + r0 * pow2(ep as nat))
                    by (nonlinear_arith)
                    requires
                        m + pw == q * pow2(sh as nat) + r0,
                        (q * pow2(sh as nat) + r0) * pow2(ep as nat) == q * pow2(149) + r0
                            * pow2(ep as nat),
                ;
                lemma_fundamental_div_mod_converse(
                    mag_val149(b) + pow2(148),
                    pow2(149) as int,
                    q,
                    r0 * pow2(ep as nat),
                );
            }
            w
        }
    };
    proof {
        assert(v < 0x8000_0000);
    }
    if sign == 0 {
        v as i32
    } else {
        0i32 - (v as i32)
    }
}

} // verus!
