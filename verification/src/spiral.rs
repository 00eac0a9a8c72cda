//! The spiral seeder: one hundred cells along one and a half turns of an
//! Archimedean spiral around the grid centre, computed in fixed-point
//! integer arithmetic.
//!
//! Angles are measured in hundredths of a half-turn, so the angle of point
//! `i` is `3 * i` units. The sine is a rational approximation that is exact
//! at the quarter points and stays within the unit circle scale, which is
//! all the seeder's bounds need.

use vstd::prelude::*;
use vstd::arithmetic::div_mod::{
    lemma_div_is_ordered, lemma_div_multiples_vanish, lemma_fundamental_div_mod, lemma_mod_bound,
    lemma_fundamental_div_mod_converse_div, lemma_mod_sub_multiples_vanish,
    lemma_multiply_divide_lt, lemma_small_mod,
};

verus! {

/// How many cells the spiral seeder places.
pub const SPIRAL_CELLS: u64 = 100;

/// Fixed-point scale of the sine approximation: this value stands for one.
pub const TRIG_SCALE: u64 = 1000;

/// Magnitude of the sine of `u` hundredths of a half-turn, for `u` in the
/// first half-turn, scaled by `TRIG_SCALE`: a rational approximation that
/// never exceeds the scale.
pub open spec fn sin_mag_spec(u: int) -> int
    recommends
        0 <= u <= 100,
{
    let g = u * (100 - u);
    16000 * g / (50000 - 4 * g)
}

/// Whether the sine at `u` hundredths of a half-turn is negative: true on
/// the second half of every full turn.
pub open spec fn sin_is_neg(u: int) -> bool
    recommends
        0 <= u,
{
    u % 200 > 100
}

/// Magnitude of the sine at `u` hundredths of a half-turn, any `u`.
pub open spec fn sin_mag_at(u: int) -> int
    recommends
        0 <= u,
{
    let w = u % 200;
    if w <= 100 {
        sin_mag_spec(w)
    } else {
        sin_mag_spec(w - 100)
    }
}

/// The sine magnitude over one half-turn, scaled by `TRIG_SCALE`.
pub fn sin_mag(u: u64) -> (r: u64)
    requires
        u <= 100,
    ensures
        r as int == sin_mag_spec(u as int),
        r <= TRIG_SCALE,
{
    proof {
        assert(u as int * (100 - u as int) <= 2500) by (nonlinear_arith)
            requires 0 <= (u as int) <= 100;
    }
    let g: u64 = u * (100 - u);
    let num: u64 = 16000 * g;
    let den: u64 = 50000 - 4 * g;
    proof {
        lemma_div_multiples_vanish(TRIG_SCALE as int, den as int);
        lemma_div_is_ordered(num as int, den as int * TRIG_SCALE as int, den as int);
    }
    num / den
}

/// Sign and magnitude of the sine at `u` hundredths of a half-turn.
pub fn sin_parts(u: u64) -> (r: (bool, u64))
    ensures
        r.0 == sin_is_neg(u as int),
        r.1 as int == sin_mag_at(u as int),
        r.1 <= TRIG_SCALE,
{
    let w: u64 = u % 200;
    if w <= 100 {
        (false, sin_mag(w))
    } else {
        (true, sin_mag(w - 100))
    }
}

/// Signed distance from the centre along one axis for spiral point `i`:
/// the spiral parameter `i / 100` times the spiral radius — nine tenths of
/// the half-size `m` — times the sine whose magnitude and sign are given.
pub open spec fn spiral_offset_spec(i: int, m: int, u: int) -> int
    recommends
        0 <= i < 100,
        0 <= m,
        0 <= u,
{
    let off = 9 * i * m * sin_mag_at(u) / 1000000;
    if sin_is_neg(u) {
        -off
    } else {
        off
    }
}

/// The cell that spiral point `i` occupies on a `w` by `h` grid: the centre
/// displaced by the cosine and sine offsets, the cosine taken as the sine a
/// quarter-turn ahead.
pub open spec fn spiral_point_spec(i: int, w: int, h: int) -> (int, int)
    recommends
        0 <= i < 100,
        2 <= w,
        2 <= h,
{
    let cx = w / 2;
    let cy = h / 2;
    let m = if cx <= cy {
        cx
    } else {
        cy
    };
    (cx + spiral_offset_spec(i, m, 3 * i + 50), cy + spiral_offset_spec(i, m, 3 * i))
}

/// The point lies within the spiral radius of the centre: along each axis it
/// is no further than nine tenths of the half-size `m` of the grid, and its
/// euclidean distance from the centre is within the same radius, stated over
/// squares.
pub open spec fn within_spiral_radius(p: (int, int), w: int, h: int) -> bool {
    let cx = w / 2;
    let cy = h / 2;
    let m = if cx <= cy {
        cx
    } else {
        cy
    };
    &&& 10 * (p.0 - cx) <= 9 * m
    &&& 10 * (cx - p.0) <= 9 * m
    &&& 10 * (p.1 - cy) <= 9 * m
    &&& 10 * (cy - p.1) <= 9 * m
    &&& 100 * ((p.0 - cx) * (p.0 - cx) + (p.1 - cy) * (p.1 - cy)) <= 81 * (m * m)
}

/// The half-size of a grid whose cells fit in memory fits comfortably in a
/// machine word with room for the fixed-point products.
proof fn lemma_half_size_bound(w: int, h: int)
    by (nonlinear_arith)
    requires
        2 <= w,
        2 <= h,
        w * h <= usize::MAX as int,
        usize::MAX as int <= 0xffff_ffff_ffff_ffff,
    ensures
        (if w / 2 <= h / 2 {
            w / 2
        } else {
            h / 2
        }) <= 0x8000_0000,
{
    let cx = w / 2;
    let cy = h / 2;
    let m = if cx <= cy {
        cx
    } else {
        cy
    };
    assert(2 * cx <= w && 2 * cy <= h);
    assert((2 * cx) * (2 * cy) <= w * h);
    assert(m * m <= cx * cy);
    assert(m * m <= 0x4000_0000_0000_0000);
    if m > 0x8000_0000 {
        assert(m * m > 0x4000_0000_0000_0000);
    }
}

/// The magnitude of a spiral offset: below the half-size, and within nine
/// tenths of it.
proof fn lemma_offset_bounds(i: int, m: int, mag: int)
    requires
        0 <= i < 100,
        1 <= m,
        0 <= mag <= TRIG_SCALE as int,
    ensures
        9 * i * m * mag / 1000000 < m,
        10 * (9 * i * m * mag / 1000000) <= 9 * m,
        (9 * i * m * mag / 1000000) * 1000000 <= 9 * i * m * mag,
{
    let a = 9 * i * m * mag;
    assert(0 <= a && a <= 891000 * m) by (nonlinear_arith)
        requires
            0 <= i < 100,
            1 <= m,
            0 <= mag <= 1000,
            a == 9 * i * m * mag,
    ;
    assert(a < 1000000 * m);
    lemma_multiply_divide_lt(a, 1000000, m);
    lemma_fundamental_div_mod(a, 1000000);
    lemma_mod_bound(a, 1000000);
    assert(1000000 * (a / 1000000) <= a);
    assert(1000000 * (a / 1000000) <= 900000 * m);
    assert(10 * (a / 1000000) <= 9 * m);
    assert((a / 1000000) * 1000000 <= a);
}


/// The sine pair bound for parameters from 0 through 4.
#[verifier::rlimit(100)]
#[verifier::spinoff_prover]
proof fn lemma_sine_pair_0(a: int)
    requires
        0 <= a <= 4,
    ensures
        sin_mag_spec(a) * sin_mag_spec(a) + sin_mag_spec(a + 50) * sin_mag_spec(a + 50)
            <= 1020000,
{
    if a == 0 {
        assert(sin_mag_spec(0) == 0) by {
            assert(0int * (100 - 0) == 0);
            lemma_fundamental_div_mod_converse_div(16000int * 0, 50000 - 4 * 0, 0, 0);
        }
        assert(sin_mag_spec(50) == 1000) by {
            assert(50int * (100 - 50) == 2500);
            lemma_fundamental_div_mod_converse_div(16000int * 2500, 50000 - 4 * 2500, 1000, 0);
        }
    } else if a == 1 {
        assert(sin_mag_spec(1) == 31) by {
            assert(1int * (100 - 1) == 99);
            lemma_fundamental_div_mod_converse_div(16000int * 99, 50000 - 4 * 99, 31, 46276);
        }
        assert(sin_mag_spec(51) == 999) by {
            assert(51int * (100 - 51) == 2499);
            lemma_fundamental_div_mod_converse_div(16000int * 2499, 50000 - 4 * 2499, 999, 20004);
        }
    } else if a == 2 {
        assert(sin_mag_spec(2) == 63) by {
            assert(2int * (100 - 2) == 196);
            lemma_fundamental_div_mod_converse_div(16000int * 196, 50000 - 4 * 196, 63, 35392);
        }
        assert(sin_mag_spec(52) == 998) by {
            assert(52int * (100 - 52) == 2496);
            lemma_fundamental_div_mod_converse_div(16000int * 2496, 50000 - 4 * 2496, 998, 32);
        }
    } else if a == 3 {
        assert(sin_mag_spec(3) == 95) by {
            assert(3int * (100 - 3) == 291);
            lemma_fundamental_div_mod_converse_div(16000int * 291, 50000 - 4 * 291, 95, 16580);
        }
        assert(sin_mag_spec(53) == 995) by {
            assert(53int * (100 - 53) == 2491);
            lemma_fundamental_div_mod_converse_div(16000int * 2491, 50000 - 4 * 2491, 995, 20180);
        }
    } else if a == 4 {
        assert(sin_mag_spec(4) == 126) by {
            assert(4int * (100 - 4) == 384);
            lemma_fundamental_div_mod_converse_div(16000int * 384, 50000 - 4 * 384, 126, 37536);
        }
        assert(sin_mag_spec(54) == 992) by {
            assert(54int * (100 - 54) == 2484);
            lemma_fundamental_div_mod_converse_div(16000int * 2484, 50000 - 4 * 2484, 992, 512);
        }
    }
}

/// The sine pair bound for parameters from 5 through 9.
#[verifier::rlimit(100)]
#[verifier::spinoff_prover]
proof fn lemma_sine_pair_5(a: int)
    requires
        5 <= a <= 9,
    ensures
        sin_mag_spec(a) * sin_mag_spec(a) + sin_mag_spec(a + 50) * sin_mag_spec(a + 50)
            <= 1020000,
{
    if a == 5 {
        assert(sin_mag_spec(5) == 158) by {
            assert(5int * (100 - 5) == 475);
            lemma_fundamental_div_mod_converse_div(16000int * 475, 50000 - 4 * 475, 158, 200);
        }
        assert(sin_mag_spec(55) == 987) by {
            assert(55int * (100 - 55) == 2475);
            lemma_fundamental_div_mod_converse_div(16000int * 2475, 50000 - 4 * 2475, 987, 21300);
        }
    } else if a == 6 {
        assert(sin_mag_spec(6) == 189) by {
            assert(6int * (100 - 6) == 564);
            lemma_fundamental_div_mod_converse_div(16000int * 564, 50000 - 4 * 564, 189, 384);
        }
        assert(sin_mag_spec(56) == 982) by {
            assert(56int * (100 - 56) == 2464);
            lemma_fundamental_div_mod_converse_div(16000int * 2464, 50000 - 4 * 2464, 982, 2592);
        }
    } else if a == 7 {
        assert(sin_mag_spec(7) == 219) by {
            assert(7int * (100 - 7) == 651);
            lemma_fundamental_div_mod_converse_div(16000int * 651, 50000 - 4 * 651, 219, 36276);
        }
        assert(sin_mag_spec(57) == 975) by {
            assert(57int * (100 - 57) == 2451);
            lemma_fundamental_div_mod_converse_div(16000int * 2451, 50000 - 4 * 2451, 975, 24900);
        }
    } else if a == 8 {
        assert(sin_mag_spec(8) == 250) by {
            assert(8int * (100 - 8) == 736);
            lemma_fundamental_div_mod_converse_div(16000int * 736, 50000 - 4 * 736, 250, 12000);
        }
        assert(sin_mag_spec(58) == 968) by {
            assert(58int * (100 - 58) == 2436);
            lemma_fundamental_div_mod_converse_div(16000int * 2436, 50000 - 4 * 2436, 968, 8192);
        }
    } else if a == 9 {
        assert(sin_mag_spec(9) == 280) by {
            assert(9int * (100 - 9) == 819);
            lemma_fundamental_div_mod_converse_div(16000int * 819, 50000 - 4 * 819, 280, 21280);
        }
        assert(sin_mag_spec(59) == 959) by {
            assert(59int * (100 - 59) == 2419);
            lemma_fundamental_div_mod_converse_div(16000int * 2419, 50000 - 4 * 2419, 959, 33284);
        }
    }
}

/// The sine pair bound for parameters from 10 through 14.
#[verifier::rlimit(100)]
#[verifier::spinoff_prover]
proof fn lemma_sine_pair_10(a: int)
    requires
        10 <= a <= 14,
    ensures
        sin_mag_spec(a) * sin_mag_spec(a) + sin_mag_spec(a + 50) * sin_mag_spec(a + 50)
            <= 1020000,
{
    if a == 10 {
        assert(sin_mag_spec(10) == 310) by {
            assert(10int * (100 - 10) == 900);
            lemma_fundamental_div_mod_converse_div(16000int * 900, 50000 - 4 * 900, 310, 16000);
        }
        assert(sin_mag_spec(60) == 950) by {
            assert(60int * (100 - 60) == 2400);
            lemma_fundamental_div_mod_converse_div(16000int * 2400, 50000 - 4 * 2400, 950, 20000);
        }
    } else if a == 11 {
        assert(sin_mag_spec(11) == 339) by {
            assert(11int * (100 - 11) == 979);
            lemma_fundamental_div_mod_converse_div(16000int * 979, 50000 - 4 * 979, 339, 41524);
        }
        assert(sin_mag_spec(61) == 940) by {
            assert(61int * (100 - 61) == 2379);
            lemma_fundamental_div_mod_converse_div(16000int * 2379, 50000 - 4 * 2379, 940, 9040);
        }
    } else if a == 12 {
        assert(sin_mag_spec(12) == 369) by {
            assert(12int * (100 - 12) == 1056);
            lemma_fundamental_div_mod_converse_div(16000int * 1056, 50000 - 4 * 1056, 369, 4656);
        }
        assert(sin_mag_spec(62) == 929) by {
            assert(62int * (100 - 62) == 2356);
            lemma_fundamental_div_mod_converse_div(16000int * 2356, 50000 - 4 * 2356, 929, 896);
        }
    } else if a == 13 {
        assert(sin_mag_spec(13) == 397) by {
            assert(13int * (100 - 13) == 1131);
            lemma_fundamental_div_mod_converse_div(16000int * 1131, 50000 - 4 * 1131, 397, 42028);
        }
        assert(sin_mag_spec(63) == 916) by {
            assert(63int * (100 - 63) == 2331);
            lemma_fundamental_div_mod_converse_div(16000int * 2331, 50000 - 4 * 2331, 916, 36784);
        }
    } else if a == 14 {
        assert(sin_mag_spec(14) == 426) by {
            assert(14int * (100 - 14) == 1204);
            lemma_fundamental_div_mod_converse_div(16000int * 1204, 50000 - 4 * 1204, 426, 15616);
        }
        assert(sin_mag_spec(64) == 903) by {
            assert(64int * (100 - 64) == 2304);
            lemma_fundamental_div_mod_converse_div(16000int * 2304, 50000 - 4 * 2304, 903, 36048);
        }
    }
}

/// The sine pair bound for parameters from 15 through 19.
#[verifier::rlimit(100)]
#[verifier::spinoff_prover]
proof fn lemma_sine_pair_15(a: int)
    requires
        15 <= a <= 19,
    ensures
        sin_mag_spec(a) * sin_mag_spec(a) + sin_mag_spec(a + 50) * sin_mag_spec(a + 50)
            <= 1020000,
{
    if a == 15 {
        assert(sin_mag_spec(15) == 454) by {
            assert(15int * (100 - 15) == 1275);
            lemma_fundamental_div_mod_converse_div(16000int * 1275, 50000 - 4 * 1275, 454, 15400);
        }
        assert(sin_mag_spec(65) == 889) by {
            assert(65int * (100 - 65) == 2275);
            lemma_fundamental_div_mod_converse_div(16000int * 2275, 50000 - 4 * 2275, 889, 39900);
        }
    } else if a == 16 {
        assert(sin_mag_spec(16) == 481) by {
            assert(16int * (100 - 16) == 1344);
            lemma_fundamental_div_mod_converse_div(16000int * 1344, 50000 - 4 * 1344, 481, 39856);
        }
        assert(sin_mag_spec(66) == 875) by {
            assert(66int * (100 - 66) == 2244);
            lemma_fundamental_div_mod_converse_div(16000int * 2244, 50000 - 4 * 2244, 875, 8000);
        }
    } else if a == 17 {
        assert(sin_mag_spec(17) == 508) by {
            assert(17int * (100 - 17) == 1411);
            lemma_fundamental_div_mod_converse_div(16000int * 1411, 50000 - 4 * 1411, 508, 43152);
        }
        assert(sin_mag_spec(67) == 859) by {
            assert(67int * (100 - 67) == 2211);
            lemma_fundamental_div_mod_converse_div(16000int * 2211, 50000 - 4 * 2211, 859, 22996);
        }
    } else if a == 18 {
        assert(sin_mag_spec(18) == 535) by {
            assert(18int * (100 - 18) == 1476);
            lemma_fundamental_div_mod_converse_div(16000int * 1476, 50000 - 4 * 1476, 535, 24640);
        }
        assert(sin_mag_spec(68) == 843) by {
            assert(68int * (100 - 68) == 2176);
            lemma_fundamental_div_mod_converse_div(16000int * 2176, 50000 - 4 * 2176, 843, 3472);
        }
    } else if a == 19 {
        assert(sin_mag_spec(19) == 561) by {
            assert(19int * (100 - 19) == 1539);
            lemma_fundamental_div_mod_converse_div(16000int * 1539, 50000 - 4 * 1539, 561, 27516);
        }
        assert(sin_mag_spec(69) == 825) by {
            assert(69int * (100 - 69) == 2139);
            lemma_fundamental_div_mod_converse_div(16000int * 2139, 50000 - 4 * 2139, 825, 32700);
        }
    }
}

/// The sine pair bound for parameters from 20 through 24.
#[verifier::rlimit(100)]
#[verifier::spinoff_prover]
proof fn lemma_sine_pair_20(a: int)
    requires
        20 <= a <= 24,
    ensures
        sin_mag_spec(a) * sin_mag_spec(a) + sin_mag_spec(a + 50) * sin_mag_spec(a + 50)
            <= 1020000,
{
    if a == 20 {
        assert(sin_mag_spec(20) == 587) by {
            assert(20int * (100 - 20) == 1600);
            lemma_fundamental_div_mod_converse_div(16000int * 1600, 50000 - 4 * 1600, 587, 6800);
        }
        assert(sin_mag_spec(70) == 807) by {
            assert(70int * (100 - 70) == 2100);
            lemma_fundamental_div_mod_converse_div(16000int * 2100, 50000 - 4 * 2100, 807, 28800);
        }
    } else if a == 21 {
        assert(sin_mag_spec(21) == 612) by {
            assert(21int * (100 - 21) == 1659);
            lemma_fundamental_div_mod_converse_div(16000int * 1659, 50000 - 4 * 1659, 612, 5232);
        }
        assert(sin_mag_spec(71) == 788) by {
            assert(71int * (100 - 71) == 2059);
            lemma_fundamental_div_mod_converse_div(16000int * 2059, 50000 - 4 * 2059, 788, 33968);
        }
    } else if a == 22 {
        assert(sin_mag_spec(22) == 636) by {
            assert(22int * (100 - 22) == 1716);
            lemma_fundamental_div_mod_converse_div(16000int * 1716, 50000 - 4 * 1716, 636, 21504);
        }
        assert(sin_mag_spec(72) == 769) by {
            assert(72int * (100 - 72) == 2016);
            lemma_fundamental_div_mod_converse_div(16000int * 2016, 50000 - 4 * 2016, 769, 7216);
        }
    } else if a == 23 {
        assert(sin_mag_spec(23) == 660) by {
            assert(23int * (100 - 23) == 1771);
            lemma_fundamental_div_mod_converse_div(16000int * 1771, 50000 - 4 * 1771, 660, 11440);
        }
        assert(sin_mag_spec(73) == 748) by {
            assert(73int * (100 - 73) == 1971);
            lemma_fundamental_div_mod_converse_div(16000int * 1971, 50000 - 4 * 1971, 748, 33232);
        }
    } else if a == 24 {
        assert(sin_mag_spec(24) == 683) by {
            assert(24int * (100 - 24) == 1824);
            lemma_fundamental_div_mod_converse_div(16000int * 1824, 50000 - 4 * 1824, 683, 17168);
        }
        assert(sin_mag_spec(74) == 727) by {
            assert(74int * (100 - 74) == 1924);
            lemma_fundamental_div_mod_converse_div(16000int * 1924, 50000 - 4 * 1924, 727, 28992);
        }
    }
}

/// The sine pair bound for parameters from 25 through 29.
#[verifier::rlimit(100)]
#[verifier::spinoff_prover]
proof fn lemma_sine_pair_25(a: int)
    requires
        25 <= a <= 29,
    ensures
        sin_mag_spec(a) * sin_mag_spec(a) + sin_mag_spec(a + 50) * sin_mag_spec(a + 50)
            <= 1020000,
{
    if a == 25 {
        assert(sin_mag_spec(25) == 705) by {
            assert(25int * (100 - 25) == 1875);
            lemma_fundamental_div_mod_converse_div(16000int * 1875, 50000 - 4 * 1875, 705, 37500);
        }
        assert(sin_mag_spec(75) == 705) by {
            assert(75int * (100 - 75) == 1875);
            lemma_fundamental_div_mod_converse_div(16000int * 1875, 50000 - 4 * 1875, 705, 37500);
        }
    } else if a == 26 {
        assert(sin_mag_spec(26) == 727) by {
            assert(26int * (100 - 26) == 1924);
            lemma_fundamental_div_mod_converse_div(16000int * 1924, 50000 - 4 * 1924, 727, 28992);
        }
        assert(sin_mag_spec(76) == 683) by {
            assert(76int * (100 - 76) == 1824);
            lemma_fundamental_div_mod_converse_div(16000int * 1824, 50000 - 4 * 1824, 683, 17168);
        }
    } else if a == 27 {
        assert(sin_mag_spec(27) == 748) by {
            assert(27int * (100 - 27) == 1971);
            lemma_fundamental_div_mod_converse_div(16000int * 1971, 50000 - 4 * 1971, 748, 33232);
        }
        assert(sin_mag_spec(77) == 660) by {
            assert(77int * (100 - 77) == 1771);
            lemma_fundamental_div_mod_converse_div(16000int * 1771, 50000 - 4 * 1771, 660, 11440);
        }
    } else if a == 28 {
        assert(sin_mag_spec(28) == 769) by {
            assert(28int * (100 - 28) == 2016);
            lemma_fundamental_div_mod_converse_div(16000int * 2016, 50000 - 4 * 2016, 769, 7216);
        }
        assert(sin_mag_spec(78) == 636) by {
            assert(78int * (100 - 78) == 1716);
            lemma_fundamental_div_mod_converse_div(16000int * 1716, 50000 - 4 * 1716, 636, 21504);
        }
    } else if a == 29 {
        assert(sin_mag_spec(29) == 788) by {
            assert(29int * (100 - 29) == 2059);
            lemma_fundamental_div_mod_converse_div(16000int * 2059, 50000 - 4 * 2059, 788, 33968);
        }
        assert(sin_mag_spec(79) == 612) by {
            assert(79int * (100 - 79) == 1659);
            lemma_fundamental_div_mod_converse_div(16000int * 1659, 50000 - 4 * 1659, 612, 5232);
        }
    }
}

/// The sine pair bound for parameters from 30 through 34.
#[verifier::rlimit(100)]
#[verifier::spinoff_prover]
proof fn lemma_sine_pair_30(a: int)
    requires
        30 <= a <= 34,
    ensures
        sin_mag_spec(a) * sin_mag_spec(a) + sin_mag_spec(a + 50) * sin_mag_spec(a + 50)
            <= 1020000,
{
    if a == 30 {
        assert(sin_mag_spec(30) == 807) by {
            assert(30int * (100 - 30) == 2100);
            lemma_fundamental_div_mod_converse_div(16000int * 2100, 50000 - 4 * 2100, 807, 28800);
        }
        assert(sin_mag_spec(80) == 587) by {
            assert(80int * (100 - 80) == 1600);
            lemma_fundamental_div_mod_converse_div(16000int * 1600, 50000 - 4 * 1600, 587, 6800);
        }
    } else if a == 31 {
        assert(sin_mag_spec(31) == 825) by {
            assert(31int * (100 - 31) == 2139);
            lemma_fundamental_div_mod_converse_div(16000int * 2139, 50000 - 4 * 2139, 825, 32700);
        }
        assert(sin_mag_spec(81) == 561) by {
            assert(81int * (100 - 81) == 1539);
            lemma_fundamental_div_mod_converse_div(16000int * 1539, 50000 - 4 * 1539, 561, 27516);
        }
    } else if a == 32 {
        assert(sin_mag_spec(32) == 843) by {
            assert(32int * (100 - 32) == 2176);
            lemma_fundamental_div_mod_converse_div(16000int * 2176, 50000 - 4 * 2176, 843, 3472);
        }
        assert(sin_mag_spec(82) == 535) by {
            assert(82int * (100 - 82) == 1476);
            lemma_fundamental_div_mod_converse_div(16000int * 1476, 50000 - 4 * 1476, 535, 24640);
        }
    } else if a == 33 {
        assert(sin_mag_spec(33) == 859) by {
            assert(33int * (100 - 33) == 2211);
            lemma_fundamental_div_mod_converse_div(16000int * 2211, 50000 - 4 * 2211, 859, 22996);
        }
        assert(sin_mag_spec(83) == 508) by {
            assert(83int * (100 - 83) == 1411);
            lemma_fundamental_div_mod_converse_div(16000int * 1411, 50000 - 4 * 1411, 508, 43152);
        }
    } else if a == 34 {
        assert(sin_mag_spec(34) == 875) by {
            assert(34int * (100 - 34) == 2244);
            lemma_fundamental_div_mod_converse_div(16000int * 2244, 50000 - 4 * 2244, 875, 8000);
        }
        assert(sin_mag_spec(84) == 481) by {
            assert(84int * (100 - 84) == 1344);
            lemma_fundamental_div_mod_converse_div(16000int * 1344, 50000 - 4 * 1344, 481, 39856);
        }
    }
}

/// The sine pair bound for parameters from 35 through 39.
#[verifier::rlimit(100)]
#[verifier::spinoff_prover]
proof fn lemma_sine_pair_35(a: int)
    requires
        35 <= a <= 39,
    ensures
        sin_mag_spec(a) * sin_mag_spec(a) + sin_mag_spec(a + 50) * sin_mag_spec(a + 50)
            <= 1020000,
{
    if a == 35 {
        assert(sin_mag_spec(35) == 889) by {
            assert(35int * (100 - 35) == 2275);
            lemma_fundamental_div_mod_converse_div(16000int * 2275, 50000 - 4 * 2275, 889, 39900);
        }
        assert(sin_mag_spec(85) == 454) by {
            assert(85int * (100 - 85) == 1275);
            lemma_fundamental_div_mod_converse_div(16000int * 1275, 50000 - 4 * 1275, 454, 15400);
        }
    } else if a == 36 {
        assert(sin_mag_spec(36) == 903) by {
            assert(36int * (100 - 36) == 2304);
            lemma_fundamental_div_mod_converse_div(16000int * 2304, 50000 - 4 * 2304, 903, 36048);
        }
        assert(sin_mag_spec(86) == 426) by {
            assert(86int * (100 - 86) == 1204);
            lemma_fundamental_div_mod_converse_div(16000int * 1204, 50000 - 4 * 1204, 426, 15616);
        }
    } else if a == 37 {
        assert(sin_mag_spec(37) == 916) by {
            assert(37int * (100 - 37) == 2331);
            lemma_fundamental_div_mod_converse_div(16000int * 2331, 50000 - 4 * 2331, 916, 36784);
        }
        assert(sin_mag_spec(87) == 397) by {
            assert(87int * (100 - 87) == 1131);
            lemma_fundamental_div_mod_converse_div(16000int * 1131, 50000 - 4 * 1131, 397, 42028);
        }
    } else if a == 38 {
        assert(sin_mag_spec(38) == 929) by {
            assert(38int * (100 - 38) == 2356);
            lemma_fundamental_div_mod_converse_div(16000int * 2356, 50000 - 4 * 2356, 929, 896);
        }
        assert(sin_mag_spec(88) == 369) by {
            assert(88int * (100 - 88) == 1056);
            lemma_fundamental_div_mod_converse_div(16000int * 1056, 50000 - 4 * 1056, 369, 4656);
        }
    } else if a == 39 {
        assert(sin_mag_spec(39) == 940) by {
            assert(39int * (100 - 39) == 2379);
            lemma_fundamental_div_mod_converse_div(16000int * 2379, 50000 - 4 * 2379, 940, 9040);
        }
        assert(sin_mag_spec(89) == 339) by {
            assert(89int * (100 - 89) == 979);
            lemma_fundamental_div_mod_converse_div(16000int * 979, 50000 - 4 * 979, 339, 41524);
        }
    }
}

/// The sine pair bound for parameters from 40 through 44.
#[verifier::rlimit(100)]
#[verifier::spinoff_prover]
proof fn lemma_sine_pair_40(a: int)
    requires
        40 <= a <= 44,
    ensures
        sin_mag_spec(a) * sin_mag_spec(a) + sin_mag_spec(a + 50) * sin_mag_spec(a + 50)
            <= 1020000,
{
    if a == 40 {
        assert(sin_mag_spec(40) == 950) by {
            assert(40int * (100 - 40) == 2400);
            lemma_fundamental_div_mod_converse_div(16000int * 2400, 50000 - 4 * 2400, 950, 20000);
        }
        assert(sin_mag_spec(90) == 310) by {
            assert(90int * (100 - 90) == 900);
            lemma_fundamental_div_mod_converse_div(16000int * 900, 50000 - 4 * 900, 310, 16000);
        }
    } else if a == 41 {
        assert(sin_mag_spec(41) == 959) by {
            assert(41int * (100 - 41) == 2419);
            lemma_fundamental_div_mod_converse_div(16000int * 2419, 50000 - 4 * 2419, 959, 33284);
        }
        assert(sin_mag_spec(91) == 280) by {
            assert(91int * (100 - 91) == 819);
            lemma_fundamental_div_mod_converse_div(16000int * 819, 50000 - 4 * 819, 280, 21280);
        }
    } else if a == 42 {
        assert(sin_mag_spec(42) == 968) by {
            assert(42int * (100 - 42) == 2436);
            lemma_fundamental_div_mod_converse_div(16000int * 2436, 50000 - 4 * 2436, 968, 8192);
        }
        assert(sin_mag_spec(92) == 250) by {
            assert(92int * (100 - 92) == 736);
            lemma_fundamental_div_mod_converse_div(16000int * 736, 50000 - 4 * 736, 250, 12000);
        }
    } else if a == 43 {
        assert(sin_mag_spec(43) == 975) by {
            assert(43int * (100 - 43) == 2451);
            lemma_fundamental_div_mod_converse_div(16000int * 2451, 50000 - 4 * 2451, 975, 24900);
        }
        assert(sin_mag_spec(93) == 219) by {
            assert(93int * (100 - 93) == 651);
            lemma_fundamental_div_mod_converse_div(16000int * 651, 50000 - 4 * 651, 219, 36276);
        }
    } else if a == 44 {
        assert(sin_mag_spec(44) == 982) by {
            assert(44int * (100 - 44) == 2464);
            lemma_fundamental_div_mod_converse_div(16000int * 2464, 50000 - 4 * 2464, 982, 2592);
        }
        assert(sin_mag_spec(94) == 189) by {
            assert(94int * (100 - 94) == 564);
            lemma_fundamental_div_mod_converse_div(16000int * 564, 50000 - 4 * 564, 189, 384);
        }
    }
}

/// The sine pair bound for parameters from 45 through 49.
#[verifier::rlimit(100)]
#[verifier::spinoff_prover]
proof fn lemma_sine_pair_45(a: int)
    requires
        45 <= a <= 49,
    ensures
        sin_mag_spec(a) * sin_mag_spec(a) + sin_mag_spec(a + 50) * sin_mag_spec(a + 50)
            <= 1020000,
{
    if a == 45 {
        assert(sin_mag_spec(45) == 987) by {
            assert(45int * (100 - 45) == 2475);
            lemma_fundamental_div_mod_converse_div(16000int * 2475, 50000 - 4 * 2475, 987, 21300);
        }
        assert(sin_mag_spec(95) == 158) by {
            assert(95int * (100 - 95) == 475);
            lemma_fundamental_div_mod_converse_div(16000int * 475, 50000 - 4 * 475, 158, 200);
        }
    } else if a == 46 {
        assert(sin_mag_spec(46) == 992) by {
            assert(46int * (100 - 46) == 2484);
            lemma_fundamental_div_mod_converse_div(16000int * 2484, 50000 - 4 * 2484, 992, 512);
        }
        assert(sin_mag_spec(96) == 126) by {
            assert(96int * (100 - 96) == 384);
            lemma_fundamental_div_mod_converse_div(16000int * 384, 50000 - 4 * 384, 126, 37536);
        }
    } else if a == 47 {
        assert(sin_mag_spec(47) == 995) by {
            assert(47int * (100 - 47) == 2491);
            lemma_fundamental_div_mod_converse_div(16000int * 2491, 50000 - 4 * 2491, 995, 20180);
        }
        assert(sin_mag_spec(97) == 95) by {
            assert(97int * (100 - 97) == 291);
            lemma_fundamental_div_mod_converse_div(16000int * 291, 50000 - 4 * 291, 95, 16580);
        }
    } else if a == 48 {
        assert(sin_mag_spec(48) == 998) by {
            assert(48int * (100 - 48) == 2496);
            lemma_fundamental_div_mod_converse_div(16000int * 2496, 50000 - 4 * 2496, 998, 32);
        }
        assert(sin_mag_spec(98) == 63) by {
            assert(98int * (100 - 98) == 196);
            lemma_fundamental_div_mod_converse_div(16000int * 196, 50000 - 4 * 196, 63, 35392);
        }
    } else if a == 49 {
        assert(sin_mag_spec(49) == 999) by {
            assert(49int * (100 - 49) == 2499);
            lemma_fundamental_div_mod_converse_div(16000int * 2499, 50000 - 4 * 2499, 999, 20004);
        }
        assert(sin_mag_spec(99) == 31) by {
            assert(99int * (100 - 99) == 99);
            lemma_fundamental_div_mod_converse_div(16000int * 99, 50000 - 4 * 99, 31, 46276);
        }
    }
}

/// The sine pair bound for parameters from 50 through 50.
#[verifier::rlimit(100)]
#[verifier::spinoff_prover]
proof fn lemma_sine_pair_50(a: int)
    requires
        50 <= a <= 50,
    ensures
        sin_mag_spec(a) * sin_mag_spec(a) + sin_mag_spec(a + 50) * sin_mag_spec(a + 50)
            <= 1020000,
{
    if a == 50 {
        assert(sin_mag_spec(50) == 1000) by {
            assert(50int * (100 - 50) == 2500);
            lemma_fundamental_div_mod_converse_div(16000int * 2500, 50000 - 4 * 2500, 1000, 0);
        }
        assert(sin_mag_spec(100) == 0) by {
            assert(100int * (100 - 100) == 0);
            lemma_fundamental_div_mod_converse_div(16000int * 0, 50000 - 4 * 0, 0, 0);
        }
    }
}

/// One quarter-turn apart, the squares of the two sine magnitudes sum to at
/// most a whisker above the squared scale: the approximation strays from the
/// unit circle by no more than two per cent in the square.
proof fn lemma_sine_pair(a: int)
    requires
        0 <= a <= 50,
    ensures
        sin_mag_spec(a) * sin_mag_spec(a) + sin_mag_spec(a + 50) * sin_mag_spec(a + 50)
            <= 1020000,
{
    if a <= 4 {
        lemma_sine_pair_0(a);
    } else if a <= 9 {
        lemma_sine_pair_5(a);
    } else if a <= 14 {
        lemma_sine_pair_10(a);
    } else if a <= 19 {
        lemma_sine_pair_15(a);
    } else if a <= 24 {
        lemma_sine_pair_20(a);
    } else if a <= 29 {
        lemma_sine_pair_25(a);
    } else if a <= 34 {
        lemma_sine_pair_30(a);
    } else if a <= 39 {
        lemma_sine_pair_35(a);
    } else if a <= 44 {
        lemma_sine_pair_40(a);
    } else if a <= 49 {
        lemma_sine_pair_45(a);
    } else {
        lemma_sine_pair_50(a);
    }
}

/// A remainder by a full turn, for angles below two turns.
proof fn lemma_turn_mod(s: int)
    requires
        0 <= s < 400,
    ensures
        s % 200 == if s < 200 {
            s
        } else {
            s - 200
        },
{
    if s < 200 {
        lemma_small_mod(s as nat, 200);
    } else {
        lemma_mod_sub_multiples_vanish(s, 200);
        lemma_small_mod((s - 200) as nat, 200);
    }
}

/// Wherever spiral point `i` stands on its turns, the sine and cosine
/// magnitudes it uses square-sum to at most the padded squared scale.
proof fn lemma_spiral_pair_bound(i: int)
    requires
        0 <= i < 100,
    ensures
        sin_mag_at(3 * i) * sin_mag_at(3 * i) + sin_mag_at(3 * i + 50) * sin_mag_at(3 * i + 50)
            <= 1020000,
{
    let s = 3 * i;
    let c = 3 * i + 50;
    lemma_turn_mod(s);
    lemma_turn_mod(c);
    if i <= 16 {
        lemma_sine_pair(s);
    } else if i <= 33 {
        lemma_sine_pair(s - 50);
    } else if i <= 49 {
        lemma_sine_pair(s - 100);
    } else if i == 50 {
        lemma_sine_pair(0);
        lemma_sine_pair(50);
    } else if i <= 66 {
        lemma_sine_pair(s - 150);
    } else if i <= 83 {
        lemma_sine_pair(s - 200);
    } else {
        lemma_sine_pair(s - 250);
    }
}

/// From the per-axis floor bounds and the near-unit square-sum of the two
/// sine magnitudes, the squared euclidean offset stays within the squared
/// spiral radius.
proof fn lemma_offset_euclid(i: int, m: int, magc: int, mags: int, offc: int, offs: int)
    requires
        0 <= i < 100,
        1 <= m,
        0 <= magc,
        0 <= mags,
        magc * magc + mags * mags <= 1020000,
        0 <= offc,
        0 <= offs,
        offc * 1000000 <= 9 * i * m * magc,
        offs * 1000000 <= 9 * i * m * mags,
    ensures
        100 * (offc * offc + offs * offs) <= 81 * (m * m),
{
    let a = 9 * i * m;
    assert(0 <= a && a <= 891 * m && 0 <= a * magc && 0 <= a * mags) by (nonlinear_arith)
        requires
            0 <= i < 100,
            1 <= m,
            0 <= magc,
            0 <= mags,
            a == 9 * i * m,
    ;
    assert((offc * 1000000) * (offc * 1000000) <= (a * magc) * (a * magc) && (offs * 1000000) * (
    offs * 1000000) <= (a * mags) * (a * mags)) by (nonlinear_arith)
        requires
            0 <= offc * 1000000 <= a * magc,
            0 <= offs * 1000000 <= a * mags,
    ;
    assert((a * magc) * (a * magc) + (a * mags) * (a * mags) == (a * a) * (magc * magc + mags
        * mags)) by (nonlinear_arith);
    assert((offc * 1000000) * (offc * 1000000) + (offs * 1000000) * (offs * 1000000) == (offc * offc
        + offs * offs) * 1000000000000) by (nonlinear_arith);
    assert((a * a) * (magc * magc + mags * mags) <= (a * a) * 1020000) by (nonlinear_arith)
        requires
            0 <= a * a,
            0 <= magc * magc + mags * mags <= 1020000,
    ;
    assert(a * a <= 793881 * (m * m)) by (nonlinear_arith)
        requires
            0 <= a <= 891 * m,
            1 <= m,
    ;
    assert((a * a) * 1020000 <= (793881 * (m * m)) * 1020000) by (nonlinear_arith)
        requires
            0 <= a * a <= 793881 * (m * m),
    ;
    assert((793881 * (m * m)) * 1020000 == 809758620000 * (m * m)) by (nonlinear_arith);
    assert((offc * offc + offs * offs) * 1000000000000 <= 810000000000 * (m * m)) by (
    nonlinear_arith)
        requires
            (offc * offc + offs * offs) * 1000000000000 <= 809758620000 * (m * m),
            0 <= m * m,
    ;
    assert(100 * (offc * offc + offs * offs) <= 81 * (m * m)) by (nonlinear_arith)
        requires
            (offc * offc + offs * offs) * 1000000000000 <= 810000000000 * (m * m),
    ;
}

/// The cell of spiral point `i` on a `w` by `h` grid.
///
/// The cell is always strictly inside the field — never on the zero or far
/// row or column — and within the spiral radius of the centre.
pub fn spiral_point(i: u64, width: usize, height: usize) -> (r: (usize, usize))
    requires
        i < 100,
        2 <= width,
        2 <= height,
        width * height <= usize::MAX,
    ensures
        (r.0 as int, r.1 as int) == spiral_point_spec(i as int, width as int, height as int),
        0 < r.0 < width,
        0 < r.1 < height,
        within_spiral_radius((r.0 as int, r.1 as int), width as int, height as int),
{
    let cx: usize = width / 2;
    let cy: usize = height / 2;
    let m: usize = if cx <= cy {
        cx
    } else {
        cy
    };
    proof {
        lemma_half_size_bound(width as int, height as int);
    }
    let xs = sin_parts(3 * i + 50);
    let ys = sin_parts(3 * i);
    proof {
        assert(0 <= 9 * (i as int) * (m as int) * (xs.1 as int) <= 891000 * 0x8000_0000 && 0 <= 9
            * (i as int) * (m as int) * (ys.1 as int) <= 891000 * 0x8000_0000 && 0 <= 9 * (
        i as int) * (m as int) <= 891 * 0x8000_0000) by (nonlinear_arith)
            requires
                0 <= (i as int) < 100,
                0 <= (m as int) <= 0x8000_0000,
                0 <= (xs.1 as int) <= 1000,
                0 <= (ys.1 as int) <= 1000,
        ;
    }
    let offx: u64 = 9 * i * (m as u64) * xs.1 / 1000000;
    let offy: u64 = 9 * i * (m as u64) * ys.1 / 1000000;
    proof {
        lemma_offset_bounds(i as int, m as int, xs.1 as int);
        lemma_offset_bounds(i as int, m as int, ys.1 as int);
        lemma_spiral_pair_bound(i as int);
        lemma_offset_euclid(
            i as int,
            m as int,
            xs.1 as int,
            ys.1 as int,
            9 * (i as int) * (m as int) * (xs.1 as int) / 1000000,
            9 * (i as int) * (m as int) * (ys.1 as int) / 1000000,
        );
    }
    let x: usize = if xs.0 {
        cx - (offx as usize)
    } else {
        cx + (offx as usize)
    };
    let y: usize = if ys.0 {
        cy - (offy as usize)
    } else {
        cy + (offy as usize)
    };
    proof {
        let cxi = (width as int) / 2;
        let cyi = (height as int) / 2;
        let mi = if cxi <= cyi {
            cxi
        } else {
            cyi
        };
        let dx = x as int - cxi;
        let dy = y as int - cyi;
        let ox = offx as int;
        let oy = offy as int;
        assert(dx == ox || dx == -ox);
        assert(dy == oy || dy == -oy);
        assert(dx * dx == ox * ox && dy * dy == oy * oy) by (nonlinear_arith)
            requires
                dx == ox || dx == -ox,
                dy == oy || dy == -oy,
        ;
        assert(100 * (dx * dx + dy * dy) <= 81 * (mi * mi));
    }
    (x, y)
}

/// The hundred cells of the spiral seed, in order of the spiral parameter.
/// Exactly one cell is produced per spiral point — collisions from integer
/// truncation are not deduplicated here — and every one of them is strictly
/// inside the field and within the spiral radius of the centre.
pub fn spiral_points(width: usize, height: usize) -> (pts: Vec<(usize, usize)>)
    requires
        2 <= width,
        2 <= height,
        width * height <= usize::MAX,
    ensures
        pts@.len() == 100,
        forall|k: int|
            0 <= k < 100 ==> ((#[trigger] pts@[k]).0 as int, pts@[k].1 as int)
                == spiral_point_spec(k, width as int, height as int),
        forall|k: int|
            0 <= k < 100 ==> 0 < (#[trigger] pts@[k]).0 < width && 0 < pts@[k].1 < height,
        forall|k: int|
            0 <= k < 100 ==> within_spiral_radius(
                ((#[trigger] pts@[k]).0 as int, pts@[k].1 as int),
                width as int,
                height as int,
            ),
{
    let mut pts: Vec<(usize, usize)> = Vec::new();
    let mut i: u64 = 0;
    while i < SPIRAL_CELLS
        invariant
            2 <= width,
            2 <= height,
            width * height <= usize::MAX,
            i <= 100,
            pts@.len() == i,
            forall|k: int|
                0 <= k < i ==> ((#[trigger] pts@[k]).0 as int, pts@[k].1 as int)
                    == spiral_point_spec(k, width as int, height as int),
            forall|k: int|
                0 <= k < i ==> 0 < (#[trigger] pts@[k]).0 < width && 0 < pts@[k].1 < height,
            forall|k: int|
                0 <= k < i ==> within_spiral_radius(
                    ((#[trigger] pts@[k]).0 as int, pts@[k].1 as int),
                    width as int,
                    height as int,
                ),
        decreases 100 - i,
    {
        let p = spiral_point(i, width, height);
        pts.push(p);
        i = i + 1;
    }
    pts
}


} // verus!
