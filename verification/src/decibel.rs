//! From a window's peak-to-trough span to a rounded decibel value, in integers.
//!
//! The amplitude of a window is half its span, its loudness is
//! `20 * log10(amplitude)` decibels, and the reading is that value rounded to the
//! nearest integer. For an integer span the rounding is decided exactly by
//! comparing fortieth powers: `20 * log10(span / 2) >= n - 1/2` holds exactly when
//! `span^40 >= 2^40 * 10^(2n - 1)`. No span lies on a boundary, since an odd power
//! of ten is no fortieth power of a ratio of integers, so there are no ties to break.
//! Silence has no logarithm; its reading is the least `i32`.

use crate::color::{band_of, Color};
use vstd::arithmetic::power::{lemma_pow0, lemma_pow1, lemma_pow_adds, lemma_pow_positive, pow};
use vstd::prelude::*;

verus! {

/// The reading of a window without any span.
pub const SILENCE: i32 = i32::MIN;

/// The least reading that a span other than zero gives: that of span 1.
pub const FAINTEST: i32 = -6;

/// The greatest reading that a 16-bit span gives.
pub const LOUDEST: i32 = 90;

/// Whether half of `span` is at least `n - 1/2` decibels:
/// `(span / 2)^40 >= 10^(2n - 1)`, with the powers brought to the side on which
/// they are whole.
pub open spec fn reaches(span: nat, n: int) -> bool {
    if n >= 1 {
        pow(span as int, 40) >= pow(2, 40) * pow(10, (2 * n - 1) as nat)
    } else {
        pow(span as int, 40) * pow(10, (1 - 2 * n) as nat) >= pow(2, 40)
    }
}

/// Whether `n` is the reading of a window of the given span: the least `i32` for
/// silence, else the integer nearest to `20 * log10(span / 2)`.
pub open spec fn is_reading(span: nat, n: int) -> bool {
    if span == 0 {
        n == SILENCE
    } else {
        reaches(span, n) && !reaches(span, n + 1)
    }
}

/// For each reading from `FAINTEST` to `LOUDEST`, the least span that reaches it.
pub const THRESHOLDS: [u16; 97] = [
    1, 2, 2, 2, 2, 2, 2, 3, 3, 3,
    3, 4, 4, 5, 5, 6, 6, 7, 8, 9,
    10, 11, 12, 14, 15, 17, 19, 22, 24, 27,
    30, 34, 38, 43, 48, 54, 60, 67, 76, 85,
    95, 107, 120, 134, 150, 169, 189, 212, 238, 267,
    300, 336, 377, 423, 475, 533, 598, 670, 752, 844,
    947, 1062, 1192, 1337, 1500, 1683, 1889, 2119, 2378, 2668,
    2993, 3358, 3768, 4227, 4743, 5322, 5971, 6700, 7517, 8434,
    9464, 10618, 11914, 13367, 14998, 16828, 18882, 21186, 23771, 26671,
    29925, 33577, 37673, 42270, 47428, 53215, 59708,
];

/// The least span that reaches `n` decibels, for `FAINTEST <= n <= LOUDEST`.
pub open spec fn threshold(n: int) -> nat {
    THRESHOLDS[n - FAINTEST] as nat
}

/// The reading of a window of the given span.
pub fn rounded_decibel(span: u16) -> (n: i32)
    ensures
        is_reading(span as nat, n as int),
        span > 0 ==> FAINTEST <= n <= LOUDEST,
{
    if span == 0 {
        return SILENCE;
    }
    let mut n: i32 = LOUDEST;
    proof {
        lemma_beyond_loudest(span as nat);
    }
    while n > FAINTEST && span < THRESHOLDS[(n - FAINTEST) as usize]
        invariant
            FAINTEST <= n <= LOUDEST,
            span >= 1,
            !reaches(span as nat, n + 1),
        decreases n - FAINTEST,
    {
        proof {
            lemma_threshold_is_least(n as int);
            if reaches(span as nat, n as int) {
                lemma_reaches_grows(span as nat, (threshold(n as int) - 1) as nat, n as int);
            }
        }
        n = n - 1;
    }
    proof {
        lemma_threshold_is_least(n as int);
        lemma_reaches_grows(threshold(n as int), span as nat, n as int);
    }
    n
}

/// The reading of a window of the given span, with its color band.
pub fn reading(span: u16) -> (r: (i32, Color))
    ensures
        is_reading(span as nat, r.0 as int),
        r.1 == band_of(r.0 as int),
{
    let n = rounded_decibel(span);
    (n, Color::from_decibel(n))
}

/// A span has one reading only.
pub proof fn lemma_reading_unique(span: nat, a: int, b: int)
    requires
        is_reading(span, a),
        is_reading(span, b),
    ensures
        a == b,
{
    if span > 0 {
        if a < b {
            lemma_reaches_below(span, b, a + 1);
        } else if b < a {
            lemma_reaches_below(span, a, b + 1);
        }
    }
}

/// Silence reads as the least `i32` and falls into the blue band: it has a
/// reading, and that reading is a number.
pub proof fn lemma_silence_is_floor(n: int)
    requires
        is_reading(0, n),
    ensures
        n == i32::MIN,
        band_of(n) == Color::Blue,
{
}

/// An amplitude of one, that is a span of two, reads as 0 dB and falls into the
/// red band.
pub proof fn lemma_unit_amplitude_reads_zero()
    ensures
        is_reading(2, 0),
        band_of(0) == Color::Red,
{
    lemma_threshold_is_least(0);
    lemma_threshold_is_least(1);
}

/// A wider span never reads lower.
pub proof fn lemma_reading_grows(narrow: nat, wide: nat, a: int, b: int)
    requires
        narrow <= wide,
        is_reading(narrow, a),
        is_reading(wide, b),
    ensures
        a <= b,
{
    if narrow > 0 && b < a {
        lemma_reaches_grows(narrow, wide, a);
        lemma_reaches_below(wide, a, b + 1);
    } else if narrow == 0 && wide > 0 && b < FAINTEST {
        lemma_threshold_is_least(FAINTEST as int);
        lemma_reaches_grows(1, wide, FAINTEST as int);
        lemma_reaches_below(wide, FAINTEST as int, b + 1);
    }
}

/// What reaches a reading reaches every lower one.
pub proof fn lemma_reaches_below(span: nat, n: int, m: int)
    requires
        reaches(span, n),
        m <= n,
    ensures
        reaches(span, m),
    decreases n - m,
{
    if m < n {
        lemma_reaches_one_below(span, n);
        lemma_reaches_below(span, n - 1, m);
    }
}

/// A wider span reaches what a narrower one reaches.
pub proof fn lemma_reaches_grows(narrow: nat, wide: nat, n: int)
    requires
        narrow <= wide,
        reaches(narrow, n),
    ensures
        reaches(wide, n),
{
    lemma_fortieth(narrow as int);
    lemma_fortieth(wide as int);
    lemma_fortieth_grows(narrow as int, wide as int);
    if n < 1 {
        let k = (1 - 2 * n) as nat;
        lemma_pow_positive(10, k);
        assert(pow(narrow as int, 40) * pow(10, k) <= pow(wide as int, 40) * pow(10, k))
            by (nonlinear_arith)
            requires
                pow(narrow as int, 40) <= pow(wide as int, 40),
                pow(10, k) > 0,
        ;
    }
}

/// What reaches a reading reaches the one below it.
proof fn lemma_reaches_one_below(span: nat, n: int)
    requires
        reaches(span, n),
    ensures
        reaches(span, n - 1),
{
    let s = pow(span as int, 40);
    let two = pow(2, 40);
    lemma_pow_positive(2, 40);
    assert(s >= 0) by {
        lemma_fortieth(span as int);
        lemma_fortieth_grows(0, span as int);
    }
    if n >= 2 {
        let k = (2 * n - 3) as nat;
        lemma_hundredfold(k);
        lemma_pow_positive(10, k);
        assert(two * (100 * pow(10, k)) >= two * pow(10, k)) by (nonlinear_arith)
            requires
                two > 0,
                pow(10, k) > 0,
        ;
    } else if n == 1 {
        lemma_pow1(10);
        lemma_hundredfold(1);
    } else {
        let k = (1 - 2 * n) as nat;
        lemma_hundredfold(k);
        lemma_pow_positive(10, k);
        assert(s * (100 * pow(10, k)) >= s * pow(10, k)) by (nonlinear_arith)
            requires
                s >= 0,
                pow(10, k) > 0,
        ;
    }
}

/// Two more in the exponent is a hundred times the power of ten.
proof fn lemma_hundredfold(k: nat)
    ensures
        pow(10, k + 2) == 100 * pow(10, k),
{
    lemma_pow1(10);
    lemma_pow_adds(10, 1, 1);
    lemma_pow_adds(10, k, 2);
    assert(pow(10, k) * pow(10, 2) == 100 * pow(10, k)) by (nonlinear_arith)
        requires
            pow(10, 2) == pow(10, 1) * pow(10, 1),
            pow(10, 1) == 10,
    ;
}

/// The fortieth power by repeated squaring: `x^32 * x^8`.
spec fn fortieth(x: int) -> int {
    let x2 = x * x;
    let x4 = x2 * x2;
    let x8 = x4 * x4;
    let x16 = x8 * x8;
    let x32 = x16 * x16;
    x32 * x8
}

/// `power` if the binary digit of `k` with the given weight is set, else one.
spec fn digit_power(k: nat, weight: nat, power: int) -> int {
    if (k / weight) % 2 == 1 {
        power
    } else {
        1
    }
}

/// The power of ten with exponent `k < 256`, by repeated squaring: the product of
/// the squares that the binary digits of `k` select.
spec fn tenfold(k: nat) -> int {
    let t1 = 10int;
    let t2 = t1 * t1;
    let t4 = t2 * t2;
    let t8 = t4 * t4;
    let t16 = t8 * t8;
    let t32 = t16 * t16;
    let t64 = t32 * t32;
    let t128 = t64 * t64;
    digit_power(k, 1, t1) * digit_power(k, 2, t2) * digit_power(k, 4, t4) * digit_power(k, 8, t8)
        * digit_power(k, 16, t16) * digit_power(k, 32, t32) * digit_power(k, 64, t64)
        * digit_power(k, 128, t128)
}

/// `reaches`, over powers by repeated squaring, which can be computed on numerals.
spec fn exceeds(span: int, n: int) -> bool {
    if n >= 1 {
        fortieth(span) >= fortieth(2) * tenfold((2 * n - 1) as nat)
    } else {
        fortieth(span) * tenfold((1 - 2 * n) as nat) >= fortieth(2)
    }
}

/// Repeated squaring gives the fortieth power.
proof fn lemma_fortieth(x: int)
    ensures
        pow(x, 40) == fortieth(x),
{
    lemma_pow1(x);
    lemma_pow_adds(x, 1, 1);
    lemma_pow_adds(x, 2, 2);
    lemma_pow_adds(x, 4, 4);
    lemma_pow_adds(x, 8, 8);
    lemma_pow_adds(x, 16, 16);
    lemma_pow_adds(x, 32, 8);
}

/// The fortieth power grows with its base, from zero on.
proof fn lemma_fortieth_grows(a: int, b: int)
    requires
        0 <= a <= b,
    ensures
        0 <= fortieth(a) <= fortieth(b),
{
    let (a2, b2) = (a * a, b * b);
    lemma_square_grows(a, b);
    let (a4, b4) = (a2 * a2, b2 * b2);
    lemma_square_grows(a2, b2);
    let (a8, b8) = (a4 * a4, b4 * b4);
    lemma_square_grows(a4, b4);
    let (a16, b16) = (a8 * a8, b8 * b8);
    lemma_square_grows(a8, b8);
    let (a32, b32) = (a16 * a16, b16 * b16);
    lemma_square_grows(a16, b16);
    assert(0 <= a32 * a8 <= b32 * b8) by (nonlinear_arith)
        requires
            0 <= a32 <= b32,
            0 <= a8 <= b8,
    ;
}

/// The square grows with its base, from zero on.
proof fn lemma_square_grows(a: int, b: int)
    requires
        0 <= a <= b,
    ensures
        0 <= a * a <= b * b,
{
    assert(0 <= a * a <= b * b) by (nonlinear_arith)
        requires
            0 <= a <= b,
    ;
}

/// The part of a power of ten that one binary digit of the exponent gives.
proof fn lemma_digit_power(k: nat, weight: nat, power: int)
    requires
        pow(10, weight) == power,
    ensures
        pow(10, (((k / weight) % 2) * weight) as nat) == digit_power(k, weight, power),
{
    if (k / weight) % 2 == 1 {
        assert(((k / weight) % 2) * weight == weight);
    } else {
        assert(((k / weight) % 2) * weight == 0);
        lemma_pow0(10);
    }
}

/// Repeated squaring gives the power of ten.
proof fn lemma_tenfold(k: nat)
    requires
        k < 256,
    ensures
        pow(10, k) == tenfold(k),
{
    let t1 = 10int;
    let t2 = t1 * t1;
    let t4 = t2 * t2;
    let t8 = t4 * t4;
    let t16 = t8 * t8;
    let t32 = t16 * t16;
    let t64 = t32 * t32;
    let t128 = t64 * t64;
    lemma_pow1(10);
    lemma_pow_adds(10, 1, 1);
    lemma_pow_adds(10, 2, 2);
    lemma_pow_adds(10, 4, 4);
    lemma_pow_adds(10, 8, 8);
    lemma_pow_adds(10, 16, 16);
    lemma_pow_adds(10, 32, 32);
    lemma_pow_adds(10, 64, 64);
    let d1 = ((k / 1) % 2 * 1) as nat;
    let d2 = ((k / 2) % 2 * 2) as nat;
    let d4 = ((k / 4) % 2 * 4) as nat;
    let d8 = ((k / 8) % 2 * 8) as nat;
    let d16 = ((k / 16) % 2 * 16) as nat;
    let d32 = ((k / 32) % 2 * 32) as nat;
    let d64 = ((k / 64) % 2 * 64) as nat;
    let d128 = ((k / 128) % 2 * 128) as nat;
    assert(k == d1 + d2 + d4 + d8 + d16 + d32 + d64 + d128);
    lemma_digit_power(k, 1, t1);
    lemma_digit_power(k, 2, t2);
    lemma_digit_power(k, 4, t4);
    lemma_digit_power(k, 8, t8);
    lemma_digit_power(k, 16, t16);
    lemma_digit_power(k, 32, t32);
    lemma_digit_power(k, 64, t64);
    lemma_digit_power(k, 128, t128);
    lemma_pow_adds(10, d1, d2);
    lemma_pow_adds(10, d1 + d2, d4);
    lemma_pow_adds(10, d1 + d2 + d4, d8);
    lemma_pow_adds(10, d1 + d2 + d4 + d8, d16);
    lemma_pow_adds(10, d1 + d2 + d4 + d8 + d16, d32);
    lemma_pow_adds(10, d1 + d2 + d4 + d8 + d16 + d32, d64);
    lemma_pow_adds(10, d1 + d2 + d4 + d8 + d16 + d32 + d64, d128);
}

/// For the readings of the table and the one above, `exceeds` is `reaches`.
proof fn lemma_exceeds_is_reaches(span: nat, n: int)
    requires
        FAINTEST <= n <= LOUDEST + 1,
    ensures
        exceeds(span as int, n) == reaches(span, n),
{
    lemma_fortieth(span as int);
    lemma_fortieth(2);
    if n >= 1 {
        lemma_tenfold((2 * n - 1) as nat);
    } else {
        lemma_tenfold((1 - 2 * n) as nat);
    }
}

/// No 16-bit span reaches the reading above `LOUDEST`.
proof fn lemma_beyond_loudest(span: nat)
    requires
        span <= u16::MAX,
    ensures
        !reaches(span, LOUDEST + 1),
{
    if reaches(span, LOUDEST + 1) {
        lemma_reaches_grows(span, 65535, LOUDEST + 1);
        lemma_exceeds_is_reaches(65535, 91);
        assert(!exceeds(65535, 91)) by (nonlinear_arith);
    }
}

/// Each entry of the table is the least span that reaches its reading.
proof fn lemma_threshold_is_least(n: int)
    requires
        FAINTEST <= n <= LOUDEST,
    ensures
        threshold(n) >= 1,
        reaches(threshold(n), n),
        threshold(n) > 1 ==> !reaches((threshold(n) - 1) as nat, n),
        n == FAINTEST ==> threshold(n) == 1,
{
    if n <= 18 {
        lemma_faint_entries(n);
    } else if n <= 43 {
        lemma_soft_entries(n);
    } else if n <= 68 {
        lemma_strong_entries(n);
    } else {
        lemma_loud_entries(n);
    }
    lemma_exceeds_is_reaches(threshold(n), n);
    if threshold(n) > 1 {
        lemma_exceeds_is_reaches((threshold(n) - 1) as nat, n);
    }
}

/// The entries for -6 dB to 18 dB, computed.
proof fn lemma_faint_entries(n: int)
    requires
        -6 <= n <= 18,
    ensures
        exceeds(threshold(n) as int, n),
        threshold(n) > 1 ==> !exceeds(threshold(n) - 1, n),
{
    if n == -6 {
        assert(exceeds(1, -6)) by (nonlinear_arith);
    } else if n == -5 {
        assert(exceeds(2, -5) && !exceeds(1, -5)) by (nonlinear_arith);
    } else if n == -4 {
        assert(exceeds(2, -4) && !exceeds(1, -4)) by (nonlinear_arith);
    } else if n == -3 {
        assert(exceeds(2, -3) && !exceeds(1, -3)) by (nonlinear_arith);
    } else if n == -2 {
        assert(exceeds(2, -2) && !exceeds(1, -2)) by (nonlinear_arith);
    } else if n == -1 {
        assert(exceeds(2, -1) && !exceeds(1, -1)) by (nonlinear_arith);
    } else if n == 0 {
        assert(exceeds(2, 0) && !exceeds(1, 0)) by (nonlinear_arith);
    } else if n == 1 {
        assert(exceeds(3, 1) && !exceeds(2, 1)) by (nonlinear_arith);
    } else if n == 2 {
        assert(exceeds(3, 2) && !exceeds(2, 2)) by (nonlinear_arith);
    } else if n == 3 {
        assert(exceeds(3, 3) && !exceeds(2, 3)) by (nonlinear_arith);
    } else if n == 4 {
        assert(exceeds(3, 4) && !exceeds(2, 4)) by (nonlinear_arith);
    } else if n == 5 {
        assert(exceeds(4, 5) && !exceeds(3, 5)) by (nonlinear_arith);
    } else if n == 6 {
        assert(exceeds(4, 6) && !exceeds(3, 6)) by (nonlinear_arith);
    } else if n == 7 {
        assert(exceeds(5, 7) && !exceeds(4, 7)) by (nonlinear_arith);
    } else if n == 8 {
        assert(exceeds(5, 8) && !exceeds(4, 8)) by (nonlinear_arith);
    } else if n == 9 {
        assert(exceeds(6, 9) && !exceeds(5, 9)) by (nonlinear_arith);
    } else if n == 10 {
        assert(exceeds(6, 10) && !exceeds(5, 10)) by (nonlinear_arith);
    } else if n == 11 {
        assert(exceeds(7, 11) && !exceeds(6, 11)) by (nonlinear_arith);
    } else if n == 12 {
        assert(exceeds(8, 12) && !exceeds(7, 12)) by (nonlinear_arith);
    } else if n == 13 {
        assert(exceeds(9, 13) && !exceeds(8, 13)) by (nonlinear_arith);
    } else if n == 14 {
        assert(exceeds(10, 14) && !exceeds(9, 14)) by (nonlinear_arith);
    } else if n == 15 {
        assert(exceeds(11, 15) && !exceeds(10, 15)) by (nonlinear_arith);
    } else if n == 16 {
        assert(exceeds(12, 16) && !exceeds(11, 16)) by (nonlinear_arith);
    } else if n == 17 {
        assert(exceeds(14, 17) && !exceeds(13, 17)) by (nonlinear_arith);
    } else if n == 18 {
        assert(exceeds(15, 18) && !exceeds(14, 18)) by (nonlinear_arith);
    }
}

/// The entries for 19 dB to 43 dB, computed.
proof fn lemma_soft_entries(n: int)
    requires
        19 <= n <= 43,
    ensures
        exceeds(threshold(n) as int, n),
        threshold(n) > 1 ==> !exceeds(threshold(n) - 1, n),
{
    if n == 19 {
        assert(exceeds(17, 19) && !exceeds(16, 19)) by (nonlinear_arith);
    } else if n == 20 {
        assert(exceeds(19, 20) && !exceeds(18, 20)) by (nonlinear_arith);
    } else if n == 21 {
        assert(exceeds(22, 21) && !exceeds(21, 21)) by (nonlinear_arith);
    } else if n == 22 {
        assert(exceeds(24, 22) && !exceeds(23, 22)) by (nonlinear_arith);
    } else if n == 23 {
        assert(exceeds(27, 23) && !exceeds(26, 23)) by (nonlinear_arith);
    } else if n == 24 {
        assert(exceeds(30, 24) && !exceeds(29, 24)) by (nonlinear_arith);
    } else if n == 25 {
        assert(exceeds(34, 25) && !exceeds(33, 25)) by (nonlinear_arith);
    } else if n == 26 {
        assert(exceeds(38, 26) && !exceeds(37, 26)) by (nonlinear_arith);
    } else if n == 27 {
        assert(exceeds(43, 27) && !exceeds(42, 27)) by (nonlinear_arith);
    } else if n == 28 {
        assert(exceeds(48, 28) && !exceeds(47, 28)) by (nonlinear_arith);
    } else if n == 29 {
        assert(exceeds(54, 29) && !exceeds(53, 29)) by (nonlinear_arith);
    } else if n == 30 {
        assert(exceeds(60, 30) && !exceeds(59, 30)) by (nonlinear_arith);
    } else if n == 31 {
        assert(exceeds(67, 31) && !exceeds(66, 31)) by (nonlinear_arith);
    } else if n == 32 {
        assert(exceeds(76, 32) && !exceeds(75, 32)) by (nonlinear_arith);
    } else if n == 33 {
        assert(exceeds(85, 33) && !exceeds(84, 33)) by (nonlinear_arith);
    } else if n == 34 {
        assert(exceeds(95, 34) && !exceeds(94, 34)) by (nonlinear_arith);
    } else if n == 35 {
        assert(exceeds(107, 35) && !exceeds(106, 35)) by (nonlinear_arith);
    } else if n == 36 {
        assert(exceeds(120, 36) && !exceeds(119, 36)) by (nonlinear_arith);
    } else if n == 37 {
        assert(exceeds(134, 37) && !exceeds(133, 37)) by (nonlinear_arith);
    } else if n == 38 {
        assert(exceeds(150, 38) && !exceeds(149, 38)) by (nonlinear_arith);
    } else if n == 39 {
        assert(exceeds(169, 39) && !exceeds(168, 39)) by (nonlinear_arith);
    } else if n == 40 {
        assert(exceeds(189, 40) && !exceeds(188, 40)) by (nonlinear_arith);
    } else if n == 41 {
        assert(exceeds(212, 41) && !exceeds(211, 41)) by (nonlinear_arith);
    } else if n == 42 {
        assert(exceeds(238, 42) && !exceeds(237, 42)) by (nonlinear_arith);
    } else if n == 43 {
        assert(exceeds(267, 43) && !exceeds(266, 43)) by (nonlinear_arith);
    }
}

/// The entries for 44 dB to 68 dB, computed.
proof fn lemma_strong_entries(n: int)
    requires
        44 <= n <= 68,
    ensures
        exceeds(threshold(n) as int, n),
        threshold(n) > 1 ==> !exceeds(threshold(n) - 1, n),
{
    if n == 44 {
        assert(exceeds(300, 44) && !exceeds(299, 44)) by (nonlinear_arith);
    } else if n == 45 {
        assert(exceeds(336, 45) && !exceeds(335, 45)) by (nonlinear_arith);
    } else if n == 46 {
        assert(exceeds(377, 46) && !exceeds(376, 46)) by (nonlinear_arith);
    } else if n == 47 {
        assert(exceeds(423, 47) && !exceeds(422, 47)) by (nonlinear_arith);
    } else if n == 48 {
        assert(exceeds(475, 48) && !exceeds(474, 48)) by (nonlinear_arith);
    } else if n == 49 {
        assert(exceeds(533, 49) && !exceeds(532, 49)) by (nonlinear_arith);
    } else if n == 50 {
        assert(exceeds(598, 50) && !exceeds(597, 50)) by (nonlinear_arith);
    } else if n == 51 {
        assert(exceeds(670, 51) && !exceeds(669, 51)) by (nonlinear_arith);
    } else if n == 52 {
        assert(exceeds(752, 52) && !exceeds(751, 52)) by (nonlinear_arith);
    } else if n == 53 {
        assert(exceeds(844, 53) && !exceeds(843, 53)) by (nonlinear_arith);
    } else if n == 54 {
        assert(exceeds(947, 54) && !exceeds(946, 54)) by (nonlinear_arith);
    } else if n == 55 {
        assert(exceeds(1062, 55) && !exceeds(1061, 55)) by (nonlinear_arith);
    } else if n == 56 {
        assert(exceeds(1192, 56) && !exceeds(1191, 56)) by (nonlinear_arith);
    } else if n == 57 {
        assert(exceeds(1337, 57) && !exceeds(1336, 57)) by (nonlinear_arith);
    } else if n == 58 {
        assert(exceeds(1500, 58) && !exceeds(1499, 58)) by (nonlinear_arith);
    } else if n == 59 {
        assert(exceeds(1683, 59) && !exceeds(1682, 59)) by (nonlinear_arith);
    } else if n == 60 {
        assert(exceeds(1889, 60) && !exceeds(1888, 60)) by (nonlinear_arith);
    } else if n == 61 {
        assert(exceeds(2119, 61) && !exceeds(2118, 61)) by (nonlinear_arith);
    } else if n == 62 {
        assert(exceeds(2378, 62) && !exceeds(2377, 62)) by (nonlinear_arith);
    } else if n == 63 {
        assert(exceeds(2668, 63) && !exceeds(2667, 63)) by (nonlinear_arith);
    } else if n == 64 {
        assert(exceeds(2993, 64) && !exceeds(2992, 64)) by (nonlinear_arith);
    } else if n == 65 {
        assert(exceeds(3358, 65) && !exceeds(3357, 65)) by (nonlinear_arith);
    } else if n == 66 {
        assert(exceeds(3768, 66) && !exceeds(3767, 66)) by (nonlinear_arith);
    } else if n == 67 {
        assert(exceeds(4227, 67) && !exceeds(4226, 67)) by (nonlinear_arith);
    } else if n == 68 {
        assert(exceeds(4743, 68) && !exceeds(4742, 68)) by (nonlinear_arith);
    }
}

/// The entries for 69 dB to 90 dB, computed.
proof fn lemma_loud_entries(n: int)
    requires
        69 <= n <= 90,
    ensures
        exceeds(threshold(n) as int, n),
        threshold(n) > 1 ==> !exceeds(threshold(n) - 1, n),
{
    if n == 69 {
        assert(exceeds(5322, 69) && !exceeds(5321, 69)) by (nonlinear_arith);
    } else if n == 70 {
        assert(exceeds(5971, 70) && !exceeds(5970, 70)) by (nonlinear_arith);
    } else if n == 71 {
        assert(exceeds(6700, 71) && !exceeds(6699, 71)) by (nonlinear_arith);
    } else if n == 72 {
        assert(exceeds(7517, 72) && !exceeds(7516, 72)) by (nonlinear_arith);
    } else if n == 73 {
        assert(exceeds(8434, 73) && !exceeds(8433, 73)) by (nonlinear_arith);
    } else if n == 74 {
        assert(exceeds(9464, 74) && !exceeds(9463, 74)) by (nonlinear_arith);
    } else if n == 75 {
        assert(exceeds(10618, 75) && !exceeds(10617, 75)) by (nonlinear_arith);
    } else if n == 76 {
        assert(exceeds(11914, 76) && !exceeds(11913, 76)) by (nonlinear_arith);
    } else if n == 77 {
        assert(exceeds(13367, 77) && !exceeds(13366, 77)) by (nonlinear_arith);
    } else if n == 78 {
        assert(exceeds(14998, 78) && !exceeds(14997, 78)) by (nonlinear_arith);
    } else if n == 79 {
        assert(exceeds(16828, 79) && !exceeds(16827, 79)) by (nonlinear_arith);
    } else if n == 80 {
        assert(exceeds(18882, 80) && !exceeds(18881, 80)) by (nonlinear_arith);
    } else if n == 81 {
        assert(exceeds(21186, 81) && !exceeds(21185, 81)) by (nonlinear_arith);
    } else if n == 82 {
        assert(exceeds(23771, 82) && !exceeds(23770, 82)) by (nonlinear_arith);
    } else if n == 83 {
        assert(exceeds(26671, 83) && !exceeds(26670, 83)) by (nonlinear_arith);
    } else if n == 84 {
        assert(exceeds(29925, 84) && !exceeds(29924, 84)) by (nonlinear_arith);
    } else if n == 85 {
        assert(exceeds(33577, 85) && !exceeds(33576, 85)) by (nonlinear_arith);
    } else if n == 86 {
        assert(exceeds(37673, 86) && !exceeds(37672, 86)) by (nonlinear_arith);
    } else if n == 87 {
        assert(exceeds(42270, 87) && !exceeds(42269, 87)) by (nonlinear_arith);
    } else if n == 88 {
        assert(exceeds(47428, 88) && !exceeds(47427, 88)) by (nonlinear_arith);
    } else if n == 89 {
        assert(exceeds(53215, 89) && !exceeds(53214, 89)) by (nonlinear_arith);
    } else if n == 90 {
        assert(exceeds(59708, 90) && !exceeds(59707, 90)) by (nonlinear_arith);
    }
}

} // verus!
