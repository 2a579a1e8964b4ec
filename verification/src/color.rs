//! The color bands that partition the rounded decibel range.

use vstd::prelude::*;

verus! {

/// A loudness band, from the quietest (`Blue`) to the loudest (`Red`).
#[derive(Clone, Copy, Debug, PartialEq, Eq, Structural)]
pub enum Color {
    Red,
    Green,
    Yellow,
    Blue,
    SkyBlue,
}

/// The band of a rounded decibel value:
/// `(-inf, -21]` is blue, `[-20, -13]` sky blue, `[-12, -8]` green,
/// `[-7, -2]` yellow and `[-1, +inf)` red.
pub open spec fn band_of(rounded: int) -> Color {
    if rounded <= -21 {
        Color::Blue
    } else if rounded <= -13 {
        Color::SkyBlue
    } else if rounded <= -8 {
        Color::Green
    } else if rounded <= -2 {
        Color::Yellow
    } else {
        Color::Red
    }
}

/// The inclusive range of rounded decibel values that a band covers, cut to `i32`.
pub open spec fn band_range(color: Color) -> (int, int) {
    match color {
        Color::Blue => (i32::MIN as int, -21),
        Color::SkyBlue => (-20, -13),
        Color::Green => (-12, -8),
        Color::Yellow => (-7, -2),
        Color::Red => (-1, i32::MAX as int),
    }
}

impl Color {
    /// Classifies a rounded decibel value.
    pub fn from_decibel(rounded: i32) -> (color: Color)
        ensures
            color == band_of(rounded as int),
    {
        if rounded <= -21 {
            Color::Blue
        } else if rounded <= -13 {
            Color::SkyBlue
        } else if rounded <= -8 {
            Color::Green
        } else if rounded <= -2 {
            Color::Yellow
        } else {
            Color::Red
        }
    }
}

/// Every rounded decibel value lies in the range of exactly one band, and that band
/// is the one `band_of` gives.
pub proof fn lemma_bands_partition(rounded: i32, color: Color)
    ensures
        (band_range(color).0 <= rounded <= band_range(color).1) <==> color == band_of(rounded as int),
{
}

/// A louder reading never falls into a quieter band: the lower ends of the bands
/// grow with the reading.
pub proof fn lemma_bands_monotone(a: int, b: int)
    requires
        a <= b,
    ensures
        band_range(band_of(a)).0 <= band_range(band_of(b)).0,
{
}

} // verus!
