//! Conversion of color channels to the 0..255 byte range of the
//! image-file formats.  The textual serialization itself lives with
//! the program around the library.

use vstd::prelude::*;
use crate::fixed::SCALE;

verus! {

/// The largest channel value of the image format.
pub const MAX_COLOR_VALUE: i32 = 255;

/// `value`, forced into `[min, max]`.
pub fn clamp(value: i32, min: i32, max: i32) -> (r: i32)
    requires
        min <= max,
    ensures
        r == (if value < min {
            min as int
        } else if value > max {
            max as int
        } else {
            value as int
        }),
        min <= r <= max,
{
    if value < min {
        return min;
    }
    if value > max {
        return max;
    }
    value
}

/// A fixed-point channel mapped to the byte range: scaled by 255,
/// truncated toward zero, clamped into 0..255.
pub open spec fn as_rgb255_s(color: int) -> int {
    let raw = if color >= 0 {
        (color * 255) / (SCALE as int)
    } else {
        -((-(color * 255)) / (SCALE as int))
    };
    if raw < 0 {
        0
    } else if raw > 255 {
        255
    } else {
        raw
    }
}

/// A fixed-point channel mapped to the byte range.
pub fn as_rgb255(color: i128) -> (r: i32)
    requires
        -10_000_000_000_000_000_000_000_000i128 <= color
            <= 10_000_000_000_000_000_000_000_000i128,
    ensures
        r as int == as_rgb255_s(color as int),
        0 <= r <= 255,
{
    let scaled = color * 255;
    let raw = if scaled >= 0 {
        let q = scaled.checked_div_euclid(SCALE);
        proof {
            crate::fixed::lemma_div_range(scaled as int, SCALE as int,
                2_550_000_000_000_000_000_000_000_000i128 as int);
        }
        q.unwrap()
    } else {
        let q = (-scaled).checked_div_euclid(SCALE);
        proof {
            crate::fixed::lemma_div_range(-scaled as int, SCALE as int,
                2_550_000_000_000_000_000_000_000_000i128 as int);
        }
        -q.unwrap()
    };
    if raw < 0 {
        0
    } else if raw > 255 {
        255
    } else {
        raw as i32
    }
}

} // verus!
