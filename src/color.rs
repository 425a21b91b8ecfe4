use vstd::prelude::*;

verus! {

/// Limits `x` to the range from `min` to `max`.
pub fn clamp(x: i64, min: i64, max: i64) -> (r: i64)
    ensures
        r == if x < min { min } else if x > max { max } else { x },
{
    if x < min {
        return min;
    }
    if x > max {
        return max;
    }
    x
}

/// The 8-bit value of a color channel, from `level`: the channel's gamma-corrected
/// intensity times 256, truncated toward zero. Intensities below zero give 0, and
/// those at 0.999 or above give 255.
pub fn channel_byte(level: i64) -> (r: u8)
    ensures
        r as int == clamp_spec(level as int, 0, 255),
{
    clamp(level, 0, 255) as u8
}

/// `x` limited to the range from `min` to `max`.
pub open spec fn clamp_spec(x: int, min: int, max: int) -> int {
    if x < min {
        min
    } else if x > max {
        max
    } else {
        x
    }
}

} // verus!
