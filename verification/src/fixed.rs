//! 16.16 fixed-point numbers and the conversions between logical and device
//! pixels.

use vstd::prelude::*;

verus! {

/// A 16.16 fixed-point number: the value `v` stands for `v / 65536`.
pub type Fixed = i32;

/// The fixed-point number one.
pub const ONE: i32 = 65536;

/// `ONE * ONE`, the factor between a whole number and a product of two
/// fixed-point numbers.
pub const ONE_SQUARED: i64 = 4294967296;

/// The nearest `Fixed` to `v`.
pub open spec fn saturate(v: int) -> int {
    if v < i32::MIN as int {
        i32::MIN as int
    } else if v > i32::MAX as int {
        i32::MAX as int
    } else {
        v
    }
}

/// The scale that a stored factor stands for: a factor that is not positive
/// stands for zero.
pub open spec fn effective_scale(scale: int) -> int {
    if scale > 0 {
        scale
    } else {
        0
    }
}

/// The logical length of `device` whole device pixels at `scale` device
/// pixels per logical pixel, rounded down and saturated. At scale zero the
/// quotient is infinite and saturates by the sign of `device`.
pub open spec fn logical_of(device: int, scale: int) -> int {
    if scale > 0 {
        saturate((device * ONE_SQUARED as int) / scale)
    } else if device > 0 {
        i32::MAX as int
    } else if device < 0 {
        i32::MIN as int
    } else {
        0
    }
}

/// The device length, as a fixed-point number, of the logical length
/// `logical` at `scale`, rounded down and saturated.
pub open spec fn device_of(logical: int, scale: int) -> int {
    saturate((logical * effective_scale(scale)) / (ONE as int))
}

/// The whole number of device pixels nearest to the logical length `logical`
/// at `scale`, halves rounded up.
pub open spec fn device_pixels(logical: int, scale: int) -> int {
    (logical * effective_scale(scale) + ONE_SQUARED as int / 2) / (ONE_SQUARED as int)
}

/// Whether `device` whole device pixels are more than the logical length
/// `limit` at `scale`. The comparison is exact: nothing is rounded.
pub open spec fn exceeds(device: int, limit: int, scale: int) -> bool {
    device * ONE_SQUARED as int > limit * effective_scale(scale)
}

/// The sum of two fixed-point numbers, saturated.
pub open spec fn offset_by(a: int, b: int) -> int {
    saturate(a + b)
}

proof fn lemma_floor_div(n: int, d: int, q: int)
    requires
        d > 0,
        q * d <= n < q * d + d,
    ensures
        n / d == q,
{
    assert(n / d == q) by (nonlinear_arith)
        requires
            d > 0,
            q * d <= n < q * d + d,
    ;
}

/// Quotient of `n` by a positive `d`, rounded toward minus infinity.
fn floor_div(n: i128, d: i128) -> (q: i128)
    requires
        d > 0,
        -0x4000_0000_0000_0000_0000_0000_0000_0000 < n < 0x4000_0000_0000_0000_0000_0000_0000_0000,
        d < 0x4000_0000_0000_0000_0000_0000_0000_0000,
    ensures
        q == n as int / d as int,
{
    if n >= 0 {
        n / d
    } else {
        let m: i128 = -n;
        let up: i128 = (m + (d - 1)) / d;
        proof {
            let u = up as int;
            let di = d as int;
            let mi = m as int;
            assert(u * di <= mi + di - 1 < u * di + di) by (nonlinear_arith)
                requires
                    di > 0,
                    u == (mi + (di - 1)) / di,
            ;
            assert((-u) * di == -(u * di)) by (nonlinear_arith);
            lemma_floor_div(n as int, di, -u);
        }
        -up
    }
}

fn saturate_to_fixed(v: i128) -> (r: i32)
    ensures
        r == saturate(v as int),
{
    if v < -2147483648 {
        -2147483648
    } else if v > 2147483647 {
        2147483647
    } else {
        v as i32
    }
}

/// Converts a length in whole device pixels to logical pixels.
pub fn to_logical(device: i64, scale: Fixed) -> (logical: Fixed)
    ensures
        logical == logical_of(device as int, scale as int),
{
    if scale > 0 {
        let n: i128 = (device as i128) * 4294967296;
        let q: i128 = floor_div(n, scale as i128);
        saturate_to_fixed(q)
    } else if device > 0 {
        2147483647
    } else if device < 0 {
        -2147483648
    } else {
        0
    }
}

/// Converts a logical length to device pixels, as a fixed-point number.
pub fn to_device(logical: Fixed, scale: Fixed) -> (device: Fixed)
    ensures
        device == device_of(logical as int, scale as int),
{
    let s: i128 = if scale > 0 {
        scale as i128
    } else {
        0
    };
    assert(-0x4000_0000_0000_0000 <= (logical as int) * (s as int) <= 0x4000_0000_0000_0000)
        by (nonlinear_arith)
        requires
            -0x8000_0000 <= logical as int <= 0x7fff_ffff,
            0 <= s as int <= 0x7fff_ffff,
    ;
    let n: i128 = (logical as i128) * s;
    let q: i128 = floor_div(n, ONE as i128);
    saturate_to_fixed(q)
}

/// Tells whether `device` whole device pixels are more than the logical
/// length `limit` at `scale`.
pub fn is_beyond(device: i64, limit: Fixed, scale: Fixed) -> (beyond: bool)
    ensures
        beyond == exceeds(device as int, limit as int, scale as int),
{
    let s: i128 = if scale > 0 {
        scale as i128
    } else {
        0
    };
    assert(-0x4000_0000_0000_0000 <= (limit as int) * (s as int) <= 0x4000_0000_0000_0000)
        by (nonlinear_arith)
        requires
            -0x8000_0000 <= limit as int <= 0x7fff_ffff,
            0 <= s as int <= 0x7fff_ffff,
    ;
    (device as i128) * 4294967296 > (limit as i128) * s
}

/// Adds two fixed-point numbers, saturating at the ends of the range.
pub fn offset(a: Fixed, b: Fixed) -> (sum: Fixed)
    ensures
        sum == offset_by(a as int, b as int),
{
    let wide: i64 = a as i64 + b as i64;
    if wide < -2147483648 {
        -2147483648
    } else if wide > 2147483647 {
        2147483647
    } else {
        wide as i32
    }
}

/// Converting a whole number of device pixels to logical pixels and back
/// gives the same number, whenever the logical length is representable.
pub proof fn lemma_scale_round_trip(device: int, scale: int)
    requires
        0 < scale <= i32::MAX,
        i32::MIN <= (device * ONE_SQUARED as int) / scale <= i32::MAX,
    ensures
        device_pixels(logical_of(device, scale), scale) == device,
{
    let n = device * ONE_SQUARED as int;
    let q = n / scale;
    assert(q * scale <= n < q * scale + scale) by (nonlinear_arith)
        requires
            scale > 0,
            q == n / scale,
    ;
    assert(logical_of(device, scale) == q);
    let m = q * scale + ONE_SQUARED as int / 2;
    lemma_floor_div(m, ONE_SQUARED as int, device);
}

} // verus!
