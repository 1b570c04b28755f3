//! Pixel addressing and the tone curve that turns accumulated radiance into
//! displayable bytes.

use vstd::prelude::*;

verus! {

/// Offset of the first channel of pixel `(x, y)` in a row-major buffer with
/// four channels per pixel.
pub open spec fn pixel_offset(x: int, y: int, width: int) -> int {
    4 * (x + y * width)
}

/// `r` is the largest integer whose square does not exceed `n`.
pub open spec fn is_floor_sqrt(n: int, r: int) -> bool {
    0 <= r && r * r <= n < (r + 1) * (r + 1)
}

/// The integer square root of `n`: the root rounded towards zero.
pub open spec fn floor_sqrt(n: int) -> int {
    choose|r: int| is_floor_sqrt(n, r)
}

/// The tone curve on 8-bit intensities. A mean intensity `m` is read as the
/// fraction `m / 255`, its square root is taken, and the result is scaled
/// back to `0..=255` and truncated: `floor(255 * sqrt(m / 255))`, which is
/// `floor(sqrt(255 * m))`. Anything brighter than full intensity saturates.
pub open spec fn tone_curve(mean: int) -> int {
    if mean >= 255 {
        255
    } else {
        floor_sqrt(255 * mean)
    }
}

/// Squaring is monotone on the naturals.
proof fn lemma_square_monotone(a: int, b: int)
    by (nonlinear_arith)
    requires
        0 <= a <= b,
    ensures
        a * a <= b * b,
{
}

/// A number has at most one integer square root, so exhibiting one
/// determines `floor_sqrt`.
pub proof fn lemma_floor_sqrt_unique(n: int, r: int)
    requires
        is_floor_sqrt(n, r),
    ensures
        floor_sqrt(n) == r,
{
    let s = floor_sqrt(n);
    assert(is_floor_sqrt(n, s));
    if s < r {
        lemma_square_monotone(s + 1, r);
    }
    if r < s {
        lemma_square_monotone(r + 1, s);
    }
}

/// The tone curve never leaves the 8-bit range and keeps black black.
pub proof fn lemma_tone_curve_range(mean: int)
    requires
        0 <= mean,
    ensures
        0 <= tone_curve(mean) <= 255,
        mean == 0 ==> tone_curve(mean) == 0,
        mean >= 255 ==> tone_curve(mean) == 255,
{
    if mean < 255 {
        let n = 255 * mean;
        lemma_floor_sqrt_exists(n);
        let r = floor_sqrt(n);
        if r > 254 {
            lemma_square_monotone(255, r);
        }
        if mean == 0 && r >= 1 {
            lemma_square_monotone(1, r);
        }
    }
}

/// Every natural number has an integer square root.
pub proof fn lemma_floor_sqrt_exists(n: int)
    requires
        0 <= n,
    ensures
        is_floor_sqrt(n, floor_sqrt(n)),
    decreases n,
{
    if n == 0 {
        assert(is_floor_sqrt(0, 0));
    } else {
        lemma_floor_sqrt_exists(n - 1);
        let r = floor_sqrt(n - 1);
        if (r + 1) * (r + 1) <= n {
            assert((r + 1) * (r + 1) == n);
            assert(n < (r + 2) * (r + 2)) by (nonlinear_arith)
                requires
                    (r + 1) * (r + 1) == n,
                    0 <= r,
            ;
            assert(is_floor_sqrt(n, r + 1));
        } else {
            assert(is_floor_sqrt(n, r));
        }
    }
}

/// Offset of the first channel of pixel `(x, y)` in a four-channel buffer
/// that is `width` pixels wide.
pub fn coords_to_idx(x: u32, y: u32, width: u32) -> (idx: usize)
    requires
        pixel_offset(x as int, y as int, width as int) <= usize::MAX,
    ensures
        idx == pixel_offset(x as int, y as int, width as int),
{
    assert(y as u64 * width as u64 <= 0xffff_ffff * 0xffff_ffff) by (nonlinear_arith)
        requires
            y <= 0xffff_ffff,
            width <= 0xffff_ffff,
    ;
    let pixel: u64 = x as u64 + y as u64 * width as u64;
    4 * (pixel as usize)
}

/// Integer square root by bisection.
pub fn isqrt(n: u32) -> (root: u32)
    ensures
        root == floor_sqrt(n as int),
        is_floor_sqrt(n as int, root as int),
{
    let mut lo: u64 = 0;
    let mut hi: u64 = 65536;
    while hi - lo > 1
        invariant
            lo < hi <= 65536,
            lo * lo <= n < hi * hi,
        decreases hi - lo,
    {
        let mid: u64 = lo + (hi - lo) / 2;
        assert(mid * mid <= 65536 * 65536) by (nonlinear_arith)
            requires
                mid <= 65536,
        ;
        if mid * mid <= n as u64 {
            lo = mid;
        } else {
            hi = mid;
        }
    }
    proof {
        lemma_floor_sqrt_unique(n as int, lo as int);
    }
    lo as u32
}

/// One channel of the resolve step: the mean of `sum` over `scale` samples,
/// pushed through the tone curve.
pub fn tone_map(sum: u32, scale: u32) -> (out: u8)
    requires
        scale > 0,
    ensures
        out == tone_curve(sum as int / scale as int),
{
    let mean: u32 = sum / scale;
    if mean >= 255 {
        255
    } else {
        let root: u32 = isqrt(255 * mean);
        proof {
            lemma_tone_curve_range(mean as int);
        }
        root as u8
    }
}

/// Resolves one accumulated RGB triple: each channel is divided by `scale`
/// (integer division) and mapped through the tone curve.
pub fn colour_scale_sqrt(colour: &[u32], scale: u32) -> (out: [u8; 3])
    requires
        colour.len() == 3,
        scale > 0,
    ensures
        forall|c: int| 0 <= c < 3 ==> out[c] == tone_curve(colour[c] as int / scale as int),
{
    [tone_map(colour[0], scale), tone_map(colour[1], scale), tone_map(colour[2], scale)]
}

} // verus!
