//! Tone mapping: density counters to pixel bytes.
//!
//! Each counter is normalized against the largest counter of the buffer
//! and pushed through a cube-root gamma curve: the byte intensity of a
//! counter `d` is `255 * (d / max)^(1/3)`, rounded to the nearest
//! integer. The rounding is stated and computed exactly over the
//! integers, by cubing both sides of the comparisons, so no real
//! arithmetic enters the library. An all-zero buffer has no meaningful
//! maximum to normalize against; it maps to an all-black image rather
//! than failing.

use vstd::prelude::*;
use crate::density::DensityBuffer;
use crate::density::max_of;
use crate::ppm::Color;
use crate::ppm::PPM;

verus! {

/// The cube of an integer.
pub open spec fn cube(x: int) -> int {
    x * x * x
}

/// `t` is `255 * (d / m)^(1/3)` rounded to the nearest integer, rounding
/// half up: `t <= 255 * (d/m)^(1/3) + 1/2 < t + 1`, each side cubed to
/// keep the statement in the integers.
pub open spec fn is_intensity(d: int, m: int, t: int) -> bool {
    &&& 0 <= t <= 255
    &&& cube(2 * t - 1) * m <= 8 * cube(255) * d
    &&& 8 * cube(255) * d < cube(2 * t + 1) * m
}

/// The rounding predicate pins the byte down: no two intensities satisfy
/// it for the same counter and maximum.
pub proof fn lemma_intensity_unique(d: int, m: int, t1: int, t2: int)
    requires
        m >= 1,
        is_intensity(d, m, t1),
        is_intensity(d, m, t2),
    ensures
        t1 == t2,
{
    if t1 < t2 {
        lemma_intensity_ordered(d, m, t1, t2);
    }
    if t2 < t1 {
        lemma_intensity_ordered(d, m, t2, t1);
    }
}

proof fn lemma_intensity_ordered(d: int, m: int, lo: int, hi: int)
    requires
        m >= 1,
        lo < hi,
        is_intensity(d, m, lo),
    ensures
        !is_intensity(d, m, hi),
{
    // The upper bound at `lo` already caps the cubed comparison below
    // anything the lower bound at `hi` would demand.
    assert(cube(2 * hi - 1) * m >= cube(2 * lo + 1) * m) by (nonlinear_arith)
        requires
            m >= 1,
            0 < 2 * lo + 1 <= 2 * hi - 1,
    ;
}

/// The byte intensity of counter `d` against maximum `m`.
pub fn intensity(d: i32, m: i32) -> (t: u8)
    requires
        1 <= m,
        0 <= d <= m,
    ensures
        is_intensity(d as int, m as int, t as int),
{
    let lhs: u64 = 132651000u64 * (d as u64);
    proof {
        assert(8 * cube(255) == 132651000);
    }
    let mut t: u64 = 0;
    while t < 255
        invariant
            0 <= t <= 255,
            1 <= m,
            0 <= d <= m,
            lhs == 8 * cube(255) * d,
            forall|j: int| 0 <= j < t ==> #[trigger] cube(2 * j + 1) * (m as int) <= 8 * cube(255)
                * d,
        decreases 255 - t,
    {
        let odd: u64 = 2 * t + 1;
        proof {
            assert((odd as int) * (odd as int) <= 511 * 511) by (nonlinear_arith)
                requires
                    0 < odd <= 511,
            ;
            assert((odd as int) * (odd as int) * (odd as int) <= 511 * 511 * 511) by (
            nonlinear_arith)
                requires
                    0 < odd <= 511,
            ;
            assert((odd as int) * (odd as int) * (odd as int) * (m as int) <= 511 * 511 * 511
                * 0x7fffffff) by (nonlinear_arith)
                requires
                    0 < odd <= 511,
                    1 <= m <= 0x7fffffff,
            ;
        }
        let rhs: u64 = odd * odd * odd * (m as u64);
        proof {
            assert(cube(2 * (t as int) + 1) == (odd as int) * (odd as int) * (odd as int));
        }
        if lhs < rhs {
            proof {
                if t > 0 {
                    let j: int = t as int - 1;
                    assert(cube(2 * j + 1) * (m as int) <= 8 * cube(255) * d);
                    assert(2 * j + 1 == 2 * (t as int) - 1);
                } else {
                    let x: int = 2 * 0 - 1;
                    assert(x * x * x == -1) by (nonlinear_arith)
                        requires
                            x == -1,
                    ;
                    assert(cube(x) * (m as int) <= 0) by (nonlinear_arith)
                        requires
                            cube(x) == -1,
                            1 <= m,
                    ;
                    assert(0 <= 8 * cube(255) * d);
                }
            }
            return t as u8;
        }
        t = t + 1;
    }
    proof {
        let j: int = 254;
        assert(cube(2 * j + 1) * (m as int) <= 8 * cube(255) * d);
        assert(8 * cube(255) * d < cube(2 * 255int + 1) * (m as int)) by (nonlinear_arith)
            requires
                1 <= m,
                0 <= d <= m,
        ;
    }
    255u8
}

/// Tone-map a finished density buffer into a grey raster image: every
/// channel of pixel `i` is the intensity of counter `i` against the
/// buffer's maximum, or 0 everywhere when the buffer is all zero.
pub fn render_image(density: &DensityBuffer) -> (img: PPM)
    requires
        density.wf(),
        density.spec_counts().len() >= 1,
        3 * density.spec_width() * density.spec_height() <= u32::MAX,
    ensures
        img.wf(),
        img.spec_width() == density.spec_width(),
        img.spec_height() == density.spec_height(),
        img.spec_data().len() == 3 * density.spec_counts().len(),
        max_of(density.spec_counts()) == 0 ==> forall|k: int|
            0 <= k < img.spec_data().len() ==> #[trigger] img.spec_data()[k] == 0,
        max_of(density.spec_counts()) > 0 ==> forall|i: int|
            0 <= i < density.spec_counts().len() ==> is_intensity(
                density.spec_counts()[i] as int,
                max_of(density.spec_counts()),
                #[trigger] img.spec_data()[3 * i] as int,
            ) && img.spec_data()[3 * i + 1] == img.spec_data()[3 * i] && img.spec_data()[3 * i
                + 2] == img.spec_data()[3 * i],
{
    let maxval = density.max_density();
    proof {
        crate::density::lemma_max_of_props(density.spec_counts());
    }
    proof {
        let wi = density.spec_width() as int;
        let hi = density.spec_height() as int;
        assert(3 * (wi * hi) == (3 * wi) * hi) by (nonlinear_arith);
    }
    let mut img = PPM::new(density.width(), density.height());
    if maxval == 0 {
        return img;
    }
    let n = density.len();
    let ghost counts = density.spec_counts();
    let mut i: usize = 0;
    while i < n
        invariant
            n == counts.len(),
            counts == density.spec_counts(),
            density.wf(),
            i <= n,
            maxval == max_of(counts),
            maxval > 0,
            forall|j: int| 0 <= j < counts.len() ==> #[trigger] counts[j] <= maxval,
            img.wf(),
            img.spec_width() == density.spec_width(),
            img.spec_height() == density.spec_height(),
            img.spec_data().len() == 3 * n,
            3 * n <= u32::MAX,
            forall|j: int|
                0 <= j < i ==> is_intensity(
                    counts[j] as int,
                    maxval as int,
                    #[trigger] img.spec_data()[3 * j] as int,
                ) && img.spec_data()[3 * j + 1] == img.spec_data()[3 * j] && img.spec_data()[3 * j
                    + 2] == img.spec_data()[3 * j],
        decreases n - i,
    {
        let d = density.count_at(i);
        let t = intensity(d, maxval);
        img.set_pixel_direct(3 * i, Color::new(t, t, t));
        i = i + 1;
    }
    img
}

} // verus!
