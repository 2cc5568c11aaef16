//! Bar-graph mapping: scales spectral magnitudes to bounded pixel heights
//! for a fixed number of display bands. Heights are scaled relative to the
//! maximal magnitude among the displayed bands, rounded to the nearest
//! pixel, and clamped so that a bar drawn upward from the baseline never
//! crosses into the text area at the top of the display.

use vstd::prelude::*;

verus! {

use vstd::arithmetic::div_mod::{
    lemma_div_is_ordered,
    lemma_div_pos_is_pos,
    lemma_fundamental_div_mod_converse,
};
use vstd::arithmetic::mul::{lemma_mul_inequality, lemma_mul_nonnegative};

/// Number of frequency bands shown on the display.
pub const BAND_COUNT: usize = 64;

/// Tallest bar, in pixels.
pub const MAX_BAR_HEIGHT: u32 = 40;

/// Y coordinate of the baseline that bars grow upward from.
pub const BAR_BASELINE_Y: u32 = 60;

/// Lowest y coordinate a bar may reach: the bottom of the text area.
pub const TEXT_AREA_BOTTOM_Y: u32 = 20;

/// Magnitude shown for band `i`: the frame's magnitude below the Nyquist
/// bin, zero at and above it (bands past Nyquist are zero-filled).
pub open spec fn band_magnitude(mags: Seq<u64>, i: int) -> u64 {
    if 0 <= i < mags.len() / 2 {
        mags[i]
    } else {
        0
    }
}

/// Maximum of the band magnitudes of the first `n` bands.
pub open spec fn max_band_upto(mags: Seq<u64>, n: int) -> u64
    decreases n,
{
    if n <= 0 {
        0
    } else {
        let prev = max_band_upto(mags, n - 1);
        if band_magnitude(mags, n - 1) > prev {
            band_magnitude(mags, n - 1)
        } else {
            prev
        }
    }
}

/// Maximum magnitude among all displayed bands.
pub open spec fn max_band_magnitude(mags: Seq<u64>) -> u64 {
    max_band_upto(mags, BAND_COUNT as int)
}

/// Division rounded to the nearest integer, halves rounding up.
pub open spec fn round_div(a: int, b: int) -> int
    recommends
        0 < b,
{
    (2 * a + b) / (2 * b)
}

/// Height of band `i` in pixels: its magnitude scaled relative to the
/// maximal displayed magnitude and rounded, 0 on an all-zero frame, clamped
/// so that the bar stays below the text area.
pub open spec fn bar_height(mags: Seq<u64>, i: int) -> int {
    let mx = max_band_magnitude(mags);
    if mx == 0 {
        0
    } else {
        let h = round_div(band_magnitude(mags, i) * MAX_BAR_HEIGHT, mx as int);
        let cap = BAR_BASELINE_Y - TEXT_AREA_BOTTOM_Y;
        if h > cap {
            cap as int
        } else {
            h
        }
    }
}

/// Every band magnitude is bounded by the maximum, and some band attains it.
pub proof fn lemma_max_band_upto_props(mags: Seq<u64>, n: int)
    requires
        0 < n,
    ensures
        forall|i: int| 0 <= i < n ==> band_magnitude(mags, i) <= max_band_upto(mags, n),
        exists|i: int| 0 <= i < n && band_magnitude(mags, i) == max_band_upto(mags, n),
    decreases n,
{
    if n == 1 {
        assert(band_magnitude(mags, 0) == max_band_upto(mags, 1));
    } else {
        lemma_max_band_upto_props(mags, n - 1);
        if band_magnitude(mags, n - 1) > max_band_upto(mags, n - 1) {
            assert(band_magnitude(mags, n - 1) == max_band_upto(mags, n));
        } else {
            let j = choose|i: int|
                0 <= i < n - 1 && band_magnitude(mags, i) == max_band_upto(mags, n - 1);
            assert(band_magnitude(mags, j) == max_band_upto(mags, n));
        }
    }
}

/// Scaling a magnitude no larger than the (positive) maximum yields at most
/// `MAX_BAR_HEIGHT` pixels.
proof fn lemma_round_div_scale_bounded(m: int, mx: int)
    requires
        0 <= m <= mx,
        0 < mx,
    ensures
        0 <= round_div(m * MAX_BAR_HEIGHT, mx) <= MAX_BAR_HEIGHT,
{
    let a = m * MAX_BAR_HEIGHT;
    lemma_mul_nonnegative(m, MAX_BAR_HEIGHT as int);
    lemma_mul_inequality(m, mx, MAX_BAR_HEIGHT as int);
    lemma_div_pos_is_pos(2 * a + mx, 2 * mx);
    assert(2 * a + mx <= 2 * (mx * MAX_BAR_HEIGHT) + mx);
    lemma_div_is_ordered(2 * a + mx, 2 * (mx * MAX_BAR_HEIGHT) + mx, 2 * mx);
    assert(2 * (mx * MAX_BAR_HEIGHT) + mx == MAX_BAR_HEIGHT * (2 * mx) + mx);
    lemma_fundamental_div_mod_converse(
        2 * (mx * MAX_BAR_HEIGHT) + mx,
        2 * mx,
        MAX_BAR_HEIGHT as int,
        mx,
    );
}

/// The band that carries the maximal magnitude is scaled to exactly the full
/// bar height.
proof fn lemma_round_div_scale_full(mx: int)
    requires
        0 < mx,
    ensures
        round_div(mx * MAX_BAR_HEIGHT, mx) == MAX_BAR_HEIGHT,
{
    assert(2 * (mx * MAX_BAR_HEIGHT) + mx == MAX_BAR_HEIGHT * (2 * mx) + mx);
    lemma_fundamental_div_mod_converse(
        2 * (mx * MAX_BAR_HEIGHT) + mx,
        2 * mx,
        MAX_BAR_HEIGHT as int,
        mx,
    );
}

/// Maps a spectral frame to one bounded pixel height per display band.
pub fn bar_heights(mags: &Vec<u64>) -> (heights: Vec<u32>)
    ensures
        heights@.len() == BAND_COUNT,
        forall|i: int| 0 <= i < BAND_COUNT ==> (#[trigger] heights@[i]) == bar_height(mags@, i),
        forall|i: int| 0 <= i < BAND_COUNT ==> (#[trigger] heights@[i]) <= MAX_BAR_HEIGHT,
        forall|i: int|
            0 <= i < BAND_COUNT ==> BAR_BASELINE_Y - (#[trigger] heights@[i]) >= TEXT_AREA_BOTTOM_Y,
{
    let half = mags.len() / 2;
    let mut mx: u64 = 0;
    let mut i: usize = 0;
    while i < BAND_COUNT
        invariant
            half == mags@.len() / 2,
            0 <= i <= BAND_COUNT,
            mx == max_band_upto(mags@, i as int),
        decreases BAND_COUNT - i,
    {
        let m: u64 = if i < half {
            mags[i]
        } else {
            0
        };
        assert(m == band_magnitude(mags@, i as int));
        if m > mx {
            mx = m;
        }
        i = i + 1;
    }
    let mut heights: Vec<u32> = Vec::new();
    let mut i: usize = 0;
    while i < BAND_COUNT
        invariant
            half == mags@.len() / 2,
            mx == max_band_magnitude(mags@),
            0 <= i <= BAND_COUNT,
            heights@.len() == i,
            forall|j: int| 0 <= j < i ==> (#[trigger] heights@[j]) == bar_height(mags@, j),
            forall|j: int| 0 <= j < i ==> (#[trigger] heights@[j]) <= MAX_BAR_HEIGHT,
        decreases BAND_COUNT - i,
    {
        let m: u64 = if i < half {
            mags[i]
        } else {
            0
        };
        assert(m == band_magnitude(mags@, i as int));
        let h: u32 = if mx == 0 {
            0
        } else {
            proof {
                lemma_max_band_upto_props(mags@, BAND_COUNT as int);
                assert(band_magnitude(mags@, i as int) <= max_band_magnitude(mags@));
                lemma_round_div_scale_bounded(m as int, mx as int);
            }
            let num: u128 = 2 * (m as u128) * (MAX_BAR_HEIGHT as u128) + (mx as u128);
            let den: u128 = 2 * (mx as u128);
            let q: u128 = num / den;
            proof {
                assert(q == round_div(m as int * MAX_BAR_HEIGHT, mx as int));
            }
            let q32: u32 = q as u32;
            if q32 > MAX_BAR_HEIGHT {
                MAX_BAR_HEIGHT
            } else {
                q32
            }
        };
        heights.push(h);
        i = i + 1;
    }
    heights
}

/// On an all-zero spectral frame every bar height is zero.
pub proof fn lemma_bar_heights_all_zero(mags: Seq<u64>)
    requires
        forall|i: int| 0 <= i < mags.len() ==> mags[i] == 0,
    ensures
        forall|i: int| 0 <= i < BAND_COUNT ==> bar_height(mags, i) == 0,
{
    lemma_max_band_zero(mags, BAND_COUNT as int);
}

proof fn lemma_max_band_zero(mags: Seq<u64>, n: int)
    requires
        forall|i: int| 0 <= i < mags.len() ==> mags[i] == 0,
    ensures
        max_band_upto(mags, n) == 0,
    decreases n,
{
    if n > 0 {
        lemma_max_band_zero(mags, n - 1);
    }
}

/// No bar is ever taller than `MAX_BAR_HEIGHT`.
pub proof fn lemma_bar_height_bounded(mags: Seq<u64>, i: int)
    ensures
        0 <= bar_height(mags, i) <= MAX_BAR_HEIGHT,
{
    let mx = max_band_magnitude(mags);
    if mx != 0 {
        if 0 <= i < BAND_COUNT {
            lemma_max_band_upto_props(mags, BAND_COUNT as int);
        }
        if band_magnitude(mags, i) <= mx {
            lemma_round_div_scale_bounded(band_magnitude(mags, i) as int, mx as int);
        } else {
            lemma_round_div_scale_bounded(mx as int, mx as int);
        }
    }
}

/// Scaling correctness: on a frame with a positive maximal band magnitude,
/// some displayed band attains that maximum, and every band that attains it
/// is drawn at exactly the full bar height.
pub proof fn lemma_max_band_full_height(mags: Seq<u64>)
    requires
        max_band_magnitude(mags) > 0,
    ensures
        exists|i: int|
            0 <= i < BAND_COUNT && band_magnitude(mags, i) == max_band_magnitude(mags),
        forall|i: int|
            0 <= i < BAND_COUNT && band_magnitude(mags, i) == max_band_magnitude(mags)
                ==> bar_height(mags, i) == MAX_BAR_HEIGHT,
{
    lemma_max_band_upto_props(mags, BAND_COUNT as int);
    assert forall|i: int|
        0 <= i < BAND_COUNT && band_magnitude(mags, i) == max_band_magnitude(mags)
            implies bar_height(mags, i) == MAX_BAR_HEIGHT by {
        lemma_round_div_scale_full(max_band_magnitude(mags) as int);
    }
}

} // verus!
