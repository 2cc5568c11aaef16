//! Dominant-frequency selection over a spectral frame. The spectral frame is
//! given as one non-negative integer magnitude per bin; only bins in
//! `[GUARD_BINS, N/2)` are scanned — the guard band excludes the DC offset
//! and sub-audible noise, and bins at or above the Nyquist limit carry no
//! independent information. Ties are broken toward the lowest bin.

use vstd::prelude::*;

verus! {

/// Number of low-frequency bins excluded from the dominant-bin scan.
pub const GUARD_BINS: usize = 4;

/// Index of the maximal magnitude in `[lo, hi)`, scanning from `lo` so that
/// the first occurrence of the maximum wins.
pub open spec fn best_bin_from(mags: Seq<u64>, lo: int, hi: int) -> int
    recommends
        0 <= lo < hi <= mags.len(),
    decreases hi - lo,
{
    if lo + 1 >= hi {
        lo
    } else {
        let rest = best_bin_from(mags, lo + 1, hi);
        if mags[lo] >= mags[rest] {
            lo
        } else {
            rest
        }
    }
}

/// The dominant bin of a spectral frame: the first bin of maximal magnitude
/// in `[GUARD_BINS, N/2)`, or 0 when that range is empty (degenerate input,
/// reported as 0 Hz rather than failing).
pub open spec fn dominant_bin_spec(mags: Seq<u64>) -> int {
    if mags.len() / 2 <= GUARD_BINS {
        0
    } else {
        best_bin_from(mags, GUARD_BINS as int, mags.len() as int / 2)
    }
}

/// The scan picks an index of the range that carries the maximum of the
/// range, and every earlier index of the range carries strictly less.
pub proof fn lemma_best_bin_from_props(mags: Seq<u64>, lo: int, hi: int)
    requires
        0 <= lo < hi <= mags.len(),
    ensures
        lo <= best_bin_from(mags, lo, hi) < hi,
        forall|j: int| lo <= j < hi ==> #[trigger] mags[j] <= mags[best_bin_from(mags, lo, hi)],
        forall|j: int|
            lo <= j < best_bin_from(mags, lo, hi) ==> #[trigger] mags[j] < mags[best_bin_from(
                mags,
                lo,
                hi,
            )],
    decreases hi - lo,
{
    if lo + 1 < hi {
        lemma_best_bin_from_props(mags, lo + 1, hi);
    }
}

/// Two indices that both carry the range's maximum and strictly exceed every
/// earlier index of the range are the same index.
pub proof fn lemma_first_argmax_unique(mags: Seq<u64>, lo: int, hi: int, a: int, b: int)
    requires
        0 <= lo <= a < hi <= mags.len(),
        lo <= b < hi,
        forall|j: int| lo <= j < hi ==> mags[j] <= mags[a],
        forall|j: int| lo <= j < a ==> mags[j] < mags[a],
        forall|j: int| lo <= j < hi ==> mags[j] <= mags[b],
        forall|j: int| lo <= j < b ==> mags[j] < mags[b],
    ensures
        a == b,
{
    if a < b {
        assert(mags[a] < mags[b]);
        assert(mags[b] <= mags[a]);
    } else if b < a {
        assert(mags[b] < mags[a]);
        assert(mags[a] <= mags[b]);
    }
}

/// Scans the spectral frame for the dominant bin: the first bin of maximal
/// magnitude in `[GUARD_BINS, N/2)`, or 0 when that range is empty.
pub fn dominant_bin(mags: &Vec<u64>) -> (bin: usize)
    ensures
        bin == dominant_bin_spec(mags@),
        mags@.len() / 2 <= GUARD_BINS ==> bin == 0,
        mags@.len() / 2 > GUARD_BINS ==> {
            &&& GUARD_BINS <= bin < mags@.len() / 2
            &&& forall|j: int| GUARD_BINS <= j < mags@.len() / 2 ==> mags@[j] <= mags@[bin as int]
            &&& forall|j: int| GUARD_BINS <= j < bin ==> mags@[j] < mags@[bin as int]
        },
{
    let half = mags.len() / 2;
    if half <= GUARD_BINS {
        return 0;
    }
    let mut best: usize = GUARD_BINS;
    let mut j: usize = GUARD_BINS + 1;
    while j < half
        invariant
            GUARD_BINS < half <= mags@.len(),
            half == mags@.len() / 2,
            GUARD_BINS <= best < j <= half,
            forall|i: int| GUARD_BINS <= i < j ==> mags@[i] <= mags@[best as int],
            forall|i: int| GUARD_BINS <= i < best ==> mags@[i] < mags@[best as int],
        decreases half - j,
    {
        if mags[j] > mags[best] {
            best = j;
        }
        j = j + 1;
    }
    proof {
        lemma_best_bin_from_props(mags@, GUARD_BINS as int, mags@.len() as int / 2);
        lemma_first_argmax_unique(
            mags@,
            GUARD_BINS as int,
            mags@.len() as int / 2,
            best as int,
            best_bin_from(mags@, GUARD_BINS as int, mags@.len() as int / 2),
        );
    }
    best
}

/// On a frame whose magnitudes are all zero the tie-break rule selects the
/// first scanned bin, the start of the guard band.
pub proof fn lemma_dominant_bin_all_zero(mags: Seq<u64>)
    requires
        forall|i: int| 0 <= i < mags.len() ==> mags[i] == 0,
        mags.len() / 2 > GUARD_BINS,
    ensures
        dominant_bin_spec(mags) == GUARD_BINS,
{
    lemma_best_bin_from_props(mags, GUARD_BINS as int, mags.len() as int / 2);
    let r = best_bin_from(mags, GUARD_BINS as int, mags.len() as int / 2);
    if r > GUARD_BINS {
        assert(mags[GUARD_BINS as int] < mags[r]);
    }
}

/// Dominant frequency in millihertz: the dominant bin times the frame's
/// frequency resolution `sample_rate / n`.
pub fn dominant_frequency_milli_hz(bin: usize, sample_rate: u32, n: usize) -> (freq: u64)
    requires
        n > 0,
        bin * sample_rate * 1000 <= u64::MAX,
    ensures
        freq == (bin * sample_rate * 1000) as int / n as int,
{
    proof {
        assert((bin * sample_rate) as int <= (bin * sample_rate * 1000) as int)
            by (nonlinear_arith);
    }
    let scaled: u64 = (bin as u64) * (sample_rate as u64) * 1000;
    scaled / (n as u64)
}

} // verus!
