//! Fixed-point model of sample normalization. The capture format carries a
//! 24-bit signed sample in a 32-bit word; normalization divides each sample
//! by the maximum representable magnitude of that format, `2^23 - 1`. The
//! quotient is modeled exactly as a fixed-point number: the original sample
//! as numerator over the constant denominator `NORM_DIVISOR`, so that order
//! and scale statements are exact rather than approximate.

use vstd::prelude::*;

verus! {

/// Maximum magnitude of the captured fixed-point format (`2^23 - 1`), the
/// fixed denominator of every `NormalizedSample`.
pub const NORM_DIVISOR: i32 = 8388607;

/// One normalized sample: the value `numerator / NORM_DIVISOR`.
#[derive(Clone, Copy, Debug, PartialEq, Eq, Structural)]
pub struct NormalizedSample {
    pub numerator: i32,
}

/// Normalization of a single sample: the sample becomes the numerator over
/// the fixed divisor.
pub open spec fn normalize_spec(sample: i32) -> NormalizedSample {
    NormalizedSample { numerator: sample }
}

/// Normalization mapped over a whole channel.
pub open spec fn normalize_seq(samples: Seq<i32>) -> Seq<NormalizedSample> {
    samples.map_values(|s: i32| normalize_spec(s))
}

/// Strict order on normalized samples. Both sides share the positive
/// denominator `NORM_DIVISOR`, so comparing numerators compares the values.
pub open spec fn norm_lt(a: NormalizedSample, b: NormalizedSample) -> bool {
    a.numerator < b.numerator
}

/// The no-op stage: passes a normalized channel through unchanged.
pub open spec fn no_op_stage(samples: Seq<NormalizedSample>) -> Seq<NormalizedSample> {
    samples
}

/// Maps each fixed-point integer sample of a channel to its normalized form.
pub fn normalize_samples(samples: &Vec<i32>) -> (out: Vec<NormalizedSample>)
    ensures
        out@ == normalize_seq(samples@),
        out@.len() == samples@.len(),
        forall|i: int| 0 <= i < samples@.len() ==> (#[trigger] out@[i]).numerator == samples@[i],
{
    let mut out: Vec<NormalizedSample> = Vec::new();
    let mut i: usize = 0;
    while i < samples.len()
        invariant
            0 <= i <= samples@.len(),
            out@.len() == i,
            forall|j: int|
                0 <= j < i ==> (#[trigger] out@[j]) == normalize_spec(samples@[j]),
        decreases samples@.len() - i,
    {
        out.push(NormalizedSample { numerator: samples[i] });
        i = i + 1;
    }
    proof {
        assert(out@ =~= normalize_seq(samples@));
    }
    out
}

/// Normalization is monotonic: of two samples, the smaller one normalizes to
/// the smaller value. With the shared positive denominator this is exactly
/// the order of the numerators.
pub proof fn lemma_normalize_monotonic(a: i32, b: i32)
    requires
        a < b,
    ensures
        norm_lt(normalize_spec(a), normalize_spec(b)),
{
}

/// Composing normalization with the no-op stage, on either side of it,
/// changes nothing: normalizing a channel and passing it through the no-op
/// stage yields exactly the normalization of that channel.
pub proof fn lemma_normalize_no_op_composition(samples: Seq<i32>)
    ensures
        no_op_stage(normalize_seq(samples)) == normalize_seq(samples),
{
}

} // verus!
