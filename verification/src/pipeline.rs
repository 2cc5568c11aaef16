//! Per-iteration control decisions of the capture loop. Each iteration the
//! loop captures a raw buffer, and these functions decide what the iteration
//! does with it: report a capture failure on the display, silently skip an
//! empty or malformed buffer, or analyze the left channel and render. The
//! blocking capture call, the Fourier transform and the drawing itself are
//! outside collaborators; they hand these functions plain values and carry
//! out the returned decisions.

use vstd::prelude::*;

verus! {

use crate::bars::{bar_height, bar_heights, BAND_COUNT, BAR_BASELINE_Y, TEXT_AREA_BOTTOM_Y};
use crate::demux::{left_sample, process_audio_samples, DemuxError};
use crate::spectrum::{dominant_bin, dominant_bin_spec, dominant_frequency_milli_hz};

/// What one capture attempt produced: a raw buffer, or a failure (timeout or
/// driver error).
pub enum CaptureEvent {
    Buffer(Vec<u8>),
    Failed,
}

/// The decision taken on one capture attempt.
pub enum CaptureStep {
    /// Capture failed: show the fixed status text, then capture again.
    ReportError,
    /// Empty or malformed buffer: skip this iteration without rendering.
    Skip,
    /// Well-formed, non-empty buffer: analyze these left-channel samples.
    Analyze(Vec<i32>),
}

/// The status text shown on the display when a capture attempt fails.
pub fn capture_error_text() -> (text: &'static str)
    ensures
        text@ == "Audio Error"@,
{
    "Audio Error"
}

/// Decides what an iteration does with the outcome of its capture attempt:
/// a failed capture is reported on the display, an empty or malformed buffer
/// skips the iteration, and a well-formed non-empty buffer is demultiplexed
/// and its left channel handed on to analysis.
pub fn on_capture(event: CaptureEvent) -> (step: CaptureStep)
    ensures
        match event {
            CaptureEvent::Failed => step is ReportError,
            CaptureEvent::Buffer(buf) => {
                &&& buf@.len() == 0 ==> step is Skip
                &&& buf@.len() > 0 && buf@.len() % 8 != 0 ==> step is Skip
                &&& buf@.len() > 0 && buf@.len() % 8 == 0 ==> {
                    &&& step matches CaptureStep::Analyze(left)
                    &&& left@.len() == buf@.len() / 8
                    &&& forall|k: int|
                        0 <= k < buf@.len() / 8 ==> (#[trigger] left@[k]) as int
                            == left_sample(buf@, k)
                }
            },
        },
{
    match event {
        CaptureEvent::Failed => CaptureStep::ReportError,
        CaptureEvent::Buffer(buf) => {
            if buf.len() == 0 {
                return CaptureStep::Skip;
            }
            match process_audio_samples(buf) {
                Err(DemuxError::MalformedBuffer) => CaptureStep::Skip,
                Ok((left, _right)) => CaptureStep::Analyze(left),
            }
        },
    }
}

/// Everything one rendered frame shows: the dominant frequency (millihertz)
/// for the text line, and one pixel height per display band.
pub struct RenderPlan {
    pub dominant_bin: usize,
    pub freq_milli_hz: u64,
    pub heights: Vec<u32>,
}

/// Derives the rendered frame from the spectral magnitudes of one analysis:
/// the dominant bin in `[GUARD_BINS, N/2)` (first maximal bin wins), its
/// frequency at the resolution `sample_rate / N`, and the bar heights scaled
/// to the maximal displayed band.
pub fn plan_render(mags: &Vec<u64>, sample_rate: u32) -> (plan: RenderPlan)
    requires
        mags@.len() * sample_rate * 1000 <= u64::MAX,
    ensures
        plan.dominant_bin == dominant_bin_spec(mags@),
        plan.freq_milli_hz == if mags@.len() == 0 {
            0
        } else {
            (dominant_bin_spec(mags@) * sample_rate * 1000) / mags@.len() as int
        },
        plan.heights@.len() == BAND_COUNT,
        forall|i: int|
            0 <= i < BAND_COUNT ==> (#[trigger] plan.heights@[i]) == bar_height(mags@, i),
        forall|i: int|
            0 <= i < BAND_COUNT ==> BAR_BASELINE_Y - (#[trigger] plan.heights@[i])
                >= TEXT_AREA_BOTTOM_Y,
{
    let bin = dominant_bin(mags);
    let freq: u64 = if mags.len() == 0 {
        0
    } else {
        proof {
            assert(bin * sample_rate * 1000 <= mags@.len() * sample_rate * 1000)
                by (nonlinear_arith)
                requires
                    0 <= bin <= mags@.len(),
                    0 <= sample_rate,
            ;
        }
        dominant_frequency_milli_hz(bin, sample_rate, mags.len())
    };
    let heights = bar_heights(mags);
    RenderPlan { dominant_bin: bin, freq_milli_hz: freq, heights }
}

} // verus!
