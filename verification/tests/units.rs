use audio_spectrum::bars::{bar_heights, BAND_COUNT, MAX_BAR_HEIGHT};
use audio_spectrum::demux::{process_audio_samples, DemuxError};
use audio_spectrum::normalize::{normalize_samples, NORM_DIVISOR};
use audio_spectrum::pipeline::{capture_error_text, on_capture, CaptureEvent, CaptureStep};
use audio_spectrum::spectrum::{dominant_bin, dominant_frequency_milli_hz, GUARD_BINS};

fn interleave(left: &[i32], right: &[i32]) -> Vec<u8> {
    let mut buf = Vec::new();
    for k in 0..left.len() {
        buf.extend_from_slice(&left[k].to_le_bytes());
        buf.extend_from_slice(&right[k].to_le_bytes());
    }
    buf
}

#[test]
fn demux_rejects_length_not_multiple_of_eight() {
    for len in [1usize, 2, 3, 4, 5, 6, 7, 9, 15, 1601] {
        let buf = vec![0u8; len];
        if len % 8 != 0 {
            assert_eq!(process_audio_samples(buf), Err(DemuxError::MalformedBuffer));
        }
    }
}

#[test]
fn demux_splits_whole_frames() {
    let left = [1i32, -2, i32::MIN, 0x0102_0304];
    let right = [0i32, 8_388_607, -8_388_608, i32::MAX];
    let buf = interleave(&left, &right);
    assert_eq!(buf.len(), 32);
    let (l, r) = process_audio_samples(buf).unwrap();
    assert_eq!(l, left.to_vec());
    assert_eq!(r, right.to_vec());
}

#[test]
fn demux_accepts_empty_buffer() {
    let (l, r) = process_audio_samples(Vec::new()).unwrap();
    assert!(l.is_empty());
    assert!(r.is_empty());
}

#[test]
fn demux_roundtrip_reconstructs_buffer() {
    let buf: Vec<u8> = (0..48u8).map(|b| b.wrapping_mul(37).wrapping_add(11)).collect();
    let (l, r) = process_audio_samples(buf.clone()).unwrap();
    assert_eq!(l.len(), buf.len() / 8);
    assert_eq!(r.len(), buf.len() / 8);
    assert_eq!(interleave(&l, &r), buf);
}

#[test]
fn normalizer_keeps_samples_as_numerators() {
    let samples = vec![-8_388_607i32, -5, 0, 7, 8_388_607];
    let out = normalize_samples(&samples);
    assert_eq!(out.len(), samples.len());
    for (s, n) in samples.iter().zip(out.iter()) {
        assert_eq!(n.numerator, *s);
    }
    assert_eq!(NORM_DIVISOR, (1 << 23) - 1);
}

#[test]
fn normalizer_is_monotonic_on_samples() {
    let samples = vec![-8_388_608i32, -100, -1, 0, 1, 99, 8_388_607];
    let out = normalize_samples(&samples);
    for w in out.windows(2) {
        assert!(w[0].numerator < w[1].numerator);
    }
}

#[test]
fn dominant_bin_takes_first_maximum_after_guard_band() {
    let mut mags = vec![0u64; 16];
    mags[0] = 99; // inside the guard band, must be ignored
    mags[4] = 3;
    mags[5] = 9;
    mags[6] = 9; // tie: the earlier bin 5 must win
    mags[7] = 2;
    assert_eq!(dominant_bin(&mags), 5);
}

#[test]
fn dominant_bin_defaults_to_zero_on_degenerate_input() {
    assert_eq!(dominant_bin(&vec![]), 0);
    assert_eq!(dominant_bin(&vec![5u64; 8]), 0); // N/2 == GUARD_BINS
}

#[test]
fn dominant_bin_of_all_zero_frame_is_guard_band_start() {
    let mags = vec![0u64; 16];
    assert_eq!(dominant_bin(&mags), GUARD_BINS);
}

#[test]
fn dominant_frequency_is_bin_times_resolution() {
    assert_eq!(dominant_frequency_milli_hz(100, 48_000, 4_800), 1_000_000);
    assert_eq!(dominant_frequency_milli_hz(4, 48_000, 200), 960_000);
    assert_eq!(dominant_frequency_milli_hz(0, 48_000, 200), 0);
}

#[test]
fn bar_heights_all_zero_frame_gives_zero_bars() {
    let heights = bar_heights(&vec![0u64; 128]);
    assert_eq!(heights.len(), BAND_COUNT);
    assert!(heights.iter().all(|&h| h == 0));
}

#[test]
fn bar_heights_scale_to_full_height_at_maximum() {
    let mut mags = vec![0u64; 16];
    mags[0] = 7;
    mags[5] = 9;
    mags[6] = 9;
    let heights = bar_heights(&mags);
    assert_eq!(heights.len(), BAND_COUNT);
    // round((7 / 9) * 40) = round(31.1) = 31
    assert_eq!(heights[0], 31);
    // the maximal band is drawn at exactly the full height
    assert_eq!(heights[5], MAX_BAR_HEIGHT);
    assert_eq!(heights[6], MAX_BAR_HEIGHT);
    assert!(heights.iter().all(|&h| h <= MAX_BAR_HEIGHT));
    // bands at and above the Nyquist bin are zero-filled
    assert_eq!(heights[8], 0);
    assert_eq!(heights[63], 0);
}

#[test]
fn bar_heights_bands_past_nyquist_are_zero() {
    // N/2 == 4: only bands 0..4 may be non-zero
    let mags = vec![10u64, 20, 30, 40, 50, 60, 70, 80];
    let heights = bar_heights(&mags);
    for i in 4..BAND_COUNT {
        assert_eq!(heights[i], 0);
    }
    assert_eq!(heights[3], MAX_BAR_HEIGHT);
}

#[test]
fn capture_failure_reports_fixed_status() {
    let step = on_capture(CaptureEvent::Failed);
    assert!(matches!(step, CaptureStep::ReportError));
    assert_eq!(capture_error_text(), "Audio Error");
}

#[test]
fn empty_buffer_skips_iteration() {
    let step = on_capture(CaptureEvent::Buffer(Vec::new()));
    assert!(matches!(step, CaptureStep::Skip));
}

#[test]
fn malformed_buffer_skips_iteration() {
    let step = on_capture(CaptureEvent::Buffer(vec![0u8; 13]));
    assert!(matches!(step, CaptureStep::Skip));
}

#[test]
fn well_formed_buffer_hands_left_channel_to_analysis() {
    let left = [5i32, -6, 7];
    let right = [1i32, 2, 3];
    let step = on_capture(CaptureEvent::Buffer(interleave(&left, &right)));
    match step {
        CaptureStep::Analyze(l) => assert_eq!(l, left.to_vec()),
        _ => panic!("expected analysis of the left channel"),
    }
}
