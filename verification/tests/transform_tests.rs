// Tests for the per-frame transforms: integer decimation, stereo-to-mono
// collapse, and sample clamping.

use loqa_meetings::{
    clamp_sample, downsample_frame, process_frame, stereo_to_mono, AudioFrame, AudioStreamSource,
};

fn frame(samples: Vec<i16>, sample_rate: u32, channels: u16) -> AudioFrame {
    AudioFrame { samples, sample_rate, channels, timestamp_ms: 0, source: AudioStreamSource::System }
}

#[test]
fn test_clamp_sample_bounds() {
    assert_eq!(clamp_sample(0), 0);
    assert_eq!(clamp_sample(32767), 32767);
    assert_eq!(clamp_sample(32768), 32767);
    assert_eq!(clamp_sample(-32768), -32768);
    assert_eq!(clamp_sample(-32769), -32768);
    assert_eq!(clamp_sample(70000), 32767);
    assert_eq!(clamp_sample(-70000), -32768);
}

// Decimation with a ratio of 1 or less is the identity.
#[test]
fn test_downsample_identity_when_ratio_at_most_one() {
    let f = frame(vec![1, 2, 3, 4], 16000, 1);
    let out = downsample_frame(f.clone(), 16000);
    assert_eq!(out.samples, f.samples);
    assert_eq!(out.sample_rate, 16000);

    // A target above the source rate would need upsampling; the frame passes
    // through unchanged instead.
    let f = frame(vec![5, 6, 7], 8000, 1);
    let out = downsample_frame(f, 16000);
    assert_eq!(out.samples, vec![5, 6, 7]);
    assert_eq!(out.sample_rate, 8000);
}

#[test]
fn test_downsample_keeps_every_nth_sample() {
    // 48 kHz -> 16 kHz is a ratio of 3: every third sample stays.
    let f = frame(vec![0, 1, 2, 3, 4, 5, 6, 7, 8, 9, 10], 48000, 1);
    let out = downsample_frame(f, 16000);
    assert_eq!(out.samples, vec![0, 3, 6, 9]);
    assert_eq!(out.sample_rate, 16000);
}

// A mono frame passes through the collapse unchanged.
#[test]
fn test_stereo_to_mono_keeps_mono_unchanged() {
    let f = frame(vec![10, 20, 30], 16000, 1);
    let out = stereo_to_mono(f);
    assert_eq!(out.samples, vec![10, 20, 30]);
    assert_eq!(out.channels, 1);
}

// Two-channel input sums (not averages) each interleaved pair, clamped.
#[test]
fn test_stereo_to_mono_sums_pairs() {
    let f = frame(vec![100, 200, 300, 400], 16000, 2);
    let out = stereo_to_mono(f);
    assert_eq!(out.samples, vec![300, 700]);
    assert_eq!(out.channels, 1);

    let loud = frame(vec![30000, 30000, -30000, -30000], 16000, 2);
    let out = stereo_to_mono(loud);
    assert_eq!(out.samples, vec![32767, -32768]);
}

// Channel counts other than 1 or 2 pass through unchanged.
#[test]
fn test_stereo_to_mono_leaves_other_layouts() {
    let f = frame(vec![1, 2, 3, 4, 5, 6], 16000, 3);
    let out = stereo_to_mono(f);
    assert_eq!(out.samples, vec![1, 2, 3, 4, 5, 6]);
    assert_eq!(out.channels, 3);
}

#[test]
fn test_process_frame_downsamples_and_collapses() {
    // 32 kHz stereo -> 16 kHz mono: decimation by 2 keeps every other
    // sample, then the remaining pairs are summed.
    let f = frame(vec![1, 2, 3, 4, 5, 6, 7, 8], 32000, 2);
    let out = process_frame(f, 16000, 1);
    // Decimation keeps [1, 3, 5, 7]; the collapse sums to [4, 12].
    assert_eq!(out.samples, vec![4, 12]);
    assert_eq!(out.sample_rate, 16000);
    assert_eq!(out.channels, 1);
}

#[test]
fn test_process_frame_matching_format_is_identity() {
    let f = frame(vec![9, 8, 7], 16000, 1);
    let out = process_frame(f, 16000, 1);
    assert_eq!(out.samples, vec![9, 8, 7]);
    assert_eq!(out.sample_rate, 16000);
    assert_eq!(out.channels, 1);
}
