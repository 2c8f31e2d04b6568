// Tests for the stream synchronizer: configuration, mixing arithmetic,
// and the all-sources-ready emission rule.

use loqa_meetings::{AudioFrame, AudioMixer, AudioStreamSource, MixerConfig, SourceSet};

fn frame(samples: Vec<i16>, timestamp_ms: u64, source: AudioStreamSource) -> AudioFrame {
    AudioFrame { samples, sample_rate: 16000, channels: 1, timestamp_ms, source }
}

#[test]
fn test_mixer_creation() {
    let config = MixerConfig::default();
    let mixer = AudioMixer::new(config);

    assert_eq!(mixer.buffer_count(), 2); // System and Microphone by default
    assert_eq!(mixer.position_ms(), 0);
}

#[test]
fn test_mixer_config_system_only() {
    let mut enabled_sources = SourceSet::new();
    enabled_sources.insert(AudioStreamSource::System);

    let config = MixerConfig {
        sample_rate: 16000,
        channels: 1,
        max_buffer_delay_ms: 200,
        enabled_sources,
    };

    assert_eq!(config.enabled_sources.len(), 1);
    assert!(config.enabled_sources.contains(&AudioStreamSource::System));
    assert!(!config.enabled_sources.contains(&AudioStreamSource::Microphone));
}

#[test]
fn test_mixer_config_microphone_only() {
    let mut enabled_sources = SourceSet::new();
    enabled_sources.insert(AudioStreamSource::Microphone);

    let config = MixerConfig {
        sample_rate: 16000,
        channels: 1,
        max_buffer_delay_ms: 200,
        enabled_sources,
    };

    assert_eq!(config.enabled_sources.len(), 1);
    assert!(!config.enabled_sources.contains(&AudioStreamSource::System));
    assert!(config.enabled_sources.contains(&AudioStreamSource::Microphone));
}

#[test]
fn test_mixer_config_both() {
    let config = MixerConfig::default();
    assert_eq!(config.enabled_sources.len(), 2);
    assert!(config.enabled_sources.contains(&AudioStreamSource::System));
    assert!(config.enabled_sources.contains(&AudioStreamSource::Microphone));
}

#[test]
fn test_mix_frames_equal_length() {
    let mixer = AudioMixer::new(MixerConfig::default());

    let frame1 = frame(vec![100, 200, 300], 0, AudioStreamSource::System);
    let frame2 = frame(vec![50, 100, 150], 0, AudioStreamSource::Microphone);

    let frames = vec![frame1, frame2];
    let mixed = mixer.mix_multiple_frames(&frames).unwrap();

    assert_eq!(mixed.samples.len(), 3);
    assert_eq!(mixed.samples[0], 150); // 100 + 50
    assert_eq!(mixed.samples[1], 300); // 200 + 100
    assert_eq!(mixed.samples[2], 450); // 300 + 150
}

#[test]
fn test_mix_frames_with_clipping() {
    let mixer = AudioMixer::new(MixerConfig::default());

    let frame1 = frame(vec![i16::MAX - 100], 0, AudioStreamSource::System);
    let frame2 = frame(vec![200], 0, AudioStreamSource::Microphone);

    let frames = vec![frame1, frame2];
    let mixed = mixer.mix_multiple_frames(&frames).unwrap();

    assert_eq!(mixed.samples[0], i16::MAX); // Clipped to max
}

#[test]
fn test_mix_frames_different_lengths() {
    let mixer = AudioMixer::new(MixerConfig::default());

    let frame1 = frame(vec![100, 200], 0, AudioStreamSource::System);
    let frame2 = frame(vec![50, 100, 150, 200], 0, AudioStreamSource::Microphone);

    let frames = vec![frame1, frame2];
    let mixed = mixer.mix_multiple_frames(&frames).unwrap();

    assert_eq!(mixed.samples.len(), 4); // Length of longer frame
    assert_eq!(mixed.samples[0], 150); // 100 + 50
    assert_eq!(mixed.samples[1], 300); // 200 + 100
    assert_eq!(mixed.samples[2], 150); // 0 + 150 (frame1 ended)
    assert_eq!(mixed.samples[3], 200); // 0 + 200 (frame1 ended)
}

#[test]
fn test_mix_zero_frames_is_error() {
    let mixer = AudioMixer::new(MixerConfig::default());
    let frames: Vec<AudioFrame> = Vec::new();
    assert!(mixer.mix_multiple_frames(&frames).is_err());
}

// With both sources enabled, nothing is emitted until every source has a
// ready frame; one lone ready source stalls the merge.
#[test]
fn test_no_emission_until_all_sources_ready() {
    let mut mixer = AudioMixer::new(MixerConfig::default());

    // 320 samples = one full 20 ms frame at 16 kHz, so the system queue is
    // ready; the microphone queue is still empty.
    mixer.buffer_frame(frame(vec![10; 320], 0, AudioStreamSource::System));
    let out = mixer.mix_next_chunk().unwrap();
    assert!(matches!(out, None));

    // Once the microphone catches up, exactly one merged frame comes out.
    mixer.buffer_frame(frame(vec![5; 320], 0, AudioStreamSource::Microphone));
    let out = mixer.mix_next_chunk().unwrap();
    let mixed = out.unwrap();
    assert_eq!(mixed.samples.len(), 320);
    assert_eq!(mixed.samples[0], 15);
    assert_eq!(mixed.timestamp_ms, 0);
}

// A frame whose format does not match the configuration is dropped.
#[test]
fn test_mismatched_frame_is_dropped() {
    let mut mixer = AudioMixer::new(MixerConfig::default());

    mixer.buffer_frame(frame(vec![10; 320], 0, AudioStreamSource::System));
    let wrong_rate = AudioFrame {
        samples: vec![5; 320],
        sample_rate: 44100,
        channels: 1,
        timestamp_ms: 0,
        source: AudioStreamSource::Microphone,
    };
    mixer.buffer_frame(wrong_rate);

    // The microphone frame was rejected, so the merge still stalls.
    let out = mixer.mix_next_chunk().unwrap();
    assert!(matches!(out, None));
}

// A whole mixing pass: small input frames are accumulated into uniform
// 20 ms units and merged one-for-one across the enabled sources.
#[test]
fn test_mix_whole_stream() {
    let mut mixer = AudioMixer::new(MixerConfig::default());

    let inputs = vec![
        frame(vec![100; 640], 0, AudioStreamSource::System),
        frame(vec![11; 640], 0, AudioStreamSource::Microphone),
    ];
    let mixed = mixer.mix(inputs).unwrap();

    // 640 samples per source form two full 320-sample units each.
    assert_eq!(mixed.len(), 2);
    for m in &mixed {
        assert_eq!(m.samples.len(), 320);
        assert!(m.samples.iter().all(|&s| s == 111));
    }
}

// With no sources enabled the merge is refused.
#[test]
fn test_mix_without_sources_is_error() {
    let config = MixerConfig {
        sample_rate: 16000,
        channels: 1,
        max_buffer_delay_ms: 200,
        enabled_sources: SourceSet::new(),
    };
    let mut mixer = AudioMixer::new(config);
    assert!(mixer.mix_next_chunk().is_err());
}

// Frames older than the output position minus the maximum buffer delay are
// pruned from the ready queues.
#[test]
fn test_stale_frames_are_pruned() {
    let mut mixer = AudioMixer::new(MixerConfig::default());

    // Fill both queues at t=0 and merge once so the position advances.
    mixer.buffer_frame(frame(vec![1; 320], 1000, AudioStreamSource::System));
    mixer.buffer_frame(frame(vec![2; 320], 1000, AudioStreamSource::Microphone));
    assert!(mixer.mix_next_chunk().unwrap().is_some());
    assert_eq!(mixer.position_ms(), 1000);

    // A stale system frame (older than 1000 - 200) is pruned as soon as the
    // next frame is buffered, so the merge stalls again.
    mixer.buffer_frame(frame(vec![3; 320], 100, AudioStreamSource::System));
    let out = mixer.mix_next_chunk().unwrap();
    assert!(matches!(out, None));
}
