// Tests for chunk persistence: duration-exact rotation, metadata, and the
// always-flushed final chunk.

use loqa_meetings::{AudioFrame, AudioStreamSource, ChunkConfig, ChunkedRecorder};

fn frames_100ms(count: u64, make_samples: impl Fn(u64) -> Vec<i16>) -> Vec<AudioFrame> {
    let mut frames = Vec::new();
    let mut i: u64 = 0;
    while i < count {
        frames.push(AudioFrame {
            samples: make_samples(i),
            sample_rate: 16000,
            channels: 1,
            timestamp_ms: i * 100, // 100ms intervals
            source: AudioStreamSource::System,
        });
        i += 1;
    }
    frames
}

#[test]
fn test_chunked_recording_creates_single_chunk() {
    let config = ChunkConfig {
        chunk_duration_secs: 10, // 10 second chunks
        output_dir: "/tmp/test-output".to_string(),
        meeting_id: "test-meeting".to_string(),
    };

    let mut recorder = ChunkedRecorder::new(config);

    // 5 seconds worth of audio frames (16kHz mono): 50 frames of 100ms each.
    let samples_per_frame = 1600;
    let num_frames = 50;
    let frames = frames_100ms(num_frames, |_| vec![0i16; samples_per_frame]);

    let chunks = recorder.record(frames);

    // Should have created exactly 1 chunk (5s < 10s chunk duration).
    assert_eq!(chunks.len(), 1, "Should create exactly 1 chunk");

    let chunk = &chunks[0].metadata;
    assert_eq!(chunk.chunk_index, 0);
    assert_eq!(chunk.sample_rate, 16000);
    assert_eq!(chunk.channels, 1);
    assert_eq!(chunk.start_ms, 0);
    assert_eq!(chunk.end_ms, 4900); // Last frame timestamp
    assert_eq!(chunk.sample_count, samples_per_frame * num_frames as usize);

    assert!(chunk.file_path.contains("test-meeting-chunk-000.wav"));
    assert_eq!(chunks[0].samples.len(), chunk.sample_count);
}

#[test]
fn test_chunked_recording_splits_into_multiple_chunks() {
    let config = ChunkConfig {
        chunk_duration_secs: 2, // 2 second chunks
        output_dir: "/tmp/test-output".to_string(),
        meeting_id: "multi-chunk-test".to_string(),
    };

    let mut recorder = ChunkedRecorder::new(config);

    // 5 seconds of audio should create 3 chunks: [0-2s], [2-4s], [4-5s].
    let samples_per_frame = 1600; // 100ms at 16kHz
    let num_frames = 50;
    let frames = frames_100ms(num_frames, |i| vec![(i % 100) as i16; samples_per_frame]);

    let chunks = recorder.record(frames);

    assert_eq!(chunks.len(), 3, "Should create 3 chunks for 5s recording with 2s chunks");

    // Chunk 0 (0-2s)
    assert_eq!(chunks[0].metadata.chunk_index, 0);
    assert_eq!(chunks[0].metadata.start_ms, 0);
    assert!(
        chunks[0].metadata.end_ms >= 1900 && chunks[0].metadata.end_ms < 2100,
        "Chunk 0 should end around 2s, got {}ms",
        chunks[0].metadata.end_ms
    );

    // Chunk 1 (2-4s)
    assert_eq!(chunks[1].metadata.chunk_index, 1);
    assert!(
        chunks[1].metadata.start_ms >= 1900 && chunks[1].metadata.start_ms < 2100,
        "Chunk 1 should start around 2s, got {}ms",
        chunks[1].metadata.start_ms
    );
    assert!(
        chunks[1].metadata.end_ms >= 3900 && chunks[1].metadata.end_ms < 4100,
        "Chunk 1 should end around 4s, got {}ms",
        chunks[1].metadata.end_ms
    );

    // Chunk 2 (4-5s)
    assert_eq!(chunks[2].metadata.chunk_index, 2);
    assert!(
        chunks[2].metadata.start_ms >= 3900 && chunks[2].metadata.start_ms < 4100,
        "Chunk 2 should start around 4s, got {}ms",
        chunks[2].metadata.start_ms
    );
    assert_eq!(chunks[2].metadata.end_ms, 4900); // Last frame timestamp

    // Exact boundaries at frame granularity: 2000 ms and 4000 ms.
    assert_eq!(chunks[1].metadata.start_ms, 2000);
    assert_eq!(chunks[2].metadata.start_ms, 4000);

    for (i, chunk) in chunks.iter().enumerate() {
        assert_eq!(chunk.metadata.chunk_index, i);
        assert_eq!(chunk.samples.len(), chunk.metadata.sample_count);
    }
}

#[test]
fn test_chunked_recording_handles_empty_input() {
    let config = ChunkConfig {
        chunk_duration_secs: 5,
        output_dir: "/tmp/test-output".to_string(),
        meeting_id: "empty-test".to_string(),
    };

    let mut recorder = ChunkedRecorder::new(config);

    // An immediately closed input produces no chunks at all.
    let chunks = recorder.record(Vec::new());
    assert_eq!(chunks.len(), 0, "Should create 0 chunks for empty input");
}

#[test]
fn test_chunked_recording_preserves_audio_format() {
    let config = ChunkConfig {
        chunk_duration_secs: 10,
        output_dir: "/tmp/test-output".to_string(),
        meeting_id: "format-test".to_string(),
    };

    let mut recorder = ChunkedRecorder::new(config);

    let sample_rate = 16000;
    let channels = 1;
    let frames = frames_100ms(10, |_| vec![100i16; 1600]);

    let chunks = recorder.record(frames);

    assert_eq!(chunks[0].metadata.sample_rate, sample_rate, "Sample rate should be preserved");
    assert_eq!(chunks[0].metadata.channels, channels, "Channel count should be preserved");
}

#[test]
fn test_chunk_config_creation() {
    let config = ChunkConfig::new("test-meeting".to_string(), "/tmp/test".to_string());

    assert_eq!(config.meeting_id, "test-meeting");
    assert_eq!(config.output_dir, "/tmp/test");
    assert_eq!(config.chunk_duration_secs, 300, "Default chunk duration should be 5 minutes");
}

#[test]
fn test_chunk_config_custom_duration() {
    let config = ChunkConfig {
        chunk_duration_secs: 60, // 1 minute
        output_dir: "/tmp/test".to_string(),
        meeting_id: "test".to_string(),
    };

    assert_eq!(config.chunk_duration_secs, 60);
}

// The chunk's samples are exactly the concatenation of the frames appended
// to it, in arrival order.
#[test]
fn test_chunk_samples_are_concatenated_in_order() {
    let config = ChunkConfig {
        chunk_duration_secs: 60,
        output_dir: "/tmp/test-output".to_string(),
        meeting_id: "order-test".to_string(),
    };
    let mut recorder = ChunkedRecorder::new(config);

    let frames = vec![
        AudioFrame {
            samples: vec![1, 2],
            sample_rate: 16000,
            channels: 1,
            timestamp_ms: 0,
            source: AudioStreamSource::System,
        },
        AudioFrame {
            samples: vec![3, 4, 5],
            sample_rate: 16000,
            channels: 1,
            timestamp_ms: 100,
            source: AudioStreamSource::System,
        },
    ];

    let chunks = recorder.record(frames);
    assert_eq!(chunks.len(), 1);
    assert_eq!(chunks[0].samples, vec![1, 2, 3, 4, 5]);
    assert_eq!(chunks[0].metadata.sample_count, 5);
    assert_eq!(chunks[0].metadata.end_ms, 100);
}
