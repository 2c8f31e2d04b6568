// Tests for the decoded-audio-file model: duration arithmetic and the
// 16 kHz mono gate in front of the transcription collaborator.

use loqa_meetings::AudioFile;

fn file(sample_rate: u32, channels: u16, samples: Vec<i16>) -> AudioFile {
    AudioFile { path: "sample-meeting.wav".to_string(), sample_rate, channels, samples }
}

#[test]
fn test_audio_file_duration() {
    // 32000 interleaved samples at 16 kHz stereo: one second.
    let audio = file(16000, 2, vec![0; 32000]);
    assert_eq!(audio.duration_ms(), 1000);

    // 1600 samples at 16 kHz mono: 100 ms.
    let audio = file(16000, 1, vec![0; 1600]);
    assert_eq!(audio.duration_ms(), 100);

    // Degenerate formats report zero instead of dividing by zero.
    let audio = file(0, 1, vec![0; 1600]);
    assert_eq!(audio.duration_ms(), 0);
}

#[test]
fn test_audio_file_resample_passthrough_when_16khz_mono() {
    let audio = file(16000, 1, vec![1, 2, 3]);
    let samples = audio.resample_to_mono_16khz().unwrap();
    assert_eq!(samples, vec![1, 2, 3]);
}

#[test]
fn test_audio_file_resample_rejects_other_formats() {
    let audio = file(44100, 1, vec![1, 2, 3]);
    assert!(audio.resample_to_mono_16khz().is_err());

    let audio = file(16000, 2, vec![1, 2, 3, 4]);
    let err = audio.resample_to_mono_16khz().unwrap_err();
    assert!(err.message().contains("16 kHz mono"));
}
