// Tests for the transport envelope protocol: JSON framing, the base64 PCM
// payload, and the publish subjects. The frames built by the library are
// checked against an independent JSON parser and base64 codec.

use base64::Engine;
use loqa_meetings::envelope::{
    audio_frame_subject, decode_pcm_payload, encode_audio_frame_message, encode_pcm_payload,
    encode_pcm_samples, transcript_subject,
};
use loqa_meetings::AudioFrameMessage;

#[test]
fn test_audio_frame_serialization() {
    let msg = AudioFrameMessage {
        session_id: "test-meeting".to_string(),
        sequence: 0,
        pcm: base64::engine::general_purpose::STANDARD.encode([0u8; 100]),
        sample_rate: 16000,
        channels: 1,
        timestamp: "2025-10-27T14:30:00Z".to_string(),
        final_frame: false,
    };

    let json = encode_audio_frame_message(&msg);
    assert!(json.contains("test-meeting"));
    assert!(json.contains("16000"));
    assert!(json.contains("\"final\":false"));
    assert!(json.contains("\"sequence\":0"));

    let parsed: serde_json::Value = serde_json::from_str(&json).unwrap();
    assert_eq!(parsed["session_id"].as_str().unwrap(), "test-meeting");
    assert_eq!(parsed["sample_rate"].as_u64().unwrap(), 16000);
    assert_eq!(parsed["channels"].as_u64().unwrap(), 1);
    assert_eq!(parsed["sequence"].as_u64().unwrap(), 0);
    assert!(!parsed["final"].as_bool().unwrap());
    assert_eq!(parsed["timestamp"].as_str().unwrap(), "2025-10-27T14:30:00Z");
    assert_eq!(parsed["pcm"].as_str().unwrap(), msg.pcm);
}

#[test]
fn test_audio_frame_final_marker() {
    let msg = AudioFrameMessage {
        session_id: "test-meeting".to_string(),
        sequence: 10,
        pcm: String::new(), // Empty for final marker
        sample_rate: 16000,
        channels: 1,
        timestamp: "2025-10-27T14:30:00Z".to_string(),
        final_frame: true,
    };

    let json = encode_audio_frame_message(&msg);
    assert!(json.contains("\"final\":true"));

    let parsed: serde_json::Value = serde_json::from_str(&json).unwrap();
    assert!(parsed["final"].as_bool().unwrap());
    assert!(parsed["pcm"].as_str().unwrap().is_empty());
    assert_eq!(parsed["sequence"].as_u64().unwrap(), 10);
}

#[test]
fn test_pcm_encoding_roundtrip() {
    let original_samples: Vec<i16> = vec![100, -200, 300, -400];

    let encoded = encode_pcm_payload(&original_samples);

    let msg = AudioFrameMessage {
        session_id: "test".to_string(),
        sequence: 0,
        pcm: encoded,
        sample_rate: 16000,
        channels: 1,
        timestamp: "2025-10-27T14:30:00Z".to_string(),
        final_frame: false,
    };

    // Frame as JSON, read it back with an independent parser, and decode.
    let json = encode_audio_frame_message(&msg);
    let parsed: serde_json::Value = serde_json::from_str(&json).unwrap();
    let decoded_samples = decode_pcm_payload(parsed["pcm"].as_str().unwrap()).unwrap();

    assert_eq!(decoded_samples, original_samples);
}

// The library's little-endian byte layout and base64 payload agree with an
// independent codec on a known value.
#[test]
fn test_pcm_payload_against_reference_codec() {
    let samples: Vec<i16> = vec![100, -200, 300, -400];

    let bytes = encode_pcm_samples(&samples);
    assert_eq!(bytes, vec![100, 0, 56, 255, 44, 1, 112, 254]);

    let payload = encode_pcm_payload(&samples);
    let reference = base64::engine::general_purpose::STANDARD.encode(&bytes);
    assert_eq!(payload, reference);

    let reference_decoded = base64::engine::general_purpose::STANDARD
        .decode(&payload)
        .unwrap();
    assert_eq!(reference_decoded, bytes);
}

#[test]
fn test_decode_rejects_invalid_base64() {
    assert!(decode_pcm_payload("!!! not base64 !!!").is_err());
}

#[test]
fn test_empty_payload_roundtrip() {
    let empty: Vec<i16> = Vec::new();
    let payload = encode_pcm_payload(&empty);
    assert!(payload.is_empty());
    assert_eq!(decode_pcm_payload(&payload).unwrap(), empty);
}

// Quotes, backslashes and control characters in a field survive the JSON
// framing: an independent parser reads back exactly the original text.
#[test]
fn test_json_escaping_roundtrip() {
    let tricky = "with \"quotes\", a back\\slash, a tab\tand a newline\n".to_string();
    let msg = AudioFrameMessage {
        session_id: tricky.clone(),
        sequence: 7,
        pcm: String::new(),
        sample_rate: 16000,
        channels: 1,
        timestamp: "2025-10-27T14:30:00Z".to_string(),
        final_frame: false,
    };

    let json = encode_audio_frame_message(&msg);
    let parsed: serde_json::Value = serde_json::from_str(&json).unwrap();
    assert_eq!(parsed["session_id"].as_str().unwrap(), tricky);
}

#[test]
fn test_publish_subjects() {
    let subject = audio_frame_subject("meeting-42");
    assert_eq!(subject, "audio.frame.meeting-meeting-42");
    assert_eq!(transcript_subject(), "stt.text.>");
}
