//! Transport envelope protocol: the wire schema spoken with the external
//! transcription collaborator.
//!
//! Outbound audio-frame envelopes carry base64-encoded little-endian 16-bit
//! PCM in a JSON object published to a per-session subject; inbound
//! transcript envelopes are JSON objects consumed from a shared wildcard
//! subject. The library frames outbound envelopes itself; the base64 coding
//! of the payload is done by an outside crate behind trusted wrappers.

use vstd::prelude::*;
use vstd::string::StrSliceExecFns;
use vstd::string::StringExecFns;

use crate::errors::MeetingError;
use crate::textfmt::{dec_digits, u64_to_decimal};

verus! {

/// One audio-frame envelope, published to the per-session subject.
#[derive(Debug, Clone)]
pub struct AudioFrameMessage {
    /// The session this frame belongs to.
    pub session_id: String,
    /// Monotonic frame sequence number.
    pub sequence: u32,
    /// Base64-encoded little-endian 16-bit PCM; may be empty on the final
    /// marker.
    pub pcm: String,
    /// Sample rate in Hz.
    pub sample_rate: u32,
    /// Channel count.
    pub channels: u16,
    /// RFC3339 timestamp of publication.
    pub timestamp: String,
    /// Whether this envelope marks the end of the stream.
    pub final_frame: bool,
}

/// One transcript envelope received from the transcription collaborator.
/// The confidence, when present, is carried in thousandths (0 ..= 1000
/// stands for 0.0 ..= 1.0).
#[derive(Debug, Clone)]
pub struct TranscriptMessage {
    /// The session the text belongs to.
    pub session_id: String,
    /// The transcribed text.
    pub text: String,
    /// Whether this is an interim (partial) result.
    pub partial: bool,
    /// RFC3339 timestamp set by the collaborator.
    pub timestamp: String,
    /// Confidence in thousandths, when the collaborator reports one.
    pub confidence_milli: Option<u32>,
}

/// The low byte of a sample's little-endian encoding.
pub open spec fn lo_byte(x: i16) -> u8 {
    ((x as u16) & 0xff) as u8
}

/// The high byte of a sample's little-endian encoding.
pub open spec fn hi_byte(x: i16) -> u8 {
    ((x as u16) >> 8) as u8
}

/// The little-endian byte encoding of a sample sequence.
pub open spec fn le_bytes_of(s: Seq<i16>) -> Seq<u8> {
    Seq::new(
        (2 * s.len()) as nat,
        |i: int|
            if i % 2 == 0 {
                lo_byte(s[i / 2])
            } else {
                hi_byte(s[i / 2])
            },
    )
}

/// The sample a little-endian byte pair encodes.
pub open spec fn i16_from_le(lo: u8, hi: u8) -> i16 {
    (((hi as u16) << 8) | (lo as u16)) as i16
}

/// The samples a byte sequence encodes, two bytes each; a trailing odd byte
/// is ignored.
pub open spec fn i16s_of(b: Seq<u8>) -> Seq<i16> {
    Seq::new((b.len() / 2) as nat, |k: int| i16_from_le(b[2 * k], b[2 * k + 1]))
}

proof fn lemma_sample_le_roundtrip(x: i16)
    ensures
        i16_from_le(lo_byte(x), hi_byte(x)) == x,
{
    assert(((((((x as u16) >> 8) as u8) as u16) << 8) | ((((x as u16) & 0xff) as u8) as u16)) as i16
        == x) by (bit_vector);
}

/// Law: decoding little-endian PCM bytes gives back exactly the samples that
/// were encoded.
pub proof fn lemma_pcm_le_roundtrip(s: Seq<i16>)
    ensures
        i16s_of(le_bytes_of(s)) == s,
{
    assert forall|k: int| 0 <= k < s.len() implies i16s_of(le_bytes_of(s))[k] == s[k] by {
        lemma_sample_le_roundtrip(s[k]);
    }
    assert(i16s_of(le_bytes_of(s)) =~= s);
}

/// Encode samples as little-endian bytes, two per sample.
pub fn encode_pcm_samples(samples: &Vec<i16>) -> (r: Vec<u8>)
    requires
        2 * samples@.len() <= usize::MAX as int,
    ensures
        r@ == le_bytes_of(samples@),
{
    let n = samples.len();
    let mut out: Vec<u8> = Vec::new();
    let mut k: usize = 0;
    while k < n
        invariant
            k <= n,
            n == samples@.len(),
            2 * n <= usize::MAX as int,
            out@.len() == 2 * k,
            forall|i: int| 0 <= i < 2 * k ==> out@[i] == le_bytes_of(samples@)[i],
        decreases n - k,
    {
        let u: u16 = samples[k] as u16;
        out.push((u & 0xff) as u8);
        out.push((u >> 8) as u8);
        k = k + 1;
    }
    proof {
        assert(out@ =~= le_bytes_of(samples@));
    }
    out
}

/// Decode little-endian bytes into samples, two bytes each; a trailing odd
/// byte is ignored.
pub fn decode_pcm_samples(bytes: &Vec<u8>) -> (r: Vec<i16>)
    ensures
        r@ == i16s_of(bytes@),
{
    let len = bytes.len();
    let n = len / 2;
    let mut out: Vec<i16> = Vec::new();
    let mut k: usize = 0;
    while k < n
        invariant
            k <= n,
            len == bytes@.len(),
            n == len as int / 2,
            out@.len() == k,
            forall|i: int| 0 <= i < k ==> out@[i] == i16s_of(bytes@)[i],
        decreases n - k,
    {
        let lo: u8 = bytes[2 * k];
        let hi: u8 = bytes[2 * k + 1];
        let v: u16 = ((hi as u16) << 8) | (lo as u16);
        out.push(#[verifier::truncate] (v as i16));
        k = k + 1;
    }
    proof {
        assert(out@ =~= i16s_of(bytes@));
    }
    out
}

/// The base64 alphabet, in value order.
pub open spec fn b64_alphabet() -> Seq<char> {
    "ABCDEFGHIJKLMNOPQRSTUVWXYZabcdefghijklmnopqrstuvwxyz0123456789+/"@
}

/// The base64 character for a 6-bit value.
pub open spec fn b64_char(v: int) -> char
    recommends
        0 <= v < 64,
{
    b64_alphabet()[v]
}

/// The four characters encoding one full group of three bytes.
pub open spec fn b64_quad(b0: u8, b1: u8, b2: u8) -> Seq<char> {
    seq![
        b64_char((b0 >> 2) as int),
        b64_char((((b0 & 0x03) << 4) | (b1 >> 4)) as int),
        b64_char((((b1 & 0x0f) << 2) | (b2 >> 6)) as int),
        b64_char((b2 & 0x3f) as int),
    ]
}

/// Standard padded base64: full groups of three bytes become four
/// characters; a trailing group of one or two bytes is padded with `=`.
pub open spec fn b64_encode(b: Seq<u8>) -> Seq<char>
    decreases b.len(),
{
    if b.len() == 0 {
        Seq::<char>::empty()
    } else if b.len() == 1 {
        seq![b64_char((b[0] >> 2) as int), b64_char(((b[0] & 0x03) << 4) as int), '=', '=']
    } else if b.len() == 2 {
        seq![
            b64_char((b[0] >> 2) as int),
            b64_char((((b[0] & 0x03) << 4) | (b[1] >> 4)) as int),
            b64_char(((b[1] & 0x0f) << 2) as int),
            '=',
        ]
    } else {
        b64_quad(b[0], b[1], b[2]) + b64_encode(b.skip(3))
    }
}

/// Relies on base64's standard engine (`STANDARD.encode`): the canonical
/// padded base64 encoding of the bytes, over the standard alphabet.
#[verifier::external_body]
fn base64_encode(bytes: &Vec<u8>) -> (r: String)
    requires
        ((bytes@.len() + 2) / 3) * 4 <= usize::MAX as int,
    ensures
        r@ == b64_encode(bytes@),
{
    base64::Engine::encode(&base64::engine::general_purpose::STANDARD, bytes.as_slice())
}

/// Relies on base64's standard engine (`STANDARD.decode`): decoding accepts
/// every canonical padded encoding and inverts it.
#[verifier::external_body]
fn base64_decode(text: &str) -> (r: Option<Vec<u8>>)
    ensures
        r is None ==> forall|b: Seq<u8>| text@ != b64_encode(b),
        r matches Some(v) ==> forall|b: Seq<u8>| text@ == b64_encode(b) ==> v@ == b,
{
    match base64::Engine::decode(&base64::engine::general_purpose::STANDARD, text) {
        Ok(v) => Some(v),
        Err(_) => None,
    }
}

/// Encode samples into an envelope payload: little-endian bytes, then
/// base64.
pub fn encode_pcm_payload(samples: &Vec<i16>) -> (r: String)
    requires
        2 * samples@.len() <= usize::MAX as int,
        ((2 * samples@.len() + 2) / 3) * 4 <= usize::MAX as int,
    ensures
        r@ == b64_encode(le_bytes_of(samples@)),
{
    let bytes = encode_pcm_samples(samples);
    base64_encode(&bytes)
}

/// Decode an envelope payload back into samples. Every payload produced by
/// `encode_pcm_payload` decodes to exactly the samples it was built from;
/// text that is not valid base64 is a protocol error.
pub fn decode_pcm_payload(text: &str) -> (r: Result<Vec<i16>, MeetingError>)
    ensures
        forall|s: Seq<i16>|
            text@ == b64_encode(le_bytes_of(s)) ==> (r matches Ok(v) && v@ == s),
{
    match base64_decode(text) {
        Some(bytes) => {
            let samples = decode_pcm_samples(&bytes);
            proof {
                assert forall|s: Seq<i16>|
                    text@ == b64_encode(le_bytes_of(s)) implies samples@ == s by {
                    lemma_pcm_le_roundtrip(s);
                }
            }
            Ok(samples)
        },
        None => Err(
            MeetingError::Protocol(String::from_str("envelope payload is not valid base64")),
        ),
    }
}

/// The character for one hexadecimal digit, lower case.
pub open spec fn hex_char(d: int) -> char {
    if d == 0 {
        '0'
    } else if d == 1 {
        '1'
    } else if d == 2 {
        '2'
    } else if d == 3 {
        '3'
    } else if d == 4 {
        '4'
    } else if d == 5 {
        '5'
    } else if d == 6 {
        '6'
    } else if d == 7 {
        '7'
    } else if d == 8 {
        '8'
    } else if d == 9 {
        '9'
    } else if d == 10 {
        'a'
    } else if d == 11 {
        'b'
    } else if d == 12 {
        'c'
    } else if d == 13 {
        'd'
    } else if d == 14 {
        'e'
    } else {
        'f'
    }
}

fn hex_char_exec(d: u8) -> (r: char)
    requires
        d < 16,
    ensures
        r == hex_char(d as int),
{
    match d {
        0u8 => '0',
        1u8 => '1',
        2u8 => '2',
        3u8 => '3',
        4u8 => '4',
        5u8 => '5',
        6u8 => '6',
        7u8 => '7',
        8u8 => '8',
        9u8 => '9',
        10u8 => 'a',
        11u8 => 'b',
        12u8 => 'c',
        13u8 => 'd',
        14u8 => 'e',
        _ => 'f',
    }
}

/// How one character appears inside a JSON string: quote and backslash are
/// escaped, control characters become `\u00XX`, everything else stands as
/// itself.
pub open spec fn escaped_char(c: char) -> Seq<char> {
    if c == '"' {
        seq!['\\', '"']
    } else if c == '\\' {
        seq!['\\', '\\']
    } else if (c as int) < 32 {
        seq!['\\', 'u', '0', '0', hex_char(c as int / 16), hex_char(c as int % 16)]
    } else {
        seq![c]
    }
}

/// A character sequence escaped for inclusion in a JSON string.
pub open spec fn json_escaped(s: Seq<char>) -> Seq<char>
    decreases s.len(),
{
    if s.len() == 0 {
        Seq::<char>::empty()
    } else {
        json_escaped(s.drop_last()) + escaped_char(s.last())
    }
}

/// Relies on String's FromIterator over chars (`String::from_iter`): the
/// built string holds exactly those characters, in order.
#[verifier::external_body]
fn chars_to_string(chars: Vec<char>) -> (r: String)
    ensures
        r@ == chars@,
{
    String::from_iter(chars)
}

/// Escape a string for inclusion in a JSON string literal.
pub fn escape_json_string(s: &str) -> (r: String)
    ensures
        r@ == json_escaped(s@),
{
    let n = s.unicode_len();
    let mut out: Vec<char> = Vec::new();
    let mut i: usize = 0;
    while i < n
        invariant
            i <= n,
            n == s@.len(),
            out@ == json_escaped(s@.take(i as int)),
        decreases n - i,
    {
        let c = s.get_char(i);
        if c == '"' {
            out.push('\\');
            out.push('"');
        } else if c == '\\' {
            out.push('\\');
            out.push('\\');
        } else if (c as u32) < 32 {
            out.push('\\');
            out.push('u');
            out.push('0');
            out.push('0');
            out.push(hex_char_exec(((c as u32) / 16) as u8));
            out.push(hex_char_exec(((c as u32) % 16) as u8));
        } else {
            out.push(c);
        }
        i = i + 1;
        proof {
            assert(s@.take(i as int).drop_last() =~= s@.take(i as int - 1));
            assert(out@ =~= json_escaped(s@.take(i as int)));
        }
    }
    proof {
        assert(s@.take(n as int) =~= s@);
    }
    chars_to_string(out)
}

/// The JSON text of an audio-frame envelope: the wire schema spoken with
/// the transcription collaborator, with the final marker under the key
/// `final`.
pub open spec fn envelope_json(m: AudioFrameMessage) -> Seq<char> {
    "{\"session_id\":\""@ + json_escaped(m.session_id@) + "\",\"sequence\":"@ + dec_digits(
        m.sequence as int,
    ) + ",\"pcm\":\""@ + json_escaped(m.pcm@) + "\",\"sample_rate\":"@ + dec_digits(
        m.sample_rate as int,
    ) + ",\"channels\":"@ + dec_digits(m.channels as int) + ",\"timestamp\":\""@ + json_escaped(
        m.timestamp@,
    ) + "\",\"final\":"@ + (if m.final_frame {
        "true"@
    } else {
        "false"@
    }) + "}"@
}

/// Frame an audio envelope as JSON text, ready to publish.
pub fn encode_audio_frame_message(m: &AudioFrameMessage) -> (r: String)
    ensures
        r@ == envelope_json(*m),
{
    let mut s = String::from_str("{\"session_id\":\"");
    s.append(escape_json_string(m.session_id.as_str()).as_str());
    s.append("\",\"sequence\":");
    s.append(u64_to_decimal(m.sequence as u64).as_str());
    s.append(",\"pcm\":\"");
    s.append(escape_json_string(m.pcm.as_str()).as_str());
    s.append("\",\"sample_rate\":");
    s.append(u64_to_decimal(m.sample_rate as u64).as_str());
    s.append(",\"channels\":");
    s.append(u64_to_decimal(m.channels as u64).as_str());
    s.append(",\"timestamp\":\"");
    s.append(escape_json_string(m.timestamp.as_str()).as_str());
    s.append("\",\"final\":");
    if m.final_frame {
        s.append("true");
    } else {
        s.append("false");
    }
    s.append("}");
    proof {
        assert(s@ =~= envelope_json(*m));
    }
    s
}

/// The per-session subject audio envelopes are published to.
pub open spec fn audio_subject(session_id: Seq<char>) -> Seq<char> {
    "audio.frame.meeting-"@ + session_id
}

/// Build the per-session publish subject.
pub fn audio_frame_subject(session_id: &str) -> (r: String)
    ensures
        r@ == audio_subject(session_id@),
{
    let mut s = String::from_str("audio.frame.meeting-");
    s.append(session_id);
    s
}

/// The shared wildcard subject transcript envelopes arrive on.
pub fn transcript_subject() -> (r: &'static str)
    ensures
        r@ == "stt.text.>"@,
{
    "stt.text.>"
}

} // verus!
