//! Recording-session core: the state machine that owns one session's
//! lifecycle (idle, recording, stopped), its frame sequence and chunk
//! counters, and its accumulated transcript log.
//!
//! The concurrent plumbing around it (capture, the message bus, task
//! spawning) lives with the caller; the decisions it takes per frame and per
//! transcript envelope are made here and fully specified.

use vstd::prelude::*;
use vstd::string::StringExecFns;

use crate::envelope::{
    b64_encode, encode_pcm_payload, le_bytes_of, AudioFrameMessage, TranscriptMessage,
};
use crate::frame::AudioFrame;
use crate::transform::{process_frame, processed_samples};

verus! {

/// Configuration of one recording session, immutable for its lifetime.
#[derive(Debug, Clone)]
pub struct SessionConfig {
    /// Unique session identifier.
    pub session_id: String,
    /// Duration of each audio chunk before rotating files, in seconds.
    pub chunk_duration_secs: u64,
    /// Sample rate the published audio is transformed to, in Hz.
    pub sample_rate: u32,
    /// Channel count the published audio is transformed to.
    pub channels: u16,
    /// Message-bus server address.
    pub nats_url: String,
}

/// Relies on uuid's `Uuid::new_v4`: a fresh random identifier whose
/// hyphenated text is 36 characters, here prefixed with `meeting-`.
#[verifier::external_body]
fn fresh_session_id() -> (r: String)
    ensures
        r@.len() == 44,
{
    format!("meeting-{}", uuid::Uuid::new_v4())
}

impl Default for SessionConfig {
    /// A fresh random session identifier, five-minute chunks, 16 kHz mono,
    /// and the local default bus address.
    fn default() -> (r: Self)
        ensures
            r.session_id@.len() == 44,
            r.chunk_duration_secs == 300,
            r.sample_rate == 16000,
            r.channels == 1,
            r.nats_url@ == "nats://localhost:4222"@,
    {
        SessionConfig {
            session_id: fresh_session_id(),
            chunk_duration_secs: 300,
            sample_rate: 16000,
            channels: 1,
            nats_url: String::from_str("nats://localhost:4222"),
        }
    }
}

/// A read-mostly snapshot of one session's statistics.
#[derive(Debug, Clone)]
pub struct SessionStats {
    /// Whether recording is currently active.
    pub is_recording: bool,
    /// When the session started, in milliseconds since the Unix epoch.
    pub started_at_ms: u64,
    /// How long the session has existed, in milliseconds.
    pub duration_ms: u64,
    /// The coarse chunk counter kept by the audio pipeline.
    pub chunks_count: usize,
    /// How many transcript segments have been accumulated.
    pub transcript_segments_count: usize,
}

/// One entry of the append-only transcript log. The confidence, when the
/// collaborator reports one, is carried in thousandths (0 ..= 1000 stands
/// for 0.0 ..= 1.0).
#[derive(Debug, Clone)]
pub struct TranscriptSegment {
    /// The transcribed text.
    pub text: String,
    /// When this segment was received, in milliseconds since the Unix epoch.
    pub timestamp_ms: u64,
    /// Confidence in thousandths, if reported.
    pub confidence_milli: Option<u32>,
    /// Whether this is an interim (partial) result.
    pub partial: bool,
}

/// The mathematical content of a transcript segment.
#[verifier::ext_equal]
pub struct TranscriptSegmentView {
    /// The transcribed text.
    pub text: Seq<char>,
    /// When this segment was received.
    pub timestamp_ms: u64,
    /// Confidence in thousandths, if reported.
    pub confidence_milli: Option<u32>,
    /// Whether this is an interim result.
    pub partial: bool,
}

impl View for TranscriptSegment {
    type V = TranscriptSegmentView;

    open spec fn view(&self) -> TranscriptSegmentView {
        TranscriptSegmentView {
            text: self.text@,
            timestamp_ms: self.timestamp_ms,
            confidence_milli: self.confidence_milli,
            partial: self.partial,
        }
    }
}

/// The views of a transcript log.
pub open spec fn segment_views(ss: Seq<TranscriptSegment>) -> Seq<TranscriptSegmentView> {
    ss.map_values(|s: TranscriptSegment| s@)
}

/// The mathematical state of a recording session.
#[verifier::ext_equal]
pub struct SessionState {
    /// The session identifier.
    pub session_id: Seq<char>,
    /// Duration of each audio chunk, in seconds.
    pub chunk_duration_secs: u64,
    /// Target sample rate in Hz.
    pub sample_rate: u32,
    /// Target channel count.
    pub channels: u16,
    /// Message-bus server address.
    pub nats_url: Seq<char>,
    /// When the session started, in milliseconds since the Unix epoch.
    pub started_at_ms: u64,
    /// Whether recording is active.
    pub is_recording: bool,
    /// The coarse chunk counter.
    pub chunks_recorded: usize,
    /// The next frame sequence number.
    pub frame_sequence: usize,
    /// The accumulated transcript log, in arrival order.
    pub transcripts: Seq<TranscriptSegmentView>,
}

/// Relies on chrono's `Utc::now().timestamp_millis()`: the wall clock at the
/// moment of the call, milliseconds since the Unix epoch.
#[verifier::external_body]
fn now_unix_millis() -> (r: i64) {
    chrono::Utc::now().timestamp_millis()
}

/// Relies on chrono's `Utc::now().to_rfc3339()`: the wall clock at the
/// moment of the call as RFC3339 text.
#[verifier::external_body]
fn now_rfc3339() -> (r: String) {
    chrono::Utc::now().to_rfc3339()
}

/// The recording session: lifecycle flag, counters, and transcript log.
/// Stats and transcript queries read what the audio and transcript
/// pipelines write here.
pub struct RecordingSession {
    config: SessionConfig,
    started_at_ms: u64,
    is_recording: bool,
    chunks_recorded: usize,
    frame_sequence: usize,
    transcript_segments: Vec<TranscriptSegment>,
}

impl View for RecordingSession {
    type V = SessionState;

    closed spec fn view(&self) -> SessionState {
        SessionState {
            session_id: self.config.session_id@,
            chunk_duration_secs: self.config.chunk_duration_secs,
            sample_rate: self.config.sample_rate,
            channels: self.config.channels,
            nats_url: self.config.nats_url@,
            started_at_ms: self.started_at_ms,
            is_recording: self.is_recording,
            chunks_recorded: self.chunks_recorded,
            frame_sequence: self.frame_sequence,
            transcripts: segment_views(self.transcript_segments@),
        }
    }
}

/// A session state with everything but the lifecycle flag and the clock
/// fixed by its configuration.
pub open spec fn fresh_session(s: SessionState, config: SessionConfig) -> bool {
    &&& s.session_id == config.session_id@
    &&& s.chunk_duration_secs == config.chunk_duration_secs
    &&& s.sample_rate == config.sample_rate
    &&& s.channels == config.channels
    &&& s.nats_url == config.nats_url@
    &&& !s.is_recording
    &&& s.chunks_recorded == 0
    &&& s.frame_sequence == 0
    &&& s.transcripts == Seq::<TranscriptSegmentView>::empty()
}

impl RecordingSession {
    /// A new idle session whose start time is taken from the given clock
    /// reading (clamped below at the epoch).
    pub fn with_start_time(config: SessionConfig, clock_ms: i64) -> (r: Self)
        ensures
            fresh_session(r@, config),
            r@.started_at_ms == if clock_ms >= 0 {
                clock_ms as u64
            } else {
                0
            },
    {
        let started_at_ms: u64 = if clock_ms >= 0 {
            clock_ms as u64
        } else {
            0
        };
        let r = RecordingSession {
            config,
            started_at_ms,
            is_recording: false,
            chunks_recorded: 0,
            frame_sequence: 0,
            transcript_segments: Vec::new(),
        };
        proof {
            assert(r@.transcripts =~= Seq::<TranscriptSegmentView>::empty());
        }
        r
    }

    /// A new idle session started now.
    pub fn new(config: SessionConfig) -> (r: Self)
        ensures
            fresh_session(r@, config),
    {
        let clock = now_unix_millis();
        RecordingSession::with_start_time(config, clock)
    }

    /// Flip to recording. Idempotent: returns whether recording was already
    /// active, in which case nothing changes and the caller must not spawn
    /// the pipelines a second time.
    pub fn start(&mut self) -> (already: bool)
        ensures
            already == old(self)@.is_recording,
            final(self)@ == (SessionState { is_recording: true, ..old(self)@ }),
    {
        let already = self.is_recording;
        self.is_recording = true;
        proof {
            assert(final(self)@ =~~= (SessionState { is_recording: true, ..old(self)@ }));
        }
        already
    }

    /// Flip to stopped (idempotent) and return a final snapshot. The
    /// duration is whatever the clock said; every other field is exact.
    pub fn stop(&mut self) -> (r: SessionStats)
        ensures
            final(self)@ == (SessionState { is_recording: false, ..old(self)@ }),
            r.is_recording == false,
            r.started_at_ms == old(self)@.started_at_ms,
            r.chunks_count == old(self)@.chunks_recorded,
            r.transcript_segments_count == old(self)@.transcripts.len(),
    {
        self.is_recording = false;
        proof {
            assert(final(self)@ =~~= (SessionState { is_recording: false, ..old(self)@ }));
        }
        self.get_stats()
    }

    /// A statistics snapshot taken at the given clock reading.
    pub fn stats_snapshot(&self, now_ms: u64) -> (r: SessionStats)
        ensures
            r.is_recording == self@.is_recording,
            r.started_at_ms == self@.started_at_ms,
            r.duration_ms == duration_since(self@.started_at_ms, now_ms),
            r.chunks_count == self@.chunks_recorded,
            r.transcript_segments_count == self@.transcripts.len(),
    {
        let duration_ms: u64 = if now_ms >= self.started_at_ms {
            now_ms - self.started_at_ms
        } else {
            0
        };
        SessionStats {
            is_recording: self.is_recording,
            started_at_ms: self.started_at_ms,
            duration_ms,
            chunks_count: self.chunks_recorded,
            transcript_segments_count: self.transcript_segments.len(),
        }
    }

    /// A statistics snapshot taken now. The duration is whatever the clock
    /// said; every other field is exact.
    pub fn get_stats(&self) -> (r: SessionStats)
        ensures
            r.is_recording == self@.is_recording,
            r.started_at_ms == self@.started_at_ms,
            r.chunks_count == self@.chunks_recorded,
            r.transcript_segments_count == self@.transcripts.len(),
    {
        let clock = now_unix_millis();
        let now_ms: u64 = if clock >= 0 {
            clock as u64
        } else {
            0
        };
        self.stats_snapshot(now_ms)
    }

    /// The accumulated transcript log, in arrival order.
    pub fn get_transcript(&self) -> (r: Vec<TranscriptSegment>)
        ensures
            segment_views(r@) == self@.transcripts,
    {
        let n = self.transcript_segments.len();
        let mut out: Vec<TranscriptSegment> = Vec::new();
        let mut i: usize = 0;
        while i < n
            invariant
                i <= n,
                n == self.transcript_segments@.len(),
                segment_views(out@) == segment_views(self.transcript_segments@).take(i as int),
            decreases n - i,
        {
            let seg = &self.transcript_segments[i];
            let copy = TranscriptSegment {
                text: seg.text.clone(),
                timestamp_ms: seg.timestamp_ms,
                confidence_milli: seg.confidence_milli,
                partial: seg.partial,
            };
            proof {
                assert(copy@ =~= self.transcript_segments@[i as int]@);
            }
            let ghost before = segment_views(out@);
            out.push(copy);
            i = i + 1;
            proof {
                assert(segment_views(out@) =~= before.push(copy@));
                assert(segment_views(out@) =~= segment_views(self.transcript_segments@).take(
                    i as int,
                ));
            }
        }
        proof {
            assert(segment_views(self.transcript_segments@).take(n as int) =~= self@.transcripts);
        }
        out
    }

    /// Take the next frame sequence number. Sequence numbers are strictly
    /// increasing and gap-free; every hundredth one refreshes the coarse
    /// chunk counter.
    pub fn next_sequence(&mut self) -> (seq_no: usize)
        requires
            old(self)@.frame_sequence < usize::MAX as int,
        ensures
            seq_no == old(self)@.frame_sequence,
            final(self)@.frame_sequence == old(self)@.frame_sequence + 1,
            final(self)@.chunks_recorded == if seq_no as int % 100 == 0 {
                seq_no as int / 100
            } else {
                old(self)@.chunks_recorded as int
            },
            final(self)@ == (SessionState {
                frame_sequence: final(self)@.frame_sequence,
                chunks_recorded: final(self)@.chunks_recorded,
                ..old(self)@
            }),
    {
        let seq_no = self.frame_sequence;
        self.frame_sequence = self.frame_sequence + 1;
        if seq_no % 100 == 0 {
            self.chunks_recorded = seq_no / 100;
        }
        proof {
            assert(final(self)@ =~~= (SessionState {
                frame_sequence: final(self)@.frame_sequence,
                chunks_recorded: final(self)@.chunks_recorded,
                ..old(self)@
            }));
        }
        seq_no
    }

    /// Build the audio envelope for one captured frame: the frame is
    /// transformed to the session's target format, its samples become the
    /// base64 PCM payload, and the next sequence number is taken. The
    /// timestamp is whatever the clock said; every other field is exact.
    pub fn make_audio_envelope(&mut self, frame: AudioFrame) -> (m: AudioFrameMessage)
        requires
            old(self)@.sample_rate > 0,
            old(self)@.frame_sequence < usize::MAX as int,
            2 * frame.samples@.len() <= usize::MAX as int,
            ((2 * frame.samples@.len() + 2) / 3) * 4 <= usize::MAX as int,
        ensures
            m.session_id@ == old(self)@.session_id,
            m.sequence == old(self)@.frame_sequence as u32,
            m.pcm@ == b64_encode(
                le_bytes_of(
                    processed_samples(frame@, old(self)@.sample_rate, old(self)@.channels),
                ),
            ),
            m.sample_rate == old(self)@.sample_rate,
            m.channels == old(self)@.channels,
            !m.final_frame,
            final(self)@.frame_sequence == old(self)@.frame_sequence + 1,
            final(self)@.chunks_recorded == if old(self)@.frame_sequence as int % 100 == 0 {
                old(self)@.frame_sequence as int / 100
            } else {
                old(self)@.chunks_recorded as int
            },
            final(self)@ == (SessionState {
                frame_sequence: final(self)@.frame_sequence,
                chunks_recorded: final(self)@.chunks_recorded,
                ..old(self)@
            }),
    {
        proof {
            lemma_processed_len(frame@, self@.sample_rate, self@.channels);
        }
        let processed = process_frame(frame, self.config.sample_rate, self.config.channels);
        proof {
            lemma_payload_bounds(processed.samples@.len() as int, frame.samples@.len() as int);
        }
        let pcm = encode_pcm_payload(&processed.samples);
        let seq_no = self.next_sequence();
        AudioFrameMessage {
            session_id: self.config.session_id.clone(),
            sequence: #[verifier::truncate] (seq_no as u32),
            pcm,
            sample_rate: self.config.sample_rate,
            channels: self.config.channels,
            timestamp: now_rfc3339(),
            final_frame: false,
        }
    }

    /// Build the final envelope published after the capture stream ends: an
    /// empty payload, the current sequence number, and the final marker set.
    /// Nothing in the session changes.
    pub fn make_final_envelope(&mut self) -> (m: AudioFrameMessage)
        ensures
            m.session_id@ == old(self)@.session_id,
            m.sequence == old(self)@.frame_sequence as u32,
            m.pcm@ == b64_encode(le_bytes_of(Seq::<i16>::empty())),
            m.sample_rate == old(self)@.sample_rate,
            m.channels == old(self)@.channels,
            m.final_frame,
            final(self)@ == old(self)@,
    {
        proof {
            assert(le_bytes_of(Seq::<i16>::empty()) =~= Seq::<u8>::empty());
        }
        AudioFrameMessage {
            session_id: self.config.session_id.clone(),
            sequence: #[verifier::truncate] (self.frame_sequence as u32),
            pcm: String::new(),
            sample_rate: self.config.sample_rate,
            channels: self.config.channels,
            timestamp: now_rfc3339(),
            final_frame: true,
        }
    }

    /// Accept or discard one inbound transcript envelope: an envelope for
    /// another session is discarded (the bus delivers every session to every
    /// subscriber); a matching one is appended to the transcript log,
    /// stamped with the receive time.
    pub fn on_transcript(&mut self, msg: TranscriptMessage) -> (appended: bool)
        ensures
            appended <==> msg.session_id@ == old(self)@.session_id,
            !appended ==> final(self)@ == old(self)@,
            appended ==> {
                let n = old(self)@.transcripts.len() as int;
                &&& final(self)@.transcripts.len() == n + 1
                &&& final(self)@.transcripts.take(n) == old(self)@.transcripts
                &&& final(self)@.transcripts[n].text == msg.text@
                &&& final(self)@.transcripts[n].confidence_milli == msg.confidence_milli
                &&& final(self)@.transcripts[n].partial == msg.partial
                &&& final(self)@ == (SessionState {
                    transcripts: final(self)@.transcripts,
                    ..old(self)@
                })
            },
    {
        if !(msg.session_id == self.config.session_id) {
            return false;
        }
        let clock = now_unix_millis();
        let timestamp_ms: u64 = if clock >= 0 {
            clock as u64
        } else {
            0
        };
        let segment = TranscriptSegment {
            text: msg.text,
            timestamp_ms,
            confidence_milli: msg.confidence_milli,
            partial: msg.partial,
        };
        let ghost before = segment_views(self.transcript_segments@);
        let ghost segview = segment@;
        self.transcript_segments.push(segment);
        proof {
            assert(segment_views(self.transcript_segments@) =~= before.push(segview));
            assert(final(self)@.transcripts.take(before.len() as int) =~= before);
            assert(final(self)@ =~~= (SessionState {
                transcripts: final(self)@.transcripts,
                ..old(self)@
            }));
        }
        true
    }
}

/// Elapsed milliseconds from a start time to a clock reading, clamped below
/// at zero.
pub open spec fn duration_since(started_at_ms: u64, now_ms: u64) -> u64 {
    if now_ms >= started_at_ms {
        (now_ms - started_at_ms) as u64
    } else {
        0
    }
}

proof fn lemma_decimated_shorter(len: int, r: int)
    by (nonlinear_arith)
    requires
        r >= 2,
        len >= 0,
    ensures
        (len + r - 1) / r <= len,
{
}

/// The per-frame transform never lengthens a frame.
proof fn lemma_processed_len(f: crate::frame::FrameView, rate: u32, channels: u16)
    requires
        rate > 0,
    ensures
        processed_samples(f, rate, channels).len() <= f.samples.len(),
{
    let r = crate::transform::decimation_ratio(f, rate);
    if r > 1 {
        lemma_decimated_shorter(f.samples.len() as int, r);
    }
}

proof fn lemma_payload_bounds(p: int, l: int)
    requires
        0 <= p <= l,
        2 * l <= usize::MAX as int,
        ((2 * l + 2) / 3) * 4 <= usize::MAX as int,
    ensures
        2 * p <= usize::MAX as int,
        ((2 * p + 2) / 3) * 4 <= usize::MAX as int,
{
    vstd::arithmetic::div_mod::lemma_div_is_ordered(2 * p + 2, 2 * l + 2, 3);
}

} // verus!
