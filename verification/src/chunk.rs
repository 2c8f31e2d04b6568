//! Chunk persistence core: segments one ordered frame stream into
//! bounded-duration chunks with metadata.
//!
//! The recorder keeps at most one open chunk. A frame whose timestamp has
//! moved at least one chunk duration past the open chunk's start closes it
//! and opens a new one starting at that frame; the final chunk is always
//! closed at end of stream, whatever its length. Finalized chunks carry
//! their samples; writing them to WAV files is the caller's concern.

use vstd::prelude::*;
use vstd::string::StringExecFns;

use crate::frame::{frame_views, AudioFrame, FrameView};
use crate::textfmt::{pad_index3, padded3};

verus! {

/// Configuration of the chunk recorder.
#[derive(Debug, Clone)]
pub struct ChunkConfig {
    /// Duration of each chunk in seconds.
    pub chunk_duration_secs: u64,
    /// Directory that chunk files are placed in.
    pub output_dir: String,
    /// Meeting identifier, embedded in chunk file names.
    pub meeting_id: String,
}

impl ChunkConfig {
    /// A configuration with the default five-minute chunk duration.
    pub fn new(meeting_id: String, output_dir: String) -> (r: Self)
        ensures
            r.chunk_duration_secs == 300,
            r.output_dir == output_dir,
            r.meeting_id == meeting_id,
    {
        ChunkConfig { chunk_duration_secs: 300, output_dir, meeting_id }
    }
}

/// Metadata of one chunk: created when the chunk opens, updated on every
/// appended frame, frozen when the chunk is finalized.
#[derive(Debug, Clone)]
pub struct ChunkMetadata {
    /// Position of this chunk in the recording, starting at 0.
    pub chunk_index: usize,
    /// Where the chunk's file belongs.
    pub file_path: String,
    /// Timestamp of the first frame, in milliseconds.
    pub start_ms: u64,
    /// Timestamp of the last appended frame, in milliseconds.
    pub end_ms: u64,
    /// Sample rate of the chunk's audio, in Hz.
    pub sample_rate: u32,
    /// Channel count of the chunk's audio.
    pub channels: u16,
    /// How many samples the chunk holds.
    pub sample_count: usize,
}

/// One finalized (or still open) chunk: its metadata and its samples.
#[derive(Debug, Clone)]
pub struct Chunk {
    /// The chunk's metadata.
    pub metadata: ChunkMetadata,
    /// The chunk's samples, in arrival order.
    pub samples: Vec<i16>,
}

/// The mathematical content of a chunk.
#[verifier::ext_equal]
pub struct ChunkView {
    /// Position of this chunk in the recording.
    pub chunk_index: int,
    /// Where the chunk's file belongs.
    pub file_path: Seq<char>,
    /// Timestamp of the first frame, in milliseconds.
    pub start_ms: u64,
    /// Timestamp of the last appended frame, in milliseconds.
    pub end_ms: u64,
    /// Sample rate in Hz.
    pub sample_rate: u32,
    /// Channel count.
    pub channels: u16,
    /// How many samples the chunk holds.
    pub sample_count: int,
    /// The samples, in arrival order.
    pub samples: Seq<i16>,
}

impl View for Chunk {
    type V = ChunkView;

    open spec fn view(&self) -> ChunkView {
        ChunkView {
            chunk_index: self.metadata.chunk_index as int,
            file_path: self.metadata.file_path@,
            start_ms: self.metadata.start_ms,
            end_ms: self.metadata.end_ms,
            sample_rate: self.metadata.sample_rate,
            channels: self.metadata.channels,
            sample_count: self.metadata.sample_count as int,
            samples: self.samples@,
        }
    }
}

/// The views of a sequence of chunks.
pub open spec fn chunk_views(cs: Seq<Chunk>) -> Seq<ChunkView> {
    cs.map_values(|c: Chunk| c@)
}

/// The view of an optional chunk.
pub open spec fn opt_chunk_view(o: Option<Chunk>) -> Option<ChunkView> {
    match o {
        None => None,
        Some(c) => Some(c@),
    }
}

/// The file name of one chunk: the meeting identifier and the zero-padded
/// chunk index.
pub open spec fn chunk_file_name(meeting_id: Seq<char>, index: int) -> Seq<char> {
    meeting_id + "-chunk-"@ + padded3(index) + ".wav"@
}

/// The full path of one chunk's file, under the output directory.
pub open spec fn chunk_file_path(output_dir: Seq<char>, meeting_id: Seq<char>, index: int) -> Seq<
    char,
> {
    output_dir + "/"@ + chunk_file_name(meeting_id, index)
}

/// The mathematical state of the recorder.
#[verifier::ext_equal]
pub struct RecorderState {
    /// Duration of each chunk in seconds.
    pub chunk_duration_secs: u64,
    /// Directory that chunk files are placed in.
    pub output_dir: Seq<char>,
    /// Meeting identifier.
    pub meeting_id: Seq<char>,
    /// The open chunk, if any.
    pub current: Option<ChunkView>,
    /// Index the next opened chunk will get.
    pub chunk_index: int,
    /// Timestamp of the first frame ever observed; 0 before any frame.
    pub meeting_start_ms: u64,
}

/// Whether a frame closes the open chunk: there is none, or the frame's
/// timestamp has moved at least one chunk duration past the chunk's start.
pub open spec fn rotation_due(s: RecorderState, f: FrameView) -> bool {
    match s.current {
        None => true,
        Some(c) => f.timestamp_ms as int - c.start_ms as int >= s.chunk_duration_secs as int
            * 1000,
    }
}

/// A newly opened, still empty chunk starting at a frame's timestamp and
/// carrying its format.
pub open spec fn opened_chunk(s: RecorderState, f: FrameView) -> ChunkView {
    ChunkView {
        chunk_index: s.chunk_index,
        file_path: chunk_file_path(s.output_dir, s.meeting_id, s.chunk_index),
        start_ms: f.timestamp_ms,
        end_ms: f.timestamp_ms,
        sample_rate: f.sample_rate,
        channels: f.channels,
        sample_count: 0,
        samples: Seq::<i16>::empty(),
    }
}

/// A chunk with one frame appended: the samples are added, the end moves to
/// the frame's timestamp, the count grows by the frame's length.
pub open spec fn appended_chunk(c: ChunkView, f: FrameView) -> ChunkView {
    ChunkView {
        end_ms: f.timestamp_ms,
        sample_count: c.sample_count + f.samples.len(),
        samples: c.samples + f.samples,
        ..c
    }
}

/// The meeting start timestamp after observing a frame: set once, from the
/// first frame.
pub open spec fn start_updated(s: RecorderState, f: FrameView) -> u64 {
    if s.meeting_start_ms == 0 {
        f.timestamp_ms
    } else {
        s.meeting_start_ms
    }
}

/// One recording step: when rotation is due, the open chunk (if any) is
/// finalized and a new chunk opens at this frame; either way the frame is
/// appended to the now-open chunk.
pub open spec fn record_step(s: RecorderState, f: FrameView) -> (RecorderState, Option<ChunkView>) {
    let s0 = RecorderState { meeting_start_ms: start_updated(s, f), ..s };
    if rotation_due(s, f) {
        let s1 = RecorderState {
            current: Some(appended_chunk(opened_chunk(s0, f), f)),
            chunk_index: s0.chunk_index + 1,
            ..s0
        };
        (s1, s.current)
    } else {
        let s1 = RecorderState { current: Some(appended_chunk(s.current->Some_0, f)), ..s0 };
        (s1, None)
    }
}

/// Recording a whole frame sequence, collecting the finalized chunks in
/// creation order.
pub open spec fn record_run(s: RecorderState, inputs: Seq<FrameView>) -> (
    RecorderState,
    Seq<ChunkView>,
)
    decreases inputs.len(),
{
    if inputs.len() == 0 {
        (s, Seq::<ChunkView>::empty())
    } else {
        let st = record_step(s, inputs[0]);
        let rest = record_run(st.0, inputs.drop_first());
        (
            rest.0,
            (match st.1 {
                Some(c) => seq![c],
                None => Seq::<ChunkView>::empty(),
            }) + rest.1,
        )
    }
}

/// End of stream: the open chunk, if any, is finalized unconditionally.
pub open spec fn stream_finished(s: RecorderState) -> (RecorderState, Seq<ChunkView>) {
    match s.current {
        None => (s, Seq::<ChunkView>::empty()),
        Some(c) => (RecorderState { current: None, ..s }, seq![c]),
    }
}

/// A whole recording pass: every frame in order, then the final close.
pub open spec fn record_all(s: RecorderState, inputs: Seq<FrameView>) -> (
    RecorderState,
    Seq<ChunkView>,
) {
    let run = record_run(s, inputs);
    let fin = stream_finished(run.0);
    (fin.0, run.1 + fin.1)
}

/// The open chunk, when there is one, carries the index just below the
/// recorder's next free index. This holds of a fresh recorder and is kept by
/// every recording step.
pub open spec fn index_coherent(s: RecorderState) -> bool {
    s.current matches Some(c) ==> c.chunk_index == s.chunk_index - 1
}

/// The index the first chunk finalized from this state will get.
pub open spec fn first_chunk_index(s: RecorderState) -> int {
    match s.current {
        Some(c) => c.chunk_index,
        None => s.chunk_index,
    }
}

proof fn lemma_run_indexes(s: RecorderState, inputs: Seq<FrameView>)
    requires
        index_coherent(s),
    ensures
        index_coherent(record_run(s, inputs).0),
        first_chunk_index(record_run(s, inputs).0) == first_chunk_index(s) + record_run(
            s,
            inputs,
        ).1.len(),
        forall|i: int|
            0 <= i < record_run(s, inputs).1.len() ==> #[trigger] record_run(
                s,
                inputs,
            ).1[i].chunk_index == first_chunk_index(s) + i,
    decreases inputs.len(),
{
    if inputs.len() > 0 {
        let st = record_step(s, inputs[0]);
        lemma_run_indexes(st.0, inputs.drop_first());
    }
}

/// Law: one recording pass returns its finalized chunks in creation order,
/// with consecutive indexes.
pub proof fn lemma_chunks_in_creation_order(s: RecorderState, inputs: Seq<FrameView>)
    requires
        index_coherent(s),
    ensures
        forall|i: int|
            0 <= i < record_all(s, inputs).1.len() ==> #[trigger] record_all(
                s,
                inputs,
            ).1[i].chunk_index == first_chunk_index(s) + i,
{
    lemma_run_indexes(s, inputs);
}

/// Consecutive chunks do not overlap in time: each ends no later than the
/// next begins.
pub open spec fn chunks_chained(out: Seq<ChunkView>) -> bool {
    forall|i: int| 0 <= i && i + 1 < out.len() ==> out[i].end_ms <= out[i + 1].start_ms
}

proof fn lemma_run_times(s: RecorderState, inputs: Seq<FrameView>)
    requires
        timestamps_sorted(inputs),
        s.current matches Some(c) ==> c.start_ms <= c.end_ms,
        inputs.len() > 0 ==> (s.current matches Some(c) ==> c.end_ms <= inputs[0].timestamp_ms),
    ensures
        ({
            let s1 = record_run(s, inputs).0;
            let out = record_run(s, inputs).1;
            &&& (s1.current matches Some(c1) ==> c1.start_ms <= c1.end_ms)
            &&& (forall|i: int| 0 <= i < out.len() ==> #[trigger] out[i].start_ms <= out[i].end_ms)
            &&& chunks_chained(out)
            &&& (s1.current matches Some(c1) ==> forall|i: int|
                0 <= i < out.len() ==> #[trigger] out[i].end_ms <= c1.start_ms)
            &&& (s.current matches Some(c0) ==> (s1.current matches Some(c1) ==> c1.start_ms
                >= c0.start_ms))
            &&& (s.current matches Some(c0) ==> forall|i: int|
                0 <= i < out.len() ==> #[trigger] out[i].start_ms >= c0.start_ms)
        }),
    decreases inputs.len(),
{
    if inputs.len() > 0 {
        let f = inputs[0];
        let st = record_step(s, f);
        let rest = inputs.drop_first();
        assert forall|i: int, j: int|
            0 <= i <= j < rest.len() implies rest[i].timestamp_ms
            <= rest[j].timestamp_ms by {
            assert(rest[i] == inputs[i + 1]);
            assert(rest[j] == inputs[j + 1]);
        }
        assert(rest.len() > 0 ==> f.timestamp_ms <= rest[0].timestamp_ms) by {
            if rest.len() > 0 {
                assert(rest[0] == inputs[1]);
            }
        }
        lemma_run_times(st.0, rest);
        let s1 = record_run(st.0, rest).0;
        let out_rest = record_run(st.0, rest).1;
        let out = record_run(s, inputs).1;
        match st.1 {
            Some(head) => {
                assert(out =~= seq![head] + out_rest);
                assert(head == s.current->Some_0);
                assert(head.end_ms <= f.timestamp_ms);
                assert(st.0.current->Some_0.start_ms == f.timestamp_ms);
                assert(forall|i: int|
                    0 <= i < out_rest.len() ==> #[trigger] out_rest[i].start_ms >= f.timestamp_ms);
                assert(s1.current matches Some(c1) ==> c1.start_ms >= f.timestamp_ms);
            },
            None => {
                assert(out =~= out_rest);
            },
        }
    }
}

/// Law: with time-ordered input, one recording pass returns chunks that do
/// not overlap: each chunk spans from its start to its end timestamp, and
/// each ends no later than the next begins.
pub proof fn lemma_chunks_do_not_overlap(s: RecorderState, inputs: Seq<FrameView>)
    requires
        timestamps_sorted(inputs),
        s.current matches Some(c) ==> c.start_ms <= c.end_ms,
        inputs.len() > 0 ==> (s.current matches Some(c) ==> c.end_ms <= inputs[0].timestamp_ms),
    ensures
        ({
            let out = record_all(s, inputs).1;
            &&& (forall|i: int| 0 <= i < out.len() ==> #[trigger] out[i].start_ms <= out[i].end_ms)
            &&& chunks_chained(out)
        }),
{
    lemma_run_times(s, inputs);
}

/// Timestamps never decrease along the sequence.
pub open spec fn timestamps_sorted(fs: Seq<FrameView>) -> bool {
    forall|i: int, j: int|
        0 <= i <= j < fs.len() ==> fs[i].timestamp_ms <= fs[j].timestamp_ms
}

/// The total number of samples in a frame sequence.
pub open spec fn total_samples(fs: Seq<FrameView>) -> int
    decreases fs.len(),
{
    if fs.len() == 0 {
        0
    } else {
        fs[0].samples.len() + total_samples(fs.drop_first())
    }
}

proof fn lemma_total_samples_nonneg(fs: Seq<FrameView>)
    ensures
        total_samples(fs) >= 0,
    decreases fs.len(),
{
    if fs.len() > 0 {
        lemma_total_samples_nonneg(fs.drop_first());
    }
}

/// The chunked recorder: segments one ordered frame stream into
/// bounded-duration chunks.
pub struct ChunkedRecorder {
    config: ChunkConfig,
    current_chunk: Option<Chunk>,
    chunk_index: usize,
    meeting_start_ms: u64,
}

impl View for ChunkedRecorder {
    type V = RecorderState;

    closed spec fn view(&self) -> RecorderState {
        RecorderState {
            chunk_duration_secs: self.config.chunk_duration_secs,
            output_dir: self.config.output_dir@,
            meeting_id: self.config.meeting_id@,
            current: opt_chunk_view(self.current_chunk),
            chunk_index: self.chunk_index as int,
            meeting_start_ms: self.meeting_start_ms,
        }
    }
}

impl ChunkedRecorder {
    /// A recorder with no open chunk; the first chunk will get index 0.
    pub fn new(config: ChunkConfig) -> (r: Self)
        ensures
            r@.chunk_duration_secs == config.chunk_duration_secs,
            r@.output_dir == config.output_dir@,
            r@.meeting_id == config.meeting_id@,
            r@.current is None,
            r@.chunk_index == 0,
            r@.meeting_start_ms == 0,
    {
        ChunkedRecorder { config, current_chunk: None, chunk_index: 0, meeting_start_ms: 0 }
    }

    /// Whether this frame closes the open chunk: there is none, or the
    /// frame's timestamp has moved at least one chunk duration past the open
    /// chunk's start.
    pub fn should_start_new_chunk(&self, frame: &AudioFrame) -> (r: bool)
        requires
            self@.chunk_duration_secs as int * 1000 <= u64::MAX as int,
            self@.current matches Some(c) ==> frame.timestamp_ms >= c.start_ms,
        ensures
            r == rotation_due(self@, frame@),
    {
        match &self.current_chunk {
            None => true,
            Some(chunk) => {
                let chunk_duration_ms = self.config.chunk_duration_secs * 1000;
                let elapsed_ms = frame.timestamp_ms - chunk.metadata.start_ms;
                elapsed_ms >= chunk_duration_ms
            },
        }
    }

    /// Open a new chunk starting at this frame, with the next index and a
    /// file path that embeds the meeting identifier and the zero-padded
    /// index.
    fn start_new_chunk(&mut self, frame: &AudioFrame) -> (r: Chunk)
        requires
            old(self)@.chunk_index < usize::MAX as int,
        ensures
            r@ == opened_chunk(old(self)@, frame@),
            final(self)@ == (RecorderState { chunk_index: old(self)@.chunk_index + 1, ..old(self)@ }),
    {
        let mut file_path = self.config.output_dir.clone();
        file_path.append("/");
        file_path.append(self.config.meeting_id.as_str());
        file_path.append("-chunk-");
        let idx = pad_index3(self.chunk_index as u64);
        file_path.append(idx.as_str());
        file_path.append(".wav");
        proof {
            assert(file_path@ =~= chunk_file_path(
                self.config.output_dir@,
                self.config.meeting_id@,
                self.chunk_index as int,
            ));
        }
        let chunk = Chunk {
            metadata: ChunkMetadata {
                chunk_index: self.chunk_index,
                file_path,
                start_ms: frame.timestamp_ms,
                end_ms: frame.timestamp_ms,
                sample_rate: frame.sample_rate,
                channels: frame.channels,
                sample_count: 0,
            },
            samples: Vec::new(),
        };
        self.chunk_index = self.chunk_index + 1;
        proof {
            assert(chunk@ =~= opened_chunk(old(self)@, frame@));
            assert(final(self)@ =~~= RecorderState {
                chunk_index: old(self)@.chunk_index + 1,
                ..old(self)@
            });
        }
        chunk
    }

    /// Record one frame: rotate if due (returning the finalized chunk), then
    /// append the frame to the open chunk.
    pub fn record_frame(&mut self, frame: AudioFrame) -> (r: Option<Chunk>)
        requires
            old(self)@.chunk_duration_secs as int * 1000 <= u64::MAX as int,
            old(self)@.chunk_index < usize::MAX as int,
            old(self)@.current matches Some(c) ==> frame.timestamp_ms >= c.start_ms
                && c.sample_count == c.samples.len(),
            !rotation_due(old(self)@, frame@) ==> old(self)@.current->Some_0.sample_count
                + frame.samples@.len() <= usize::MAX as int,
        ensures
            final(self)@ == record_step(old(self)@, frame@).0,
            opt_chunk_view(r) == record_step(old(self)@, frame@).1,
            final(self)@.current matches Some(c) ==> c.sample_count == c.samples.len(),
    {
        if self.meeting_start_ms == 0 {
            self.meeting_start_ms = frame.timestamp_ms;
        }
        let frame_len: usize = frame.samples.len();
        proof {
            assert(frame.samples@.len() == frame_len as int);
        }
        let mut finalized: Option<Chunk> = None;
        if self.should_start_new_chunk(&frame) {
            finalized = self.current_chunk.take();
            let fresh = self.start_new_chunk(&frame);
            self.current_chunk = Some(fresh);
        }
        match &mut self.current_chunk {
            Some(chunk) => {
                append_frame(chunk, &frame);
            },
            None => {
                proof {
                    assert(false);
                }
            },
        }
        proof {
            assert(final(self)@ =~~= record_step(old(self)@, frame@).0);
        }
        finalized
    }

    /// Close the stream: the open chunk, if any, is finalized and returned,
    /// whatever its length.
    pub fn finish(&mut self) -> (r: Option<Chunk>)
        ensures
            final(self)@ == stream_finished(old(self)@).0,
            opt_chunk_view(r) == old(self)@.current,
            final(self)@.current is None,
    {
        let r = self.current_chunk.take();
        proof {
            assert(final(self)@ =~~= stream_finished(old(self)@).0);
        }
        r
    }

    /// Record a whole finished stream: every frame in arrival order, then
    /// the final close. Returns all finalized chunks in creation order; an
    /// empty stream yields no chunks at all.
    pub fn record(&mut self, frames: Vec<AudioFrame>) -> (r: Vec<Chunk>)
        requires
            old(self)@.chunk_duration_secs as int * 1000 <= u64::MAX as int,
            old(self)@.chunk_index + frames@.len() <= usize::MAX as int,
            timestamps_sorted(frame_views(frames@)),
            old(self)@.current matches Some(c) ==> {
                &&& (frames@.len() > 0 ==> frames@[0].timestamp_ms >= c.start_ms)
                &&& c.sample_count + total_samples(frame_views(frames@)) <= usize::MAX as int
                &&& c.sample_count == c.samples.len()
            },
            old(self)@.current is None ==> total_samples(frame_views(frames@)) <= usize::MAX as int,
        ensures
            final(self)@ == record_all(old(self)@, frame_views(frames@)).0,
            chunk_views(r@) == record_all(old(self)@, frame_views(frames@)).1,
            final(self)@.current is None,
            frames@.len() == 0 && old(self)@.current is None ==> r@.len() == 0,
    {
        let ghost all_inputs = frame_views(frames@);
        let mut remaining = frames;
        let mut chunks: Vec<Chunk> = Vec::new();
        proof {
            lemma_total_samples_nonneg(all_inputs);
        }
        while remaining.len() > 0
            invariant
                self@.chunk_duration_secs == old(self)@.chunk_duration_secs,
                self@.output_dir == old(self)@.output_dir,
                self@.meeting_id == old(self)@.meeting_id,
                old(self)@.chunk_duration_secs as int * 1000 <= u64::MAX as int,
                self@.chunk_index + remaining@.len() <= usize::MAX as int,
                timestamps_sorted(frame_views(remaining@)),
                self@.current matches Some(c) ==> {
                    &&& (remaining@.len() > 0 ==> remaining@[0].timestamp_ms >= c.start_ms)
                    &&& c.sample_count + total_samples(frame_views(remaining@)) <= usize::MAX as int
                    &&& c.sample_count == c.samples.len()
                },
                self@.current is None ==> total_samples(frame_views(remaining@)) <= usize::MAX
                    as int,
                record_run(self@, frame_views(remaining@)).0 == record_run(
                    old(self)@,
                    all_inputs,
                ).0,
                chunk_views(chunks@) + record_run(self@, frame_views(remaining@)).1 == record_run(
                    old(self)@,
                    all_inputs,
                ).1,
            decreases remaining@.len(),
        {
            let ghost rem_views = frame_views(remaining@);
            let ghost state_before = self@;
            proof {
                lemma_total_samples_nonneg(rem_views.drop_first());
            }
            let frame = remaining.remove(0);
            proof {
                assert(frame_views(remaining@) =~= rem_views.drop_first());
                assert(frame@ == rem_views[0]);
            }
            let emitted = self.record_frame(frame);
            proof {
                assert(record_run(state_before, rem_views).0 == record_run(
                    self@,
                    rem_views.drop_first(),
                ).0);
                assert(record_run(state_before, rem_views).1 == (match record_step(
                    state_before,
                    rem_views[0],
                ).1 {
                    Some(c) => seq![c],
                    None => Seq::<ChunkView>::empty(),
                }) + record_run(self@, rem_views.drop_first()).1);
            }
            let ghost outs_before = chunk_views(chunks@);
            match emitted {
                Some(c) => {
                    let ghost cv = c@;
                    chunks.push(c);
                    proof {
                        assert(chunk_views(chunks@) =~= outs_before.push(cv));
                        assert(outs_before.push(cv) + record_run(
                            self@,
                            frame_views(remaining@),
                        ).1 =~= outs_before + (seq![cv] + record_run(
                            self@,
                            frame_views(remaining@),
                        ).1));
                    }
                },
                None => {
                    proof {
                        assert(outs_before + record_run(self@, frame_views(remaining@)).1
                            =~= outs_before + (Seq::<ChunkView>::empty() + record_run(
                            self@,
                            frame_views(remaining@),
                        ).1));
                    }
                },
            }
        }
        proof {
            assert(frame_views(remaining@) =~= Seq::<FrameView>::empty());
            assert(record_run(self@, frame_views(remaining@)) == (
                self@,
                Seq::<ChunkView>::empty(),
            ));
            assert(chunk_views(chunks@) + Seq::<ChunkView>::empty() =~= chunk_views(chunks@));
        }
        let ghost run = record_run(old(self)@, all_inputs);
        let last = self.finish();
        let ghost outs_before = chunk_views(chunks@);
        match last {
            Some(c) => {
                let ghost cv = c@;
                chunks.push(c);
                proof {
                    assert(chunk_views(chunks@) =~= outs_before.push(cv));
                    assert(outs_before.push(cv) =~= outs_before + seq![cv]);
                    assert(stream_finished(run.0).1 == seq![cv]);
                }
            },
            None => {
                proof {
                    assert(stream_finished(run.0).1 =~= Seq::<ChunkView>::empty());
                    assert(outs_before + Seq::<ChunkView>::empty() =~= outs_before);
                }
            },
        }
        proof {
            assert(chunk_views(chunks@) == record_all(old(self)@, all_inputs).1);
        }
        chunks
    }
}

/// Append one frame to an open chunk: the samples are added, the end moves
/// to the frame's timestamp, the count grows by the frame's length.
#[verifier::loop_isolation(false)]
fn append_frame(chunk: &mut Chunk, frame: &AudioFrame)
    requires
        old(chunk)@.sample_count + frame.samples@.len() <= usize::MAX as int,
        old(chunk)@.sample_count == old(chunk)@.samples.len(),
    ensures
        final(chunk)@ == appended_chunk(old(chunk)@, frame@),
{
    let n = frame.samples.len();
    let mut j: usize = 0;
    while j < n
        invariant
            j <= n,
            n == frame.samples@.len(),
            chunk.samples@ == old(chunk).samples@ + frame.samples@.take(j as int),
            chunk.metadata == old(chunk).metadata,
        decreases n - j,
    {
        chunk.samples.push(frame.samples[j]);
        j = j + 1;
        proof {
            assert(chunk.samples@ =~= old(chunk).samples@ + frame.samples@.take(j as int));
        }
    }
    proof {
        assert(frame.samples@.take(n as int) =~= frame.samples@);
    }
    chunk.metadata.end_ms = frame.timestamp_ms;
    chunk.metadata.sample_count = chunk.metadata.sample_count + n;
    proof {
        assert(final(chunk)@ =~~= appended_chunk(old(chunk)@, frame@));
    }
}

} // verus!
