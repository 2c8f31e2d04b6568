//! Stream synchronizer: merges tagged frame streams into one time-ordered
//! stream of mixed frames.
//!
//! Incoming samples are accumulated per source and cut into uniform frames of
//! one standard duration (20 ms). A merged frame is emitted only when every
//! enabled source has a ready frame; mixing sums corresponding samples with
//! clamping, takes the earliest timestamp, and pads shorter frames with
//! silence. Ready queues are pruned of frames older than the configured
//! maximum buffer delay.

use std::collections::VecDeque;
use vstd::prelude::*;
use vstd::string::StringExecFns;

use crate::errors::MeetingError;
use crate::frame::{frame_views, AudioFrame, AudioStreamSource, FrameView};
use crate::transform::clamp_spec;

verus! {

/// Which of the two capture sources participate in the mix.
#[derive(Debug, Clone, Copy, PartialEq, Eq, Structural)]
pub struct SourceSet {
    /// System audio participates.
    pub system: bool,
    /// Microphone input participates.
    pub microphone: bool,
}

/// Whether `src` is a member of `set`.
pub open spec fn source_on(set: SourceSet, src: AudioStreamSource) -> bool {
    match src {
        AudioStreamSource::System => set.system,
        AudioStreamSource::Microphone => set.microphone,
    }
}

/// How many sources are in `set`.
pub open spec fn source_count(set: SourceSet) -> int {
    (if set.system {
        1int
    } else {
        0int
    }) + (if set.microphone {
        1int
    } else {
        0int
    })
}

impl SourceSet {
    /// The empty set.
    pub fn new() -> (r: Self)
        ensures
            !r.system,
            !r.microphone,
    {
        SourceSet { system: false, microphone: false }
    }

    /// Add one source.
    pub fn insert(&mut self, src: AudioStreamSource)
        ensures
            source_on(*final(self), src),
            forall|s: AudioStreamSource| s != src ==> source_on(*final(self), s) == source_on(*old(self), s),
    {
        match src {
            AudioStreamSource::System => {
                self.system = true;
            },
            AudioStreamSource::Microphone => {
                self.microphone = true;
            },
        }
    }

    /// Whether one source is in the set.
    pub fn contains(&self, src: &AudioStreamSource) -> (r: bool)
        ensures
            r == source_on(*self, *src),
    {
        match src {
            AudioStreamSource::System => self.system,
            AudioStreamSource::Microphone => self.microphone,
        }
    }

    /// How many sources are in the set.
    pub fn len(&self) -> (r: usize)
        ensures
            r as int == source_count(*self),
    {
        let mut n: usize = 0;
        if self.system {
            n = n + 1;
        }
        if self.microphone {
            n = n + 1;
        }
        n
    }
}

/// Configuration for the audio mixer, immutable for its lifetime.
#[derive(Debug, Clone)]
pub struct MixerConfig {
    /// Target sample rate of the output, in Hz.
    pub sample_rate: u32,
    /// Channel count of the output.
    pub channels: u16,
    /// Frames older than the output position by more than this many
    /// milliseconds are dropped, bounding memory when a source lags.
    pub max_buffer_delay_ms: u64,
    /// The sources to include in the mix.
    pub enabled_sources: SourceSet,
}

impl Default for MixerConfig {
    /// 16 kHz mono, 200 ms maximum delay, all sources enabled.
    fn default() -> (r: Self)
        ensures
            r.sample_rate == 16000,
            r.channels == 1,
            r.max_buffer_delay_ms == 200,
            r.enabled_sources.system,
            r.enabled_sources.microphone,
    {
        let mut enabled_sources = SourceSet::new();
        enabled_sources.insert(AudioStreamSource::System);
        enabled_sources.insert(AudioStreamSource::Microphone);
        MixerConfig { sample_rate: 16000, channels: 1, max_buffer_delay_ms: 200, enabled_sources }
    }
}

/// One standard output duration (20 ms) in samples: `round(rate * 0.02)`.
pub open spec fn target_size(sample_rate: u32) -> int {
    (sample_rate as int + 25) / 50
}

/// The mathematical state of the mixer: one accumulator and one ready queue
/// per source, the configuration, and the current output position.
#[verifier::ext_equal]
pub struct MixerState {
    /// The configuration, immutable.
    pub config: MixerConfig,
    /// Samples accumulated from the system source, not yet a full frame.
    pub system_acc: Seq<i16>,
    /// Uniform frames cut from system input, awaiting the merge.
    pub system_ready: Seq<FrameView>,
    /// Samples accumulated from the microphone source.
    pub microphone_acc: Seq<i16>,
    /// Uniform frames cut from microphone input.
    pub microphone_ready: Seq<FrameView>,
    /// Timestamp of the last emitted frame, in milliseconds.
    pub position_ms: u64,
}

/// A queue with every leading frame older than `cutoff` removed.
pub open spec fn pruned_front(q: Seq<FrameView>, cutoff: u64) -> Seq<FrameView>
    decreases q.len(),
{
    if q.len() == 0 {
        q
    } else if q[0].timestamp_ms < cutoff {
        pruned_front(q.drop_first(), cutoff)
    } else {
        q
    }
}

/// The staleness cutoff: the output position minus the maximum delay,
/// saturating at zero.
pub open spec fn cutoff_of(position_ms: u64, max_delay_ms: u64) -> u64 {
    if position_ms >= max_delay_ms {
        (position_ms - max_delay_ms) as u64
    } else {
        0
    }
}

/// Whether the mixer accepts a frame: its source is enabled and its format
/// matches the configuration.
pub open spec fn frame_accepted(cfg: MixerConfig, f: FrameView) -> bool {
    source_on(cfg.enabled_sources, f.source) && f.sample_rate == cfg.sample_rate && f.channels
        == cfg.channels
}

/// The `i`-th uniform frame cut from an accumulator, carrying the incoming
/// frame's timestamp and format.
pub open spec fn cut_frame(acc: Seq<i16>, t: int, f: FrameView, i: int) -> FrameView {
    FrameView {
        samples: acc.subrange(i * t, i * t + t),
        sample_rate: f.sample_rate,
        channels: f.channels,
        timestamp_ms: f.timestamp_ms,
        source: f.source,
    }
}

/// All uniform frames that can be cut from an accumulator.
pub open spec fn cut_frames(acc: Seq<i16>, t: int, f: FrameView) -> Seq<FrameView>
    recommends
        t >= 1,
{
    Seq::new((acc.len() as int / t) as nat, |i: int| cut_frame(acc, t, f, i))
}

/// What remains in the accumulator after cutting.
pub open spec fn cut_rest(acc: Seq<i16>, t: int) -> Seq<i16>
    recommends
        t >= 1,
{
    acc.skip((acc.len() as int / t) * t)
}

/// The mixer state after buffering one frame: a rejected frame (disabled
/// source or format mismatch) leaves the state unchanged; an accepted frame
/// is appended to its source's accumulator, full frames are cut to the ready
/// queue, and both ready queues are pruned of stale frames.
pub open spec fn buffered(s: MixerState, f: FrameView) -> MixerState {
    if !frame_accepted(s.config, f) {
        s
    } else {
        let t = target_size(s.config.sample_rate);
        let cutoff = cutoff_of(s.position_ms, s.config.max_buffer_delay_ms);
        if f.source == AudioStreamSource::System {
            let combined = s.system_acc + f.samples;
            MixerState {
                system_acc: cut_rest(combined, t),
                system_ready: pruned_front(s.system_ready + cut_frames(combined, t, f), cutoff),
                microphone_ready: pruned_front(s.microphone_ready, cutoff),
                ..s
            }
        } else {
            let combined = s.microphone_acc + f.samples;
            MixerState {
                microphone_acc: cut_rest(combined, t),
                microphone_ready: pruned_front(s.microphone_ready + cut_frames(combined, t, f), cutoff),
                system_ready: pruned_front(s.system_ready, cutoff),
                ..s
            }
        }
    }
}

/// The sample a frame contributes at index `i`: its own sample, or silence
/// past its end.
pub open spec fn sample_at(f: FrameView, i: int) -> int {
    if 0 <= i < f.samples.len() {
        f.samples[i] as int
    } else {
        0
    }
}

/// The sum of the samples all frames contribute at index `i`.
pub open spec fn sample_sum(fs: Seq<FrameView>, i: int) -> int
    decreases fs.len(),
{
    if fs.len() == 0 {
        0
    } else {
        sample_sum(fs.drop_last(), i) + sample_at(fs.last(), i)
    }
}

/// The longest sample count among the frames.
pub open spec fn max_samples_len(fs: Seq<FrameView>) -> int
    decreases fs.len(),
{
    if fs.len() == 0 {
        0
    } else {
        let m = max_samples_len(fs.drop_last());
        if fs.last().samples.len() > m {
            fs.last().samples.len() as int
        } else {
            m
        }
    }
}

/// The earliest timestamp among the frames; 0 when there are none.
pub open spec fn min_timestamp(fs: Seq<FrameView>) -> u64
    decreases fs.len(),
{
    if fs.len() == 0 {
        0
    } else if fs.len() == 1 {
        fs[0].timestamp_ms
    } else {
        let m = min_timestamp(fs.drop_last());
        if fs.last().timestamp_ms < m {
            fs.last().timestamp_ms
        } else {
            m
        }
    }
}

/// The merged samples: as long as the longest input, each sample the clamped
/// sum of what every input contributes there (silence past an input's end).
pub open spec fn mixed_samples(fs: Seq<FrameView>) -> Seq<i16> {
    Seq::new(max_samples_len(fs) as nat, |i: int| clamp_spec(sample_sum(fs, i)) as i16)
}

/// The view of an optional frame.
pub open spec fn opt_frame_view(o: Option<AudioFrame>) -> Option<FrameView> {
    match o {
        None => None,
        Some(f) => Some(f@),
    }
}

/// Whether every enabled source has a ready frame.
pub open spec fn all_ready(s: MixerState) -> bool {
    &&& (s.config.enabled_sources.system ==> s.system_ready.len() > 0)
    &&& (s.config.enabled_sources.microphone ==> s.microphone_ready.len() > 0)
}

/// The one ready frame popped from each enabled source, system first.
pub open spec fn popped_frames(s: MixerState) -> Seq<FrameView>
    recommends
        all_ready(s),
{
    (if s.config.enabled_sources.system {
        seq![s.system_ready[0]]
    } else {
        Seq::<FrameView>::empty()
    }) + (if s.config.enabled_sources.microphone {
        seq![s.microphone_ready[0]]
    } else {
        Seq::<FrameView>::empty()
    })
}

/// What one merge tick emits: nothing unless every enabled source is ready,
/// else the mix of one frame per enabled source, stamped with the earliest
/// input timestamp and the configured format, tagged as system audio.
pub open spec fn emit_output(s: MixerState) -> Option<FrameView> {
    if source_count(s.config.enabled_sources) == 0 || !all_ready(s) {
        None
    } else {
        Some(
            FrameView {
                samples: mixed_samples(popped_frames(s)),
                sample_rate: s.config.sample_rate,
                channels: s.config.channels,
                timestamp_ms: min_timestamp(popped_frames(s)),
                source: AudioStreamSource::System,
            },
        )
    }
}

/// The state after one merge tick: when a frame is emitted, each enabled
/// ready queue loses its front and the output position advances to the
/// emitted timestamp.
pub open spec fn emit_state(s: MixerState) -> MixerState {
    match emit_output(s) {
        None => s,
        Some(o) => MixerState {
            system_ready: if s.config.enabled_sources.system {
                s.system_ready.drop_first()
            } else {
                s.system_ready
            },
            microphone_ready: if s.config.enabled_sources.microphone {
                s.microphone_ready.drop_first()
            } else {
                s.microphone_ready
            },
            position_ms: o.timestamp_ms,
            ..s
        },
    }
}

/// Feeding a stream of frames through the mixer: buffer each frame, then
/// attempt one merge tick, collecting whatever is emitted.
pub open spec fn feed_frames(s: MixerState, inputs: Seq<FrameView>) -> (MixerState, Seq<FrameView>)
    decreases inputs.len(),
{
    if inputs.len() == 0 {
        (s, Seq::<FrameView>::empty())
    } else {
        let b = buffered(s, inputs[0]);
        let o = emit_output(b);
        let e = emit_state(b);
        let rest = feed_frames(e, inputs.drop_first());
        (
            rest.0,
            (match o {
                Some(f) => seq![f],
                None => Seq::<FrameView>::empty(),
            }) + rest.1,
        )
    }
}

/// Draining the mixer at end of stream: merge ticks repeat until one yields
/// nothing.
pub open spec fn drain_ready(s: MixerState) -> (MixerState, Seq<FrameView>)
    decreases s.system_ready.len() + s.microphone_ready.len(),
{
    match emit_output(s) {
        None => (s, Seq::<FrameView>::empty()),
        Some(o) => {
            let rec = drain_ready(emit_state(s));
            (rec.0, seq![o] + rec.1)
        },
    }
}

/// The whole mixing pass: feed every input frame, then drain.
pub open spec fn mix_run(s: MixerState, inputs: Seq<FrameView>) -> (MixerState, Seq<FrameView>) {
    let fed = feed_frames(s, inputs);
    let drained = drain_ready(fed.0);
    (drained.0, fed.1 + drained.1)
}

/// One source's buffers: an accumulator of loose samples and a queue of
/// uniform ready frames.
struct SourceLane {
    accumulator: Vec<i16>,
    ready: VecDeque<AudioFrame>,
}

impl SourceLane {
    spec fn acc_view(&self) -> Seq<i16> {
        self.accumulator@
    }

    spec fn ready_views(&self) -> Seq<FrameView> {
        self.ready@.map_values(|f: AudioFrame| f@)
    }

    fn new() -> (r: Self)
        ensures
            r.acc_view() == Seq::<i16>::empty(),
            r.ready_views() == Seq::<FrameView>::empty(),
    {
        let r = SourceLane { accumulator: Vec::new(), ready: VecDeque::new() };
        proof {
            assert(r.ready_views() =~= Seq::<FrameView>::empty());
        }
        r
    }

    /// Drop stale frames from the front of the ready queue.
    fn prune(&mut self, cutoff: u64)
        ensures
            final(self).acc_view() == old(self).acc_view(),
            final(self).ready_views() == pruned_front(old(self).ready_views(), cutoff),
    {
        loop
            invariant
                self.acc_view() == old(self).acc_view(),
                pruned_front(self.ready_views(), cutoff) == pruned_front(
                    old(self).ready_views(),
                    cutoff,
                ),
            decreases self.ready@.len(),
        {
            if self.ready.len() == 0 {
                proof {
                    assert(self.ready_views() =~= pruned_front(self.ready_views(), cutoff));
                }
                return ;
            }
            if self.ready[0].timestamp_ms >= cutoff {
                proof {
                    assert(self.ready_views() =~= pruned_front(self.ready_views(), cutoff));
                }
                return ;
            }
            let ghost before = self.ready_views();
            self.ready.pop_front();
            proof {
                assert(self.ready_views() =~= before.drop_first());
            }
        }
    }

    /// Append a frame's samples to the accumulator and cut every full
    /// standard-duration frame to the back of the ready queue.
    #[verifier::loop_isolation(false)]
    fn absorb(&mut self, frame: AudioFrame, target: usize)
        requires
            target >= 1,
        ensures
            ({
                let combined = old(self).acc_view() + frame.samples@;
                &&& final(self).acc_view() == cut_rest(combined, target as int)
                &&& final(self).ready_views() == old(self).ready_views() + cut_frames(
                    combined,
                    target as int,
                    frame@,
                )
            }),
    {
        let ghost fv = frame@;
        let sample_rate = frame.sample_rate;
        let channels = frame.channels;
        let timestamp_ms = frame.timestamp_ms;
        let source = frame.source;
        let mut samples = frame.samples;
        self.accumulator.append(&mut samples);
        let ghost combined = self.acc_view();
        let ghost old_ready = old(self).ready_views();
        let len: usize = self.accumulator.len();
        let mut idx: usize = 0;
        let ghost mut cnt: int = 0;
        while len - idx >= target
            invariant
                target >= 1,
                self.acc_view() == combined,
                len == combined.len(),
                idx == cnt * (target as int),
                cnt >= 0,
                idx <= len,
                self.ready_views() == old_ready + Seq::new(
                    cnt as nat,
                    |i: int| cut_frame(combined, target as int, fv, i),
                ),
            decreases len - idx,
        {
            let mut chunk: Vec<i16> = Vec::new();
            let mut j: usize = 0;
            while j < target
                invariant
                    target >= 1,
                    j <= target,
                    idx + target <= len,
                    len == self.acc_view().len(),
                    self.acc_view() == combined,
                    chunk@ == combined.subrange(idx as int, idx as int + j as int),
                decreases target - j,
            {
                chunk.push(self.accumulator[idx + j]);
                j = j + 1;
                proof {
                    assert(chunk@ =~= combined.subrange(idx as int, idx as int + j as int));
                }
            }
            let full = AudioFrame { samples: chunk, sample_rate, channels, timestamp_ms, source };
            proof {
                assert(idx as int == cnt * (target as int));
                assert(full@.samples =~= cut_frame(combined, target as int, fv, cnt).samples);
                assert(full@ =~~= cut_frame(combined, target as int, fv, cnt));
            }
            let ghost ready_before = self.ready_views();
            self.ready.push_back(full);
            proof {
                assert(self.ready_views() =~= ready_before.push(
                    cut_frame(combined, target as int, fv, cnt),
                ));
                cnt = cnt + 1;
                assert(self.ready_views() =~= old_ready + Seq::new(
                    cnt as nat,
                    |i: int| cut_frame(combined, target as int, fv, i),
                ));
                assert(cnt * (target as int) == (cnt - 1) * (target as int) + target)
                    by (nonlinear_arith);
            }
            idx = idx + target;
        }
        proof {
            lemma_cut_count(len as int, target as int, cnt);
            assert(self.ready_views() =~~= old_ready + cut_frames(combined, target as int, fv));
        }
        let mut rest: Vec<i16> = Vec::new();
        let mut j: usize = idx;
        while j < len
            invariant
                idx <= j <= len,
                len == self.acc_view().len(),
                self.acc_view() == combined,
                rest@ == combined.subrange(idx as int, j as int),
            decreases len - j,
        {
            rest.push(self.accumulator[j]);
            j = j + 1;
            proof {
                assert(rest@ =~= combined.subrange(idx as int, j as int));
            }
        }
        proof {
            assert(rest@ =~= cut_rest(combined, target as int));
        }
        self.accumulator = rest;
    }
}

/// The number of full frames cut is exactly the accumulator length divided
/// by the frame size.
proof fn lemma_cut_count(len: int, t: int, n: int)
    by (nonlinear_arith)
    requires
        t >= 1,
        n >= 0,
        len >= 0,
        n * t <= len,
        len - n * t < t,
    ensures
        n == len / t,
{
}

/// The stream synchronizer: merges the enabled sources' frame streams into
/// one time-ordered stream of mixed frames.
pub struct AudioMixer {
    config: MixerConfig,
    system_lane: SourceLane,
    microphone_lane: SourceLane,
    current_position_ms: u64,
}

impl View for AudioMixer {
    type V = MixerState;

    closed spec fn view(&self) -> MixerState {
        MixerState {
            config: self.config,
            system_acc: self.system_lane.acc_view(),
            system_ready: self.system_lane.ready_views(),
            microphone_acc: self.microphone_lane.acc_view(),
            microphone_ready: self.microphone_lane.ready_views(),
            position_ms: self.current_position_ms,
        }
    }
}

impl AudioMixer {
    /// A mixer with empty buffers at position zero.
    pub fn new(config: MixerConfig) -> (r: Self)
        ensures
            r@.config == config,
            r@.system_acc == Seq::<i16>::empty(),
            r@.system_ready == Seq::<FrameView>::empty(),
            r@.microphone_acc == Seq::<i16>::empty(),
            r@.microphone_ready == Seq::<FrameView>::empty(),
            r@.position_ms == 0,
    {
        AudioMixer {
            config,
            system_lane: SourceLane::new(),
            microphone_lane: SourceLane::new(),
            current_position_ms: 0,
        }
    }

    /// How many per-source buffers the mixer keeps: one per enabled source.
    pub fn buffer_count(&self) -> (r: usize)
        ensures
            r as int == source_count(self@.config.enabled_sources),
    {
        self.config.enabled_sources.len()
    }

    /// The timestamp of the last emitted frame, in milliseconds.
    pub fn position_ms(&self) -> (r: u64)
        ensures
            r == self@.position_ms,
    {
        self.current_position_ms
    }

    /// Buffer one incoming frame: reject it if its source is disabled or its
    /// format differs from the configuration; otherwise accumulate its
    /// samples, cut full standard-duration frames to the ready queue, and
    /// prune stale frames from every ready queue.
    pub fn buffer_frame(&mut self, frame: AudioFrame)
        requires
            old(self)@.config.sample_rate >= 25,
        ensures
            final(self)@ == buffered(old(self)@, frame@),
    {
        if !self.config.enabled_sources.contains(&frame.source) {
            return ;
        }
        if frame.sample_rate != self.config.sample_rate {
            return ;
        }
        if frame.channels != self.config.channels {
            return ;
        }
        let target: usize = ((self.config.sample_rate as u64 + 25) / 50) as usize;
        match frame.source {
            AudioStreamSource::System => {
                self.system_lane.absorb(frame, target);
            },
            AudioStreamSource::Microphone => {
                self.microphone_lane.absorb(frame, target);
            },
        }
        self.cleanup_old_frames();
        proof {
            assert(final(self)@ =~~= buffered(old(self)@, frame@));
        }
    }

    /// Prune every ready queue of frames older than the output position
    /// minus the maximum buffer delay.
    pub fn cleanup_old_frames(&mut self)
        ensures
            ({
                let cutoff = cutoff_of(old(self)@.position_ms, old(self)@.config.max_buffer_delay_ms);
                &&& final(self)@.config == old(self)@.config
                &&& final(self)@.system_acc == old(self)@.system_acc
                &&& final(self)@.microphone_acc == old(self)@.microphone_acc
                &&& final(self)@.position_ms == old(self)@.position_ms
                &&& final(self)@.system_ready == pruned_front(old(self)@.system_ready, cutoff)
                &&& final(self)@.microphone_ready == pruned_front(
                    old(self)@.microphone_ready,
                    cutoff,
                )
            }),
    {
        let cutoff: u64 = if self.current_position_ms >= self.config.max_buffer_delay_ms {
            self.current_position_ms - self.config.max_buffer_delay_ms
        } else {
            0
        };
        self.system_lane.prune(cutoff);
        self.microphone_lane.prune(cutoff);
    }

    /// Mix several frames into one: the output is as long as the longest
    /// input, each sample the clamped sum of what every input contributes
    /// (silence past an input's end), stamped with the earliest input
    /// timestamp and the mixer's configured format. Mixing no frames at all
    /// is an error.
    pub fn mix_multiple_frames(&self, frames: &Vec<AudioFrame>) -> (r: Result<
        AudioFrame,
        MeetingError,
    >)
        requires
            frames@.len() <= 65535,
        ensures
            r is Err <==> frames@.len() == 0,
            r matches Ok(out) ==> {
                &&& out.samples@ == mixed_samples(frame_views(frames@))
                &&& out.timestamp_ms == min_timestamp(frame_views(frames@))
                &&& out.sample_rate == self@.config.sample_rate
                &&& out.channels == self@.config.channels
                &&& out.source == AudioStreamSource::System
            },
    {
        let ghost fvs = frame_views(frames@);
        if frames.len() == 0 {
            return Err(MeetingError::Configuration(String::from_str("cannot mix zero frames")));
        }
        let n = frames.len();
        let mut timestamp_ms: u64 = frames[0].timestamp_ms;
        let mut k: usize = 1;
        while k < n
            invariant
                1 <= k <= n,
                n == frames@.len(),
                fvs == frame_views(frames@),
                timestamp_ms == min_timestamp(fvs.take(k as int)),
            decreases n - k,
        {
            proof {
                assert(fvs.take(k as int + 1).drop_last() =~= fvs.take(k as int));
            }
            if frames[k].timestamp_ms < timestamp_ms {
                timestamp_ms = frames[k].timestamp_ms;
            }
            k = k + 1;
        }
        let mut max_len: usize = 0;
        let mut k: usize = 0;
        while k < n
            invariant
                k <= n,
                n == frames@.len(),
                fvs == frame_views(frames@),
                max_len as int == max_samples_len(fvs.take(k as int)),
            decreases n - k,
        {
            proof {
                assert(fvs.take(k as int + 1).drop_last() =~= fvs.take(k as int));
            }
            if frames[k].samples.len() > max_len {
                max_len = frames[k].samples.len();
            }
            k = k + 1;
        }
        proof {
            assert(fvs.take(n as int) =~= fvs);
        }
        let mut mixed_out: Vec<i16> = Vec::new();
        let mut i: usize = 0;
        while i < max_len
            invariant
                i <= max_len,
                n == frames@.len(),
                n <= 65535,
                fvs == frame_views(frames@),
                max_len as int == max_samples_len(fvs),
                mixed_out@.len() == i,
                forall|x: int|
                    0 <= x < i ==> mixed_out@[x] == clamp_spec(sample_sum(fvs, x)) as i16,
            decreases max_len - i,
        {
            let mut sum: i32 = 0;
            let mut j: usize = 0;
            while j < n
                invariant
                    j <= n,
                    n == frames@.len(),
                    n <= 65535,
                    fvs == frame_views(frames@),
                    sum as int == sample_sum(fvs.take(j as int), i as int),
                    -32768 * (j as int) <= sum as int <= 32767 * (j as int),
                decreases n - j,
            {
                proof {
                    assert(fvs.take(j as int + 1).drop_last() =~= fvs.take(j as int));
                }
                let s: i32 = if i < frames[j].samples.len() {
                    frames[j].samples[i] as i32
                } else {
                    0
                };
                sum = sum + s;
                j = j + 1;
            }
            proof {
                assert(fvs.take(n as int) =~= fvs);
            }
            mixed_out.push(crate::transform::clamp_sample(sum));
            i = i + 1;
        }
        proof {
            assert(mixed_out@ =~= mixed_samples(fvs));
        }
        Ok(
            AudioFrame {
                samples: mixed_out,
                sample_rate: self.config.sample_rate,
                channels: self.config.channels,
                timestamp_ms,
                source: AudioStreamSource::System,
            },
        )
    }

    /// Attempt one merge tick. Nothing is emitted unless every enabled
    /// source has a ready frame; when all are ready, one frame per enabled
    /// source is popped and their mix is emitted, advancing the output
    /// position. With no enabled sources at all the merge is an error.
    pub fn mix_next_chunk(&mut self) -> (r: Result<Option<AudioFrame>, MeetingError>)
        ensures
            r is Err <==> source_count(old(self)@.config.enabled_sources) == 0,
            r is Err ==> final(self)@ == old(self)@,
            r matches Ok(o) ==> final(self)@ == emit_state(old(self)@) && opt_frame_view(o)
                == emit_output(old(self)@),
            r matches Ok(Some(out)) ==> all_ready(old(self)@),
    {
        let sys_on = self.config.enabled_sources.system;
        let mic_on = self.config.enabled_sources.microphone;
        let ready = (!sys_on || self.system_lane.ready.len() > 0) && (!mic_on
            || self.microphone_lane.ready.len() > 0);
        if !ready {
            return Ok(None);
        }
        let mut frames_to_mix: Vec<AudioFrame> = Vec::new();
        if sys_on {
            let f = self.system_lane.ready.pop_front().unwrap();
            frames_to_mix.push(f);
        }
        if mic_on {
            let f = self.microphone_lane.ready.pop_front().unwrap();
            frames_to_mix.push(f);
        }
        proof {
            if sys_on {
                assert(self.system_lane.ready_views() =~= old(self)@.system_ready.drop_first());
            }
            if mic_on {
                assert(self.microphone_lane.ready_views() =~= old(
                    self,
                )@.microphone_ready.drop_first());
            }
            assert(frame_views(frames_to_mix@) =~= popped_frames(old(self)@));
        }
        let mixed = match self.mix_multiple_frames(&frames_to_mix) {
            Ok(m) => m,
            Err(e) => {
                return Err(e);
            },
        };
        self.current_position_ms = mixed.timestamp_ms;
        proof {
            assert(mixed@ =~= emit_output(old(self)@)->Some_0);
            assert(final(self)@ =~~= emit_state(old(self)@));
        }
        Ok(Some(mixed))
    }

    /// Run the whole mixing pass over a finished input stream: buffer each
    /// frame in arrival order with one merge tick after each, then keep
    /// merging until some enabled source runs dry. Fails only when no source
    /// is enabled.
    pub fn mix(&mut self, frames: Vec<AudioFrame>) -> (r: Result<Vec<AudioFrame>, MeetingError>)
        requires
            old(self)@.config.sample_rate >= 25,
        ensures
            r is Err <==> source_count(old(self)@.config.enabled_sources) == 0,
            r is Err ==> final(self)@ == old(self)@,
            r matches Ok(outs) ==> {
                let run = mix_run(old(self)@, frame_views(frames@));
                &&& final(self)@ == run.0
                &&& frame_views(outs@) == run.1
            },
    {
        let ghost all_inputs = frame_views(frames@);
        let mut remaining = frames;
        let mut mixed_frames: Vec<AudioFrame> = Vec::new();
        while remaining.len() > 0
            invariant
                self@.config == old(self)@.config,
                old(self)@.config.sample_rate >= 25,
                feed_frames(self@, frame_views(remaining@)).0 == feed_frames(
                    old(self)@,
                    all_inputs,
                ).0,
                frame_views(mixed_frames@) + feed_frames(self@, frame_views(remaining@)).1
                    == feed_frames(old(self)@, all_inputs).1,
                source_count(self@.config.enabled_sources) > 0 || self@ == old(self)@,
            decreases remaining@.len(),
        {
            let ghost rem_views = frame_views(remaining@);
            let ghost state_before = self@;
            let frame = remaining.remove(0);
            proof {
                assert(frame_views(remaining@) =~= rem_views.drop_first());
                assert(frame@ == rem_views[0]);
            }
            self.buffer_frame(frame);
            let ghost b = self@;
            let emitted = match self.mix_next_chunk() {
                Ok(o) => o,
                Err(e) => {
                    proof {
                        assert(source_count(state_before.config.enabled_sources) == 0);
                        assert(!frame_accepted(state_before.config, rem_views[0]));
                        assert(self@ == state_before);
                        assert(state_before == old(self)@);
                    }
                    return Err(e);
                },
            };
            proof {
                assert(b == buffered(state_before, rem_views[0]));
                assert(feed_frames(state_before, rem_views).0 == feed_frames(
                    emit_state(b),
                    rem_views.drop_first(),
                ).0);
                assert(feed_frames(state_before, rem_views).1 == (match emit_output(b) {
                    Some(f) => seq![f],
                    None => Seq::<FrameView>::empty(),
                }) + feed_frames(emit_state(b), rem_views.drop_first()).1);
            }
            let ghost outs_before = frame_views(mixed_frames@);
            match emitted {
                Some(m) => {
                    mixed_frames.push(m);
                    proof {
                        assert(emit_output(b) == Some(m@));
                        assert(frame_views(mixed_frames@) =~= outs_before.push(m@));
                        assert(outs_before.push(m@) + feed_frames(self@, frame_views(remaining@)).1
                            =~= outs_before + (seq![m@] + feed_frames(
                            self@,
                            frame_views(remaining@),
                        ).1));
                    }
                },
                None => {
                    proof {
                        assert(emit_output(b) is None);
                        assert(outs_before + feed_frames(self@, frame_views(remaining@)).1
                            =~= outs_before + (Seq::<FrameView>::empty() + feed_frames(
                            self@,
                            frame_views(remaining@),
                        ).1));
                    }
                },
            }
        }
        let ghost fed = feed_frames(old(self)@, all_inputs);
        proof {
            assert(frame_views(remaining@) =~= Seq::<FrameView>::empty());
            assert(feed_frames(self@, frame_views(remaining@)) == (
                self@,
                Seq::<FrameView>::empty(),
            ));
            assert(self@ == fed.0);
            assert(frame_views(mixed_frames@) + Seq::<FrameView>::empty() =~= frame_views(
                mixed_frames@,
            ));
            assert(frame_views(mixed_frames@) == fed.1);
        }
        loop
            invariant
                self@.config == old(self)@.config,
                drain_ready(self@).0 == drain_ready(fed.0).0,
                frame_views(mixed_frames@) + drain_ready(self@).1 == fed.1 + drain_ready(fed.0).1,
                source_count(self@.config.enabled_sources) > 0 || self@ == old(self)@,
            ensures
                self@.config == old(self)@.config,
                emit_output(self@) is None,
                source_count(self@.config.enabled_sources) > 0,
                drain_ready(self@).0 == drain_ready(fed.0).0,
                frame_views(mixed_frames@) + drain_ready(self@).1 == fed.1 + drain_ready(fed.0).1,
            decreases self@.system_ready.len() + self@.microphone_ready.len(),
        {
            let ghost state_before = self@;
            let emitted = match self.mix_next_chunk() {
                Ok(o) => o,
                Err(e) => {
                    proof {
                        assert(source_count(state_before.config.enabled_sources) == 0);
                        assert(self@ == state_before);
                        assert(state_before == old(self)@);
                    }
                    return Err(e);
                },
            };
            let ghost outs_before = frame_views(mixed_frames@);
            match emitted {
                Some(m) => {
                    mixed_frames.push(m);
                    proof {
                        assert(emit_output(state_before) == Some(m@));
                        assert(drain_ready(state_before).0 == drain_ready(self@).0);
                        assert(drain_ready(state_before).1 == seq![m@] + drain_ready(self@).1);
                        assert(frame_views(mixed_frames@) =~= outs_before.push(m@));
                        assert(outs_before.push(m@) + drain_ready(self@).1 =~= outs_before + (
                        seq![m@] + drain_ready(self@).1));
                    }
                },
                None => {
                    proof {
                        assert(emit_output(state_before) is None);
                        assert(self@ == state_before);
                    }
                    break ;
                },
            }
        }
        proof {
            assert(drain_ready(self@) == (self@, Seq::<FrameView>::empty()));
            assert(frame_views(mixed_frames@) + Seq::<FrameView>::empty() =~= frame_views(
                mixed_frames@,
            ));
            assert(final(self)@ == mix_run(old(self)@, all_inputs).0);
            assert(frame_views(mixed_frames@) == mix_run(old(self)@, all_inputs).1);
        }
        Ok(mixed_frames)
    }
}

} // verus!
