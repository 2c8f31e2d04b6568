//! Per-frame transforms applied before publishing: integer decimation to the
//! target sample rate and stereo-to-mono collapse.

use vstd::prelude::*;

use crate::frame::{AudioFrame, FrameView};

verus! {

/// Clamp an integer into the signed 16-bit sample range.
pub open spec fn clamp_spec(v: int) -> int {
    if v < -32768 {
        -32768
    } else if v > 32767 {
        32767
    } else {
        v
    }
}

/// Clamp a 32-bit sum into the signed 16-bit sample range.
pub fn clamp_sample(sum: i32) -> (r: i16)
    ensures
        r as int == clamp_spec(sum as int),
{
    if sum < -32768 {
        -32768
    } else if sum > 32767 {
        32767
    } else {
        sum as i16
    }
}

/// Every `ratio`-th sample of `s`, starting at the first.
pub open spec fn decimated(s: Seq<i16>, ratio: int) -> Seq<i16>
    recommends
        ratio >= 1,
{
    Seq::new((((s.len() + ratio - 1) / ratio) as nat), |k: int| s[k * ratio])
}

/// The integer decimation ratio from a frame's rate toward a target rate.
pub open spec fn decimation_ratio(frame: FrameView, target_rate: u32) -> int
    recommends
        target_rate > 0,
{
    frame.sample_rate as int / target_rate as int
}

/// The sample sequence after decimation; unchanged when the ratio is 1 or
/// less (decimation never upsamples).
pub open spec fn downsampled_samples(frame: FrameView, target_rate: u32) -> Seq<i16>
    recommends
        target_rate > 0,
{
    if decimation_ratio(frame, target_rate) <= 1 {
        frame.samples
    } else {
        decimated(frame.samples, decimation_ratio(frame, target_rate))
    }
}

/// The sample rate after decimation.
pub open spec fn downsampled_rate(frame: FrameView, target_rate: u32) -> u32
    recommends
        target_rate > 0,
{
    if decimation_ratio(frame, target_rate) <= 1 {
        frame.sample_rate
    } else {
        target_rate
    }
}

proof fn lemma_decimated_len(len: int, r: int, n: int)
    by (nonlinear_arith)
    requires
        r >= 1,
        n >= 0,
        len >= 0,
        n * r >= len,
        n == 0 || (n - 1) * r < len,
        n == 0 ==> len == 0,
    ensures
        n == (len + r - 1) / r,
{
}

/// Downsample a frame by integer decimation; a ratio of 1 or less (including
/// any attempt to upsample) returns the frame unchanged.
pub fn downsample_frame(frame: AudioFrame, target_rate: u32) -> (r: AudioFrame)
    requires
        target_rate > 0,
    ensures
        r.samples@ == downsampled_samples(frame@, target_rate),
        r.sample_rate == downsampled_rate(frame@, target_rate),
        r.channels == frame.channels,
        r.timestamp_ms == frame.timestamp_ms,
        r.source == frame.source,
        decimation_ratio(frame@, target_rate) <= 1 ==> r == frame,
{
    if frame.sample_rate == target_rate {
        return frame;
    }
    let ratio32: u32 = frame.sample_rate / target_rate;
    if ratio32 <= 1 {
        return frame;
    }
    let ratio: usize = ratio32 as usize;
    let len: usize = frame.samples.len();
    let mut out: Vec<i16> = Vec::new();
    let mut i: usize = 0;
    let ghost mut pos: int = 0;
    while i < len
        invariant
            ratio == ratio32 as int,
            ratio32 > 1,
            len == frame.samples@.len(),
            pos == out@.len() * (ratio as int),
            i == if pos <= len as int {
                pos
            } else {
                len as int
            },
            out@.len() == 0 || (out@.len() - 1) * (ratio as int) < len as int,
            forall|k: int| 0 <= k < out@.len() ==> out@[k] == frame.samples@[k * (ratio as int)],
        decreases len - i,
    {
        out.push(frame.samples[i]);
        proof {
            let n = out@.len() as int;
            assert((n - 1) * (ratio as int) + (ratio as int) == n * (ratio as int))
                by (nonlinear_arith);
            pos = pos + ratio as int;
        }
        if len - i > ratio {
            i = i + ratio;
        } else {
            i = len;
        }
    }
    proof {
        lemma_decimated_len(len as int, ratio as int, out@.len() as int);
        assert(out@ =~= decimated(frame.samples@, decimation_ratio(frame@, target_rate)));
    }
    AudioFrame {
        samples: out,
        sample_rate: target_rate,
        channels: frame.channels,
        timestamp_ms: frame.timestamp_ms,
        source: frame.source,
    }
}

/// Interleaved stereo collapsed to mono: each `[left, right]` pair becomes
/// one sample, summed (not averaged) and clamped to the 16-bit range.
pub open spec fn mono_collapsed(s: Seq<i16>) -> Seq<i16> {
    Seq::new((s.len() / 2) as nat, |k: int| clamp_spec(s[2 * k] + s[2 * k + 1]) as i16)
}

/// Collapse a stereo frame to mono by summing each interleaved pair, clamped;
/// a frame that is already mono, or has any channel count other than 2,
/// is returned unchanged.
pub fn stereo_to_mono(frame: AudioFrame) -> (r: AudioFrame)
    ensures
        frame.channels == 2 ==> r.samples@ == mono_collapsed(frame.samples@) && r.channels == 1,
        frame.channels != 2 ==> r == frame,
        r.sample_rate == frame.sample_rate,
        r.timestamp_ms == frame.timestamp_ms,
        r.source == frame.source,
{
    if frame.channels == 1 {
        return frame;
    }
    if frame.channels != 2 {
        return frame;
    }
    let len: usize = frame.samples.len();
    let n: usize = len / 2;
    let mut out: Vec<i16> = Vec::new();
    let mut k: usize = 0;
    while k < n
        invariant
            n == len as int / 2,
            len == frame.samples@.len(),
            out@.len() == k,
            k <= n,
            forall|j: int|
                0 <= j < k ==> out@[j] == clamp_spec(
                    frame.samples@[2 * j] + frame.samples@[2 * j + 1],
                ) as i16,
        decreases n - k,
    {
        let left: i32 = frame.samples[2 * k] as i32;
        let right: i32 = frame.samples[2 * k + 1] as i32;
        out.push(clamp_sample(left + right));
        k = k + 1;
    }
    proof {
        assert(out@ =~= mono_collapsed(frame.samples@));
    }
    AudioFrame {
        samples: out,
        sample_rate: frame.sample_rate,
        channels: 1,
        timestamp_ms: frame.timestamp_ms,
        source: frame.source,
    }
}

/// The sample sequence after the full per-frame transform: decimation toward
/// the target rate, then stereo-to-mono collapse when one channel is asked
/// for and the frame has two.
pub open spec fn processed_samples(frame: FrameView, target_rate: u32, target_channels: u16) -> Seq<
    i16,
>
    recommends
        target_rate > 0,
{
    if target_channels == 1 && frame.channels == 2 {
        mono_collapsed(downsampled_samples(frame, target_rate))
    } else {
        downsampled_samples(frame, target_rate)
    }
}

/// The channel count after the full per-frame transform.
pub open spec fn processed_channels(frame: FrameView, target_channels: u16) -> u16 {
    if target_channels == 1 && frame.channels == 2 {
        1
    } else {
        frame.channels
    }
}

/// Transform one frame to the session's target format: downsample by integer
/// decimation if the rate differs, then collapse channels if mono is asked
/// for and the frame is not mono.
pub fn process_frame(frame: AudioFrame, target_sample_rate: u32, target_channels: u16) -> (r:
    AudioFrame)
    requires
        target_sample_rate > 0,
    ensures
        r.samples@ == processed_samples(frame@, target_sample_rate, target_channels),
        r.sample_rate == downsampled_rate(frame@, target_sample_rate),
        r.channels == processed_channels(frame@, target_channels),
        r.timestamp_ms == frame.timestamp_ms,
        r.source == frame.source,
{
    let ghost fv = frame@;
    let processed = if frame.sample_rate != target_sample_rate {
        downsample_frame(frame, target_sample_rate)
    } else {
        frame
    };
    proof {
        if fv.sample_rate == target_sample_rate {
            assert(fv.sample_rate as int / target_sample_rate as int == 1) by (nonlinear_arith)
                requires
                    fv.sample_rate == target_sample_rate,
                    target_sample_rate > 0,
            ;
        }
    }
    if processed.channels != target_channels && target_channels == 1 {
        stereo_to_mono(processed)
    } else {
        processed
    }
}

} // verus!
