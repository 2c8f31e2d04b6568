//! A decoded audio file, as plain samples. Opening and decoding a container
//! on disk is the embedding program's concern; the library holds the decoded
//! result and the rules about it.

use vstd::prelude::*;
use vstd::string::StringExecFns;

use crate::errors::MeetingError;

verus! {

/// A decoded audio file: its origin and its interleaved 16-bit samples.
#[derive(Debug, Clone)]
pub struct AudioFile {
    /// Where the audio came from.
    pub path: String,
    /// Sample rate in Hz.
    pub sample_rate: u32,
    /// Channel count.
    pub channels: u16,
    /// The decoded samples, interleaved by channel.
    pub samples: Vec<i16>,
}

impl AudioFile {
    /// How long the audio runs, in milliseconds; zero when the rate or the
    /// channel count is zero.
    pub open spec fn duration_ms_spec(&self) -> int {
        if self.sample_rate > 0 && self.channels > 0 {
            self.samples@.len() as int * 1000 / (self.sample_rate as int * self.channels as int)
        } else {
            0
        }
    }

    /// How long the audio runs, in milliseconds.
    pub fn duration_ms(&self) -> (r: u64)
        requires
            self.samples@.len() * 1000 <= u64::MAX as int,
        ensures
            r == self.duration_ms_spec(),
    {
        if self.sample_rate == 0 || self.channels == 0 {
            return 0;
        }
        let total: u64 = (self.samples.len() as u64) * 1000;
        proof {
            assert(0 < self.sample_rate as int * self.channels as int <= u64::MAX as int)
                by (nonlinear_arith)
                requires
                    0 < self.sample_rate as int <= u32::MAX as int,
                    0 < self.channels as int <= u16::MAX as int,
            ;
        }
        let divisor: u64 = (self.sample_rate as u64) * (self.channels as u64);
        total / divisor
    }

    /// The samples as the transcription collaborator expects them. Succeeds
    /// exactly when the audio is already 16 kHz mono: no resampling is done.
    pub fn resample_to_mono_16khz(&self) -> (r: Result<Vec<i16>, MeetingError>)
        ensures
            r is Ok <==> self.sample_rate == 16000 && self.channels == 1,
            r matches Ok(v) ==> v@ == self.samples@,
    {
        if self.sample_rate == 16000 && self.channels == 1 {
            let n = self.samples.len();
            let mut out: Vec<i16> = Vec::new();
            let mut i: usize = 0;
            while i < n
                invariant
                    i <= n,
                    n == self.samples@.len(),
                    out@ == self.samples@.take(i as int),
                decreases n - i,
            {
                out.push(self.samples[i]);
                i = i + 1;
                proof {
                    assert(out@ =~= self.samples@.take(i as int));
                }
            }
            proof {
                assert(self.samples@.take(n as int) =~= self.samples@);
            }
            Ok(out)
        } else {
            Err(
                MeetingError::Configuration(
                    String::from_str("resampling is not supported: expected 16 kHz mono audio"),
                ),
            )
        }
    }
}

} // verus!
