//! Tracks: what is known of one before it is measured, and what a scan finds out.

use vstd::prelude::*;

use crate::error::{AppError, AppResult, Fault};

verus! {

/// Identifies a file's audio across runs.
pub type Signature = [u8; 32];

/// A single-precision number, held as its bit pattern.
#[derive(Debug, Clone, Copy, PartialEq, Eq, Structural)]
pub struct Real32 {
    pub bits: u32,
}

impl Real32 {
    /// The number without its sign bit.
    pub open spec fn magnitude(self) -> u32 {
        (self.bits % 0x8000_0000) as u32
    }

    /// Whether the pattern is not a number.
    pub open spec fn is_nan(self) -> bool {
        self.magnitude() > 0x7f80_0000
    }

    /// Whether two patterns stand for the same number: none equals a pattern that is
    /// not a number, and the two zeros are one.
    pub open spec fn same_number(self, other: Real32) -> bool {
        &&& !self.is_nan()
        &&& !other.is_nan()
        &&& (self.bits == other.bits || self.magnitude() == 0 && other.magnitude() == 0)
    }

    /// Whether two patterns stand for the same number.
    pub fn equals(self, other: Real32) -> (same: bool)
        ensures
            same == self.same_number(other),
    {
        let mine: u32 = self.bits % 0x8000_0000;
        let theirs: u32 = other.bits % 0x8000_0000;
        mine <= 0x7f80_0000 && theirs <= 0x7f80_0000 && (self.bits == other.bits || mine == 0
            && theirs == 0)
    }
}

/// What the loudness meter told of one file.
#[derive(Debug, Clone, Copy, PartialEq, Eq, Structural)]
pub struct Measurement {
    /// The integrated loudness.
    pub raw_lufs: Real32,
    /// The gain to the reference loudness.
    pub track_gain: Real32,
    /// The highest sample of any channel.
    pub peak: Real32,
}

/// What a scan found out about one file.
#[derive(Debug)]
pub struct TrackResult {
    /// The file.
    pub path: Vec<u8>,
    /// The identity of its audio.
    pub signature: Signature,
    /// The integrated loudness that was measured.
    pub raw_lufs: Real32,
    /// The gain to the reference loudness.
    pub track_gain: Real32,
    /// The highest sample of any channel.
    pub peak: Real32,
    /// Whether the file's tags do not hold this gain yet.
    pub needs_write: bool,
}

/// An audio track's layout, as far as its container states it.
#[derive(Debug, Clone, Copy)]
pub struct AudioParams {
    pub channels: Option<usize>,
    pub sample_rate: Option<u32>,
}

/// A track of a container. Tracks other than audio have no audio parameters.
#[derive(Debug, Clone, Copy)]
pub struct TrackInfo {
    pub id: u32,
    pub audio: Option<AudioParams>,
}

/// The track to measure and the layout to measure it with.
#[derive(Debug, Clone, Copy)]
pub struct TrackPlan {
    /// The track's place in its container.
    pub index: usize,
    pub track_id: u32,
    pub channels: u32,
    pub sample_rate: u32,
}

/// Channels assumed where a track does not state them.
pub const DEFAULT_CHANNELS: u32 = 2;

/// Samples per second assumed where a track does not state them.
pub const DEFAULT_SAMPLE_RATE: u32 = 48000;

impl AudioParams {
    /// The number of channels to measure: the low 32 bits of the stated number.
    pub open spec fn meter_channels(self) -> int {
        match self.channels {
            Some(count) => count as int % 0x1_0000_0000,
            None => DEFAULT_CHANNELS as int,
        }
    }

    /// The number of samples per second to measure with.
    pub open spec fn meter_rate(self) -> int {
        match self.sample_rate {
            Some(rate) => rate as int,
            None => DEFAULT_SAMPLE_RATE as int,
        }
    }
}

/// Picks the first track of a container that holds audio, whichever track the
/// container itself prefers.
pub fn select_track(tracks: &Vec<TrackInfo>) -> (plan: AppResult<TrackPlan>)
    ensures
        match plan {
            Ok(plan) => {
                &&& plan.index < tracks@.len()
                &&& tracks@[plan.index as int].audio matches Some(params)
                &&& forall|i: int| 0 <= i < plan.index ==> (#[trigger] tracks@[i]).audio is None
                &&& plan.track_id == tracks@[plan.index as int].id
                &&& plan.channels == params.meter_channels()
                &&& plan.sample_rate == params.meter_rate()
                &&& params.channels matches Some(count) ==> plan.channels == count as int
                    % 0x1_0000_0000
                &&& params.channels is None ==> plan.channels == 2
                &&& params.sample_rate matches Some(rate) ==> plan.sample_rate == rate
                &&& params.sample_rate is None ==> plan.sample_rate == 48000
            },
            Err(error) => {
                &&& forall|i: int| 0 <= i < tracks@.len() ==> (#[trigger] tracks@[i]).audio is None
                &&& error.reports(Fault::NoAudioTrack)
            },
        },
{
    let mut index: usize = 0;
    while index < tracks.len()
        invariant
            index <= tracks@.len(),
            forall|i: int| 0 <= i < index ==> (#[trigger] tracks@[i]).audio is None,
        decreases tracks@.len() - index,
    {
        if let Some(params) = tracks[index].audio {
            let channels: u32 = match params.channels {
                Some(count) => (count as u64 % 0x1_0000_0000) as u32,
                None => DEFAULT_CHANNELS,
            };
            let sample_rate: u32 = match params.sample_rate {
                Some(rate) => rate,
                None => DEFAULT_SAMPLE_RATE,
            };
            return Ok(TrackPlan { index, track_id: tracks[index].id, channels, sample_rate });
        }
        index = index + 1;
    }
    Err(AppError::decode(Fault::NoAudioTrack))
}

/// The double-precision pattern of infinity. The patterns up to it are those of the
/// numbers that have no minus sign, in the order of the numbers; above it are the
/// patterns that are not a number and those with a minus sign.
pub const INFINITY_PATTERN: u64 = 0x7ff0_0000_0000_0000;

/// The highest of the channels' peaks, and 0 if there is none above it. Peaks are
/// double-precision numbers, held as their bit patterns. A channel without a peak counts
/// for nothing, nor does a pattern that is not a number or that has a minus sign.
pub fn overall_peak(peaks: &Vec<Option<u64>>) -> (highest: u64)
    ensures
        highest <= 0x7ff0_0000_0000_0000,
        forall|i: int|
            0 <= i < peaks@.len() ==> (#[trigger] peaks@[i] matches Some(peak) ==> peak
                <= 0x7ff0_0000_0000_0000 ==> peak <= highest),
        highest == 0 || peaks@.contains(Some(highest)),
{
    let mut highest: u64 = 0;
    let mut i: usize = 0;
    while i < peaks.len()
        invariant
            i <= peaks@.len(),
            highest <= INFINITY_PATTERN,
            forall|j: int|
                0 <= j < i ==> (#[trigger] peaks@[j] matches Some(peak) ==> peak
                    <= INFINITY_PATTERN ==> peak <= highest),
            highest == 0 || peaks@.contains(Some(highest)),
        decreases peaks@.len() - i,
    {
        if let Some(peak) = peaks[i] {
            if highest < peak && peak <= INFINITY_PATTERN {
                highest = peak;
                assert(peaks@[i as int] == Some(highest));
            }
        }
        i = i + 1;
    }
    highest
}

/// Two patterns stand for the same number exactly if they are one pattern, of a number,
/// or are both zeros, with whatever sign. So different patterns of numbers other than
/// zero are always told apart, and a pattern that is not a number is not even the same as
/// itself.
pub proof fn law_numbers_are_told_apart_by_their_bits(a: Real32, b: Real32)
    ensures
        a.same_number(b) ==> a.bits == b.bits || (a.bits == 0 || a.bits == 0x8000_0000) && (b.bits
            == 0 || b.bits == 0x8000_0000),
        a.same_number(b) ==> a.bits <= 0x7f80_0000 || 0x8000_0000 <= a.bits <= 0xff80_0000,
        a.bits == b.bits && (a.bits <= 0x7f80_0000 || 0x8000_0000 <= a.bits <= 0xff80_0000)
            ==> a.same_number(b),
        (a.bits == 0 || a.bits == 0x8000_0000) && (b.bits == 0 || b.bits == 0x8000_0000)
            ==> a.same_number(b),
        a.is_nan() <==> 0x7f80_0000 < a.bits < 0x8000_0000 || 0xff80_0000 < a.bits,
{
}

/// Sameness of numbers does not depend on the order, and passes on.
pub proof fn law_sameness_is_an_equivalence(a: Real32, b: Real32, c: Real32)
    ensures
        a.same_number(b) ==> b.same_number(a),
        a.same_number(b) && b.same_number(c) ==> a.same_number(c),
{
}

/// A layout that a track states is measured as stated, but for a number of channels
/// beyond 32 bits; a layout that it does not state is stereo at 48 kilohertz.
pub proof fn law_stated_layout_is_measured(params: AudioParams)
    ensures
        params.sample_rate matches Some(rate) ==> params.meter_rate() == rate,
        params.sample_rate is None ==> params.meter_rate() == 48000,
        params.channels matches Some(count) ==> count <= u32::MAX ==> params.meter_channels()
            == count,
        params.channels matches Some(count) ==> count > u32::MAX ==> 0 <= params.meter_channels()
            <= u32::MAX && (count - params.meter_channels()) % 0x1_0000_0000 == 0,
        params.channels is None ==> params.meter_channels() == 2,
{
}

} // verus!
