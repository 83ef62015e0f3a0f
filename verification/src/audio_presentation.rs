//! The waveform reducer: turns decoded audio plus a target display rate
//! into two same-length sequences of normalized amplitude points, one per
//! channel. Points are exact integers on the scale `0 ..= 65535`; a
//! consumer divides by `65535` to obtain the conventional floating-point
//! display value.

use vstd::arithmetic::div_mod::{
    lemma_fundamental_div_mod, lemma_fundamental_div_mod_converse, lemma_mod_pos_bound,
};
use vstd::prelude::*;

use crate::audio_data::AudioData;
use crate::WavError;

verus! {

/// The integer amplitude a signed 16-bit sample is displayed at: the
/// sample shifted by 32768 onto the scale `0 ..= 65535`, so `-32768` maps
/// to 0, `0` to 32768 and `32767` to 65535.
pub open spec fn spec_normalize(s: i16) -> int {
    s + 32768
}

/// How many frames a reduction visits when stepping by `interval` through
/// `total` frames: the ceiling of `total / interval`.
pub open spec fn spec_point_count(total: int, interval: int) -> int {
    (total + interval - 1) / interval
}

/// The inputs a reduction rejects: a channel count other than 1 or 2, and
/// a display rate of zero or above the source rate, either of which would
/// make the frame interval zero.
pub open spec fn spec_reduce_rejects(channels: int, source_rate: int, display_rate: int) -> bool {
    ||| channels != 1 && channels != 2
    ||| display_rate == 0
    ||| source_rate / display_rate == 0
}

/// What a reduction at frame interval `interval` returns: one point for
/// frame 0, `interval`, `2 * interval`, ... below `total`, in visitation
/// order; the left point is the frame's first sample normalized, the
/// right point the frame's second sample for stereo and the first again
/// for mono.
pub open spec fn spec_waveform_points(
    samples: Seq<i16>,
    channels: int,
    interval: int,
    left: Seq<u16>,
    right: Seq<u16>,
) -> bool {
    let total = samples.len() as int / channels;
    &&& left.len() == spec_point_count(total, interval)
    &&& right.len() == spec_point_count(total, interval)
    &&& forall|k: int|
        0 <= k < left.len() ==> left[k] == spec_normalize(samples[k * interval * channels])
    &&& forall|k: int|
        0 <= k < right.len() ==> right[k] == spec_normalize(
            samples[k * interval * channels + channels - 1],
        )
}

/// Decoded audio together with the display rate it is to be reduced at.
pub struct RatedAudioData {
    pub audio_data: AudioData,
    pub sample_rate: u32,
}

/// Copies a sample sequence.
fn copy_samples(v: &Vec<i16>) -> (r: Vec<i16>)
    ensures
        r@ == v@,
{
    let mut out: Vec<i16> = Vec::with_capacity(v.len());
    let mut i: usize = 0;
    while i < v.len()
        invariant
            i <= v@.len(),
            out@.len() == i,
            forall|j: int| 0 <= j < i ==> out@[j] == v@[j],
        decreases v@.len() - i,
    {
        out.push(v[i]);
        i += 1;
    }
    assert(out@ =~= v@);
    out
}

impl RatedAudioData {
    /// Pairs a copy of the audio with the display rate to reduce it at.
    pub fn new(audio_data: &AudioData, sample_rate: u32) -> (r: Self)
        ensures
            r.audio_data.samples@ == audio_data.samples@,
            r.audio_data.channels == audio_data.channels,
            r.audio_data.sample_rate == audio_data.sample_rate,
            r.sample_rate == sample_rate,
    {
        Self {
            audio_data: AudioData {
                samples: copy_samples(&audio_data.samples),
                channels: audio_data.channels,
                sample_rate: audio_data.sample_rate,
            },
            sample_rate,
        }
    }
}

/// A reduced waveform: one amplitude point per visited frame and channel,
/// on the integer scale `0 ..= 65535` (see [`spec_normalize`]). The two
/// sequences always have the same length; for mono input they are equal.
#[derive(Debug)]
pub struct StereoWaveform {
    pub left_channel_points: Vec<u16>,
    pub right_channel_points: Vec<u16>,
}

/// Maps a sample onto the display scale: `-32768` to 0, `0` to 32768,
/// `32767` to 65535.
pub fn normalize_sample(s: i16) -> (r: u16)
    ensures
        r == spec_normalize(s),
{
    ((s as i32) + 32768) as u16
}

/// The point-count formula is a ceiling: any count `n` of steps of
/// `interval` that reaches `total` (`n * interval >= total`) while its
/// last step started below `total` (`(n - 1) * interval < total`, unless
/// nothing was visited because `total` is 0) equals
/// `spec_point_count(total, interval)`.
pub proof fn lemma_point_count_is_ceil(total: int, interval: int, n: int)
    requires
        interval >= 1,
        0 <= total,
        0 <= n,
        total <= n * interval,
        n > 0 ==> (n - 1) * interval < total,
    ensures
        n == spec_point_count(total, interval),
{
    if n == 0 {
        lemma_fundamental_div_mod_converse(total + interval - 1, interval, 0, interval - 1);
    } else {
        let r = total + interval - 1 - n * interval;
        assert(r >= 0) by {
            assert((n - 1) * interval == n * interval - interval) by (nonlinear_arith);
        }
        lemma_fundamental_div_mod_converse(total + interval - 1, interval, n, r);
    }
}

/// Mono reductions have pointwise identical output channels: with one
/// channel, the frame's second sample is its first.
pub proof fn lemma_mono_left_equals_right(
    samples: Seq<i16>,
    interval: int,
    left: Seq<u16>,
    right: Seq<u16>,
)
    requires
        spec_waveform_points(samples, 1, interval, left, right),
    ensures
        left == right,
{
    assert forall|k: int| 0 <= k < left.len() implies left[k] == right[k] by {
        assert(k * interval * 1 + 1 - 1 == k * interval * 1);
    }
    assert(left =~= right);
}

impl StereoWaveform {
    /// Reduces the rated audio into a waveform. Rejects a channel count
    /// other than 1 or 2, and a display rate of zero or above the source
    /// rate (the frame interval would be zero), all as
    /// `UnsupportedChannelLayout`. The frame interval is the source rate
    /// divided by the display rate, rounded down.
    pub fn try_from(rated: &RatedAudioData) -> (r: Result<StereoWaveform, WavError>)
        ensures
            ({
                let a = &rated.audio_data;
                if spec_reduce_rejects(
                    a.channels as int,
                    a.sample_rate as int,
                    rated.sample_rate as int,
                ) {
                    r matches Err(e) && e == WavError::UnsupportedChannelLayout
                } else {
                    r matches Ok(w) && spec_waveform_points(
                        a.samples@,
                        a.channels as int,
                        a.sample_rate as int / rated.sample_rate as int,
                        w.left_channel_points@,
                        w.right_channel_points@,
                    ) && (a.channels == 1 ==> w.left_channel_points@ == w.right_channel_points@)
                }
            }),
    {
        let audio = &rated.audio_data;
        if audio.channels != 1 && audio.channels != 2 {
            return Err(WavError::UnsupportedChannelLayout);
        }
        if rated.sample_rate == 0 {
            return Err(WavError::UnsupportedChannelLayout);
        }
        let samples_per_interval = audio.sample_rate / rated.sample_rate;
        if samples_per_interval == 0 {
            return Err(WavError::UnsupportedChannelLayout);
        }
        let interval = samples_per_interval as usize;
        let channels = audio.channels as usize;
        let num_samples = audio.samples.len();
        let total_frames = num_samples / channels;
        proof {
            lemma_fundamental_div_mod(num_samples as int, channels as int);
            lemma_mod_pos_bound(num_samples as int, channels as int);
            assert(total_frames * channels <= num_samples);
        }
        let mut left_channel_points: Vec<u16> = Vec::new();
        let mut right_channel_points: Vec<u16> = Vec::new();
        let mut frame_index: usize = 0;
        while frame_index < total_frames
            invariant
                channels == 1 || channels == 2,
                channels == audio.channels as int,
                interval >= 1,
                num_samples == audio.samples@.len(),
                total_frames == num_samples as int / channels as int,
                total_frames * channels <= num_samples,
                left_channel_points@.len() == right_channel_points@.len(),
                left_channel_points@.len() * interval < total_frames ==> frame_index
                    == left_channel_points@.len() * interval,
                left_channel_points@.len() * interval >= total_frames ==> frame_index
                    == total_frames,
                left_channel_points@.len() > 0 ==> (left_channel_points@.len() - 1) * interval
                    < total_frames,
                forall|k: int|
                    0 <= k < left_channel_points@.len() ==> left_channel_points@[k]
                        == spec_normalize(audio.samples@[k * interval * channels]),
                forall|k: int|
                    0 <= k < right_channel_points@.len() ==> right_channel_points@[k]
                        == spec_normalize(
                        audio.samples@[k * interval * channels + channels - 1],
                    ),
            decreases total_frames - frame_index,
        {
            let ghost n = left_channel_points@.len() as int;
            proof {
                assert(frame_index == n * interval);
                assert(frame_index * channels + channels <= total_frames * channels)
                    by (nonlinear_arith)
                    requires
                        frame_index < total_frames,
                        channels >= 1,
                ;
            }
            let sample_index = frame_index * channels;
            let first_sample = audio.samples[sample_index];
            let second_sample = if channels == 2 {
                audio.samples[sample_index + 1]
            } else {
                first_sample
            };
            left_channel_points.push(normalize_sample(first_sample));
            right_channel_points.push(normalize_sample(second_sample));
            proof {
                assert((n + 1) * interval == n * interval + interval) by (nonlinear_arith);
            }
            let remaining = total_frames - frame_index;
            if interval < remaining {
                frame_index = frame_index + interval;
            } else {
                frame_index = total_frames;
            }
        }
        proof {
            let n = left_channel_points@.len() as int;
            let total = total_frames as int;
            if n * interval < total {
                // then the loop would still be running
                assert(frame_index == n * interval);
                assert(false);
            }
            lemma_point_count_is_ceil(total, interval as int, n);
            if channels == 1 {
                lemma_mono_left_equals_right(
                    audio.samples@,
                    interval as int,
                    left_channel_points@,
                    right_channel_points@,
                );
            }
        }
        Ok(StereoWaveform { left_channel_points, right_channel_points })
    }
}

} // verus!
