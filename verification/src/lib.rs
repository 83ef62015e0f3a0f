//! Decoding of uncompressed 16-bit PCM WAV buffers into a compact,
//! normalized per-channel waveform suitable for visual display.
//!
//! The pipeline walks the RIFF/WAVE chunk list to find the format and data
//! chunks, extracts channel count, sample rate and the signed 16-bit
//! samples, and then reduces the samples at a target display rate into two
//! same-length point sequences (left and right channel). Points are kept as
//! exact integer amplitudes on the scale `0 ..= 65535`; dividing a point by
//! `65535` yields the conventional floating-point display value.

use vstd::prelude::*;

pub mod audio_data;
pub mod audio_presentation;
pub mod chunks;
pub mod wav_binary;

use crate::audio_data::{
    spec_decode_error, spec_decoded_channels, spec_decoded_rate, spec_decoded_samples,
    spec_fmt_fields_in_bounds, AudioData,
};
use crate::audio_presentation::{
    spec_reduce_rejects, spec_waveform_points, RatedAudioData, StereoWaveform,
};
use crate::wav_binary::{spec_riff_check, WavBinary};

verus! {

/// Why a decode attempt failed. Every stage of the pipeline aborts on the
/// first violated rule and reports exactly one of these.
#[derive(Clone, Copy, Debug, PartialEq, Eq, Structural)]
pub enum WavError {
    /// The buffer is shorter than 12 bytes or lacks the `RIFF`/`WAVE` magic.
    InvalidRiffHeader,
    /// No `"fmt "` chunk was found before the buffer was exhausted.
    MissingFormatChunk,
    /// No `"data"` chunk was found before the buffer was exhausted.
    MissingDataChunk,
    /// The declared size of the `"data"` chunk extends past the buffer end.
    IncompleteDataChunk,
    /// The `"data"` payload has an odd byte count and cannot pair into
    /// whole 16-bit samples.
    MalformedSampleData,
    /// The channel count is neither 1 nor 2, or the display rate would
    /// make the frame interval zero.
    UnsupportedChannelLayout,
}

/// The fixed display rate of the convenience entry point, in Hz.
pub const DEFAULT_DISPLAY_RATE: u32 = 5;

/// What the pipeline returns for the buffer `d` at `display_rate`: the
/// first error in pipeline order (envelope, format chunk, data chunk,
/// payload bounds, sample parity, channel layout), or a waveform reduced
/// at the frame interval `source rate / display rate`.
pub open spec fn spec_pipeline_result(
    d: Seq<u8>,
    display_rate: int,
    r: Result<StereoWaveform, WavError>,
) -> bool {
    match spec_decode_error(d) {
        Some(e) => r matches Err(e2) && e2 == e,
        None => if spec_reduce_rejects(
            spec_decoded_channels(d),
            spec_decoded_rate(d),
            display_rate,
        ) {
            r matches Err(e) && e == WavError::UnsupportedChannelLayout
        } else {
            r matches Ok(w) && spec_waveform_points(
                spec_decoded_samples(d),
                spec_decoded_channels(d),
                spec_decoded_rate(d) / display_rate,
                w.left_channel_points@,
                w.right_channel_points@,
            ) && (spec_decoded_channels(d) == 1 ==> w.left_channel_points@
                == w.right_channel_points@)
        },
    }
}

/// Runs the whole pipeline on an in-memory buffer: envelope validation,
/// format and data decoding, then reduction at `display_rate`. The
/// precondition excludes the malformed buffers whose format field reads
/// would reach past the buffer end; `audio_data::format_fields_in_bounds`
/// tests it at run time.
pub fn decode_waveform_at_rate(wav: &WavBinary, display_rate: u32) -> (r: Result<
    StereoWaveform,
    WavError,
>)
    requires
        spec_riff_check(wav.data@) ==> spec_fmt_fields_in_bounds(wav.data@),
    ensures
        spec_pipeline_result(wav.data@, display_rate as int, r),
{
    let audio = match AudioData::try_from(wav) {
        Ok(a) => a,
        Err(e) => {
            return Err(e);
        },
    };
    let rated = RatedAudioData::new(&audio, display_rate);
    StereoWaveform::try_from(&rated)
}

/// The convenience fixed-rate entry point: identical to
/// [`decode_waveform_at_rate`] at 5 Hz.
pub fn decode_waveform(wav: &WavBinary) -> (r: Result<StereoWaveform, WavError>)
    requires
        spec_riff_check(wav.data@) ==> spec_fmt_fields_in_bounds(wav.data@),
    ensures
        spec_pipeline_result(wav.data@, DEFAULT_DISPLAY_RATE as int, r),
{
    decode_waveform_at_rate(wav, DEFAULT_DISPLAY_RATE)
}

} // verus!
