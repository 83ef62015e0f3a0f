//! Decoding of a validated RIFF/WAVE buffer into raw audio: the format
//! lookup (channel count and sample rate), the data lookup, and the
//! conversion of the data payload into signed 16-bit samples.

use vstd::prelude::*;

use crate::chunks::{
    find_chunk, le16_at, le32_at, lemma_find_chunk_some, spec_chunk_size, spec_find_chunk,
    spec_le16, spec_le32,
};
use crate::wav_binary::{spec_riff_check, WavBinary};
use crate::WavError;

verus! {

/// Offset of the `"fmt "` chunk header, if the format lookup finds one.
/// The format lookup insists on at least one byte after each header it
/// inspects (the strict tail policy).
pub open spec fn spec_find_fmt(d: Seq<u8>) -> Option<int> {
    spec_find_chunk(d, 12, 0x66, 0x6d, 0x74, 0x20, true)
}

/// Offset of the `"data"` chunk header, if the data lookup finds one. The
/// data lookup accepts a header that ends exactly at the buffer boundary.
pub open spec fn spec_find_data(d: Seq<u8>) -> Option<int> {
    spec_find_chunk(d, 12, 0x64, 0x61, 0x74, 0x61, false)
}

/// The signed 16-bit sample encoded by two little-endian bytes.
pub open spec fn spec_i16_sample(lo: u8, hi: u8) -> i16 {
    if hi >= 128 {
        (lo + 256 * hi - 65536) as i16
    } else {
        (lo + 256 * hi) as i16
    }
}

/// The sample sequence encoded by a payload: two bytes per sample,
/// little-endian, in original byte order. A trailing odd byte encodes
/// nothing (payloads with one are rejected before this is applied).
pub open spec fn spec_samples_of(b: Seq<u8>) -> Seq<i16> {
    Seq::new((b.len() / 2) as nat, |i: int| spec_i16_sample(b[2 * i], b[2 * i + 1]))
}

/// Whether the format fields that the format reader will fetch lie inside
/// the buffer. The format lookup's own termination test only guarantees
/// one byte past the header, so on malformed buffers the two field reads
/// (at header offsets +10 and +12) can reach past the end; such buffers
/// are excluded by precondition rather than given a new error.
pub open spec fn spec_fmt_fields_in_bounds(d: Seq<u8>) -> bool {
    match spec_find_fmt(d) {
        Some(p) => p + 16 <= d.len(),
        None => true,
    }
}

/// The first error the decode pipeline reports for a buffer, if any:
/// envelope, then format lookup, then data lookup, then payload bounds,
/// then sample parity.
pub open spec fn spec_decode_error(d: Seq<u8>) -> Option<WavError> {
    if !spec_riff_check(d) {
        Some(WavError::InvalidRiffHeader)
    } else if spec_find_fmt(d) is None {
        Some(WavError::MissingFormatChunk)
    } else {
        match spec_find_data(d) {
            None => Some(WavError::MissingDataChunk),
            Some(p) => {
                let size = spec_chunk_size(d, p);
                if p + 8 + size > d.len() {
                    Some(WavError::IncompleteDataChunk)
                } else if size % 2 != 0 {
                    Some(WavError::MalformedSampleData)
                } else {
                    None
                }
            },
        }
    }
}

/// The channel count the format reader yields for a buffer whose format
/// lookup succeeds: the 2-byte field at header offset +10.
pub open spec fn spec_decoded_channels(d: Seq<u8>) -> int {
    spec_le16(d, spec_find_fmt(d)->0 + 10)
}

/// The sample rate the format reader yields for a buffer whose format
/// lookup succeeds: the 4-byte field at header offset +12.
pub open spec fn spec_decoded_rate(d: Seq<u8>) -> int {
    spec_le32(d, spec_find_fmt(d)->0 + 12)
}

/// The sample sequence the data reader yields for a buffer whose data
/// chunk is well-formed: the declared payload, paired into samples.
pub open spec fn spec_decoded_samples(d: Seq<u8>) -> Seq<i16> {
    let p = spec_find_data(d)->0;
    spec_samples_of(d.subrange(p + 8, p + 8 + spec_chunk_size(d, p)))
}

/// Decoded PCM audio: signed 16-bit samples interleaved by channel (one
/// frame holds one sample per channel), the channel count, and the source
/// sample rate in Hz.
#[derive(Debug)]
pub struct AudioData {
    pub samples: Vec<i16>,
    pub channels: u16,
    pub sample_rate: u32,
}

/// Decodes one signed 16-bit sample from its two little-endian bytes.
fn i16_from_le_pair(lo: u8, hi: u8) -> (s: i16)
    ensures
        s == spec_i16_sample(lo, hi),
{
    let unsigned: u32 = lo as u32 + 256 * (hi as u32);
    if unsigned >= 32768 {
        let shifted: i32 = unsigned as i32 - 65536;
        shifted as i16
    } else {
        unsigned as i16
    }
}

impl AudioData {
    /// Locates the `"data"` chunk: a linear walk from offset 12 that
    /// accepts a header ending exactly at the buffer boundary.
    pub fn find_data_chunk(data: &[u8]) -> (r: Option<usize>)
        ensures
            match r {
                Some(p) => spec_find_data(data@) == Some(p as int),
                None => spec_find_data(data@) is None,
            },
    {
        find_chunk(data, 0x64, 0x61, 0x74, 0x61, false)
    }

    /// Locates the `"fmt "` chunk and reads the channel count (2-byte
    /// little-endian field at header offset +10) and the sample rate
    /// (4-byte little-endian field at header offset +12).
    pub fn read_format_info(data: &[u8]) -> (r: Result<(u16, u32), WavError>)
        requires
            spec_fmt_fields_in_bounds(data@),
        ensures
            match spec_find_fmt(data@) {
                Some(p) => r matches Ok(f) && f.0 == spec_le16(data@, p + 10) && f.1 == spec_le32(
                    data@,
                    p + 12,
                ),
                None => r matches Err(e) && e == WavError::MissingFormatChunk,
            },
    {
        let n = data.len();
        match find_chunk(data, 0x66, 0x6d, 0x74, 0x20, true) {
            Some(p) => {
                proof {
                    lemma_find_chunk_some(data@, 12, 0x66, 0x6d, 0x74, 0x20, true);
                    assert(p + 16 <= n);
                }
                let channels = le16_at(data, p + 10);
                let sample_rate = le32_at(data, p + 12);
                Ok((channels, sample_rate))
            },
            None => Err(WavError::MissingFormatChunk),
        }
    }

    /// Locates the `"data"` chunk, validates its declared payload against
    /// the buffer end, and converts the payload into samples.
    pub fn extract_samples(data: &[u8]) -> (r: Result<Vec<i16>, WavError>)
        ensures
            ({
                let d = data@;
                match spec_find_data(d) {
                    None => r matches Err(e) && e == WavError::MissingDataChunk,
                    Some(p) => {
                        let size = spec_chunk_size(d, p);
                        if p + 8 + size > d.len() {
                            r matches Err(e) && e == WavError::IncompleteDataChunk
                        } else if size % 2 != 0 {
                            r matches Err(e) && e == WavError::MalformedSampleData
                        } else {
                            r matches Ok(v) && v@ == spec_samples_of(d.subrange(p + 8, p + 8 + size))
                        }
                    },
                }
            }),
    {
        let n = data.len();
        let data_pos = match Self::find_data_chunk(data) {
            Some(p) => p,
            None => {
                return Err(WavError::MissingDataChunk);
            },
        };
        proof {
            lemma_find_chunk_some(data@, 12, 0x64, 0x61, 0x74, 0x61, false);
            assert(spec_find_data(data@) == Some(data_pos as int));
            assert(data_pos + 8 <= n);
        }
        if data_pos + 8 > n {
            return Err(WavError::IncompleteDataChunk);
        }
        let data_size = le32_at(data, data_pos + 4);
        let audio_start = data_pos + 8;
        if (data_size as usize) > n - audio_start {
            return Err(WavError::IncompleteDataChunk);
        }
        let audio_end = audio_start + (data_size as usize);
        let audio_bytes = &data[audio_start..audio_end];
        Self::bytes_to_i16_samples(audio_bytes)
    }

    /// Pairs payload bytes into signed 16-bit little-endian samples;
    /// sample `i` comes from bytes `2*i` and `2*i + 1`. An odd byte count
    /// cannot pair into whole samples and is rejected.
    pub fn bytes_to_i16_samples(bytes: &[u8]) -> (r: Result<Vec<i16>, WavError>)
        ensures
            if bytes@.len() % 2 != 0 {
                r matches Err(e) && e == WavError::MalformedSampleData
            } else {
                r matches Ok(v) && v@ == spec_samples_of(bytes@)
            },
    {
        if bytes.len() % 2 != 0 {
            return Err(WavError::MalformedSampleData);
        }
        let num_samples = bytes.len() / 2;
        let mut samples: Vec<i16> = Vec::with_capacity(num_samples);
        let mut i: usize = 0;
        while i < num_samples
            invariant
                bytes@.len() <= usize::MAX,
                num_samples == bytes@.len() / 2,
                bytes@.len() % 2 == 0,
                i <= num_samples,
                samples@.len() == i,
                forall|j: int|
                    0 <= j < i ==> samples@[j] == spec_i16_sample(bytes@[2 * j], bytes@[2 * j + 1]),
            decreases num_samples - i,
        {
            let byte_index = i * 2;
            let sample = i16_from_le_pair(bytes[byte_index], bytes[byte_index + 1]);
            samples.push(sample);
            i += 1;
        }
        assert(samples@ =~= spec_samples_of(bytes@));
        Ok(samples)
    }

    /// Decodes a whole WAV buffer: envelope validation, then format
    /// lookup, then sample extraction, aborting on the first violated
    /// rule. The precondition excludes the malformed buffers on which the
    /// format field reads would reach past the buffer end (see
    /// [`spec_fmt_fields_in_bounds`]); `format_fields_in_bounds` tests it.
    pub fn try_from(wav: &WavBinary) -> (r: Result<AudioData, WavError>)
        requires
            spec_riff_check(wav.data@) ==> spec_fmt_fields_in_bounds(wav.data@),
        ensures
            ({
                let d = wav.data@;
                match spec_decode_error(d) {
                    Some(e) => r matches Err(e2) && e2 == e,
                    None => r matches Ok(a) && {
                        &&& a.channels == spec_decoded_channels(d)
                        &&& a.sample_rate == spec_decoded_rate(d)
                        &&& a.samples@ == spec_decoded_samples(d)
                    },
                }
            }),
    {
        if !wav.check() {
            return Err(WavError::InvalidRiffHeader);
        }
        let format = match Self::read_format_info(wav.data.as_slice()) {
            Ok(f) => f,
            Err(e) => {
                return Err(e);
            },
        };
        let samples = match Self::extract_samples(wav.data.as_slice()) {
            Ok(s) => s,
            Err(e) => {
                return Err(e);
            },
        };
        Ok(AudioData { samples, channels: format.0, sample_rate: format.1 })
    }
}

/// Whether the format field reads of a decode would stay inside the
/// buffer. Buffers failing this are the ones [`AudioData::try_from`]
/// excludes by precondition; callers that cannot rule them out test this
/// first.
pub fn format_fields_in_bounds(data: &[u8]) -> (b: bool)
    ensures
        b == spec_fmt_fields_in_bounds(data@),
{
    match find_chunk(data, 0x66, 0x6d, 0x74, 0x20, true) {
        Some(p) => {
            proof {
                lemma_find_chunk_some(data@, 12, 0x66, 0x6d, 0x74, 0x20, true);
            }
            data.len() - p >= 16
        },
        None => true,
    }
}

/// For any buffer that passes RIFF/WAVE validation and holds a well-formed
/// `"data"` chunk — its declared payload size fits in the buffer and is
/// even — the decoded sample sequence has exactly half as many entries as
/// the payload has bytes.
pub proof fn lemma_decoded_sample_count(d: Seq<u8>)
    requires
        spec_riff_check(d),
        spec_find_data(d) matches Some(p) && p + 8 + spec_chunk_size(d, p) <= d.len()
            && spec_chunk_size(d, p) % 2 == 0,
    ensures
        spec_decoded_samples(d).len() == spec_chunk_size(d, spec_find_data(d)->0) / 2,
{
    lemma_find_chunk_some(d, 12, 0x64, 0x61, 0x74, 0x61, false);
}

} // verus!
