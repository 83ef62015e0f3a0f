use wav_waveform::audio_data::AudioData;
use wav_waveform::audio_presentation::{normalize_sample, RatedAudioData, StereoWaveform};
use wav_waveform::WavError;

/// The floating-point display value of an integer amplitude point.
fn display_value(point: u16) -> f32 {
    point as f32 / 65535.0
}

#[test]
fn create_audio_presentation_from_audiodata_stereo() {
    let audio_data = AudioData {
        samples: vec![0, 0, 32767, -32768, -32768, 32767, 16384, -16384],
        channels: 2,
        sample_rate: 10,
    };
    let rated_audio_data = RatedAudioData { audio_data, sample_rate: 5 };
    let result = StereoWaveform::try_from(&rated_audio_data);
    assert!(result.is_ok());
    let presentation = result.unwrap();
    assert_eq!(presentation.left_channel_points.len(), 2);
    assert_eq!(presentation.right_channel_points.len(), 2);
    assert!((display_value(presentation.left_channel_points[0]) - 0.5).abs() < 0.001);
    assert!((display_value(presentation.right_channel_points[0]) - 0.5).abs() < 0.001);
}

#[test]
fn create_audio_presentation_from_audiodata_mono() {
    let audio_data = AudioData {
        samples: vec![0, 0, 32767, -32768, -32768, 32767, 16384, -16384],
        channels: 1,
        sample_rate: 10,
    };
    let rated_audio_data = RatedAudioData { audio_data, sample_rate: 5 };
    let result = StereoWaveform::try_from(&rated_audio_data);
    assert!(result.is_ok());
    let presentation = result.unwrap();
    assert_eq!(presentation.left_channel_points.len(), 4);
    assert_eq!(presentation.right_channel_points.len(), 4);
    assert!((display_value(presentation.left_channel_points[0]) - 0.5).abs() < 0.001);
    assert!((display_value(presentation.right_channel_points[0]) - 0.5).abs() < 0.001);
}

#[test]
fn create_audio_presentation_from_audiodata_fail_too_many_chanels() {
    let audio_data = AudioData {
        samples: vec![0, 0, 32767, -32768, -32768, 32767, 16384, -16384],
        channels: 3,
        sample_rate: 10,
    };
    let rated_audio_data = RatedAudioData { audio_data, sample_rate: 5 };
    let result = StereoWaveform::try_from(&rated_audio_data);
    assert!(result.is_err());
    assert_eq!(result.unwrap_err(), WavError::UnsupportedChannelLayout);
}

#[test]
fn mono_output_channels_are_identical() {
    let audio_data = AudioData {
        samples: vec![5, -7, 900, -900, 32767, -32768, 0, 12345],
        channels: 1,
        sample_rate: 8,
    };
    let rated = RatedAudioData { audio_data, sample_rate: 4 };
    let waveform = StereoWaveform::try_from(&rated).unwrap();
    assert_eq!(waveform.left_channel_points, waveform.right_channel_points);
    assert_eq!(waveform.left_channel_points.len(), 4);
}

#[test]
fn point_count_is_a_ceiling() {
    // 5 frames stepped by an interval of 2 visit frames 0, 2 and 4.
    let audio_data = AudioData {
        samples: vec![100, 200, 300, 400, 500],
        channels: 1,
        sample_rate: 10,
    };
    let rated = RatedAudioData { audio_data, sample_rate: 5 };
    let waveform = StereoWaveform::try_from(&rated).unwrap();
    assert_eq!(waveform.left_channel_points.len(), 3);
    assert_eq!(waveform.left_channel_points[0], 100 + 32768);
    assert_eq!(waveform.left_channel_points[1], 300 + 32768);
    assert_eq!(waveform.left_channel_points[2], 500 + 32768);
}

#[test]
fn normalization_fixed_points() {
    assert_eq!(normalize_sample(-32768), 0);
    assert_eq!(normalize_sample(0), 32768);
    assert_eq!(normalize_sample(32767), 65535);
    assert_eq!(normalize_sample(1), 32769);
    assert_eq!(display_value(normalize_sample(-32768)), 0.0);
    assert!((display_value(normalize_sample(0)) - 0.500038).abs() < 0.001);
    assert!((display_value(normalize_sample(32767)) - 0.999985).abs() < 0.001);
    assert!((display_value(normalize_sample(1)) - 0.500053).abs() < 0.001);
}

#[test]
fn unsupported_channel_layouts_always_rejected() {
    for channels in [0u16, 3, 4, 7, 65535] {
        let audio_data = AudioData {
            samples: vec![1, 2, 3, 4],
            channels,
            sample_rate: 44100,
        };
        let rated = RatedAudioData { audio_data, sample_rate: 5 };
        let result = StereoWaveform::try_from(&rated);
        assert_eq!(result.unwrap_err(), WavError::UnsupportedChannelLayout);
    }
}

#[test]
fn zero_interval_is_rejected() {
    // A display rate of zero would divide by zero.
    let audio_data = AudioData { samples: vec![1, 2], channels: 1, sample_rate: 10 };
    let rated = RatedAudioData { audio_data, sample_rate: 0 };
    assert_eq!(
        StereoWaveform::try_from(&rated).unwrap_err(),
        WavError::UnsupportedChannelLayout
    );
    // A display rate above the source rate would make the interval zero.
    let audio_data = AudioData { samples: vec![1, 2], channels: 1, sample_rate: 10 };
    let rated = RatedAudioData { audio_data, sample_rate: 20 };
    assert_eq!(
        StereoWaveform::try_from(&rated).unwrap_err(),
        WavError::UnsupportedChannelLayout
    );
}

#[test]
fn rated_audio_data_keeps_the_audio() {
    let audio_data = AudioData { samples: vec![9, -9], channels: 2, sample_rate: 48000 };
    let rated = RatedAudioData::new(&audio_data, 5);
    assert_eq!(rated.audio_data.samples, audio_data.samples);
    assert_eq!(rated.audio_data.channels, 2);
    assert_eq!(rated.audio_data.sample_rate, 48000);
    assert_eq!(rated.sample_rate, 5);
}

#[test]
fn empty_audio_reduces_to_no_points() {
    let audio_data = AudioData { samples: Vec::new(), channels: 2, sample_rate: 44100 };
    let rated = RatedAudioData { audio_data, sample_rate: 5 };
    let waveform = StereoWaveform::try_from(&rated).unwrap();
    assert!(waveform.left_channel_points.is_empty());
    assert!(waveform.right_channel_points.is_empty());
}
