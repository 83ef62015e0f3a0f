use wav_waveform::wav_binary::{has_wav_extension, WavBinary};

#[test]
fn check_wavbinary_is_valid() {
    let mut data: Vec<u8> = Vec::new();
    data.extend_from_slice(b"RIFF");
    data.extend_from_slice(&[0, 0, 0, 0]);
    data.extend_from_slice(b"WAVE");
    let my_struct = WavBinary { data };
    assert_eq!(my_struct.check(), true);
}

#[test]
fn check_wavbinary_is_invalid_riff() {
    let mut data: Vec<u8> = Vec::new();
    data.extend_from_slice(b"XRdz");
    data.extend_from_slice(&[0, 0, 0, 0]);
    data.extend_from_slice(b"WAVE");
    let my_struct = WavBinary { data };
    assert_eq!(my_struct.check(), false);
}

#[test]
fn check_wavbinary_is_invalid_wave() {
    let mut data: Vec<u8> = Vec::new();
    data.extend_from_slice(b"RIFF");
    data.extend_from_slice(&[0, 0, 0, 0]);
    data.extend_from_slice(b"abcd");
    let my_struct = WavBinary { data };
    assert_eq!(my_struct.check(), false);
}

#[test]
fn check_wavbinary_is_invalid_size() {
    let mut data: Vec<u8> = Vec::new();
    data.extend_from_slice(&[1, 2, 3, 4, 5, 6, 7]);
    let my_struct = WavBinary { data };
    assert_eq!(my_struct.check(), false);
}

#[test]
fn check_wavbinary_is_invalid_empty_data() {
    let my_struct = WavBinary { data: Vec::new() };
    assert_eq!(my_struct.check(), false);
}

#[test]
fn wav_extension_accepts_lowercase() {
    assert!(has_wav_extension(b"a.wav"));
    assert!(has_wav_extension(b"some/dir/tune.wav"));
}

#[test]
fn wav_extension_accepts_uppercase() {
    assert!(has_wav_extension(b"a.WAV"));
    assert!(has_wav_extension(b"a.WaV"));
}

#[test]
fn wav_extension_rejects_other_extensions() {
    assert!(!has_wav_extension(b"a.dat"));
    assert!(!has_wav_extension(b"a.wave"));
    assert!(!has_wav_extension(b"wav"));
}

#[test]
fn wav_extension_needs_a_stem() {
    assert!(!has_wav_extension(b".wav"));
    assert!(!has_wav_extension(b"dir/.wav"));
    assert!(has_wav_extension(b"dir/a.wav"));
}
