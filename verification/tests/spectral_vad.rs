use sound_direction::spectral_vad::{freq_to_bin, Band, SpeechBands};

#[test]
fn test_freq_to_bin() {
    assert_eq!(freq_to_bin(1000, 512, 16000), 32);
    assert_eq!(freq_to_bin(300, 512, 16000), 9);
    assert_eq!(freq_to_bin(3400, 512, 16000), 108);
}

#[test]
fn freq_to_bin_rounds_down() {
    assert_eq!(freq_to_bin(200, 512, 16000), 6);
    assert_eq!(freq_to_bin(3000, 512, 16000), 96);
    assert_eq!(freq_to_bin(0, 512, 16000), 0);
    assert_eq!(freq_to_bin(8000, 512, 16000), 256);
}

#[test]
fn freq_to_bin_truncates_size_to_32_bits() {
    let size: usize = (1usize << 32) + 512;
    assert_eq!(freq_to_bin(1000, size, 16000), 32);
}

#[test]
fn speech_bands_of_default_settings() {
    let bands = SpeechBands::new(300, 300, 3400, 512, 16000);
    assert_eq!(bands.low_bin, 9);
    assert_eq!(bands.speech_start, 9);
    assert_eq!(bands.speech_end, 108);
    assert_eq!(bands.band_of(0), Band::Low);
    assert_eq!(bands.band_of(8), Band::Low);
    assert_eq!(bands.band_of(9), Band::Speech);
    assert_eq!(bands.band_of(108), Band::Speech);
    assert_eq!(bands.band_of(109), Band::Other);
    assert_eq!(bands.band_of(255), Band::Other);
}

#[test]
fn speech_bands_with_gap_between_low_and_speech() {
    let bands = SpeechBands::new(200, 300, 3000, 512, 16000);
    assert_eq!(bands, SpeechBands { low_bin: 6, speech_start: 9, speech_end: 96 });
    assert_eq!(bands.band_of(5), Band::Low);
    assert_eq!(bands.band_of(6), Band::Other);
    assert_eq!(bands.band_of(8), Band::Other);
    assert_eq!(bands.band_of(9), Band::Speech);
    assert_eq!(bands.band_of(97), Band::Other);
}

#[test]
fn higher_frequency_never_lower_bin() {
    let mut previous = 0;
    for f in 0..9000u32 {
        let bin = freq_to_bin(f, 512, 16000);
        assert!(bin >= previous);
        previous = bin;
    }
}
