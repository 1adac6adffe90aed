use voice_toolkit::format::{AudioConfig, AudioFormat};

#[test]
fn extensions_are_recognised() {
    assert_eq!(AudioFormat::from_extension("wav"), Some(AudioFormat::Wav));
    assert_eq!(AudioFormat::from_extension("WAV"), Some(AudioFormat::Wav));
    assert_eq!(AudioFormat::from_extension("Mp3"), Some(AudioFormat::Mp3));
    assert_eq!(AudioFormat::from_extension("fLaC"), Some(AudioFormat::Flac));
    assert_eq!(AudioFormat::from_extension("m4a"), Some(AudioFormat::M4a));
    assert_eq!(AudioFormat::from_extension("OGG"), Some(AudioFormat::Ogg));
    assert_eq!(AudioFormat::from_extension("aac"), None);
    assert_eq!(AudioFormat::from_extension(""), None);
    assert_eq!(AudioFormat::from_extension(".wav"), None);
    assert_eq!(AudioFormat::from_lowercase_extension("WAV"), None);
    assert_eq!(AudioFormat::from_lowercase_extension("ogg"), Some(AudioFormat::Ogg));
}

#[test]
fn every_format_is_recognised_from_its_extension() {
    for format in [
        AudioFormat::Wav,
        AudioFormat::Mp3,
        AudioFormat::Flac,
        AudioFormat::M4a,
        AudioFormat::Ogg,
    ] {
        assert_eq!(AudioFormat::from_extension(format.extension()), Some(format));
        assert_eq!(format.is_whisper_native(), format == AudioFormat::Wav);
    }
    assert_eq!(AudioFormat::Flac.extension(), "flac");
}

#[test]
fn audio_config_values() {
    let config = AudioConfig::new(44100, 2, 16);
    assert_eq!(config.sample_rate, 44100);
    assert_eq!(config.channels, 2);
    assert_eq!(config.bit_depth, 16);
    assert!(!config.is_whisper_compatible());
    let optimized = AudioConfig::whisper_optimized();
    assert_eq!(optimized, AudioConfig::new(16000, 1, 16));
    assert_eq!(AudioConfig::default(), optimized);
    assert!(optimized.is_whisper_compatible());
    assert!(AudioConfig::new(16000, 1, 24).is_whisper_compatible());
    assert!(!AudioConfig::new(16000, 2, 16).is_whisper_compatible());
    assert!(!AudioConfig::new(8000, 1, 16).is_whisper_compatible());
}
