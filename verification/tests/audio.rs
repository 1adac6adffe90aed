use voice_toolkit::audio::{
    calculate_peak, detect_audio_format, detect_silence, int_sample_scale, kept_bounds, trim_silence,
    validate_audio_file, validation_of, wav_sample_format, AudioData, WavSampleFormat,
};
use voice_toolkit::error::SttError;
use voice_toolkit::format::{AudioConfig, AudioFormat};
use voice_toolkit::vad::calculate_rms;

fn pcm(x: f32) -> i16 {
    (x * 32767.0).round() as i16
}

#[test]
fn test_detect_audio_format_unknown() {
    assert!(detect_audio_format("/tmp/noext").is_none());
    assert_eq!(detect_audio_format("a.wav"), Some(AudioFormat::Wav));
}

#[test]
fn test_validate_audio_file_not_found() {
    let res = validate_audio_file("/tmp/__definitely_not_exist__.wav");
    assert!(res.is_err());
}

#[test]
fn test_rms_and_peak() {
    let samples = vec![pcm(0.0), pcm(0.5), pcm(-0.5), pcm(1.0), pcm(-1.0)];
    let rms = calculate_rms(&samples);
    let peak = calculate_peak(&samples);
    assert!(rms > 0);
    assert_eq!(peak, pcm(1.0) as u16);
}

#[test]
fn format_is_told_by_extension_in_any_case() {
    assert_eq!(detect_audio_format("/music/Song.MP3"), Some(AudioFormat::Mp3));
    assert_eq!(detect_audio_format("take.Flac"), Some(AudioFormat::Flac));
    assert_eq!(detect_audio_format("dir.wav/voice.m4a"), Some(AudioFormat::M4a));
    assert_eq!(detect_audio_format("x.ogg"), Some(AudioFormat::Ogg));
    assert_eq!(detect_audio_format("x.txt"), None);
    assert_eq!(detect_audio_format(".wav"), None);
}

#[test]
fn validation_tells_missing_from_no_file() {
    match validation_of("/a/b.wav", false, false) {
        Err(SttError::FileNotFound(path)) => assert_eq!(path, "/a/b.wav"),
        other => panic!("{:?}", other),
    }
    match validation_of("/a", true, false) {
        Err(SttError::AudioFileError(message)) => assert_eq!(message, "路径不是文件: /a"),
        other => panic!("{:?}", other),
    }
    assert!(validation_of("/a/b.wav", true, true).is_ok());
    match validate_audio_file("/") {
        Err(SttError::AudioFileError(message)) => assert_eq!(message, "路径不是文件: /"),
        other => panic!("{:?}", other),
    }
    match validate_audio_file("/tmp/__definitely_not_exist__.wav") {
        Err(SttError::FileNotFound(path)) => assert_eq!(path, "/tmp/__definitely_not_exist__.wav"),
        other => panic!("{:?}", other),
    }
}

#[test]
fn wav_depths() {
    assert_eq!(int_sample_scale(16).unwrap(), 32767);
    assert_eq!(int_sample_scale(24).unwrap(), 8388607);
    assert_eq!(int_sample_scale(32).unwrap(), 2147483647);
    match int_sample_scale(12) {
        Err(SttError::UnsupportedFormat(message)) => assert_eq!(message, "不支持的位深度: 12"),
        other => panic!("{:?}", other),
    }
    assert_eq!(wav_sample_format(32), WavSampleFormat::Float);
    assert_eq!(wav_sample_format(16), WavSampleFormat::Int);
    assert_eq!(wav_sample_format(24), WavSampleFormat::Int);
}

#[test]
fn peak_is_the_largest_amplitude() {
    assert_eq!(calculate_peak(&[]), 0);
    assert_eq!(calculate_peak(&[0, 0]), 0);
    assert_eq!(calculate_peak(&[5, -9, 3]), 9);
    assert_eq!(calculate_peak(&[i16::MIN, i16::MAX]), 32768);
}

#[test]
fn frames_and_duration() {
    let audio = AudioData::new(vec![0i16; 32001], AudioConfig::new(16000, 2, 16));
    assert_eq!(audio.frame_count(), 16000);
    assert_eq!(audio.duration(), 1_000_000_000);
    assert!(!audio.is_whisper_compatible());
    let mono = AudioData::new(vec![0i16; 24], AudioConfig::new(16000, 1, 16));
    assert_eq!(mono.frame_count(), 24);
    assert_eq!(mono.duration(), 1_500_000);
    assert!(mono.is_whisper_compatible());
    assert_eq!(AudioData::new(vec![0i16; 24], AudioConfig::new(0, 1, 16)).duration(), 0);
}

#[test]
fn mono_is_the_mean_of_each_frame() {
    let stereo = AudioData::new(vec![10, 20, -10, -21, 7, 8, 99], AudioConfig::new(8000, 2, 16));
    let mono = stereo.to_mono();
    // The means are 15, -15.5 and 7.5, rounded towards zero; the sample
    // after the last whole frame is dropped.
    assert_eq!(mono.samples, vec![15, -15, 7]);
    assert_eq!(mono.config, AudioConfig::new(8000, 1, 16));
    assert_eq!(stereo.prepare_samples(), vec![15, -15, 7]);

    let already = AudioData::new(vec![1, 2, 3], AudioConfig::new(8000, 1, 16));
    assert_eq!(already.to_mono().samples, vec![1, 2, 3]);
    assert_eq!(already.prepare_samples(), vec![1, 2, 3]);

    let loud = AudioData::new(vec![i16::MAX, i16::MAX, i16::MIN, i16::MIN], AudioConfig::new(8000, 2, 16));
    assert_eq!(loud.to_mono().samples, vec![i16::MAX, i16::MIN]);
}

#[test]
fn normalize_scales_to_full_scale() {
    let mut audio = AudioData::new(vec![100, -200, 50, 0], AudioConfig::new(8000, 1, 16));
    audio.normalize();
    // 100 * 32767 / 200 = 16383.5 and 50 * 32767 / 200 = 8191.75.
    assert_eq!(audio.samples, vec![16383, -32767, 8191, 0]);

    let mut silent = AudioData::new(vec![0, 0], AudioConfig::new(8000, 1, 16));
    silent.normalize();
    assert_eq!(silent.samples, vec![0, 0]);

    let mut full = AudioData::new(vec![32767, -5], AudioConfig::new(8000, 1, 16));
    full.normalize();
    assert_eq!(full.samples, vec![32767, -5]);

    let mut over = AudioData::new(vec![i16::MIN, 16384], AudioConfig::new(8000, 1, 16));
    over.normalize();
    assert_eq!(over.samples, vec![-32767, 16383]);
}

#[test]
fn silence_must_last() {
    // At 1000 samples per second 3 ms are three samples.
    let samples = [0i16, 0, 0, 50, 0, 0, 50, 50, 1, -1, 2, 0];
    assert_eq!(detect_silence(&samples, 10, 3, 1000), vec![(0, 3), (8, 12)]);
    assert_eq!(detect_silence(&samples, 10, 2, 1000), vec![(0, 3), (4, 6), (8, 12)]);
    assert_eq!(detect_silence(&samples, 10, 5, 1000), vec![]);
    // The threshold is exclusive: an amplitude of ten is no silence.
    assert_eq!(detect_silence(&[10, -10, 9], 10, 0, 1000), vec![(2, 3)]);
    assert_eq!(detect_silence(&[], 10, 0, 1000), vec![]);
}

#[test]
fn trimming_cuts_both_ends() {
    let config = AudioConfig::new(1000, 1, 16);
    let audio = AudioData::new(vec![0, 0, 0, 50, 0, 60, 0, 0, 0, 0], config);
    let trimmed = trim_silence(&audio, 10, 3);
    assert_eq!(trimmed.samples, vec![50, 0, 60]);
    assert_eq!(trimmed.config, config);

    let loud = AudioData::new(vec![50, 60, 70], config);
    assert_eq!(trim_silence(&loud, 10, 3).samples, vec![50, 60, 70]);

    let silent = AudioData::new(vec![0, 0, 0, 0], config);
    assert_eq!(trim_silence(&silent, 10, 3).samples, vec![0]);

    let middle = AudioData::new(vec![50, 0, 0, 0, 0, 60], config);
    assert_eq!(trim_silence(&middle, 10, 3).samples, vec![50, 0, 0, 0, 0, 60]);
}

#[test]
fn kept_range_between_the_silences() {
    assert_eq!(kept_bounds(&vec![], 10), (0, 10));
    assert_eq!(kept_bounds(&vec![(0, 3), (6, 10)], 10), (3, 6));
    assert_eq!(kept_bounds(&vec![(1, 3), (6, 9)], 10), (0, 10));
    assert_eq!(kept_bounds(&vec![(0, 3)], 10), (3, 10));
    assert_eq!(kept_bounds(&vec![(4, 10)], 10), (0, 4));
    // Silence throughout: nothing is left.
    assert_eq!(kept_bounds(&vec![(0, 10)], 10), (10, 0));
}
