use voice_toolkit::error::SttError;
use voice_toolkit::vad::{calculate_rms, SimpleVad, MAX_THRESHOLD};

/// A sample of the given fraction of full scale.
fn pcm(x: f32) -> i16 {
    (x * 32767.0).round() as i16
}

/// A threshold of the given fraction of full scale.
fn level(x: f32) -> u16 {
    (x * 32768.0).round() as u16
}

#[test]
fn vad_test_simple_vad() {
    let vad = SimpleVad::new(level(0.01)).unwrap();

    let silence = vec![pcm(0.0); 1000];
    assert!(!vad.detect_speech(&silence));

    let speech = vec![pcm(0.1); 1000];
    assert!(vad.detect_speech(&speech));
}

#[test]
fn streaming_test_simple_vad() {
    let vad = SimpleVad::new_with_sample_rate(level(0.01), 16000).unwrap();

    let silence = vec![pcm(0.0); 1000];
    assert!(!vad.detect_speech(&silence));

    let speech = vec![pcm(0.1); 1000];
    assert!(vad.detect_speech(&speech));
}

#[test]
fn test_vad_with_custom_sample_rate() {
    let vad = SimpleVad::new_with_sample_rate(level(0.01), 8000).unwrap();

    let silence = vec![pcm(0.0); 500];
    assert!(!vad.detect_speech(&silence));

    let speech = vec![pcm(0.1); 500];
    assert!(vad.detect_speech(&speech));
}

#[test]
fn test_detect_speech_segments() {
    let vad = SimpleVad::new(level(0.05)).unwrap();

    let mut samples = Vec::new();
    samples.extend(vec![pcm(0.0); 1000]);
    samples.extend(vec![pcm(0.1); 1000]);
    samples.extend(vec![pcm(0.0); 1000]);
    samples.extend(vec![pcm(0.1); 1000]);
    samples.extend(vec![pcm(0.0); 1000]);

    let segments = vad.detect_speech_segments(&samples);

    assert_eq!(segments.len(), 2);
}

#[test]
fn test_calculate_rms() {
    let vad = SimpleVad::new(level(0.01)).unwrap();

    let zeros = vec![pcm(0.0); 100];
    assert_eq!(vad.calculate_rms(&zeros), 0);

    let ones = vec![pcm(1.0); 100];
    assert_eq!(vad.calculate_rms(&ones), pcm(1.0) as u16);

    let empty: Vec<i16> = vec![];
    assert_eq!(vad.calculate_rms(&empty), 0);
}

#[test]
fn window_is_twenty_milliseconds() {
    assert_eq!(SimpleVad::new(1).unwrap().window_size(), 320);
    assert_eq!(SimpleVad::new_with_sample_rate(1, 8000).unwrap().window_size(), 160);
    assert_eq!(SimpleVad::new_with_sample_rate(1, 44100).unwrap().window_size(), 882);
    assert_eq!(SimpleVad::new_with_sample_rate(1, 49).unwrap().window_size(), 0);
}

#[test]
fn threshold_is_exclusive() {
    let vad = SimpleVad::new(100).unwrap();
    // A constant signal has its amplitude as root mean square.
    assert!(!vad.detect_speech(&vec![100i16; 64]));
    assert!(!vad.detect_speech(&vec![-100i16; 64]));
    assert!(vad.detect_speech(&vec![101i16; 64]));
    assert!(vad.detect_speech(&vec![-101i16; 64]));
    assert!(!vad.detect_speech(&[]));
}

#[test]
fn root_mean_square_is_exact_between_integers() {
    // Energy 3*3 + 4*4 = 25 over two samples: the mean square is 12.5.
    // With threshold 3 the bound is 9, with threshold 4 it is 16.
    assert!(SimpleVad::new(3).unwrap().detect_speech(&[3, 4]));
    assert!(!SimpleVad::new(4).unwrap().detect_speech(&[3, 4]));
    assert_eq!(calculate_rms(&[3, 4]), 3);
    assert_eq!(calculate_rms(&[3, 4, 0, 0]), 2);
    assert_eq!(calculate_rms(&[i16::MIN; 10]), 32768);
    assert_eq!(calculate_rms(&[i16::MAX, i16::MIN]), 32767);
}

#[test]
fn silence_of_any_length_is_never_speech() {
    for threshold in [0u16, 1, 164, 32767, 32768] {
        let vad = SimpleVad::new(threshold).unwrap();
        for len in [0usize, 1, 319, 320, 321, 5000] {
            let samples = vec![0i16; len];
            assert!(!vad.detect_speech(&samples));
            assert_eq!(vad.detect_speech_segments(&samples), vec![]);
        }
    }
}

#[test]
fn loud_signal_is_speech_in_every_window() {
    let vad = SimpleVad::new(164).unwrap();
    for len in [1usize, 319, 320, 321, 5000] {
        let samples = vec![165i16; len];
        assert!(vad.detect_speech(&samples));
        for window in samples.chunks(vad.window_size()) {
            assert!(vad.detect_speech(window));
        }
        assert_eq!(vad.detect_speech_segments(&samples), vec![(0, len)]);
    }
}

#[test]
fn segments_follow_the_windows() {
    let vad = SimpleVad::new_with_sample_rate(100, 500).unwrap();
    assert_eq!(vad.window_size(), 10);
    let mut samples = vec![0i16; 25];
    samples.extend(vec![1000i16; 10]);
    samples.extend(vec![0i16; 30]);
    samples.extend(vec![-1000i16; 8]);
    // Windows of ten: the burst at 25..35 makes the windows at 20 and 30
    // loud, the one at 65..73 makes the windows at 60 and 70 loud, and the
    // last window holds three samples only.
    assert_eq!(vad.detect_speech_segments(&samples), vec![(20, 40), (60, 73)]);
    assert_eq!(vad.detect_speech_segments(&[]), vec![]);
}

#[test]
fn settings_that_no_detector_can_be_made_for_are_refused() {
    match SimpleVad::new_with_sample_rate(100, 0) {
        Err(SttError::ConfigError(message)) => assert_eq!(message, "采样率不能为零"),
        other => panic!("{:?}", other),
    }
    match SimpleVad::new_with_sample_rate(MAX_THRESHOLD + 1, 0) {
        Err(SttError::ConfigError(message)) => assert_eq!(message, "采样率不能为零"),
        other => panic!("{:?}", other),
    }
    match SimpleVad::new_with_sample_rate(MAX_THRESHOLD + 1, 16000) {
        Err(SttError::ConfigError(message)) => assert_eq!(message, "VAD阈值必须在0.0-1.0之间"),
        other => panic!("{:?}", other),
    }
    match SimpleVad::new(u16::MAX) {
        Err(SttError::ConfigError(message)) => assert_eq!(message, "VAD阈值必须在0.0-1.0之间"),
        other => panic!("{:?}", other),
    }
    assert_eq!(MAX_THRESHOLD, 32768);
    assert!(SimpleVad::new(MAX_THRESHOLD).is_ok());
    assert!(SimpleVad::new(0).is_ok());
    assert!(SimpleVad::new_with_sample_rate(0, 1).is_ok());
    assert!(SimpleVad::new_with_sample_rate(MAX_THRESHOLD, u32::MAX).is_ok());
}

#[test]
fn detector_without_a_window_scans_the_whole_span() {
    for rate in [1u32, 25, 49] {
        let vad = SimpleVad::new_with_sample_rate(100, rate).unwrap();
        assert_eq!(vad.window_size(), 0);
        assert_eq!(vad.detect_speech_segments(&[]), vec![]);
        assert_eq!(vad.detect_speech_segments(&[0, 0, 0]), vec![]);
        assert_eq!(vad.detect_speech_segments(&[100, -100, 100]), vec![]);
        assert_eq!(vad.detect_speech_segments(&[101, -101, 101, 101]), vec![(0, 4)]);
        // One loud sample among silence: the span as a whole is quiet.
        assert_eq!(vad.detect_speech_segments(&[150, 0, 0, 0]), vec![]);
    }
    assert_eq!(SimpleVad::new_with_sample_rate(100, 50).unwrap().window_size(), 1);
    assert_eq!(
        SimpleVad::new_with_sample_rate(100, 50).unwrap().detect_speech_segments(&[150, 0, 0, 0]),
        vec![(0, 1)]
    );
}
