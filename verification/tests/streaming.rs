use std::time::Duration;
use voice_toolkit::buffer::AudioBuffer;
use voice_toolkit::error::SttError;
use voice_toolkit::format::AudioConfig;
use voice_toolkit::streaming::{
    IngestAction, IngestBatch, Polled, RecognitionLoop, StreamingConfig, StreamingEvent,
    StreamingSession, Verdict, MAX_BATCH_SIZE,
};
use voice_toolkit::transcript::{TranscriptionResult, TranscriptionSegment};
use voice_toolkit::vad::SimpleVad;

fn millis(d: Duration) -> u64 {
    d.as_millis() as u64
}

/// A threshold of the given fraction of full scale.
fn level(x: f32) -> u16 {
    (x * 32768.0).round() as u16
}

fn result(text: &str) -> TranscriptionResult {
    TranscriptionResult {
        text: text.to_string(),
        language: Some("en".to_string()),
        segments: vec![TranscriptionSegment {
            start_time: 0,
            end_time: 900,
            text: text.to_string(),
            confidence: 800_000,
        }],
        processing_time: 120,
        audio_duration: 900,
    }
}

fn text_of(event: Option<StreamingEvent>) -> Option<String> {
    match event {
        Some(StreamingEvent::Transcription(result)) => {
            assert!(result.segments.is_empty());
            assert_eq!(result.language.as_deref(), Some("en"));
            assert_eq!(result.processing_time, 120);
            assert_eq!(result.audio_duration, 900);
            Some(result.text)
        }
        Some(other) => panic!("{:?}", other),
        None => None,
    }
}

#[test]
fn test_streaming_config() {
    let config = StreamingConfig::default();
    assert_eq!(config.buffer_duration, millis(Duration::from_secs(5)));
    assert_eq!(config.transcription_interval, millis(Duration::from_millis(500)));
    assert!(config.enable_vad);
}

#[test]
fn test_streaming_config_customization() {
    let config = StreamingConfig {
        enable_vad: false,
        local_agreement_n: 1,
        vad_threshold: level(0.001),
        ..Default::default()
    };

    assert!(!config.enable_vad);
    assert_eq!(config.local_agreement_n, 1);
    assert_eq!(config.vad_threshold, level(0.001));
}

#[test]
fn streaming_config_defaults() {
    let config = StreamingConfig::default();
    assert_eq!(config.min_audio_length, 500);
    assert_eq!(config.max_audio_length, 30_000);
    assert_eq!(config.vad_threshold, level(0.005));
    assert_eq!(config.vad_threshold, 164);
    assert_eq!(config.silence_timeout, 2000);
    assert_eq!(config.local_agreement_n, 3);
    assert!(!config.reset_on_silence);
}

#[test]
fn history_carries_across_silence_unless_reset_is_asked_for() {
    for reset in [false, true] {
        let config = StreamingConfig {
            local_agreement_n: 2,
            reset_on_silence: reset,
            ..StreamingConfig::default()
        };
        let vad = SimpleVad::new_with_sample_rate(config.vad_threshold, 16000).unwrap();
        let mut state = RecognitionLoop::new(config, Some(vad), 0);
        assert_eq!(state.on_snapshot(500, &vec![900i16; 640]), Verdict::Transcribe { speech_started: true });
        assert_eq!(text_of(state.on_transcribed(500, Ok(result("good morning")))), None);
        assert_eq!(
            text_of(state.on_transcribed(1000, Ok(result("good morning")))),
            Some("good morning".to_string())
        );
        assert_eq!(state.on_snapshot(3000, &vec![0i16; 640]), Verdict::EndOfSpeech);
        assert_eq!(state.on_snapshot(3500, &vec![900i16; 640]), Verdict::Transcribe { speech_started: true });
        let heard = text_of(state.on_transcribed(3500, Ok(result("good morning"))));
        if reset {
            // The window starts afresh: one hypothesis confirms nothing, and
            // the second confirms the text once more.
            assert_eq!(heard, None);
            assert_eq!(
                text_of(state.on_transcribed(4000, Ok(result("good morning")))),
                Some("good morning".to_string())
            );
        } else {
            assert_eq!(heard, None);
            assert_eq!(text_of(state.on_transcribed(4000, Ok(result("good morning")))), None);
        }
    }
}

#[test]
fn intake_collects_until_the_channel_is_empty_or_the_batch_is_full() {
    let mut batch: IngestBatch<f32> = IngestBatch::new();
    assert_eq!(batch.on_polled(Polled::Chunk(vec![0.5; 100])), IngestAction::PollAgain);
    assert_eq!(batch.on_polled(Polled::Chunk(vec![])), IngestAction::PollAgain);
    assert_eq!(batch.on_polled(Polled::Chunk(vec![0.25; MAX_BATCH_SIZE - 101])), IngestAction::PollAgain);
    assert_eq!(batch.on_polled(Polled::Chunk(vec![0.75; 1])), IngestAction::Flush);

    let mut buffer: AudioBuffer<f32> = AudioBuffer::new(AudioConfig::whisper_optimized(), 5000);
    batch.flush_into(&mut buffer);
    assert_eq!(buffer.len(), MAX_BATCH_SIZE);
    let held = buffer.get_all_samples();
    assert_eq!(held[0], 0.5);
    assert_eq!(held[100], 0.25);
    assert_eq!(held[MAX_BATCH_SIZE - 1], 0.75);

    assert_eq!(batch.on_polled(Polled::Empty), IngestAction::Flush);
    batch.flush_into(&mut buffer);
    assert_eq!(buffer.len(), MAX_BATCH_SIZE);

    assert_eq!(batch.on_polled(Polled::Chunk(vec![1.0; 10000])), IngestAction::Flush);
    batch.flush_into(&mut buffer);
    assert_eq!(buffer.len(), MAX_BATCH_SIZE + 10000);

    assert_eq!(batch.on_polled(Polled::Chunk(vec![1.0; 5])), IngestAction::PollAgain);
    assert_eq!(batch.on_polled(Polled::Disconnected), IngestAction::Stop);
    batch.flush_into(&mut buffer);
    assert_eq!(buffer.len(), MAX_BATCH_SIZE + 10000);
}

#[test]
fn snapshot_waits_for_the_interval_and_for_enough_audio() {
    let config = StreamingConfig::default();
    let state = RecognitionLoop::new(config, None, 1000);
    let mut buffer: AudioBuffer<i16> = AudioBuffer::new(AudioConfig::whisper_optimized(), 5000);
    buffer.push_samples(&vec![1i16; 8000]);
    assert_eq!(state.snapshot_if_due(1499, &buffer), None);
    assert_eq!(state.snapshot_if_due(900, &buffer), None);
    assert_eq!(state.snapshot_if_due(1500, &buffer), Some(vec![1i16; 8000]));

    let mut short: AudioBuffer<i16> = AudioBuffer::new(AudioConfig::whisper_optimized(), 5000);
    short.push_samples(&vec![1i16; 7999]);
    assert_eq!(state.snapshot_if_due(5000, &short), None);

    let eager = RecognitionLoop::new(
        StreamingConfig { min_audio_length: 0, transcription_interval: 0, ..config },
        None,
        0,
    );
    let empty: AudioBuffer<i16> = AudioBuffer::new(AudioConfig::whisper_optimized(), 5000);
    assert_eq!(eager.snapshot_if_due(0, &empty), None);
    assert_eq!(eager.snapshot_if_due(0, &short), Some(vec![1i16; 7999]));
}

#[test]
fn speech_starts_goes_on_and_ends() {
    let config = StreamingConfig::default();
    let vad = SimpleVad::new_with_sample_rate(config.vad_threshold, 16000).unwrap();
    let mut state = RecognitionLoop::new(config, Some(vad), 0);
    let silence = vec![0i16; 8000];
    let mut speech = vec![0i16; 8000];
    for sample in speech.iter_mut().skip(4000).take(320) {
        *sample = 500;
    }

    // Nothing but silence, and no speech before: no pass.
    let verdict = state.on_snapshot(500, &silence);
    assert_eq!(verdict, Verdict::Skip);
    assert!(verdict.events().is_empty());
    assert!(!verdict.transcribes());
    assert!(!verdict.clears_buffer());
    assert!(!state.speech_detected());

    // One loud window among silence is speech, though the whole span is
    // quiet on average.
    assert!(!vad.detect_speech(&speech));
    let verdict = state.on_snapshot(1000, &speech);
    assert_eq!(verdict, Verdict::Transcribe { speech_started: true });
    assert!(matches!(verdict.events().as_slice(), [StreamingEvent::SpeechStart]));
    assert!(verdict.transcribes());
    assert!(state.speech_detected());

    let verdict = state.on_snapshot(1500, &speech);
    assert_eq!(verdict, Verdict::Transcribe { speech_started: false });
    assert!(verdict.events().is_empty());

    // Silence within the timeout is still given to the recogniser, also
    // when it has lasted exactly as long as the timeout.
    let verdict = state.on_snapshot(3499, &silence);
    assert_eq!(verdict, Verdict::Transcribe { speech_started: false });
    let verdict = state.on_snapshot(3500, &silence);
    assert_eq!(verdict, Verdict::Transcribe { speech_started: false });
    assert!(state.speech_detected());

    // After more than two seconds of silence the speech is over.
    let verdict = state.on_snapshot(3501, &silence);
    assert_eq!(verdict, Verdict::EndOfSpeech);
    assert!(matches!(
        verdict.events().as_slice(),
        [StreamingEvent::SpeechEnd, StreamingEvent::Silence]
    ));
    assert!(verdict.clears_buffer());
    assert!(!verdict.transcribes());
    assert!(!state.speech_detected());

    assert_eq!(state.on_snapshot(4000, &silence), Verdict::Skip);
}

#[test]
fn without_a_detector_every_snapshot_is_transcribed() {
    let config = StreamingConfig { enable_vad: false, ..StreamingConfig::default() };
    let mut state = RecognitionLoop::new(config, None, 0);
    let verdict = state.on_snapshot(500, &vec![0i16; 8000]);
    assert_eq!(verdict, Verdict::Transcribe { speech_started: false });
    assert!(verdict.events().is_empty());
}

#[test]
fn detector_without_windows_judges_the_whole_span() {
    let config = StreamingConfig::default();
    let vad = SimpleVad::new_with_sample_rate(100, 10).unwrap();
    assert_eq!(vad.window_size(), 0);
    assert_eq!(vad.detect_speech_segments(&[500, 500, 500]), vec![(0, 3)]);
    let mut state = RecognitionLoop::new(config, Some(vad), 0);
    assert_eq!(state.on_snapshot(500, &[0, 0, 0]), Verdict::Skip);
    assert_eq!(state.on_snapshot(500, &[500, 500, 500]), Verdict::Transcribe { speech_started: true });
}

#[test]
fn pass_through_hands_on_every_text() {
    for n in [0usize, 1] {
        let config = StreamingConfig { local_agreement_n: n, ..StreamingConfig::default() };
        let mut state = RecognitionLoop::new(config, None, 0);
        for text in ["hello", "hello", "hello world", "hello world", "bye"] {
            assert_eq!(text_of(state.on_transcribed(500, Ok(result(text)))), Some(text.to_string()));
        }
        assert_eq!(
            text_of(state.on_transcribed(500, Ok(result("  padded\n")))),
            Some("padded".to_string())
        );
        assert!(state.on_transcribed(500, Ok(result(""))).is_none());
        assert!(state.on_transcribed(500, Ok(result(" \t\u{3000}\n"))).is_none());
    }
}

#[test]
fn agreement_hands_on_confirmed_text_only() {
    let config = StreamingConfig { local_agreement_n: 2, ..StreamingConfig::default() };
    let mut state = RecognitionLoop::new(config, None, 0);
    assert_eq!(text_of(state.on_transcribed(500, Ok(result("hello")))), None);
    assert_eq!(text_of(state.on_transcribed(1000, Ok(result(" hello there ")))), Some("hello".to_string()));
    assert_eq!(text_of(state.on_transcribed(1500, Ok(result("")))), None);
    assert_eq!(
        text_of(state.on_transcribed(2000, Ok(result("hello there")))),
        Some(" there".to_string())
    );
    assert_eq!(text_of(state.on_transcribed(2500, Ok(result("hello there")))), None);
}

#[test]
fn failure_is_reported_and_the_session_goes_on() {
    let config = StreamingConfig { local_agreement_n: 2, ..StreamingConfig::default() };
    let mut state = RecognitionLoop::new(config, None, 0);
    assert_eq!(text_of(state.on_transcribed(500, Ok(result("one")))), None);
    match state.on_transcribed(1000, Err("model busy".to_string())) {
        Some(StreamingEvent::Error(message)) => assert_eq!(message, "model busy"),
        other => panic!("{:?}", other),
    }
    assert_eq!(text_of(state.on_transcribed(1500, Ok(result("one")))), Some("one".to_string()));
}

#[test]
fn a_pass_puts_off_the_next() {
    let config = StreamingConfig::default();
    let mut state = RecognitionLoop::new(config, None, 0);
    let mut buffer: AudioBuffer<i16> = AudioBuffer::new(AudioConfig::whisper_optimized(), 5000);
    buffer.push_samples(&vec![1i16; 16000]);
    assert!(state.snapshot_if_due(600, &buffer).is_some());
    state.on_transcribed(600, Err("x".to_string()));
    assert!(state.snapshot_if_due(1099, &buffer).is_none());
    assert!(state.snapshot_if_due(1100, &buffer).is_some());
}

#[test]
fn session_is_started_once_and_stopped_once() {
    let mut session =
        StreamingSession::new(StreamingConfig::default(), AudioConfig::whisper_optimized()).unwrap();
    assert!(!session.is_running());
    match session.check_push() {
        Err(SttError::Other(message)) => assert_eq!(message, "转录器未运行"),
        other => panic!("{:?}", other),
    }
    session.stop();
    assert!(!session.is_running());
    assert!(session.start(0).is_ok());
    assert!(session.is_running());
    assert!(session.check_push().is_ok());
    assert!(matches!(session.start(10), Err(SttError::StreamError(_))));
    assert!(session.is_running());
    session.stop();
    assert!(!session.is_running());
    assert!(session.check_push().is_err());
    assert!(matches!(session.start(20), Err(SttError::StreamError(_))));
    assert!(!session.is_running());
}

#[test]
fn detector_follows_the_settings() {
    let mut session =
        StreamingSession::new(StreamingConfig::default(), AudioConfig::whisper_optimized()).unwrap();
    assert!(session.is_vad_enabled());
    session.set_vad_enabled(false);
    assert!(!session.is_vad_enabled());
    session.set_vad_threshold(900).unwrap();
    assert!(!session.is_vad_enabled());
    session.set_vad_enabled(true);
    assert!(session.is_vad_enabled());
    // A threshold that is refused leaves the one that was set.
    match session.set_vad_threshold(32769) {
        Err(SttError::ConfigError(message)) => assert_eq!(message, "VAD阈值必须在0.0-1.0之间"),
        other => panic!("{:?}", other),
    }
    assert!(session.is_vad_enabled());

    // The loop of the session has the detector with the threshold set last.
    let mut state = session.start(0).unwrap();
    assert_eq!(state.on_snapshot(500, &vec![900i16; 640]), Verdict::Skip);
    assert_eq!(state.on_snapshot(500, &vec![901i16; 640]), Verdict::Transcribe { speech_started: true });

    let quiet = StreamingSession::new(
        StreamingConfig { enable_vad: false, ..StreamingConfig::default() },
        AudioConfig::whisper_optimized(),
    )
    .unwrap();
    assert!(!quiet.is_vad_enabled());
}

#[test]
fn session_refuses_settings_at_construction() {
    match StreamingSession::new(StreamingConfig::default(), AudioConfig::new(0, 1, 16)) {
        Err(SttError::ConfigError(message)) => assert_eq!(message, "采样率不能为零"),
        Err(other) => panic!("{:?}", other),
        Ok(_) => panic!("a sample rate of zero is refused"),
    }
    for enable_vad in [true, false] {
        let config = StreamingConfig { vad_threshold: 32769, enable_vad, ..StreamingConfig::default() };
        match StreamingSession::new(config, AudioConfig::whisper_optimized()) {
            Err(SttError::ConfigError(message)) => assert_eq!(message, "VAD阈值必须在0.0-1.0之间"),
            Err(other) => panic!("{:?}", other),
            Ok(_) => panic!("a threshold above full scale is refused"),
        }
    }
    let edge = StreamingConfig { vad_threshold: 32768, ..StreamingConfig::default() };
    assert!(StreamingSession::new(edge, AudioConfig::new(1, 1, 16)).is_ok());
}

#[test]
fn session_buffer_holds_the_buffer_duration() {
    let session =
        StreamingSession::new(StreamingConfig::default(), AudioConfig::whisper_optimized()).unwrap();
    let mut buffer: AudioBuffer<f32> = session.new_buffer();
    buffer.push_samples(&vec![0.0f32; 96000]);
    assert_eq!(buffer.len(), 80000);
    assert_eq!(buffer.buffer_info(), (5_000_000_000, 80000));
}
