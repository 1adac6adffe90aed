use voice_toolkit::error::{AudioError, Error, SttError, TtsError};

#[test]
fn stt_errors_are_made_of_their_message() {
    assert!(matches!(SttError::file_not_found("/a"), SttError::FileNotFound(m) if m == "/a"));
    assert!(matches!(SttError::unsupported_format("xyz"), SttError::UnsupportedFormat(m) if m == "xyz"));
    assert!(matches!(SttError::model_load_error("m"), SttError::ModelLoadError(m) if m == "m"));
    assert!(matches!(SttError::transcription_error("t"), SttError::TranscriptionError(m) if m == "t"));
    assert!(matches!(SttError::config_error("c"), SttError::ConfigError(m) if m == "c"));
    assert!(matches!(SttError::other("o"), SttError::Other(m) if m == "o"));
}

#[test]
fn stt_messages() {
    assert_eq!(SttError::file_not_found("/a").message(), "文件未找到: /a");
    assert_eq!(SttError::other("o").message(), "其他错误: o");
    assert_eq!(SttError::AudioFileError("x".into()).message(), "音频文件错误: x");
    assert_eq!(SttError::UnsupportedFormat("x".into()).message(), "不支持的音频格式: x");
    assert_eq!(SttError::WhisperError("x".into()).message(), "Whisper模型错误: x");
    assert_eq!(SttError::ModelLoadError("x".into()).message(), "模型加载失败: x");
    assert_eq!(SttError::TranscriptionError("x".into()).message(), "转录失败: x");
    assert_eq!(SttError::AudioProcessingError("x".into()).message(), "音频处理错误: x");
    assert_eq!(SttError::ResamplingError("x".into()).message(), "音频重采样错误: x");
    assert_eq!(SttError::StreamError("x".into()).message(), "流处理错误: x");
    assert_eq!(SttError::ConfigError("x".into()).message(), "配置错误: x");
    let io = std::io::Error::new(std::io::ErrorKind::Other, "disk gone");
    assert_eq!(SttError::IoError(io).message(), "IO错误: disk gone");
}

#[test]
fn audio_messages() {
    assert_eq!(
        AudioError::InvalidSampleRate { rate: 0, min: 1, max: 192000 }.message(),
        "Invalid sample rate: 0, must be between 1-192000"
    );
    assert_eq!(
        AudioError::SampleRateMismatch { expected: 16000, actual: 44100 }.message(),
        "Sample rate mismatch: expected 16000, got 44100"
    );
    assert_eq!(
        AudioError::ChannelMismatch { expected: 1, actual: 2 }.message(),
        "Channel count mismatch: expected 1, got 2"
    );
    assert_eq!(
        AudioError::InvalidChannelCount { channels: 9, min: 1, max: 8 }.message(),
        "Invalid channel count: 9, must be between 1-8"
    );
    assert_eq!(
        AudioError::InvalidBufferSize { size: 0, min: 0 }.message(),
        "Invalid buffer size: 0, must be greater than 0"
    );
    assert_eq!(
        AudioError::FormatNotSupported { format: "mp3".into(), supported: "wav".into() }.message(),
        "Format not supported: mp3, supported formats: wav"
    );
    assert_eq!(AudioError::FileNotFound("/a".into()).message(), "File not found: /a");
    assert_eq!(AudioError::NotAFile("/a".into()).message(), "Path is not a file: /a");
    assert_eq!(AudioError::FfmpegNotAvailable("x".into()).message(), "FFmpeg not available: x");
    assert_eq!(AudioError::FfmpegExecution("x".into()).message(), "FFmpeg execution failed: x");
    assert_eq!(AudioError::FfmpegConfig("x".into()).message(), "FFmpeg configuration error: x");
    assert_eq!(AudioError::DecodeError { reason: "x".into() }.message(), "Decode failed: x");
    assert_eq!(AudioError::EncodeError { reason: "x".into() }.message(), "Encode failed: x");
    assert_eq!(AudioError::CorruptedFile("x".into()).message(), "Audio file corrupted or malformed: x");
    assert_eq!(AudioError::InvalidParameter("x".into()).message(), "Invalid parameter: x");
    assert_eq!(AudioError::PermissionDenied("x".into()).message(), "Permission denied: x");
    assert_eq!(AudioError::InsufficientSpace("x".into()).message(), "Insufficient disk space: x");
    assert_eq!(AudioError::ResampleError("x".into()).message(), "Resampling failed: x");
    assert_eq!(AudioError::ProcessingError("x".into()).message(), "Audio processing failed: x");
    assert_eq!(AudioError::OutOfMemory("x".into()).message(), "Out of memory: x");
    assert_eq!(AudioError::Timeout("x".into()).message(), "Operation timeout: x");
    assert_eq!(AudioError::Other("x".into()).message(), "Unknown error: x");
    let io = std::io::Error::new(std::io::ErrorKind::Other, "disk gone");
    assert_eq!(AudioError::Io(io).message(), "I/O error: disk gone");
}

fn processing(e: AudioError) -> String {
    match SttError::from_audio_error(e) {
        SttError::AudioProcessingError(message) => message,
        other => panic!("{:?}", other),
    }
}

#[test]
fn audio_errors_on_the_way_to_a_transcription() {
    assert_eq!(processing(AudioError::FileNotFound("/a".into())), "音频文件不存在: /a");
    assert_eq!(processing(AudioError::NotAFile("/a".into())), "路径不是音频文件: /a");
    assert_eq!(
        processing(AudioError::FormatNotSupported { format: "mp3".into(), supported: "wav".into() }),
        "音频格式不支持: mp3, 支持的格式: wav"
    );
    assert_eq!(
        processing(AudioError::SampleRateMismatch { expected: 16000, actual: 8000 }),
        "采样率不匹配: 期望 16000, 实际 8000"
    );
    assert_eq!(
        processing(AudioError::ChannelMismatch { expected: 1, actual: 2 }),
        "通道数不匹配: 期望 1, 实际 2"
    );
    assert_eq!(processing(AudioError::FfmpegConfig("c".into())), "FFmpeg 错误: c");
    assert_eq!(processing(AudioError::FfmpegExecution("e".into())), "FFmpeg 错误: e");
    assert_eq!(processing(AudioError::DecodeError { reason: "r".into() }), "音频解码失败: r");
    assert_eq!(
        processing(AudioError::InvalidSampleRate { rate: 0, min: 1, max: 192000 }),
        "无效采样率: 0, 有效范围: 1-192000"
    );
    assert_eq!(processing(AudioError::ResampleError("m".into())), "重采样失败: m");
    assert_eq!(processing(AudioError::Timeout("t".into())), "音频处理失败: Operation timeout: t");
    let io = std::io::Error::new(std::io::ErrorKind::Other, "disk gone");
    assert_eq!(processing(AudioError::Io(io)), "音频处理失败: I/O error: disk gone");
}

#[test]
fn toolkit_error_wraps_the_others() {
    assert!(matches!(Error::other("o"), Error::Other(m) if m == "o"));
    assert!(matches!(Error::from("text".to_string()), Error::Other(m) if m == "text"));
    assert!(matches!(Error::from(SttError::other("s")), Error::Stt(SttError::Other(_))));
    assert!(matches!(Error::from(AudioError::Other("a".into())), Error::Audio(AudioError::Other(_))));
    assert!(matches!(Error::from(TtsError::NotImplemented), Error::Tts(TtsError::NotImplemented)));
}
