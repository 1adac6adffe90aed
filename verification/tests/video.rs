use voice_toolkit::error::VideoError;
use voice_toolkit::video::{audio_filter, AudioExtractionConfig, VideoProcessor};

#[test]
fn test_audio_extraction_config_default() {
    let config = AudioExtractionConfig::default();
    assert_eq!(config.format, "wav");
    assert_eq!(config.sample_rate, Some(16000));
    assert_eq!(config.channels, Some(1));
    assert!(config.bitrate.is_none());
}

#[test]
fn test_video_processor_creation() {
    let processor = VideoProcessor::new();
    assert!(processor.ffmpeg_path().is_none());

    let processor_with_path = VideoProcessor::new().with_ffmpeg_path("/usr/local/bin/ffmpeg");
    assert!(processor_with_path.ffmpeg_path().is_some());
    assert_eq!(processor_with_path.ffmpeg_path().unwrap(), "/usr/local/bin/ffmpeg");
    assert!(VideoProcessor::default().ffmpeg_path().is_none());
}

#[test]
fn test_extract_audio_file_not_found() {
    let processor = VideoProcessor::new();
    let result = processor.plan_extraction("nonexistent.mp4", false, None);
    assert!(matches!(result, Err(VideoError::FileNotFound(_))));
    match processor.check_input("nonexistent.mp4", false) {
        Err(VideoError::FileNotFound(path)) => assert_eq!(path, "nonexistent.mp4"),
        other => panic!("{:?}", other),
    }
    assert!(processor.check_input("there.mp4", true).is_ok());
}

#[test]
fn filter_names_what_is_asked_for() {
    let mut config = AudioExtractionConfig::default();
    assert_eq!(audio_filter(&config), Some("aresample=16000,pan=1c".to_string()));
    config.channels = None;
    config.sample_rate = Some(44100);
    assert_eq!(audio_filter(&config), Some("aresample=44100".to_string()));
    config.channels = Some(2);
    config.sample_rate = None;
    assert_eq!(audio_filter(&config), Some("pan=2c".to_string()));
    config.channels = None;
    assert_eq!(audio_filter(&config), None);
    config.sample_rate = Some(0);
    config.channels = Some(u32::MAX);
    assert_eq!(audio_filter(&config), Some("aresample=0,pan=4294967295c".to_string()));

    let processor = VideoProcessor::new();
    assert_eq!(
        processor.plan_extraction("in.mp4", true, None).unwrap(),
        Some("aresample=16000,pan=1c".to_string())
    );
    assert_eq!(processor.plan_extraction("in.mp4", true, Some(config)).unwrap(),
        Some("aresample=0,pan=4294967295c".to_string()));
}
