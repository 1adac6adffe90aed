use std::time::Duration;
use voice_toolkit::buffer::AudioBuffer;
use voice_toolkit::format::AudioConfig;

fn millis(d: Duration) -> u64 {
    d.as_millis() as u64
}

#[test]
fn test_audio_buffer() {
    let config = AudioConfig::whisper_optimized();
    let mut buffer: AudioBuffer<f32> = AudioBuffer::new(config.clone(), millis(Duration::from_secs(1)));

    let samples = vec![0.1, 0.2, 0.3, 0.4, 0.5];
    buffer.push_samples(&samples);

    assert_eq!(buffer.len(), 5);
    assert!(Duration::from_nanos(buffer.duration()).as_secs_f64() > 0.0);

    let retrieved = buffer.get_all_samples();
    assert_eq!(retrieved, samples);
}

#[test]
fn buffer_duration_is_len_over_rate() {
    let mut buffer: AudioBuffer<i16> = AudioBuffer::new(AudioConfig::whisper_optimized(), 5000);
    assert_eq!(buffer.duration(), 0);
    buffer.push_samples(&[7i16; 5]);
    // Five samples at 16 kHz are 312.5 microseconds.
    assert_eq!(buffer.duration(), 312_500);
    buffer.push_samples(&vec![7i16; 7995]);
    assert_eq!(buffer.duration(), 500_000_000);
    assert_eq!(Duration::from_nanos(buffer.duration()), Duration::from_millis(500));
    buffer.push_samples(&vec![7i16; 15]);
    // 8015 samples at 16 kHz are 500.9375 ms.
    assert_eq!(buffer.duration(), 500_937_500);

    let mut odd: AudioBuffer<i16> = AudioBuffer::new(AudioConfig::new(44100, 1, 16), 5000);
    odd.push_samples(&[1i16]);
    // One sample at 44.1 kHz is 22675.73... nanoseconds, rounded down.
    assert_eq!(odd.duration(), 22_675);
    let mut still: AudioBuffer<i16> = AudioBuffer::new(AudioConfig::new(0, 1, 16), 5000);
    still.push_samples(&[1i16]);
    assert_eq!(still.duration(), 0);
}

#[test]
fn buffer_eviction_keeps_last_five_seconds() {
    let mut buffer: AudioBuffer<f32> = AudioBuffer::new(AudioConfig::new(16000, 1, 16), 5000);
    let pushed: Vec<f32> = (0..96000).map(|i| i as f32).collect();
    buffer.push_samples(&pushed);
    assert_eq!(buffer.len(), 80000);
    assert_eq!(Duration::from_nanos(buffer.duration()), Duration::from_secs(5));
    let kept = buffer.get_all_samples();
    assert_eq!(kept.len(), 80000);
    assert_eq!(kept[0], 16000.0);
    assert_eq!(kept[79999], 95999.0);
    assert_eq!(kept, pushed[16000..].to_vec());
}

#[test]
fn buffer_content_does_not_depend_on_chunking() {
    let stream: Vec<i16> = (0..1000).map(|i| (i % 321) as i16).collect();
    for chunk in [1usize, 7, 64, 333, 1000] {
        let mut buffer: AudioBuffer<i16> = AudioBuffer::new(AudioConfig::new(100, 1, 16), 2500);
        let mut seen = 0usize;
        for piece in stream.chunks(chunk) {
            buffer.push_samples(piece);
            seen += piece.len();
            assert!(buffer.len() <= 250);
            let from = seen.saturating_sub(250);
            assert_eq!(buffer.get_all_samples(), stream[from..seen].to_vec());
        }
    }
}

#[test]
fn buffer_of_no_capacity_stays_empty() {
    let mut buffer: AudioBuffer<i16> = AudioBuffer::new(AudioConfig::new(16000, 1, 16), 0);
    buffer.push_samples(&[1, 2, 3]);
    assert!(buffer.is_empty());
    assert_eq!(buffer.get_all_samples(), Vec::<i16>::new());
}

#[test]
fn buffer_get_samples_takes_the_most_recent() {
    let mut buffer: AudioBuffer<i16> = AudioBuffer::new(AudioConfig::new(1000, 1, 16), 10_000);
    let stream: Vec<i16> = (0..50).collect();
    buffer.push_samples(&stream);
    assert_eq!(buffer.get_samples(10), (40..50).collect::<Vec<i16>>());
    assert_eq!(buffer.get_samples(0), Vec::<i16>::new());
    assert_eq!(buffer.get_samples(1_000_000), stream);
    buffer.clear();
    assert!(buffer.is_empty());
    assert_eq!(buffer.len(), 0);
}
