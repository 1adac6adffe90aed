//! Verified core of a voice toolkit: a bounded sample buffer, an energy-based
//! voice-activity detector, a consensus aggregator that stabilises partial
//! transcripts, the chunk bookkeeping of a streaming resampler, and the
//! decision logic of the streaming transcription loops, with the settings,
//! paths and errors around them.
//!
//! Samples are 16-bit PCM integers wherever their value is inspected, and an
//! arbitrary element type where they are only stored and moved. Settings and
//! instants are whole milliseconds, the time that samples span is told in
//! nanoseconds, and fractions are parts per million.

pub mod text;
pub mod path;
pub mod error;
pub mod format;
pub mod buffer;
pub mod aggregator;
pub mod vad;
pub mod audio;
pub mod converter;
pub mod video;
pub mod tts;
pub mod resampler;
pub mod transcript;
pub mod whisper;
pub mod streaming;

pub use aggregator::StreamingAggregator;
pub use audio::{
    calculate_peak, detect_audio_format, detect_silence, trim_silence, validate_audio_file,
    AudioData,
};
pub use buffer::AudioBuffer;
pub use converter::AudioConverter;
pub use error::{AudioError, Error, SttError, SttResult, TtsError, VideoError};
pub use format::{AudioConfig, AudioFormat, AudioMeta, CompatibleWav};
pub use resampler::{
    AdvancedResampler, AudioResampler, ResampleQuality, Resampled, StreamingResampler,
};
pub use streaming::{StreamingConfig, StreamingEvent, StreamingSession};
pub use transcript::{TranscriptionResult, TranscriptionSegment};
pub use tts::{IndexTtsEngine, TtsConfig, TtsEngineType};
pub use vad::{calculate_rms, SimpleVad};
pub use video::{AudioExtractionConfig, VideoProcessor};
pub use whisper::WhisperConfig;
