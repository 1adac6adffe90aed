//! The errors of the toolkit, one enum for each part of it.

use vstd::prelude::*;
use vstd::string::*;
use crate::text::{decimal, decimal_string};

verus! {

/// An I/O error of the standard library, carried through as it came.
#[verifier::external_type_specification]
#[verifier::external_body]
pub struct ExIoError(std::io::Error);

/// What can go wrong while audio is probed, converted or resampled.
#[derive(Debug)]
pub enum AudioError {
    Io(std::io::Error),
    FfmpegNotAvailable(String),
    FfmpegExecution(String),
    FfmpegConfig(String),
    FormatNotSupported { format: String, supported: String },
    DecodeError { reason: String },
    EncodeError { reason: String },
    CorruptedFile(String),
    SampleRateMismatch { expected: u32, actual: u32 },
    ChannelMismatch { expected: u16, actual: u16 },
    InvalidSampleRate { rate: u32, min: u32, max: u32 },
    InvalidChannelCount { channels: u16, min: u16, max: u16 },
    InvalidParameter(String),
    InvalidBufferSize { size: usize, min: usize },
    FileNotFound(String),
    NotAFile(String),
    PermissionDenied(String),
    InsufficientSpace(String),
    ResampleError(String),
    ProcessingError(String),
    OutOfMemory(String),
    Timeout(String),
    Other(String),
}

/// Calls `to_string` on an I/O error. What the text is depends on the
/// error, of which nothing is known here, so nothing is said of it.
#[verifier::external_body]
fn io_error_text(error: &std::io::Error) -> String {
    error.to_string()
}

/// A text made of two.
fn two(a: &str, b: &str) -> (r: String)
    ensures
        r@ == a@ + b@,
{
    let mut text = String::from_str(a);
    text.append(b);
    text
}

/// A text made of a label, a number, a second label and a second number.
fn two_numbers(a: &str, x: u64, b: &str, y: u64) -> (r: String)
    ensures
        r@ == a@ + decimal(x as nat) + b@ + decimal(y as nat),
{
    let mut text = String::from_str(a);
    text.append(decimal_string(x).as_str());
    text.append(b);
    text.append(decimal_string(y).as_str());
    text
}

/// A text made of a label, a number, and a range of two numbers.
fn number_and_range(a: &str, x: u64, b: &str, min: u64, max: u64) -> (r: String)
    ensures
        r@ == a@ + decimal(x as nat) + b@ + decimal(min as nat) + "-"@ + decimal(max as nat),
{
    let mut text = two_numbers(a, x, b, min);
    text.append("-");
    text.append(decimal_string(max).as_str());
    text
}

impl AudioError {
    /// The message of an error that is no I/O error.
    pub open spec fn text(self) -> Seq<char> {
        match self {
            AudioError::Io(_) => "I/O error: "@,
            AudioError::FfmpegNotAvailable(m) => "FFmpeg not available: "@ + m@,
            AudioError::FfmpegExecution(m) => "FFmpeg execution failed: "@ + m@,
            AudioError::FfmpegConfig(m) => "FFmpeg configuration error: "@ + m@,
            AudioError::FormatNotSupported { format, supported } => "Format not supported: "@
                + format@ + ", supported formats: "@ + supported@,
            AudioError::DecodeError { reason } => "Decode failed: "@ + reason@,
            AudioError::EncodeError { reason } => "Encode failed: "@ + reason@,
            AudioError::CorruptedFile(m) => "Audio file corrupted or malformed: "@ + m@,
            AudioError::SampleRateMismatch { expected, actual } => "Sample rate mismatch: expected "@
                + decimal(expected as nat) + ", got "@ + decimal(actual as nat),
            AudioError::ChannelMismatch { expected, actual } => "Channel count mismatch: expected "@
                + decimal(expected as nat) + ", got "@ + decimal(actual as nat),
            AudioError::InvalidSampleRate { rate, min, max } => "Invalid sample rate: "@ + decimal(
                rate as nat,
            ) + ", must be between "@ + decimal(min as nat) + "-"@ + decimal(max as nat),
            AudioError::InvalidChannelCount { channels, min, max } => "Invalid channel count: "@
                + decimal(channels as nat) + ", must be between "@ + decimal(min as nat) + "-"@
                + decimal(max as nat),
            AudioError::InvalidParameter(m) => "Invalid parameter: "@ + m@,
            AudioError::InvalidBufferSize { size, min } => "Invalid buffer size: "@ + decimal(
                size as nat,
            ) + ", must be greater than "@ + decimal(min as nat),
            AudioError::FileNotFound(m) => "File not found: "@ + m@,
            AudioError::NotAFile(m) => "Path is not a file: "@ + m@,
            AudioError::PermissionDenied(m) => "Permission denied: "@ + m@,
            AudioError::InsufficientSpace(m) => "Insufficient disk space: "@ + m@,
            AudioError::ResampleError(m) => "Resampling failed: "@ + m@,
            AudioError::ProcessingError(m) => "Audio processing failed: "@ + m@,
            AudioError::OutOfMemory(m) => "Out of memory: "@ + m@,
            AudioError::Timeout(m) => "Operation timeout: "@ + m@,
            AudioError::Other(m) => "Unknown error: "@ + m@,
        }
    }

    /// The message of the error. That of an I/O error begins with
    /// `I/O error: ` and goes on with what the error says of itself.
    pub fn message(&self) -> (r: String)
        ensures
            !(self is Io) ==> r@ == self.text(),
            self is Io ==> self.text().is_prefix_of(r@),
    {
        match self {
            AudioError::Io(e) => {
                let detail = io_error_text(e);
                two("I/O error: ", detail.as_str())
            },
            AudioError::FfmpegNotAvailable(m) => two("FFmpeg not available: ", m.as_str()),
            AudioError::FfmpegExecution(m) => two("FFmpeg execution failed: ", m.as_str()),
            AudioError::FfmpegConfig(m) => two("FFmpeg configuration error: ", m.as_str()),
            AudioError::FormatNotSupported { format, supported } => {
                let mut text = two("Format not supported: ", format.as_str());
                text.append(", supported formats: ");
                text.append(supported.as_str());
                text
            },
            AudioError::DecodeError { reason } => two("Decode failed: ", reason.as_str()),
            AudioError::EncodeError { reason } => two("Encode failed: ", reason.as_str()),
            AudioError::CorruptedFile(m) => two("Audio file corrupted or malformed: ", m.as_str()),
            AudioError::SampleRateMismatch { expected, actual } => two_numbers(
                "Sample rate mismatch: expected ",
                *expected as u64,
                ", got ",
                *actual as u64,
            ),
            AudioError::ChannelMismatch { expected, actual } => two_numbers(
                "Channel count mismatch: expected ",
                *expected as u64,
                ", got ",
                *actual as u64,
            ),
            AudioError::InvalidSampleRate { rate, min, max } => number_and_range(
                "Invalid sample rate: ",
                *rate as u64,
                ", must be between ",
                *min as u64,
                *max as u64,
            ),
            AudioError::InvalidChannelCount { channels, min, max } => number_and_range(
                "Invalid channel count: ",
                *channels as u64,
                ", must be between ",
                *min as u64,
                *max as u64,
            ),
            AudioError::InvalidParameter(m) => two("Invalid parameter: ", m.as_str()),
            AudioError::InvalidBufferSize { size, min } => two_numbers(
                "Invalid buffer size: ",
                *size as u64,
                ", must be greater than ",
                *min as u64,
            ),
            AudioError::FileNotFound(m) => two("File not found: ", m.as_str()),
            AudioError::NotAFile(m) => two("Path is not a file: ", m.as_str()),
            AudioError::PermissionDenied(m) => two("Permission denied: ", m.as_str()),
            AudioError::InsufficientSpace(m) => two("Insufficient disk space: ", m.as_str()),
            AudioError::ResampleError(m) => two("Resampling failed: ", m.as_str()),
            AudioError::ProcessingError(m) => two("Audio processing failed: ", m.as_str()),
            AudioError::OutOfMemory(m) => two("Out of memory: ", m.as_str()),
            AudioError::Timeout(m) => two("Operation timeout: ", m.as_str()),
            AudioError::Other(m) => two("Unknown error: ", m.as_str()),
        }
    }
}

/// What can go wrong on the way from speech to text.
#[derive(Debug)]
pub enum SttError {
    AudioFileError(String),
    FileNotFound(String),
    UnsupportedFormat(String),
    WhisperError(String),
    ModelLoadError(String),
    TranscriptionError(String),
    AudioProcessingError(String),
    ResamplingError(String),
    StreamError(String),
    ConfigError(String),
    IoError(std::io::Error),
    Other(String),
}

pub type SttResult<T> = Result<T, SttError>;

impl SttError {
    pub fn file_not_found(path: &str) -> (r: SttError)
        ensures
            r matches SttError::FileNotFound(s) && s@ == path@,
    {
        SttError::FileNotFound(path.to_owned())
    }

    pub fn unsupported_format(format: &str) -> (r: SttError)
        ensures
            r matches SttError::UnsupportedFormat(s) && s@ == format@,
    {
        SttError::UnsupportedFormat(format.to_owned())
    }

    pub fn model_load_error(msg: &str) -> (r: SttError)
        ensures
            r matches SttError::ModelLoadError(s) && s@ == msg@,
    {
        SttError::ModelLoadError(msg.to_owned())
    }

    pub fn transcription_error(msg: &str) -> (r: SttError)
        ensures
            r matches SttError::TranscriptionError(s) && s@ == msg@,
    {
        SttError::TranscriptionError(msg.to_owned())
    }

    pub fn config_error(msg: &str) -> (r: SttError)
        ensures
            r matches SttError::ConfigError(s) && s@ == msg@,
    {
        SttError::ConfigError(msg.to_owned())
    }

    pub fn other(msg: &str) -> (r: SttError)
        ensures
            r matches SttError::Other(s) && s@ == msg@,
    {
        SttError::Other(msg.to_owned())
    }

    /// The message of an error that is no I/O error.
    pub open spec fn text(self) -> Seq<char> {
        match self {
            SttError::AudioFileError(m) => "音频文件错误: "@ + m@,
            SttError::FileNotFound(m) => "文件未找到: "@ + m@,
            SttError::UnsupportedFormat(m) => "不支持的音频格式: "@ + m@,
            SttError::WhisperError(m) => "Whisper模型错误: "@ + m@,
            SttError::ModelLoadError(m) => "模型加载失败: "@ + m@,
            SttError::TranscriptionError(m) => "转录失败: "@ + m@,
            SttError::AudioProcessingError(m) => "音频处理错误: "@ + m@,
            SttError::ResamplingError(m) => "音频重采样错误: "@ + m@,
            SttError::StreamError(m) => "流处理错误: "@ + m@,
            SttError::ConfigError(m) => "配置错误: "@ + m@,
            SttError::IoError(_) => "IO错误: "@,
            SttError::Other(m) => "其他错误: "@ + m@,
        }
    }

    /// The message of the error. That of an I/O error begins with its label
    /// and goes on with what the error says of itself.
    pub fn message(&self) -> (r: String)
        ensures
            !(self is IoError) ==> r@ == self.text(),
            self is IoError ==> self.text().is_prefix_of(r@),
    {
        match self {
            SttError::AudioFileError(m) => two("音频文件错误: ", m.as_str()),
            SttError::FileNotFound(m) => two("文件未找到: ", m.as_str()),
            SttError::UnsupportedFormat(m) => two("不支持的音频格式: ", m.as_str()),
            SttError::WhisperError(m) => two("Whisper模型错误: ", m.as_str()),
            SttError::ModelLoadError(m) => two("模型加载失败: ", m.as_str()),
            SttError::TranscriptionError(m) => two("转录失败: ", m.as_str()),
            SttError::AudioProcessingError(m) => two("音频处理错误: ", m.as_str()),
            SttError::ResamplingError(m) => two("音频重采样错误: ", m.as_str()),
            SttError::StreamError(m) => two("流处理错误: ", m.as_str()),
            SttError::ConfigError(m) => two("配置错误: ", m.as_str()),
            SttError::IoError(e) => {
                let detail = io_error_text(e);
                two("IO错误: ", detail.as_str())
            },
            SttError::Other(m) => two("其他错误: ", m.as_str()),
        }
    }

    /// The text of the error that an audio error becomes on the way to a
    /// transcription, for an audio error that is no I/O error.
    pub open spec fn audio_text(e: AudioError) -> Seq<char> {
        match e {
            AudioError::FileNotFound(path) => "音频文件不存在: "@ + path@,
            AudioError::NotAFile(path) => "路径不是音频文件: "@ + path@,
            AudioError::FormatNotSupported { format, supported } => "音频格式不支持: "@ + format@
                + ", 支持的格式: "@ + supported@,
            AudioError::SampleRateMismatch { expected, actual } => "采样率不匹配: 期望 "@ + decimal(
                expected as nat,
            ) + ", 实际 "@ + decimal(actual as nat),
            AudioError::ChannelMismatch { expected, actual } => "通道数不匹配: 期望 "@ + decimal(
                expected as nat,
            ) + ", 实际 "@ + decimal(actual as nat),
            AudioError::FfmpegConfig(m) => "FFmpeg 错误: "@ + m@,
            AudioError::FfmpegExecution(m) => "FFmpeg 错误: "@ + m@,
            AudioError::DecodeError { reason } => "音频解码失败: "@ + reason@,
            AudioError::InvalidSampleRate { rate, min, max } => "无效采样率: "@ + decimal(rate as nat)
                + ", 有效范围: "@ + decimal(min as nat) + "-"@ + decimal(max as nat),
            AudioError::ResampleError(m) => "重采样失败: "@ + m@,
            other => "音频处理失败: "@ + other.text(),
        }
    }

    /// The error that an audio error becomes on the way to a transcription:
    /// an audio processing error that says what went wrong.
    pub fn from_audio_error(e: AudioError) -> (r: SttError)
        ensures
            r matches SttError::AudioProcessingError(message) && (if e is Io {
                SttError::audio_text(e).is_prefix_of(message@)
            } else {
                message@ == SttError::audio_text(e)
            }),
    {
        let message = match &e {
            AudioError::FileNotFound(path) => two("音频文件不存在: ", path.as_str()),
            AudioError::NotAFile(path) => two("路径不是音频文件: ", path.as_str()),
            AudioError::FormatNotSupported { format, supported } => {
                let mut text = two("音频格式不支持: ", format.as_str());
                text.append(", 支持的格式: ");
                text.append(supported.as_str());
                text
            },
            AudioError::SampleRateMismatch { expected, actual } => two_numbers(
                "采样率不匹配: 期望 ",
                *expected as u64,
                ", 实际 ",
                *actual as u64,
            ),
            AudioError::ChannelMismatch { expected, actual } => two_numbers(
                "通道数不匹配: 期望 ",
                *expected as u64,
                ", 实际 ",
                *actual as u64,
            ),
            AudioError::FfmpegConfig(m) => two("FFmpeg 错误: ", m.as_str()),
            AudioError::FfmpegExecution(m) => two("FFmpeg 错误: ", m.as_str()),
            AudioError::DecodeError { reason } => two("音频解码失败: ", reason.as_str()),
            AudioError::InvalidSampleRate { rate, min, max } => number_and_range(
                "无效采样率: ",
                *rate as u64,
                ", 有效范围: ",
                *min as u64,
                *max as u64,
            ),
            AudioError::ResampleError(m) => two("重采样失败: ", m.as_str()),
            other => {
                let detail = other.message();
                two("音频处理失败: ", detail.as_str())
            },
        };
        SttError::AudioProcessingError(message)
    }
}

/// What can go wrong on the way from text to speech.
#[derive(Debug)]
pub enum TtsError {
    NotImplemented,
    ConfigError(String),
    AudioGenerationError(String),
    EngineExecutionError(String),
}

/// What can go wrong while the sound track of a video is taken out.
#[derive(Debug)]
pub enum VideoError {
    FfmpegError(String),
    FileNotFound(String),
    UnsupportedFormat(String),
    IoError(std::io::Error),
    PathError(String),
}

/// Any error of the toolkit.
#[derive(Debug)]
pub enum Error {
    Audio(AudioError),
    Stt(SttError),
    Tts(TtsError),
    Io(std::io::Error),
    Other(String),
}

impl Error {
    pub fn other(msg: &str) -> (r: Error)
        ensures
            r matches Error::Other(s) && s@ == msg@,
    {
        Error::Other(msg.to_owned())
    }
}

impl From<String> for Error {
    fn from(err: String) -> (r: Error) {
        Error::Other(err)
    }
}

impl vstd::std_specs::convert::FromSpecImpl<String> for Error {
    open spec fn obeys_from_spec() -> bool {
        true
    }

    open spec fn from_spec(err: String) -> Error {
        Error::Other(err)
    }
}

impl From<SttError> for Error {
    fn from(err: SttError) -> (r: Error) {
        Error::Stt(err)
    }
}

impl vstd::std_specs::convert::FromSpecImpl<SttError> for Error {
    open spec fn obeys_from_spec() -> bool {
        true
    }

    open spec fn from_spec(err: SttError) -> Error {
        Error::Stt(err)
    }
}

impl From<AudioError> for Error {
    fn from(err: AudioError) -> (r: Error) {
        Error::Audio(err)
    }
}

impl vstd::std_specs::convert::FromSpecImpl<AudioError> for Error {
    open spec fn obeys_from_spec() -> bool {
        true
    }

    open spec fn from_spec(err: AudioError) -> Error {
        Error::Audio(err)
    }
}

impl From<TtsError> for Error {
    fn from(err: TtsError) -> (r: Error) {
        Error::Tts(err)
    }
}

impl vstd::std_specs::convert::FromSpecImpl<TtsError> for Error {
    open spec fn obeys_from_spec() -> bool {
        true
    }

    open spec fn from_spec(err: TtsError) -> Error {
        Error::Tts(err)
    }
}

} // verus!
