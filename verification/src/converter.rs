//! What is decided when an audio file is probed or converted for the
//! recogniser: which files are read as they are, where the converted file
//! goes, and whether a WAV header is what the recogniser expects. Reading
//! the header and running the converter are the caller's.

use vstd::prelude::*;
use vstd::string::*;
use crate::audio::format_of_path;
use crate::error::{AudioError, SttError};
use crate::format::{AudioConfig, AudioFormat, AudioMeta};
use crate::path::{
    extension_of, file_stem_of, joined_path, parent_of, path_extension, path_file_stem, path_join,
    path_parent,
};
use crate::text::{decimal, decimal_string, lowercase_of, str_eq, to_lowercase};
use crate::transcript::text_option;

verus! {

/// The audio filter that makes mono 16 kHz 16-bit audio.
pub const WHISPER_FILTER: &'static str =
    "aformat=sample_fmts=s16:channel_layouts=mono:sample_rates=16000";

/// What the header of a WAV file says. `total_samples` counts the samples
/// of all channels together.
#[derive(Debug, Clone, Copy, PartialEq, Eq, Structural)]
pub struct WavHeader {
    pub sample_rate: u32,
    pub channels: u16,
    pub bits_per_sample: u16,
    pub total_samples: u32,
}

impl WavHeader {
    /// The number of frames: the samples of one channel, and none where
    /// there is no channel.
    pub open spec fn frames(self) -> nat {
        if self.channels > 0 {
            self.total_samples as nat / self.channels as nat
        } else {
            0
        }
    }

    /// The duration in whole milliseconds, rounded down, where the sample
    /// rate is not zero.
    pub open spec fn duration_ms(self) -> Option<u64> {
        if self.sample_rate > 0 {
            Some((self.frames() * 1000 / self.sample_rate as nat) as u64)
        } else {
            None
        }
    }
}

/// What a probe reports of a WAV file with this header.
pub fn wav_meta(header: &WavHeader) -> (r: AudioMeta)
    ensures
        r.sample_rate == header.sample_rate,
        r.channels == header.channels,
        r.duration_ms == header.duration_ms(),
        text_option(r.format) == Some("wav"@),
{
    let frames: u64 = if header.channels > 0 {
        header.total_samples as u64 / header.channels as u64
    } else {
        0
    };
    let duration_ms = if header.sample_rate > 0 {
        Some(frames * 1000 / header.sample_rate as u64)
    } else {
        None
    };
    AudioMeta {
        sample_rate: header.sample_rate,
        channels: header.channels,
        duration_ms,
        format: Some("wav".to_owned()),
    }
}

/// The lowercase extension of a path, and the empty text where it has none.
pub open spec fn lowercase_extension(path: Seq<char>) -> Seq<char> {
    match extension_of(path) {
        Some(ext) => lowercase_of(ext),
        None => lowercase_of(Seq::empty()),
    }
}

/// Decides whether a path can be probed, knowing whether it exists and
/// whether it is a directory. Only WAV files are probed.
pub fn probe_target(path: &str, exists: bool, is_dir: bool) -> (r: Result<(), AudioError>)
    ensures
        match r {
            Ok(_) => exists && !is_dir && lowercase_extension(path@) == "wav"@,
            Err(AudioError::FileNotFound(p)) => !exists && p@ == path@,
            Err(AudioError::NotAFile(p)) => exists && is_dir && p@ == path@,
            Err(AudioError::FormatNotSupported { format, supported }) => {
                &&& exists && !is_dir
                &&& lowercase_extension(path@) != "wav"@
                &&& if lowercase_extension(path@).len() > 0 {
                    format@ == lowercase_extension(path@) && supported@ == "wav"@
                } else {
                    format@ == "unknown"@ && supported@ == "wav, mp3, flac, m4a"@
                }
            },
            Err(_) => false,
        },
{
    if !exists {
        return Err(AudioError::FileNotFound(path.to_owned()));
    }
    if is_dir {
        return Err(AudioError::NotAFile(path.to_owned()));
    }
    let ext = match path_extension(path) {
        Some(e) => to_lowercase(e.as_str()),
        None => to_lowercase(""),
    };
    proof {
        reveal_strlit("");
        assert(""@ =~= Seq::<char>::empty());
    }
    if str_eq(ext.as_str(), "wav") {
        Ok(())
    } else if !ext.as_str().is_empty() {
        Err(AudioError::FormatNotSupported { format: ext, supported: "wav".to_owned() })
    } else {
        Err(
            AudioError::FormatNotSupported {
                format: "unknown".to_owned(),
                supported: "wav, mp3, flac, m4a".to_owned(),
            },
        )
    }
}

/// Checks that a WAV header is mono, 16 kHz and 16 bit. The sample rate is
/// checked first, then the channels, then the depth.
pub fn check_whisper_wav(header: &WavHeader) -> (r: Result<(), AudioError>)
    ensures
        match r {
            Ok(_) => header.sample_rate == 16000 && header.channels == 1 && header.bits_per_sample
                == 16,
            Err(AudioError::SampleRateMismatch { expected, actual }) => header.sample_rate != 16000
                && expected == 16000 && actual == header.sample_rate,
            Err(AudioError::ChannelMismatch { expected, actual }) => header.sample_rate == 16000
                && header.channels != 1 && expected == 1 && actual == header.channels,
            Err(AudioError::FormatNotSupported { format, supported }) => {
                &&& header.sample_rate == 16000 && header.channels == 1
                &&& header.bits_per_sample != 16
                &&& format@ == decimal(header.bits_per_sample as nat) + " bit PCM"@
                &&& supported@ == "16 bit PCM"@
            },
            Err(_) => false,
        },
{
    if header.sample_rate != 16000 {
        return Err(AudioError::SampleRateMismatch { expected: 16000, actual: header.sample_rate });
    }
    if header.channels != 1 {
        return Err(AudioError::ChannelMismatch { expected: 1, actual: header.channels });
    }
    if header.bits_per_sample != 16 {
        let mut format = decimal_string(header.bits_per_sample as u64);
        format.append(" bit PCM");
        return Err(AudioError::FormatNotSupported { format, supported: "16 bit PCM".to_owned() });
    }
    Ok(())
}

/// The stem of the file name of a path, or `fallback` where it has none.
pub open spec fn stem_or(path: Seq<char>, fallback: Seq<char>) -> Seq<char> {
    match file_stem_of(path) {
        Some(stem) => stem,
        None => fallback,
    }
}

/// The stem of the file name of a path, or `fallback` where it has none.
fn file_stem_or(path: &str, fallback: &str) -> (r: String)
    ensures
        r@ == stem_or(path@, fallback@),
{
    match path_file_stem(path) {
        Some(stem) => stem,
        None => fallback.to_owned(),
    }
}

/// The name of the file that a conversion for the recogniser writes where
/// no output path is given: the stem of the input, or `audio`, followed by
/// `_mono16k.wav`.
pub fn default_output_name(input: &str) -> (r: String)
    ensures
        r@ == stem_or(input@, "audio"@) + "_mono16k.wav"@,
{
    let mut name = file_stem_or(input, "audio");
    name.append("_mono16k.wav");
    name
}

/// Decides whether a file can be converted for the recogniser, knowing
/// whether it exists and whether it is a directory.
pub fn conversion_target(path: &str, exists: bool, is_dir: bool) -> (r: Result<(), AudioError>)
    ensures
        match r {
            Ok(_) => exists && !is_dir,
            Err(AudioError::FileNotFound(p)) => !exists && p@ == path@,
            Err(AudioError::NotAFile(p)) => exists && is_dir && p@ == path@,
            Err(_) => false,
        },
{
    if !exists {
        return Err(AudioError::FileNotFound(path.to_owned()));
    }
    if is_dir {
        return Err(AudioError::NotAFile(path.to_owned()));
    }
    Ok(())
}

/// What converting a file comes to.
#[derive(Debug, Clone)]
pub enum ConversionPlan {
    /// The file is read as it is.
    UseInput,
    /// The file is converted into a file at `output`.
    Convert { output: String },
}

/// Converts audio files into the format of a target configuration.
#[derive(Debug, Clone)]
pub struct AudioConverter {
    target_config: AudioConfig,
    temp_dir: Option<String>,
}

impl AudioConverter {
    pub closed spec fn target(self) -> AudioConfig {
        self.target_config
    }

    /// The directory for converted files, where one is set.
    pub closed spec fn temp(self) -> Option<Seq<char>> {
        text_option(self.temp_dir)
    }

    /// The directory that a converted file goes to: the set one, else the
    /// parent of the input.
    pub open spec fn output_dir(self, input: Seq<char>) -> Option<Seq<char>> {
        match self.temp() {
            Some(dir) => Some(dir),
            None => parent_of(input),
        }
    }

    /// A converter to `target_config` that writes beside its input.
    pub fn new(target_config: AudioConfig) -> (r: AudioConverter)
        ensures
            r.target() == target_config,
            r.temp() is None,
    {
        AudioConverter { target_config, temp_dir: None }
    }

    /// A converter to what the recogniser expects.
    pub fn whisper_optimized() -> (r: AudioConverter)
        ensures
            r.target() == (AudioConfig { sample_rate: 16000, channels: 1, bit_depth: 16 }),
            r.temp() is None,
    {
        AudioConverter::new(AudioConfig::whisper_optimized())
    }

    /// The converter with `temp_dir` as the directory for converted files.
    pub fn with_temp_dir(self, temp_dir: &str) -> (r: AudioConverter)
        ensures
            r.target() == self.target(),
            r.temp() == Some(temp_dir@),
    {
        AudioConverter { target_config: self.target_config, temp_dir: Some(temp_dir.to_owned()) }
    }

    /// The directory for converted files, where one is set.
    pub fn temp_dir(&self) -> (r: Option<String>)
        ensures
            text_option(r) == self.temp(),
    {
        match &self.temp_dir {
            Some(dir) => Some(dir.clone()),
            None => None,
        }
    }

    /// Tells the format of a file from the extension of its path.
    pub fn detect_format(&self, path: &str) -> (r: Result<Option<AudioFormat>, SttError>)
        ensures
            r matches Ok(format) && format == format_of_path(path@),
    {
        match path_extension(path) {
            Some(ext) => Ok(AudioFormat::from_extension(ext.as_str())),
            None => Ok(None),
        }
    }

    /// The path of the converted file for an input: in the output
    /// directory, the stem of the input followed by `_converted.wav`.
    pub fn generate_output_path(&self, input: &str) -> (r: Result<String, SttError>)
        ensures
            match r {
                Ok(path) => self.output_dir(input@) matches Some(dir) && file_stem_of(input@)
                    matches Some(stem) && path@ == joined_path(dir, stem + "_converted.wav"@),
                Err(SttError::Other(message)) => if self.output_dir(input@) is None {
                    message@ == "无法确定输出目录"@
                } else {
                    file_stem_of(input@) is None && message@ == "无法获取文件名"@
                },
                Err(_) => false,
            },
    {
        let output_dir = match &self.temp_dir {
            Some(dir) => dir.clone(),
            None => match path_parent(input) {
                Some(dir) => dir,
                None => {
                    return Err(SttError::other("无法确定输出目录"));
                },
            },
        };
        let mut name = match path_file_stem(input) {
            Some(stem) => stem,
            None => {
                return Err(SttError::other("无法获取文件名"));
            },
        };
        name.append("_converted.wav");
        Ok(path_join(output_dir.as_str(), name.as_str()))
    }

    /// Decides what converting `input` comes to, knowing whether it exists
    /// and whether its parameters are known to be those of the target. A
    /// WAV file with those parameters is read as it is; every other file is
    /// converted into `output`, or into the generated path where none is
    /// given.
    pub fn plan_conversion(
        &self,
        input: &str,
        exists: bool,
        output: Option<&str>,
        config_compatible: bool,
    ) -> (r: Result<ConversionPlan, SttError>)
        ensures
            match r {
                Ok(ConversionPlan::UseInput) => {
                    &&& exists
                    &&& format_of_path(input@) == Some(AudioFormat::Wav)
                    &&& config_compatible
                    &&& output is Some || (self.output_dir(input@) is Some && file_stem_of(input@)
                        is Some)
                },
                Ok(ConversionPlan::Convert { output: path }) => {
                    &&& exists
                    &&& !(format_of_path(input@) == Some(AudioFormat::Wav) && config_compatible)
                    &&& match output {
                        Some(given) => path@ == given@,
                        None => self.output_dir(input@) matches Some(dir) && file_stem_of(input@)
                            matches Some(stem) && path@ == joined_path(
                            dir,
                            stem + "_converted.wav"@,
                        ),
                    }
                },
                Err(SttError::FileNotFound(p)) => !exists && p@ == input@,
                Err(SttError::Other(message)) => {
                    &&& exists
                    &&& output is None
                    &&& if self.output_dir(input@) is None {
                        message@ == "无法确定输出目录"@
                    } else {
                        file_stem_of(input@) is None && message@ == "无法获取文件名"@
                    }
                },
                Err(_) => false,
            },
    {
        if !exists {
            return Err(SttError::file_not_found(input));
        }
        let path = match output {
            Some(given) => given.to_owned(),
            None => match self.generate_output_path(input) {
                Ok(path) => path,
                Err(e) => {
                    return Err(e);
                },
            },
        };
        match path_extension(input) {
            Some(ext) => match AudioFormat::from_extension(ext.as_str()) {
                Some(format) => {
                    if format.is_whisper_native() && config_compatible {
                        return Ok(ConversionPlan::UseInput);
                    }
                },
                None => {},
            },
            None => {},
        }
        Ok(ConversionPlan::Convert { output: path })
    }

    /// The path of the converted file for one input of a batch that goes
    /// to `dir`: the stem of the input, or `converted`, followed by `.wav`.
    pub fn batch_output_path(dir: &str, input: &str) -> (r: String)
        ensures
            r@ == joined_path(dir@, stem_or(input@, "converted"@) + ".wav"@),
    {
        let mut name = file_stem_or(input, "converted");
        name.append(".wav");
        path_join(dir, name.as_str())
    }
}

impl Default for AudioConverter {
    fn default() -> (r: AudioConverter)
        ensures
            r.target() == (AudioConfig { sample_rate: 16000, channels: 1, bit_depth: 16 }),
            r.temp() is None,
    {
        AudioConverter::whisper_optimized()
    }
}

} // verus!
