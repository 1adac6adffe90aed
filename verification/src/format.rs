//! Audio container formats and stream parameters.

use vstd::prelude::*;
use crate::text::{lowercase_of, str_eq, to_lowercase};

verus! {

/// A container format, told apart by file extension.
#[derive(Debug, Clone, Copy, PartialEq, Eq, Structural)]
pub enum AudioFormat {
    Wav,
    Mp3,
    Flac,
    M4a,
    Ogg,
}

/// The format that a lowercase extension names, if any.
pub open spec fn format_of_lowercase(ext: Seq<char>) -> Option<AudioFormat> {
    if ext == "wav"@ {
        Some(AudioFormat::Wav)
    } else if ext == "mp3"@ {
        Some(AudioFormat::Mp3)
    } else if ext == "flac"@ {
        Some(AudioFormat::Flac)
    } else if ext == "m4a"@ {
        Some(AudioFormat::M4a)
    } else if ext == "ogg"@ {
        Some(AudioFormat::Ogg)
    } else {
        None
    }
}

impl AudioFormat {
    /// The extension written for this format.
    pub open spec fn extension_text(self) -> Seq<char> {
        match self {
            AudioFormat::Wav => "wav"@,
            AudioFormat::Mp3 => "mp3"@,
            AudioFormat::Flac => "flac"@,
            AudioFormat::M4a => "m4a"@,
            AudioFormat::Ogg => "ogg"@,
        }
    }

    /// Recognises an extension that is already in lowercase.
    pub fn from_lowercase_extension(ext: &str) -> (r: Option<AudioFormat>)
        ensures
            r == format_of_lowercase(ext@),
    {
        if str_eq(ext, "wav") {
            Some(AudioFormat::Wav)
        } else if str_eq(ext, "mp3") {
            Some(AudioFormat::Mp3)
        } else if str_eq(ext, "flac") {
            Some(AudioFormat::Flac)
        } else if str_eq(ext, "m4a") {
            Some(AudioFormat::M4a)
        } else if str_eq(ext, "ogg") {
            Some(AudioFormat::Ogg)
        } else {
            None
        }
    }

    /// Recognises an extension in any letter case.
    pub fn from_extension(ext: &str) -> (r: Option<AudioFormat>)
        ensures
            r == format_of_lowercase(lowercase_of(ext@)),
    {
        let lower = to_lowercase(ext);
        AudioFormat::from_lowercase_extension(lower.as_str())
    }

    /// The extension written for this format.
    pub fn extension(&self) -> (r: &'static str)
        ensures
            r@ == self.extension_text(),
    {
        match self {
            AudioFormat::Wav => "wav",
            AudioFormat::Mp3 => "mp3",
            AudioFormat::Flac => "flac",
            AudioFormat::M4a => "m4a",
            AudioFormat::Ogg => "ogg",
        }
    }

    /// Whether the recogniser reads this format without conversion.
    pub fn is_whisper_native(&self) -> (r: bool)
        ensures
            r == (*self == AudioFormat::Wav),
    {
        match self {
            AudioFormat::Wav => true,
            _ => false,
        }
    }
}

/// Every format is recognised from its own extension.
pub proof fn lemma_extension_round_trip(f: AudioFormat)
    ensures
        format_of_lowercase(f.extension_text()) == Some(f),
{
    reveal_strlit("wav");
    reveal_strlit("mp3");
    reveal_strlit("flac");
    reveal_strlit("m4a");
    reveal_strlit("ogg");
    assert("wav"@.len() == 3 && "mp3"@.len() == 3 && "flac"@.len() == 4 && "m4a"@.len() == 3
        && "ogg"@.len() == 3);
    assert("wav"@[0] == 'w' && "mp3"@[0] == 'm' && "m4a"@[0] == 'm' && "ogg"@[0] == 'o');
    assert("mp3"@[1] == 'p' && "m4a"@[1] == '4');
}

/// Sample rate, channel count and bit depth of a stream.
#[derive(Debug, Clone, Copy, PartialEq, Eq, Structural)]
pub struct AudioConfig {
    pub sample_rate: u32,
    pub channels: u16,
    pub bit_depth: u16,
}

impl AudioConfig {
    pub fn new(sample_rate: u32, channels: u16, bit_depth: u16) -> (r: AudioConfig)
        ensures
            r == (AudioConfig { sample_rate, channels, bit_depth }),
    {
        AudioConfig { sample_rate, channels, bit_depth }
    }

    /// Mono, 16 kHz, 16 bit: what the recogniser expects.
    pub fn whisper_optimized() -> (r: AudioConfig)
        ensures
            r == (AudioConfig { sample_rate: 16000, channels: 1, bit_depth: 16 }),
    {
        AudioConfig { sample_rate: 16000, channels: 1, bit_depth: 16 }
    }

    pub open spec fn whisper_compatible(self) -> bool {
        self.sample_rate == 16000 && self.channels == 1
    }

    pub fn is_whisper_compatible(&self) -> (r: bool)
        ensures
            r == self.whisper_compatible(),
    {
        self.sample_rate == 16000 && self.channels == 1
    }
}

impl Default for AudioConfig {
    fn default() -> (r: AudioConfig)
        ensures
            r == (AudioConfig { sample_rate: 16000, channels: 1, bit_depth: 16 }),
    {
        AudioConfig::whisper_optimized()
    }
}

/// What is known of an audio file without decoding it. The duration is in
/// milliseconds.
#[derive(Debug, Clone)]
pub struct AudioMeta {
    pub sample_rate: u32,
    pub channels: u16,
    pub duration_ms: Option<u64>,
    pub format: Option<String>,
}

/// The path of a WAV file that the recogniser reads as it is.
#[derive(Debug, Clone)]
pub struct CompatibleWav {
    pub path: String,
}

} // verus!
