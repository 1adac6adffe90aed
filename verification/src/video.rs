//! What is decided when the sound track of a video is taken out: the
//! settings, and the audio filter that they come to. Running the converter
//! is the caller's.

use vstd::prelude::*;
use vstd::string::*;
use crate::error::VideoError;
use crate::text::{decimal, decimal_string};
use crate::transcript::text_option;

verus! {

/// The settings of an extraction of audio.
#[derive(Debug, Clone)]
pub struct AudioExtractionConfig {
    /// The format of the output, such as `wav`.
    pub format: String,
    /// The sample rate of the output, where it is to be changed.
    pub sample_rate: Option<u32>,
    /// The number of channels of the output, where it is to be changed.
    pub channels: Option<u32>,
    /// The bit rate of the output, where one is asked for.
    pub bitrate: Option<String>,
}

impl Default for AudioExtractionConfig {
    fn default() -> (r: AudioExtractionConfig)
        ensures
            r.format@ == "wav"@,
            r.sample_rate == Some(16000u32),
            r.channels == Some(1u32),
            r.bitrate is None,
    {
        AudioExtractionConfig {
            format: "wav".to_owned(),
            sample_rate: Some(16000),
            channels: Some(1),
            bitrate: None,
        }
    }
}

/// The part of the filter that sets the sample rate.
pub open spec fn resample_part(sample_rate: u32) -> Seq<char> {
    "aresample="@ + decimal(sample_rate as nat)
}

/// The part of the filter that sets the number of channels.
pub open spec fn pan_part(channels: u32) -> Seq<char> {
    "pan="@ + decimal(channels as nat) + "c"@
}

/// The audio filter for a sample rate and a number of channels: the parts
/// that are asked for, the sample rate first, with a comma between them,
/// and no filter where none is asked for.
pub open spec fn filter_text(sample_rate: Option<u32>, channels: Option<u32>) -> Option<Seq<char>> {
    match (sample_rate, channels) {
        (Some(rate), Some(count)) => Some(resample_part(rate) + ","@ + pan_part(count)),
        (Some(rate), None) => Some(resample_part(rate)),
        (None, Some(count)) => Some(pan_part(count)),
        (None, None) => None,
    }
}

/// The audio filter that the settings come to.
pub fn audio_filter(config: &AudioExtractionConfig) -> (r: Option<String>)
    ensures
        text_option(r) == filter_text(config.sample_rate, config.channels),
{
    let resample = match config.sample_rate {
        Some(rate) => {
            let mut part = String::from_str("aresample=");
            part.append(decimal_string(rate as u64).as_str());
            Some(part)
        },
        None => None,
    };
    let pan = match config.channels {
        Some(count) => {
            let mut part = String::from_str("pan=");
            part.append(decimal_string(count as u64).as_str());
            part.append("c");
            Some(part)
        },
        None => None,
    };
    match resample {
        Some(first) => match pan {
            Some(second) => {
                let mut filter = first;
                filter.append(",");
                filter.append(second.as_str());
                Some(filter)
            },
            None => Some(first),
        },
        None => pan,
    }
}

/// Takes audio out of video files.
#[derive(Debug, Clone)]
pub struct VideoProcessor {
    ffmpeg_path: Option<String>,
}

impl VideoProcessor {
    /// The path of the converter, where one is set.
    pub closed spec fn converter(self) -> Option<Seq<char>> {
        text_option(self.ffmpeg_path)
    }

    /// A processor that finds the converter by itself.
    pub fn new() -> (r: VideoProcessor)
        ensures
            r.converter() is None,
    {
        VideoProcessor { ffmpeg_path: None }
    }

    /// The processor with the converter at `path`.
    pub fn with_ffmpeg_path(self, path: &str) -> (r: VideoProcessor)
        ensures
            r.converter() == Some(path@),
    {
        VideoProcessor { ffmpeg_path: Some(path.to_owned()) }
    }

    /// The path of the converter, where one is set.
    pub fn ffmpeg_path(&self) -> (r: Option<String>)
        ensures
            text_option(r) == self.converter(),
    {
        match &self.ffmpeg_path {
            Some(path) => Some(path.clone()),
            None => None,
        }
    }

    /// Decides whether a video can be looked into, knowing whether it
    /// exists.
    pub fn check_input(&self, input: &str, exists: bool) -> (r: Result<(), VideoError>)
        ensures
            match r {
                Ok(_) => exists,
                Err(VideoError::FileNotFound(p)) => !exists && p@ == input@,
                Err(_) => false,
            },
    {
        if !exists {
            return Err(VideoError::FileNotFound(input.to_owned()));
        }
        Ok(())
    }

    /// Decides whether audio can be taken out of `input`, knowing whether
    /// it exists, and returns the audio filter for the settings, those of
    /// `AudioExtractionConfig::default` where none are given.
    pub fn plan_extraction(&self, input: &str, exists: bool, config: Option<AudioExtractionConfig>) -> (r:
        Result<Option<String>, VideoError>)
        ensures
            match r {
                Ok(filter) => exists && text_option(filter) == match config {
                    Some(given) => filter_text(given.sample_rate, given.channels),
                    None => filter_text(Some(16000u32), Some(1u32)),
                },
                Err(VideoError::FileNotFound(p)) => !exists && p@ == input@,
                Err(_) => false,
            },
    {
        if !exists {
            return Err(VideoError::FileNotFound(input.to_owned()));
        }
        let settings = match config {
            Some(given) => given,
            None => AudioExtractionConfig::default(),
        };
        Ok(audio_filter(&settings))
    }
}

impl Default for VideoProcessor {
    fn default() -> (r: VideoProcessor)
        ensures
            r.converter() is None,
    {
        VideoProcessor::new()
    }
}

} // verus!
