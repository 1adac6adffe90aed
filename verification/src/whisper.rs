//! The settings of the recogniser and what is checked of them before a
//! model is loaded. Temperature and threshold are fractions in parts per
//! million: 1000000 is one.

use vstd::prelude::*;
use vstd::string::*;
use crate::error::SttError;
use crate::path::{file_name_of, path_exists, path_file_name};
use crate::text::{occurs_in, str_contains};
use crate::transcript::text_option;

verus! {

/// One as a fraction in parts per million.
pub const ONE: u32 = 1_000_000;

/// The settings of the recogniser.
#[derive(Debug, Clone)]
pub struct WhisperConfig {
    /// The path of the model file.
    pub model_path: String,
    /// The language of the audio, `auto` to have it detected.
    pub language: Option<String>,
    /// Whether the text is translated into English.
    pub translate: bool,
    /// The number of threads of a pass.
    pub n_threads: i32,
    pub print_timestamps: bool,
    pub print_progress: bool,
    pub print_special: bool,
    /// The sampling temperature, from none to one.
    pub temperature: u32,
    /// The longest segment in milliseconds, where there is a limit.
    pub max_segment_length: Option<u32>,
    /// Text that the recogniser is primed with.
    pub initial_prompt: Option<String>,
    /// Whether silence is kept from the recogniser.
    pub enable_vad: bool,
    /// The amplitude above which audio counts as speech, as a fraction of
    /// full scale.
    pub vad_threshold: u32,
}

/// The view of a `WhisperConfig`.
pub struct WhisperModel {
    pub model_path: Seq<char>,
    pub language: Option<Seq<char>>,
    pub translate: bool,
    pub n_threads: i32,
    pub print_timestamps: bool,
    pub print_progress: bool,
    pub print_special: bool,
    pub temperature: u32,
    pub max_segment_length: Option<u32>,
    pub initial_prompt: Option<Seq<char>>,
    pub enable_vad: bool,
    pub vad_threshold: u32,
}

impl View for WhisperConfig {
    type V = WhisperModel;

    open spec fn view(&self) -> WhisperModel {
        WhisperModel {
            model_path: self.model_path@,
            language: text_option(self.language),
            translate: self.translate,
            n_threads: self.n_threads,
            print_timestamps: self.print_timestamps,
            print_progress: self.print_progress,
            print_special: self.print_special,
            temperature: self.temperature,
            max_segment_length: self.max_segment_length,
            initial_prompt: text_option(self.initial_prompt),
            enable_vad: self.enable_vad,
            vad_threshold: self.vad_threshold,
        }
    }
}

/// The settings that a recogniser for the model at `model_path` has unless
/// others are given.
pub open spec fn standard_for(model_path: Seq<char>) -> WhisperModel {
    WhisperModel {
        model_path,
        language: Some("auto"@),
        translate: false,
        n_threads: 4,
        print_timestamps: true,
        print_progress: false,
        print_special: false,
        temperature: 0,
        max_segment_length: None,
        initial_prompt: None,
        enable_vad: true,
        vad_threshold: 10_000,
    }
}

/// A fraction cut down to one where it is more.
pub open spec fn at_most_one(fraction: u32) -> u32 {
    if fraction > 1_000_000 {
        1_000_000
    } else {
        fraction
    }
}

/// Whether settings are accepted, knowing whether the model file exists:
/// the file is there, there is a thread at least, and temperature and
/// threshold are not above one.
pub open spec fn acceptable(config: WhisperModel, model_exists: bool) -> bool {
    model_exists && config.n_threads > 0 && config.temperature <= 1_000_000
        && config.vad_threshold <= 1_000_000
}

impl Default for WhisperConfig {
    fn default() -> (r: WhisperConfig)
        ensures
            r@ == standard_for("models/ggml-base.bin"@),
    {
        WhisperConfig::new("models/ggml-base.bin")
    }
}

impl WhisperConfig {
    /// The standard settings for the model at `model_path`.
    pub fn new(model_path: &str) -> (r: WhisperConfig)
        ensures
            r@ == standard_for(model_path@),
    {
        WhisperConfig {
            model_path: model_path.to_owned(),
            language: Some("auto".to_owned()),
            translate: false,
            n_threads: 4,
            print_timestamps: true,
            print_progress: false,
            print_special: false,
            temperature: 0,
            max_segment_length: None,
            initial_prompt: None,
            enable_vad: true,
            vad_threshold: 10_000,
        }
    }

    pub fn with_language(self, language: &str) -> (r: WhisperConfig)
        ensures
            r@ == (WhisperModel { language: Some(language@), ..self@ }),
    {
        let mut config = self;
        config.language = Some(language.to_owned());
        config
    }

    pub fn with_translate(self, translate: bool) -> (r: WhisperConfig)
        ensures
            r@ == (WhisperModel { translate, ..self@ }),
    {
        let mut config = self;
        config.translate = translate;
        config
    }

    pub fn with_threads(self, n_threads: i32) -> (r: WhisperConfig)
        ensures
            r@ == (WhisperModel { n_threads, ..self@ }),
    {
        let mut config = self;
        config.n_threads = n_threads;
        config
    }

    /// Sets the temperature, cut down to one where it is more.
    pub fn with_temperature(self, temperature: u32) -> (r: WhisperConfig)
        ensures
            r@ == (WhisperModel { temperature: at_most_one(temperature), ..self@ }),
    {
        let mut config = self;
        config.temperature = if temperature > ONE {
            ONE
        } else {
            temperature
        };
        config
    }

    pub fn with_initial_prompt(self, prompt: &str) -> (r: WhisperConfig)
        ensures
            r@ == (WhisperModel { initial_prompt: Some(prompt@), ..self@ }),
    {
        let mut config = self;
        config.initial_prompt = Some(prompt.to_owned());
        config
    }

    pub fn with_vad(self, enable_vad: bool) -> (r: WhisperConfig)
        ensures
            r@ == (WhisperModel { enable_vad, ..self@ }),
    {
        let mut config = self;
        config.enable_vad = enable_vad;
        config
    }

    /// Sets the threshold, cut down to one where it is more.
    pub fn with_vad_threshold(self, threshold: u32) -> (r: WhisperConfig)
        ensures
            r@ == (WhisperModel { vad_threshold: at_most_one(threshold), ..self@ }),
    {
        let mut config = self;
        config.vad_threshold = if threshold > ONE {
            ONE
        } else {
            threshold
        };
        config
    }

    /// The threshold as an amplitude of 16-bit samples, rounded down and
    /// capped at full scale.
    pub fn vad_amplitude(&self) -> (r: u16)
        ensures
            r == if self.vad_threshold >= 1_000_000 {
                32768
            } else {
                self.vad_threshold as int * 32768 / 1_000_000
            },
    {
        if self.vad_threshold >= ONE {
            32768
        } else {
            let wide: u64 = self.vad_threshold as u64 * 32768 / 1_000_000;
            wide as u16
        }
    }

    /// Checks settings of which it is known whether the model file exists.
    /// The first fault is reported: a missing model file, then a thread
    /// count that is not positive, then a temperature above one, then a
    /// threshold above one.
    pub fn check(&self, model_exists: bool) -> (r: Result<(), SttError>)
        ensures
            match r {
                Ok(_) => acceptable(self@, model_exists),
                Err(SttError::ModelLoadError(message)) => !model_exists && message@
                    == "模型文件不存在: "@ + self.model_path@,
                Err(SttError::ConfigError(message)) => model_exists && if self.n_threads <= 0 {
                    message@ == "线程数必须大于0"@
                } else if self.temperature > 1_000_000 {
                    message@ == "温度参数必须在0.0-1.0之间"@
                } else {
                    self.vad_threshold > 1_000_000 && message@ == "VAD阈值必须在0.0-1.0之间"@
                },
                Err(_) => false,
            },
    {
        if !model_exists {
            let mut message = String::from_str("模型文件不存在: ");
            message.append(self.model_path.as_str());
            return Err(SttError::ModelLoadError(message));
        }
        if self.n_threads <= 0 {
            return Err(SttError::ConfigError("线程数必须大于0".to_owned()));
        }
        if self.temperature > ONE {
            return Err(SttError::ConfigError("温度参数必须在0.0-1.0之间".to_owned()));
        }
        if self.vad_threshold > ONE {
            return Err(SttError::ConfigError("VAD阈值必须在0.0-1.0之间".to_owned()));
        }
        Ok(())
    }

    /// Checks the settings. Whether the model file exists is asked of the
    /// disk; with a model file that is there, the outcome is that of
    /// `check`.
    pub fn validate(&self) -> (r: Result<(), SttError>)
        ensures
            match r {
                Ok(_) => acceptable(self@, true),
                Err(SttError::ModelLoadError(message)) => message@ == "模型文件不存在: "@
                    + self.model_path@,
                Err(SttError::ConfigError(message)) => if self.n_threads <= 0 {
                    message@ == "线程数必须大于0"@
                } else if self.temperature > 1_000_000 {
                    message@ == "温度参数必须在0.0-1.0之间"@
                } else {
                    self.vad_threshold > 1_000_000 && message@ == "VAD阈值必须在0.0-1.0之间"@
                },
                Err(_) => false,
            },
    {
        let model_exists = path_exists(self.model_path.as_str());
        self.check(model_exists)
    }

    /// A line that names the model.
    pub fn model_info(&self) -> (r: String)
        ensures
            r@ == "Whisper模型: "@ + self.model_path@,
    {
        let mut info = String::from_str("Whisper模型: ");
        info.append(self.model_path.as_str());
        info
    }

    /// Whether the model is one for many languages, going by the name of
    /// its file: one whose name holds `.en` is for English only.
    pub fn is_multilingual(&self) -> (r: bool)
        ensures
            r == !occurs_in(
                ".en"@,
                match file_name_of(self.model_path@) {
                    Some(name) => name,
                    None => Seq::empty(),
                },
            ),
    {
        match path_file_name(self.model_path.as_str()) {
            Some(name) => !str_contains(name.as_str(), ".en"),
            None => {
                proof {
                    reveal_strlit(".en");
                    assert(!occurs_in(".en"@, Seq::<char>::empty()));
                }
                true
            },
        }
    }
}

} // verus!
