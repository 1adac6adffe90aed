//! What is decided before a speech synthesis engine is run: its settings,
//! where its executable is, and the arguments that it is run with. Running
//! it is the caller's.

use vstd::prelude::*;
use vstd::string::*;
use crate::error::TtsError;
use crate::text::{decimal, decimal_string};
use crate::transcript::text_option;

verus! {

/// The settings of a synthesis. Speed and pitch are in thousandths: a speed
/// of 1000 is the engine's own, a pitch of 0 leaves the pitch as it is.
#[derive(Debug, Clone)]
pub struct TtsConfig {
    pub executable_path: Option<String>,
    pub language: Option<String>,
    pub speaker: Option<String>,
    pub sample_rate: u32,
    pub speed: u32,
    pub pitch: i32,
}

impl Default for TtsConfig {
    fn default() -> (r: TtsConfig)
        ensures
            r.executable_path is None,
            text_option(r.language) == Some("auto"@),
            r.speaker is None,
            r.sample_rate == 22050,
            r.speed == 1000,
            r.pitch == 0,
    {
        TtsConfig {
            executable_path: None,
            language: Some("auto".to_owned()),
            speaker: None,
            sample_rate: 22050,
            speed: 1000,
            pitch: 0,
        }
    }
}

/// The engines that there are names for.
#[derive(Debug, Clone, Copy, PartialEq, Eq, Structural)]
pub enum TtsEngineType {
    IndexTts,
    Piper,
    Coqui,
}

impl Default for TtsEngineType {
    fn default() -> (r: TtsEngineType)
        ensures
            r == TtsEngineType::IndexTts,
    {
        TtsEngineType::IndexTts
    }
}

impl TtsEngineType {
    /// Whether there is an engine of this type. Only Index-TTS is there.
    pub fn is_implemented(&self) -> (r: bool)
        ensures
            r == (*self == TtsEngineType::IndexTts),
    {
        match self {
            TtsEngineType::IndexTts => true,
            _ => false,
        }
    }
}

/// Two arguments for an optional setting, and none where it is not set.
pub open spec fn optional_args(flag: Seq<char>, value: Option<Seq<char>>) -> Seq<Seq<char>> {
    match value {
        Some(v) => seq![flag, v],
        None => Seq::empty(),
    }
}

/// The arguments that the engine is run with: the text, the language and
/// the speaker where they are set, the sample rate, the output path where
/// the result goes to a file, and the output format.
pub open spec fn synthesis_args_of(
    language: Option<Seq<char>>,
    speaker: Option<Seq<char>>,
    sample_rate: u32,
    text: Seq<char>,
    output: Option<Seq<char>>,
) -> Seq<Seq<char>> {
    seq!["--text"@, text] + optional_args("--language"@, language) + optional_args(
        "--speaker"@,
        speaker,
    ) + seq!["--sample-rate"@, decimal(sample_rate as nat)] + optional_args("--output"@, output)
        + seq!["--output-format"@, "wav"@]
}

/// The texts of a list of strings.
pub open spec fn texts_of(args: Seq<String>) -> Seq<Seq<char>> {
    Seq::new(args.len(), |i: int| args[i]@)
}

/// The Index-TTS engine with its settings.
#[derive(Debug, Clone)]
pub struct IndexTtsEngine {
    cfg: TtsConfig,
}

impl IndexTtsEngine {
    pub closed spec fn config(self) -> TtsConfig {
        self.cfg
    }

    pub fn new(cfg: TtsConfig) -> (r: IndexTtsEngine)
        ensures
            r.config() == cfg,
    {
        IndexTtsEngine { cfg }
    }

    /// The path of the executable that is set, where one is set.
    pub fn executable_path(&self) -> (r: Option<String>)
        ensures
            text_option(r) == text_option(self.config().executable_path),
    {
        match &self.cfg.executable_path {
            Some(path) => Some(path.clone()),
            None => None,
        }
    }

    /// The executable to run: the one that is set, else the one that was
    /// found on the search path, and an error where there is neither.
    pub fn resolve_executable(&self, found: Option<String>) -> (r: Result<String, TtsError>)
        ensures
            match r {
                Ok(path) => match text_option(self.config().executable_path) {
                    Some(set) => path@ == set,
                    None => text_option(found) == Some(path@),
                },
                Err(TtsError::ConfigError(message)) => self.config().executable_path is None
                    && found is None && message@
                    == "找不到 index-tts 可执行文件，请设置 PATH 或配置 executable_path"@,
                Err(_) => false,
            },
    {
        match &self.cfg.executable_path {
            Some(path) => Ok(path.clone()),
            None => match found {
                Some(path) => Ok(path),
                None => Err(
                    TtsError::ConfigError(
                        "找不到 index-tts 可执行文件，请设置 PATH 或配置 executable_path".to_owned(),
                    ),
                ),
            },
        }
    }

    /// The arguments for a synthesis of `text`, into the file at `output`
    /// where one is given and into memory otherwise.
    pub fn synthesis_args(&self, text: &str, output: Option<&str>) -> (r: Vec<String>)
        ensures
            texts_of(r@) == synthesis_args_of(
                text_option(self.config().language),
                text_option(self.config().speaker),
                self.config().sample_rate,
                text@,
                match output {
                    Some(path) => Some(path@),
                    None => None,
                },
            ),
    {
        let mut args: Vec<String> = Vec::new();
        args.push("--text".to_owned());
        args.push(text.to_owned());
        match &self.cfg.language {
            Some(language) => {
                args.push("--language".to_owned());
                args.push(language.clone());
            },
            None => {},
        }
        match &self.cfg.speaker {
            Some(speaker) => {
                args.push("--speaker".to_owned());
                args.push(speaker.clone());
            },
            None => {},
        }
        args.push("--sample-rate".to_owned());
        args.push(decimal_string(self.cfg.sample_rate as u64));
        match output {
            Some(path) => {
                args.push("--output".to_owned());
                args.push(path.to_owned());
            },
            None => {},
        }
        args.push("--output-format".to_owned());
        args.push("wav".to_owned());
        assert(texts_of(args@) =~= synthesis_args_of(
            text_option(self.config().language),
            text_option(self.config().speaker),
            self.config().sample_rate,
            text@,
            match output {
                Some(path) => Some(path@),
                None => None,
            },
        ));
        args
    }

    /// The languages that the engine speaks.
    pub fn supported_languages(&self) -> (r: Vec<String>)
        ensures
            texts_of(r@) == seq!["zh"@, "en"@, "auto"@],
    {
        let mut languages: Vec<String> = Vec::new();
        languages.push("zh".to_owned());
        languages.push("en".to_owned());
        languages.push("auto".to_owned());
        assert(texts_of(languages@) =~= seq!["zh"@, "en"@, "auto"@]);
        languages
    }

    pub fn engine_type(&self) -> (r: TtsEngineType)
        ensures
            r == TtsEngineType::IndexTts,
    {
        TtsEngineType::IndexTts
    }
}

} // verus!
