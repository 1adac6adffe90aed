//! The decisions of a streaming transcription session. Two loops run beside
//! each other: one takes pushed audio into a bounded buffer, the other looks
//! at the buffer at intervals, decides whether there is speech worth a
//! recognition pass, and turns what the pass returns into events. The loops
//! themselves, their timers and the recognition are the caller's; here is what
//! they decide. Times are milliseconds on the caller's clock.

use vstd::prelude::*;
use vstd::string::*;
use vstd::utf8::encode_utf8;
use crate::aggregator::{AggregatorModel, StreamingAggregator};
use crate::buffer::{AudioBuffer, buffered_nanos};
use crate::error::SttError;
use crate::format::AudioConfig;
use crate::text::{trim, trimmed};
use crate::transcript::{TranscriptModel, TranscriptionResult};
use crate::vad::{SimpleVad, speech_segments};

verus! {

/// The number of samples after which the intake stops collecting and
/// writes what it has.
pub const MAX_BATCH_SIZE: usize = 8192;

/// The settings of a session. Durations are milliseconds; the threshold is
/// an amplitude of 16-bit samples.
#[derive(Debug, Clone, Copy, PartialEq, Eq, Structural)]
pub struct StreamingConfig {
    /// How much audio the buffer keeps.
    pub buffer_duration: u64,
    /// The time between two recognition passes.
    pub transcription_interval: u64,
    /// The least audio that is worth a pass.
    pub min_audio_length: u64,
    /// The most audio that is given to a pass.
    pub max_audio_length: u64,
    /// Whether silence is kept from the recogniser.
    pub enable_vad: bool,
    /// The amplitude above which audio counts as speech.
    pub vad_threshold: u16,
    /// The silence after which a stretch of speech is over.
    pub silence_timeout: u64,
    /// The number of passes that must agree before text is handed on; with
    /// one or none every result is handed on as it comes.
    pub local_agreement_n: usize,
    /// Whether the end of a stretch of speech makes the aggregator forget
    /// what it has seen and confirmed, so that the next stretch starts
    /// afresh. Otherwise the history carries across the silence.
    pub reset_on_silence: bool,
}

impl StreamingConfig {
    /// The settings that a session has unless others are given.
    pub open spec fn standard() -> StreamingConfig {
        StreamingConfig {
            buffer_duration: 5000,
            transcription_interval: 500,
            min_audio_length: 500,
            max_audio_length: 30000,
            enable_vad: true,
            vad_threshold: 164,
            silence_timeout: 2000,
            local_agreement_n: 3,
            reset_on_silence: false,
        }
    }
}

impl Default for StreamingConfig {
    fn default() -> (r: StreamingConfig)
        ensures
            r == StreamingConfig::standard(),
    {
        StreamingConfig {
            buffer_duration: 5000,
            transcription_interval: 500,
            min_audio_length: 500,
            max_audio_length: 30000,
            enable_vad: true,
            vad_threshold: 164,
            silence_timeout: 2000,
            local_agreement_n: 3,
            reset_on_silence: false,
        }
    }
}

/// What a session tells its listener, in the order in which it happens.
#[derive(Debug, Clone)]
pub enum StreamingEvent {
    Transcription(TranscriptionResult),
    SpeechStart,
    SpeechEnd,
    Silence,
    Error(String),
}

/// The view of a `StreamingEvent`.
pub enum EventModel {
    Transcription(TranscriptModel),
    SpeechStart,
    SpeechEnd,
    Silence,
    Error(Seq<char>),
}

impl View for StreamingEvent {
    type V = EventModel;

    open spec fn view(&self) -> EventModel {
        match self {
            StreamingEvent::Transcription(result) => EventModel::Transcription(result@),
            StreamingEvent::SpeechStart => EventModel::SpeechStart,
            StreamingEvent::SpeechEnd => EventModel::SpeechEnd,
            StreamingEvent::Silence => EventModel::Silence,
            StreamingEvent::Error(message) => EventModel::Error(message@),
        }
    }
}

/// The views of events.
pub open spec fn event_models(events: Seq<StreamingEvent>) -> Seq<EventModel> {
    Seq::new(events.len(), |i: int| events[i]@)
}

/// What a poll of the audio channel found.
pub enum Polled<T> {
    Chunk(Vec<T>),
    Empty,
    Disconnected,
}

/// What the intake does next.
#[derive(Debug, Clone, Copy, PartialEq, Eq, Structural)]
pub enum IngestAction {
    /// Poll the channel again at once.
    PollAgain,
    /// Write the batch into the buffer, then rest before the next round.
    Flush,
    /// End the intake; what was collected in this round is dropped.
    Stop,
}

/// The samples that the intake has collected in the present round.
pub struct IngestBatch<T> {
    batch: Vec<T>,
}

impl<T> View for IngestBatch<T> {
    type V = Seq<T>;

    closed spec fn view(&self) -> Seq<T> {
        self.batch@
    }
}

impl<T: Copy> IngestBatch<T> {
    /// An empty batch.
    pub fn new() -> (r: Self)
        ensures
            r@ == Seq::<T>::empty(),
    {
        IngestBatch { batch: Vec::new() }
    }

    /// Takes in what a poll of the channel found. A chunk joins the batch,
    /// and the batch is due once it holds `MAX_BATCH_SIZE` samples; an empty
    /// channel makes the batch due as it is; a closed channel ends the
    /// intake.
    pub fn on_polled(&mut self, polled: Polled<T>) -> (action: IngestAction)
        ensures
            match polled {
                Polled::Chunk(chunk) => {
                    &&& final(self)@ == old(self)@ + chunk@
                    &&& action == if old(self)@.len() + chunk@.len() >= MAX_BATCH_SIZE {
                        IngestAction::Flush
                    } else {
                        IngestAction::PollAgain
                    }
                },
                Polled::Empty => final(self)@ == old(self)@ && action == IngestAction::Flush,
                Polled::Disconnected => final(self)@ == Seq::<T>::empty() && action
                    == IngestAction::Stop,
            },
    {
        match polled {
            Polled::Chunk(chunk) => {
                let mut i: usize = 0;
                while i < chunk.len()
                    invariant
                        0 <= i <= chunk@.len(),
                        self.batch@ == old(self).batch@ + chunk@.take(i as int),
                    decreases chunk@.len() - i,
                {
                    self.batch.push(chunk[i]);
                    i += 1;
                    assert(self.batch@ =~= old(self).batch@ + chunk@.take(i as int));
                }
                assert(self.batch@ =~= old(self).batch@ + chunk@);
                if self.batch.len() >= MAX_BATCH_SIZE {
                    IngestAction::Flush
                } else {
                    IngestAction::PollAgain
                }
            },
            Polled::Empty => IngestAction::Flush,
            Polled::Disconnected => {
                self.batch = Vec::new();
                IngestAction::Stop
            },
        }
    }

    /// Writes the batch into the buffer and starts a new round.
    pub fn flush_into(&mut self, buffer: &mut AudioBuffer<T>)
        ensures
            final(self)@ == Seq::<T>::empty(),
            final(buffer)@ == crate::buffer::trailing_window(
                old(buffer)@ + old(self)@,
                old(buffer).capacity(),
            ),
            final(buffer).capacity() == old(buffer).capacity(),
            final(buffer).stream() == old(buffer).stream(),
    {
        buffer.push_samples(self.batch.as_slice());
        self.batch = Vec::new();
    }
}

/// The time from `since` to `now`, and none where `now` is the earlier.
pub open spec fn elapsed(now: u64, since: u64) -> nat {
    if now >= since {
        (now - since) as nat
    } else {
        0
    }
}

/// The number of nanoseconds in a millisecond.
pub const NANOS_PER_MILLI: u64 = 1_000_000;

/// Whether the detector finds speech in the samples: at least one segment
/// of speech among its windows.
pub open spec fn speech_present(vad: SimpleVad, samples: Seq<i16>) -> bool {
    speech_segments(samples, vad.window_width(), vad.threshold()).len() > 0
}

/// What the recognition loop does with a snapshot of the buffer.
#[derive(Debug, Clone, Copy, PartialEq, Eq, Structural)]
pub enum Verdict {
    /// Run a recognition pass on the snapshot. Where `speech_started`
    /// holds, speech has begun after silence and `SpeechStart` is sent
    /// first.
    Transcribe { speech_started: bool },
    /// The speech is over, silence having lasted longer than the timeout:
    /// send `SpeechEnd` and `Silence`, clear the buffer, and run no pass.
    EndOfSpeech,
    /// Nothing but silence: run no pass.
    Skip,
}

impl Verdict {
    /// The events that the verdict sends, in order.
    pub open spec fn event_models(self) -> Seq<EventModel> {
        match self {
            Verdict::Transcribe { speech_started } => if speech_started {
                seq![EventModel::SpeechStart]
            } else {
                Seq::empty()
            },
            Verdict::EndOfSpeech => seq![EventModel::SpeechEnd, EventModel::Silence],
            Verdict::Skip => Seq::empty(),
        }
    }

    /// The events that the verdict sends, in order.
    pub fn events(&self) -> (r: Vec<StreamingEvent>)
        ensures
            event_models(r@) == self.event_models(),
    {
        let mut out: Vec<StreamingEvent> = Vec::new();
        match self {
            Verdict::Transcribe { speech_started } => {
                if *speech_started {
                    out.push(StreamingEvent::SpeechStart);
                }
            },
            Verdict::EndOfSpeech => {
                out.push(StreamingEvent::SpeechEnd);
                out.push(StreamingEvent::Silence);
            },
            Verdict::Skip => {},
        }
        assert(event_models(out@) =~= self.event_models());
        out
    }

    /// Whether the buffer is cleared.
    pub fn clears_buffer(&self) -> (r: bool)
        ensures
            r == (*self == Verdict::EndOfSpeech),
    {
        match self {
            Verdict::EndOfSpeech => true,
            _ => false,
        }
    }

    /// Whether a recognition pass is run.
    pub fn transcribes(&self) -> (r: bool)
        ensures
            r == (*self is Transcribe),
    {
        match self {
            Verdict::Transcribe { .. } => true,
            _ => false,
        }
    }
}

/// What the recognition loop holds between two ticks.
pub struct RecognitionModel {
    pub config: StreamingConfig,
    pub vad: Option<SimpleVad>,
    pub last_transcription: u64,
    pub speech_detected: bool,
    pub last_speech_time: u64,
    pub aggregator: AggregatorModel,
}

/// A result cut down to the text that is handed on: the segments are left
/// out, the rest is kept.
pub open spec fn handed_on(result: TranscriptModel, text: Seq<char>) -> TranscriptModel {
    TranscriptModel {
        text,
        language: result.language,
        segments: Seq::empty(),
        processing_time: result.processing_time,
        audio_duration: result.audio_duration,
    }
}

impl RecognitionModel {
    /// The loop of a session that starts at `now`.
    pub open spec fn started(config: StreamingConfig, vad: Option<SimpleVad>, now: u64) -> Self {
        RecognitionModel {
            config,
            vad,
            last_transcription: now,
            speech_detected: false,
            last_speech_time: now,
            aggregator: AggregatorModel::fresh(config.local_agreement_n as nat),
        }
    }

    /// Whether a pass is due at `now` with `buffered` nanoseconds of audio
    /// in the buffer: the interval since the last pass is over and the
    /// buffer holds the least length.
    pub open spec fn due(self, now: u64, buffered: nat) -> bool {
        elapsed(now, self.last_transcription) >= self.config.transcription_interval && buffered
            >= self.config.min_audio_length * 1_000_000
    }

    /// Whether texts are handed on as they come, without agreement.
    pub open spec fn direct(self) -> bool {
        self.config.local_agreement_n <= 1
    }

    /// What is done with a snapshot taken at `now`.
    pub open spec fn verdict(self, now: u64, samples: Seq<i16>) -> Verdict {
        match self.vad {
            None => Verdict::Transcribe { speech_started: false },
            Some(vad) => if speech_present(vad, samples) {
                Verdict::Transcribe { speech_started: !self.speech_detected }
            } else if !self.speech_detected {
                Verdict::Skip
            } else if elapsed(now, self.last_speech_time) > self.config.silence_timeout {
                Verdict::EndOfSpeech
            } else {
                Verdict::Transcribe { speech_started: false }
            },
        }
    }

    /// The loop after a snapshot taken at `now`.
    pub open spec fn after_snapshot(self, now: u64, samples: Seq<i16>) -> Self {
        match self.vad {
            None => self,
            Some(vad) => if speech_present(vad, samples) {
                RecognitionModel { speech_detected: true, last_speech_time: now, ..self }
            } else if self.verdict(now, samples) == Verdict::EndOfSpeech {
                RecognitionModel {
                    speech_detected: false,
                    aggregator: if self.config.reset_on_silence {
                        AggregatorModel::fresh(self.config.local_agreement_n as nat)
                    } else {
                        self.aggregator
                    },
                    ..self
                }
            } else {
                self
            },
        }
    }

    /// The event that the outcome of a pass is turned into. A failure is
    /// reported. A result without text is passed over. Otherwise its text,
    /// without the whitespace at its ends, is handed on as it is where texts
    /// are handed on directly, and else goes to the aggregator, of which only
    /// the newly confirmed text is handed on.
    pub open spec fn pass_event(self, outcome: Result<TranscriptModel, Seq<char>>) -> Option<
        EventModel,
    > {
        match outcome {
            Err(message) => Some(EventModel::Error(message)),
            Ok(result) => {
                let text = trimmed(result.text);
                if text.len() == 0 {
                    None
                } else if self.direct() {
                    Some(EventModel::Transcription(handed_on(result, text)))
                } else {
                    match self.aggregator.emits(encode_utf8(text)) {
                        Some(delta) => Some(EventModel::Transcription(handed_on(result, delta))),
                        None => None,
                    }
                }
            },
        }
    }

    /// The loop after a pass that was begun at `now`.
    pub open spec fn after_pass(self, now: u64, outcome: Result<TranscriptModel, Seq<char>>) -> Self {
        let aggregator = match outcome {
            Ok(result) => if trimmed(result.text).len() > 0 && !self.direct() {
                self.aggregator.push(encode_utf8(trimmed(result.text)))
            } else {
                self.aggregator
            },
            Err(_) => self.aggregator,
        };
        RecognitionModel { last_transcription: now, aggregator, ..self }
    }
}

/// The view of the outcome of a pass.
pub open spec fn outcome_model(outcome: Result<TranscriptionResult, String>) -> Result<
    TranscriptModel,
    Seq<char>,
> {
    match outcome {
        Ok(result) => Ok(result@),
        Err(message) => Err(message@),
    }
}

/// The view of an optional event.
pub open spec fn event_option(event: Option<StreamingEvent>) -> Option<EventModel> {
    match event {
        Some(e) => Some(e@),
        None => None,
    }
}

/// Where texts are handed on directly, every result with text gives exactly
/// one event, which carries that text without the whitespace at its ends,
/// so the very text where it has none there; and the aggregator is left
/// alone.
pub proof fn lemma_direct_hands_on_every_text(
    state: RecognitionModel,
    now: u64,
    result: TranscriptModel,
)
    requires
        state.direct(),
        trimmed(result.text).len() > 0,
    ensures
        state.pass_event(Ok(result)) == Some(
            EventModel::Transcription(handed_on(result, trimmed(result.text))),
        ),
        trimmed(result.text) == result.text ==> state.pass_event(Ok(result)) == Some(
            EventModel::Transcription(handed_on(result, result.text)),
        ),
        state.after_pass(now, Ok(result)).aggregator == state.aggregator,
{
}

/// A failed pass is reported and changes nothing but the time of the last
/// pass: the session goes on.
pub proof fn lemma_failure_is_reported(state: RecognitionModel, now: u64, message: Seq<char>)
    ensures
        state.pass_event(Err(message)) == Some(EventModel::Error(message)),
        state.after_pass(now, Err(message)) == (RecognitionModel {
            last_transcription: now,
            ..state
        }),
{
}

/// The start of speech is announced exactly when speech begins, and its
/// end exactly when it is over: between a `SpeechStart` and the `SpeechEnd`
/// that follows it speech is held to go on, and outside of them it is not.
/// A snapshot without a pass leaves the time of the last pass as it was.
pub proof fn lemma_speech_is_bracketed(state: RecognitionModel, now: u64, samples: Seq<i16>)
    ensures
        ({
            let verdict = state.verdict(now, samples);
            let after = state.after_snapshot(now, samples);
            &&& verdict == (Verdict::Transcribe { speech_started: true }) <==> !state.speech_detected
                && after.speech_detected
            &&& verdict == Verdict::EndOfSpeech <==> state.speech_detected
                && !after.speech_detected
            &&& verdict == Verdict::Skip ==> !after.speech_detected
            &&& verdict.event_models().len() > 0 <==> state.speech_detected
                != after.speech_detected
            &&& after.last_transcription == state.last_transcription
            &&& after.config == state.config
            &&& after.vad == state.vad
        }),
{
}

/// The state of the recognition loop of a session.
pub struct RecognitionLoop {
    config: StreamingConfig,
    vad: Option<SimpleVad>,
    last_transcription: u64,
    speech_detected: bool,
    last_speech_time: u64,
    aggregator: StreamingAggregator,
}

impl View for RecognitionLoop {
    type V = RecognitionModel;

    closed spec fn view(&self) -> RecognitionModel {
        RecognitionModel {
            config: self.config,
            vad: self.vad,
            last_transcription: self.last_transcription,
            speech_detected: self.speech_detected,
            last_speech_time: self.last_speech_time,
            aggregator: self.aggregator@,
        }
    }
}

/// The time from `since` to `now`, and none where `now` is the earlier.
fn time_since(now: u64, since: u64) -> (r: u64)
    ensures
        r == elapsed(now, since),
{
    if now >= since {
        now - since
    } else {
        0
    }
}

/// Whether the detector finds speech in the samples.
fn hears_speech(vad: &SimpleVad, samples: &[i16]) -> (r: bool)
    ensures
        r == speech_present(*vad, samples@),
{
    vad.detect_speech_segments(samples).len() > 0
}

impl RecognitionLoop {
    /// The loop of a session that starts at `now`.
    pub fn new(config: StreamingConfig, vad: Option<SimpleVad>, now: u64) -> (r: Self)
        ensures
            r@ == RecognitionModel::started(config, vad, now),
    {
        RecognitionLoop {
            config,
            vad,
            last_transcription: now,
            speech_detected: false,
            last_speech_time: now,
            aggregator: StreamingAggregator::new(config.local_agreement_n),
        }
    }

    /// A copy of the buffer's content where a pass is due at `now` and the
    /// buffer is not empty, and nothing otherwise.
    pub fn snapshot_if_due<T: Copy>(&self, now: u64, buffer: &AudioBuffer<T>) -> (r: Option<Vec<T>>)
        ensures
            match r {
                Some(samples) => samples@ == buffer@ && buffer@.len() > 0 && self@.due(
                    now,
                    buffered_nanos(buffer@.len(), buffer.stream().sample_rate),
                ),
                None => buffer@.len() == 0 || !self@.due(
                    now,
                    buffered_nanos(buffer@.len(), buffer.stream().sample_rate),
                ),
            },
    {
        if time_since(now, self.last_transcription) < self.config.transcription_interval {
            return None;
        }
        if (buffer.duration() as u128) < (self.config.min_audio_length as u128) * (
        NANOS_PER_MILLI as u128) {
            return None;
        }
        if buffer.is_empty() {
            return None;
        }
        Some(buffer.get_all_samples())
    }

    /// Decides what is done with a snapshot of the buffer taken at `now`.
    pub fn on_snapshot(&mut self, now: u64, samples: &[i16]) -> (verdict: Verdict)
        ensures
            verdict == old(self)@.verdict(now, samples@),
            final(self)@ == old(self)@.after_snapshot(now, samples@),
    {
        match self.vad {
            None => Verdict::Transcribe { speech_started: false },
            Some(vad) => {
                if hears_speech(&vad, samples) {
                    let speech_started = !self.speech_detected;
                    self.speech_detected = true;
                    self.last_speech_time = now;
                    Verdict::Transcribe { speech_started }
                } else if !self.speech_detected {
                    Verdict::Skip
                } else if time_since(now, self.last_speech_time) > self.config.silence_timeout {
                    self.speech_detected = false;
                    if self.config.reset_on_silence {
                        self.aggregator = StreamingAggregator::new(self.config.local_agreement_n);
                    }
                    Verdict::EndOfSpeech
                } else {
                    Verdict::Transcribe { speech_started: false }
                }
            },
        }
    }

    /// Takes in the outcome of the pass that was begun at `now` and returns
    /// the event to send, if any.
    pub fn on_transcribed(&mut self, now: u64, outcome: Result<TranscriptionResult, String>) -> (event:
        Option<StreamingEvent>)
        ensures
            event_option(event) == old(self)@.pass_event(outcome_model(outcome)),
            final(self)@ == old(self)@.after_pass(now, outcome_model(outcome)),
    {
        self.last_transcription = now;
        match outcome {
            Err(message) => Some(StreamingEvent::Error(message)),
            Ok(result) => {
                let text = trim(result.text.as_str());
                if text.is_empty() {
                    None
                } else if self.config.local_agreement_n <= 1 {
                    let direct = TranscriptionResult {
                        text: text.to_owned(),
                        language: result.language,
                        segments: Vec::new(),
                        processing_time: result.processing_time,
                        audio_duration: result.audio_duration,
                    };
                    assert(direct@.segments =~= Seq::empty());
                    Some(StreamingEvent::Transcription(direct))
                } else {
                    match self.aggregator.push_and_confirm(text) {
                        Some(delta) => {
                            let confirmed = TranscriptionResult {
                                text: delta,
                                language: result.language,
                                segments: Vec::new(),
                                processing_time: result.processing_time,
                                audio_duration: result.audio_duration,
                            };
                            assert(confirmed@.segments =~= Seq::empty());
                            Some(StreamingEvent::Transcription(confirmed))
                        },
                        None => None,
                    }
                }
            },
        }
    }

    /// Whether speech is going on.
    pub fn speech_detected(&self) -> (r: bool)
        ensures
            r == self@.speech_detected,
    {
        self.speech_detected
    }
}

/// Where a session stands. It is started once and stopped once.
#[derive(Debug, Clone, Copy, PartialEq, Eq, Structural)]
pub enum SessionPhase {
    Idle,
    Running,
    Stopped,
}

/// The settings and the standing of a streaming session. The detector is
/// always there, made for the threshold of the settings and the sample rate
/// of the audio; it is used where the settings ask for it.
pub struct StreamingSession {
    config: StreamingConfig,
    audio_config: AudioConfig,
    detector: SimpleVad,
    phase: SessionPhase,
}

/// The view of a `StreamingSession`.
pub struct SessionModel {
    pub config: StreamingConfig,
    pub audio_config: AudioConfig,
    pub detector: SimpleVad,
    pub phase: SessionPhase,
}

impl SessionModel {
    /// The detector that the recognition loop uses, where the settings ask
    /// for one.
    pub open spec fn vad(self) -> Option<SimpleVad> {
        if self.config.enable_vad {
            Some(self.detector)
        } else {
            None
        }
    }
}

impl View for StreamingSession {
    type V = SessionModel;

    closed spec fn view(&self) -> SessionModel {
        SessionModel {
            config: self.config,
            audio_config: self.audio_config,
            detector: self.detector,
            phase: self.phase,
        }
    }
}

impl StreamingSession {
    /// A session that has not been started. Settings that no detector can
    /// be made for are refused, whether or not a detector is asked for: a
    /// sample rate of zero first, then a threshold above the largest
    /// amplitude.
    pub fn new(config: StreamingConfig, audio_config: AudioConfig) -> (r: Result<Self, SttError>)
        ensures
            match r {
                Ok(session) => {
                    &&& audio_config.sample_rate > 0
                    &&& config.vad_threshold <= 32768
                    &&& session@.config == config
                    &&& session@.audio_config == audio_config
                    &&& session@.phase == SessionPhase::Idle
                    &&& session@.detector.is_for(config.vad_threshold, audio_config.sample_rate)
                },
                Err(SttError::ConfigError(message)) => if audio_config.sample_rate == 0 {
                    message@ == "采样率不能为零"@
                } else {
                    config.vad_threshold > 32768 && message@ == "VAD阈值必须在0.0-1.0之间"@
                },
                Err(_) => false,
            },
    {
        match SimpleVad::new_with_sample_rate(config.vad_threshold, audio_config.sample_rate) {
            Ok(detector) => Ok(
                StreamingSession { config, audio_config, detector, phase: SessionPhase::Idle },
            ),
            Err(e) => Err(e),
        }
    }

    /// Switches the detector on or off. Nothing else changes.
    pub fn set_vad_enabled(&mut self, enabled: bool)
        ensures
            final(self)@ == (SessionModel {
                config: StreamingConfig { enable_vad: enabled, ..old(self)@.config },
                ..old(self)@
            }),
    {
        self.config.enable_vad = enabled;
    }

    /// Sets the threshold of the settings and of the detector. A threshold
    /// that no detector can be made for is refused, and the session stays
    /// as it was.
    pub fn set_vad_threshold(&mut self, threshold: u16) -> (r: Result<(), SttError>)
        ensures
            final(self)@.audio_config == old(self)@.audio_config,
            final(self)@.phase == old(self)@.phase,
            match r {
                Ok(_) => {
                    &&& old(self)@.audio_config.sample_rate > 0
                    &&& threshold <= 32768
                    &&& final(self)@.config == (StreamingConfig {
                        vad_threshold: threshold,
                        ..old(self)@.config
                    })
                    &&& final(self)@.detector.is_for(threshold, old(self)@.audio_config.sample_rate)
                },
                Err(SttError::ConfigError(message)) => {
                    &&& final(self)@ == old(self)@
                    &&& if old(self)@.audio_config.sample_rate == 0 {
                        message@ == "采样率不能为零"@
                    } else {
                        threshold > 32768 && message@ == "VAD阈值必须在0.0-1.0之间"@
                    }
                },
                Err(_) => false,
            },
    {
        match SimpleVad::new_with_sample_rate(threshold, self.audio_config.sample_rate) {
            Ok(detector) => {
                self.config.vad_threshold = threshold;
                self.detector = detector;
                Ok(())
            },
            Err(e) => Err(e),
        }
    }

    /// Whether the detector is used.
    pub fn is_vad_enabled(&self) -> (r: bool)
        ensures
            r == (self@.vad() is Some),
    {
        self.config.enable_vad
    }

    /// Whether the session has been started and not stopped.
    pub fn is_running(&self) -> (r: bool)
        ensures
            r == (self@.phase == SessionPhase::Running),
    {
        match self.phase {
            SessionPhase::Running => true,
            _ => false,
        }
    }

    /// An empty buffer for the audio of the session.
    pub fn new_buffer<T: Copy>(&self) -> (r: AudioBuffer<T>)
        ensures
            r@ == Seq::<T>::empty(),
            r.stream() == self@.audio_config,
            r.capacity() == if crate::buffer::samples_in(
                self@.audio_config.sample_rate,
                self@.config.buffer_duration,
            ) <= usize::MAX {
                crate::buffer::samples_in(
                    self@.audio_config.sample_rate,
                    self@.config.buffer_duration,
                )
            } else {
                usize::MAX as nat
            },
    {
        AudioBuffer::new(self.audio_config, self.config.buffer_duration)
    }

    /// Starts a session that is idle, at `now`, and returns the state of
    /// its recognition loop. A session that runs or has been stopped is not
    /// started again.
    pub fn start(&mut self, now: u64) -> (r: Result<RecognitionLoop, SttError>)
        ensures
            final(self)@.config == old(self)@.config,
            final(self)@.audio_config == old(self)@.audio_config,
            final(self)@.detector == old(self)@.detector,
            match r {
                Ok(state) => old(self)@.phase == SessionPhase::Idle && final(self)@.phase
                    == SessionPhase::Running && state@ == RecognitionModel::started(
                    old(self)@.config,
                    old(self)@.vad(),
                    now,
                ),
                Err(SttError::StreamError(message)) => old(self)@.phase != SessionPhase::Idle
                    && final(self)@.phase == old(self)@.phase && message@ == "会话已启动或已停止"@,
                Err(_) => false,
            },
    {
        match self.phase {
            SessionPhase::Idle => {
                self.phase = SessionPhase::Running;
                let vad = if self.config.enable_vad {
                    Some(self.detector)
                } else {
                    None
                };
                Ok(RecognitionLoop::new(self.config, vad, now))
            },
            _ => Err(SttError::StreamError("会话已启动或已停止".to_owned())),
        }
    }

    /// Stops a session that runs. Nothing else changes.
    pub fn stop(&mut self)
        ensures
            final(self)@ == (SessionModel {
                phase: if old(self)@.phase == SessionPhase::Running {
                    SessionPhase::Stopped
                } else {
                    old(self)@.phase
                },
                ..old(self)@
            }),
    {
        match self.phase {
            SessionPhase::Running => {
                self.phase = SessionPhase::Stopped;
            },
            _ => {},
        }
    }

    /// Whether audio may be pushed: only into a session that runs.
    pub fn check_push(&self) -> (r: Result<(), SttError>)
        ensures
            match r {
                Ok(_) => self@.phase == SessionPhase::Running,
                Err(SttError::Other(message)) => self@.phase != SessionPhase::Running && message@
                    == "转录器未运行"@,
                Err(_) => false,
            },
    {
        match self.phase {
            SessionPhase::Running => Ok(()),
            _ => Err(SttError::other("转录器未运行")),
        }
    }
}

} // verus!
