//! What a recognition pass returns: the text, its segments with their times
//! and confidences, and how long the pass and the audio were.

use vstd::prelude::*;
use vstd::string::*;
use crate::text::{trim, trimmed};

verus! {

/// One part per million: the unit of a confidence. A confidence of
/// 1000000 is certainty.
pub const CONFIDENCE_ONE: u32 = 1_000_000;

/// A stretch of recognised text. Times are milliseconds, the confidence is
/// in parts per million.
#[derive(Debug, Clone)]
pub struct TranscriptionSegment {
    pub start_time: u64,
    pub end_time: u64,
    pub text: String,
    pub confidence: u32,
}

/// The view of a `TranscriptionSegment`.
pub struct SegmentModel {
    pub start_time: u64,
    pub end_time: u64,
    pub text: Seq<char>,
    pub confidence: u32,
}

impl View for TranscriptionSegment {
    type V = SegmentModel;

    open spec fn view(&self) -> SegmentModel {
        SegmentModel {
            start_time: self.start_time,
            end_time: self.end_time,
            text: self.text@,
            confidence: self.confidence,
        }
    }
}

/// The result of a recognition pass. Times are milliseconds.
#[derive(Debug, Clone)]
pub struct TranscriptionResult {
    pub text: String,
    pub language: Option<String>,
    pub segments: Vec<TranscriptionSegment>,
    pub processing_time: u64,
    pub audio_duration: u64,
}

/// The view of a `TranscriptionResult`.
pub struct TranscriptModel {
    pub text: Seq<char>,
    pub language: Option<Seq<char>>,
    pub segments: Seq<SegmentModel>,
    pub processing_time: u64,
    pub audio_duration: u64,
}

/// The view of an optional text.
pub open spec fn text_option(s: Option<String>) -> Option<Seq<char>> {
    match s {
        Some(text) => Some(text@),
        None => None,
    }
}

/// The views of segments.
pub open spec fn segment_models(segments: Seq<TranscriptionSegment>) -> Seq<SegmentModel> {
    Seq::new(segments.len(), |i: int| segments[i]@)
}

impl View for TranscriptionResult {
    type V = TranscriptModel;

    open spec fn view(&self) -> TranscriptModel {
        TranscriptModel {
            text: self.text@,
            language: text_option(self.language),
            segments: segment_models(self.segments@),
            processing_time: self.processing_time,
            audio_duration: self.audio_duration,
        }
    }
}

/// The segments whose confidence is `min` at least, in their order.
pub open spec fn confident(segments: Seq<SegmentModel>, min: u32) -> Seq<SegmentModel>
    decreases segments.len(),
{
    if segments.len() == 0 {
        Seq::empty()
    } else {
        let before = confident(segments.drop_last(), min);
        if segments.last().confidence >= min {
            before.push(segments.last())
        } else {
            before
        }
    }
}

/// The texts of the segments with one blank between each two.
pub open spec fn joined_texts(segments: Seq<SegmentModel>) -> Seq<char>
    decreases segments.len(),
{
    if segments.len() == 0 {
        Seq::empty()
    } else if segments.len() == 1 {
        segments[0].text
    } else {
        joined_texts(segments.drop_last()) + " "@ + segments.last().text
    }
}

/// The sum of the confidences of the segments.
pub open spec fn confidence_sum(segments: Seq<SegmentModel>) -> nat
    decreases segments.len(),
{
    if segments.len() == 0 {
        0
    } else {
        confidence_sum(segments.drop_last()) + segments.last().confidence as nat
    }
}

/// A copy of a segment.
fn copy_segment(segment: &TranscriptionSegment) -> (r: TranscriptionSegment)
    ensures
        r@ == segment@,
{
    TranscriptionSegment {
        start_time: segment.start_time,
        end_time: segment.end_time,
        text: segment.text.clone(),
        confidence: segment.confidence,
    }
}

/// A copy of an optional text.
pub fn copy_text(text: &Option<String>) -> (r: Option<String>)
    ensures
        text_option(r) == text_option(*text),
{
    match text {
        Some(t) => Some(t.clone()),
        None => None,
    }
}

/// The texts of the segments with one blank between each two.
fn join_texts(segments: &Vec<TranscriptionSegment>) -> (r: String)
    ensures
        r@ == joined_texts(segment_models(segments@)),
{
    let ghost all = segment_models(segments@);
    let mut text = String::new();
    let mut i: usize = 0;
    while i < segments.len()
        invariant
            0 <= i <= segments@.len(),
            all == segment_models(segments@),
            text@ == joined_texts(all.take(i as int)),
        decreases segments@.len() - i,
    {
        proof {
            assert(all.take(i as int + 1).drop_last() =~= all.take(i as int));
            assert(all.take(i as int + 1).last() == segments@[i as int]@);
            if i == 1 {
                assert(all.take(1).drop_last() =~= Seq::<SegmentModel>::empty());
            }
        }
        if i > 0 {
            text.append(" ");
        }
        text.append(segments[i].text.as_str());
        proof {
            if i == 0 {
                assert(text@ =~= segments@[0]@.text);
            }
        }
        i += 1;
    }
    assert(all.take(segments@.len() as int) =~= all);
    text
}

/// The probabilities that are there, in their order.
pub open spec fn present(probabilities: Seq<Option<u32>>) -> Seq<u32>
    decreases probabilities.len(),
{
    if probabilities.len() == 0 {
        Seq::empty()
    } else {
        let before = present(probabilities.drop_last());
        match probabilities.last() {
            Some(p) => before.push(p),
            None => before,
        }
    }
}

/// The sum of the probabilities.
pub open spec fn total(probabilities: Seq<u32>) -> nat
    decreases probabilities.len(),
{
    if probabilities.len() == 0 {
        0
    } else {
        total(probabilities.drop_last()) + probabilities.last() as nat
    }
}

/// The confidence of a segment with these tokens, of which some may have
/// no probability: none for a segment without tokens, a half where no token
/// has a probability, and else the mean of the probabilities that are
/// there, rounded down.
pub open spec fn confidence_of(probabilities: Seq<Option<u32>>) -> nat {
    if probabilities.len() == 0 {
        0
    } else if present(probabilities).len() == 0 {
        500_000
    } else {
        total(present(probabilities)) / present(probabilities).len()
    }
}

/// The confidence of a segment from the probabilities of its tokens, all
/// in parts per million.
pub fn segment_confidence(probabilities: &Vec<Option<u32>>) -> (r: u32)
    ensures
        r == confidence_of(probabilities@),
{
    let count = probabilities.len();
    if count == 0 {
        return 0;
    }
    let mut sum: u128 = 0;
    let mut valid: usize = 0;
    let mut i: usize = 0;
    while i < count
        invariant
            0 <= i <= count,
            count == probabilities@.len(),
            valid == present(probabilities@.take(i as int)).len(),
            valid <= i,
            sum == total(present(probabilities@.take(i as int))),
            sum <= valid * 0xffff_ffff,
        decreases count - i,
    {
        proof {
            assert(probabilities@.take(i as int + 1).drop_last() =~= probabilities@.take(i as int));
            let grown = present(probabilities@.take(i as int + 1));
            if probabilities@[i as int] is Some {
                assert(grown.drop_last() =~= present(probabilities@.take(i as int)));
            }
        }
        match probabilities[i] {
            Some(p) => {
                sum = sum + p as u128;
                valid += 1;
            },
            None => {},
        }
        i += 1;
    }
    assert(probabilities@.take(count as int) =~= probabilities@);
    if valid == 0 {
        500_000
    } else {
        let mean: u128 = sum / (valid as u128);
        assert(mean <= 0xffff_ffff) by (nonlinear_arith)
            requires
                mean == sum / (valid as u128),
                sum <= valid * 0xffff_ffff,
                valid > 0,
        ;
        mean as u32
    }
}

impl TranscriptionResult {
    /// The time of the pass for each thousand of the time of the audio,
    /// rounded down and capped at `u64::MAX`; zero for audio of no length.
    /// Below 1000 the pass is faster than the audio.
    pub fn real_time_factor(&self) -> (r: u64)
        ensures
            r == if self.audio_duration == 0 {
                0
            } else if self.processing_time * 1000 / self.audio_duration as int > u64::MAX {
                u64::MAX as int
            } else {
                self.processing_time * 1000 / self.audio_duration as int
            },
    {
        if self.audio_duration == 0 {
            return 0;
        }
        let wide: u128 = (self.processing_time as u128) * 1000 / (self.audio_duration as u128);
        if wide > u64::MAX as u128 {
            u64::MAX
        } else {
            wide as u64
        }
    }

    /// The mean of the confidences of the segments, rounded down, and zero
    /// where there are no segments.
    pub fn average_confidence(&self) -> (r: u32)
        ensures
            r == if self.segments@.len() == 0 {
                0
            } else {
                confidence_sum(self@.segments) / self.segments@.len()
            },
    {
        let count = self.segments.len();
        if count == 0 {
            return 0;
        }
        let ghost all = segment_models(self.segments@);
        let mut sum: u128 = 0;
        let mut i: usize = 0;
        while i < count
            invariant
                0 <= i <= count,
                count == self.segments@.len(),
                all == segment_models(self.segments@),
                sum == confidence_sum(all.take(i as int)),
                sum <= i * 0xffff_ffff,
            decreases count - i,
        {
            proof {
                assert(all.take(i as int + 1).drop_last() =~= all.take(i as int));
                assert(all.take(i as int + 1).last() == self.segments@[i as int]@);
            }
            sum = sum + self.segments[i].confidence as u128;
            i += 1;
        }
        assert(all.take(count as int) =~= all);
        let mean: u128 = sum / (count as u128);
        assert(mean <= 0xffff_ffff) by (nonlinear_arith)
            requires
                mean == sum / (count as u128),
                sum <= count * 0xffff_ffff,
                count > 0,
        ;
        mean as u32
    }

    /// The result with only the segments whose confidence is
    /// `min_confidence` at least, and with their texts as its text.
    pub fn filter_by_confidence(&self, min_confidence: u32) -> (r: TranscriptionResult)
        ensures
            r@ == (TranscriptModel {
                text: joined_texts(confident(self@.segments, min_confidence)),
                segments: confident(self@.segments, min_confidence),
                ..self@
            }),
    {
        let ghost all = segment_models(self.segments@);
        let mut kept: Vec<TranscriptionSegment> = Vec::new();
        let mut i: usize = 0;
        while i < self.segments.len()
            invariant
                0 <= i <= self.segments@.len(),
                all == segment_models(self.segments@),
                segment_models(kept@) == confident(all.take(i as int), min_confidence),
            decreases self.segments@.len() - i,
        {
            proof {
                assert(all.take(i as int + 1).drop_last() =~= all.take(i as int));
                assert(all.take(i as int + 1).last() == self.segments@[i as int]@);
            }
            let ghost before = kept@;
            if self.segments[i].confidence >= min_confidence {
                kept.push(copy_segment(&self.segments[i]));
                assert(segment_models(kept@) =~= segment_models(before).push(
                    self.segments@[i as int]@,
                ));
            }
            i += 1;
        }
        assert(all.take(self.segments@.len() as int) =~= all);
        let text = join_texts(&kept);
        TranscriptionResult {
            text,
            language: copy_text(&self.language),
            segments: kept,
            processing_time: self.processing_time,
            audio_duration: self.audio_duration,
        }
    }
}

/// A segment as the recogniser reports it. Times are hundredths of a
/// second, the confidence is in parts per million.
#[derive(Debug, Clone)]
pub struct RawSegment {
    pub text: String,
    pub start: u64,
    pub end: u64,
    pub confidence: u32,
}

/// The view of a `RawSegment`.
pub struct RawModel {
    pub text: Seq<char>,
    pub start: u64,
    pub end: u64,
    pub confidence: u32,
}

impl View for RawSegment {
    type V = RawModel;

    open spec fn view(&self) -> RawModel {
        RawModel { text: self.text@, start: self.start, end: self.end, confidence: self.confidence }
    }
}

/// The views of raw segments.
pub open spec fn raw_models(raw: Seq<RawSegment>) -> Seq<RawModel> {
    Seq::new(raw.len(), |i: int| raw[i]@)
}

/// Whether the times of the raw segments can be told in milliseconds.
pub open spec fn times_fit(raw: Seq<RawModel>) -> bool {
    forall|i: int| 0 <= i < raw.len() ==> (#[trigger] raw[i]).start * 10 <= u64::MAX && raw[i].end
        * 10 <= u64::MAX
}

/// The segments that raw segments come to: those without text are left
/// out, the text of the others loses the whitespace at its ends, and
/// their times are told in milliseconds.
pub open spec fn refined(raw: Seq<RawModel>) -> Seq<SegmentModel>
    decreases raw.len(),
{
    if raw.len() == 0 {
        Seq::empty()
    } else {
        let before = refined(raw.drop_last());
        let last = raw.last();
        if trimmed(last.text).len() == 0 {
            before
        } else {
            before.push(
                SegmentModel {
                    start_time: (last.start * 10) as u64,
                    end_time: (last.end * 10) as u64,
                    text: trimmed(last.text),
                    confidence: last.confidence,
                },
            )
        }
    }
}

/// Puts the result of a pass together from the segments that the
/// recogniser reports.
pub fn assemble_result(
    raw: &Vec<RawSegment>,
    language: Option<String>,
    processing_time: u64,
    audio_duration: u64,
) -> (r: TranscriptionResult)
    requires
        times_fit(raw_models(raw@)),
    ensures
        r@ == (TranscriptModel {
            text: joined_texts(refined(raw_models(raw@))),
            language: text_option(language),
            segments: refined(raw_models(raw@)),
            processing_time,
            audio_duration,
        }),
{
    let ghost all = raw_models(raw@);
    let mut segments: Vec<TranscriptionSegment> = Vec::new();
    let mut i: usize = 0;
    while i < raw.len()
        invariant
            0 <= i <= raw@.len(),
            all == raw_models(raw@),
            times_fit(all),
            segment_models(segments@) == refined(all.take(i as int)),
        decreases raw@.len() - i,
    {
        proof {
            assert(all.take(i as int + 1).drop_last() =~= all.take(i as int));
            assert(all.take(i as int + 1).last() == raw@[i as int]@);
            assert(all[i as int] == raw@[i as int]@);
        }
        let ghost before = segments@;
        let text = trim(raw[i].text.as_str());
        if !text.is_empty() {
            let segment = TranscriptionSegment {
                start_time: raw[i].start * 10,
                end_time: raw[i].end * 10,
                text: text.to_owned(),
                confidence: raw[i].confidence,
            };
            segments.push(segment);
            assert(segment_models(segments@) =~= segment_models(before).push(segment@));
        }
        i += 1;
    }
    assert(all.take(raw@.len() as int) =~= all);
    let text = join_texts(&segments);
    TranscriptionResult { text, language, segments, processing_time, audio_duration }
}

/// What is done with audio in which segments of speech were looked for.
#[derive(Debug, Clone, Copy, PartialEq, Eq, Structural)]
pub enum PassPlan {
    /// There is no speech: the result is empty and no pass is run.
    Skip,
    /// A pass is run on the samples from `start` on, and `offset_ms`
    /// milliseconds are added to the times that it reports.
    Run { start: usize, offset_ms: u64 },
}

/// The time in whole milliseconds at which sample number `start` stands,
/// capped at `u64::MAX`, which it also is at a sample rate of zero.
pub open spec fn offset_millis(start: usize, sample_rate: u32) -> u64 {
    if start == 0 {
        0
    } else if sample_rate == 0 || start * 1000 / sample_rate as int > u64::MAX {
        u64::MAX
    } else {
        (start * 1000 / sample_rate as int) as u64
    }
}

/// Decides what is done with audio in which these segments of speech were
/// found: without speech nothing, else a pass from the start of the first
/// segment on.
pub fn plan_pass(segments: &Vec<(usize, usize)>, sample_rate: u32) -> (r: PassPlan)
    ensures
        r == if segments@.len() == 0 {
            PassPlan::Skip
        } else {
            PassPlan::Run {
                start: segments@[0].0,
                offset_ms: offset_millis(segments@[0].0, sample_rate),
            }
        },
{
    if segments.len() == 0 {
        return PassPlan::Skip;
    }
    let start = segments[0].0;
    let offset_ms: u64 = if start == 0 {
        0
    } else if sample_rate == 0 {
        u64::MAX
    } else {
        let wide: u128 = (start as u128) * 1000 / (sample_rate as u128);
        if wide > u64::MAX as u128 {
            u64::MAX
        } else {
            wide as u64
        }
    };
    PassPlan::Run { start, offset_ms }
}

/// Whether `offset` can be added to the times of the segments.
pub open spec fn shift_fits(segments: Seq<SegmentModel>, offset: u64) -> bool {
    forall|i: int| 0 <= i < segments.len() ==> (#[trigger] segments[i]).start_time + offset
        <= u64::MAX && segments[i].end_time + offset <= u64::MAX
}

/// The segments with `offset` added to their times.
pub open spec fn shifted(segments: Seq<SegmentModel>, offset: u64) -> Seq<SegmentModel> {
    Seq::new(
        segments.len(),
        |i: int|
            SegmentModel {
                start_time: (segments[i].start_time + offset) as u64,
                end_time: (segments[i].end_time + offset) as u64,
                ..segments[i]
            },
    )
}

/// Adds `offset_ms` milliseconds to the times of the segments of a result.
pub fn shift_segments(result: TranscriptionResult, offset_ms: u64) -> (r: TranscriptionResult)
    requires
        shift_fits(result@.segments, offset_ms),
    ensures
        r@ == (TranscriptModel { segments: shifted(result@.segments, offset_ms), ..result@ }),
{
    let ghost all = segment_models(result.segments@);
    let mut moved: Vec<TranscriptionSegment> = Vec::new();
    let mut i: usize = 0;
    while i < result.segments.len()
        invariant
            0 <= i <= result.segments@.len(),
            all == segment_models(result.segments@),
            shift_fits(all, offset_ms),
            segment_models(moved@) == shifted(all, offset_ms).take(i as int),
        decreases result.segments@.len() - i,
    {
        let segment = &result.segments[i];
        proof {
            assert(all[i as int] == segment@);
        }
        let ghost before = moved@;
        let next = TranscriptionSegment {
            start_time: segment.start_time + offset_ms,
            end_time: segment.end_time + offset_ms,
            text: segment.text.clone(),
            confidence: segment.confidence,
        };
        assert(next@ == shifted(all, offset_ms)[i as int]);
        moved.push(next);
        assert(segment_models(moved@) =~= segment_models(before).push(
            shifted(all, offset_ms)[i as int],
        ));
        i += 1;
        assert(segment_models(moved@) =~= shifted(all, offset_ms).take(i as int));
    }
    assert(segment_models(moved@) =~= shifted(all, offset_ms));
    TranscriptionResult {
        text: result.text,
        language: result.language,
        segments: moved,
        processing_time: result.processing_time,
        audio_duration: result.audio_duration,
    }
}

} // verus!
