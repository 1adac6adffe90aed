use voice_toolkit::transcript::{
    assemble_result, plan_pass, segment_confidence, shift_segments, PassPlan, RawSegment,
    TranscriptionResult, TranscriptionSegment,
};

fn segment(start: u64, end: u64, text: &str, confidence: u32) -> TranscriptionSegment {
    TranscriptionSegment { start_time: start, end_time: end, text: text.to_string(), confidence }
}

fn sample_result() -> TranscriptionResult {
    TranscriptionResult {
        text: "one two three".to_string(),
        language: Some("en".to_string()),
        segments: vec![
            segment(0, 500, "one", 900_000),
            segment(500, 900, "two", 400_000),
            segment(900, 1500, "three", 650_000),
        ],
        processing_time: 300,
        audio_duration: 1500,
    }
}

#[test]
fn real_time_factor_in_thousandths() {
    assert_eq!(sample_result().real_time_factor(), 200);
    let mut slow = sample_result();
    slow.processing_time = 4501;
    // 4501 / 1500 = 3.0006...
    assert_eq!(slow.real_time_factor(), 3000);
    slow.audio_duration = 0;
    assert_eq!(slow.real_time_factor(), 0);
    slow.audio_duration = 1;
    slow.processing_time = u64::MAX;
    assert_eq!(slow.real_time_factor(), u64::MAX);
}

#[test]
fn average_confidence_is_the_mean() {
    assert_eq!(sample_result().average_confidence(), 650_000);
    let mut odd = sample_result();
    odd.segments.pop();
    odd.segments.push(segment(0, 1, "x", 1));
    // (900000 + 400000 + 1) / 3 = 433333.66...
    assert_eq!(odd.average_confidence(), 433_333);
    odd.segments.clear();
    assert_eq!(odd.average_confidence(), 0);
}

#[test]
fn filter_keeps_confident_segments() {
    let kept = sample_result().filter_by_confidence(650_000);
    assert_eq!(kept.text, "one three");
    assert_eq!(kept.segments.len(), 2);
    assert_eq!(kept.segments[0].text, "one");
    assert_eq!(kept.segments[1].text, "three");
    assert_eq!(kept.segments[1].start_time, 900);
    assert_eq!(kept.segments[1].end_time, 1500);
    assert_eq!(kept.segments[1].confidence, 650_000);
    assert_eq!(kept.language.as_deref(), Some("en"));
    assert_eq!(kept.processing_time, 300);
    assert_eq!(kept.audio_duration, 1500);

    let all = sample_result().filter_by_confidence(0);
    assert_eq!(all.text, "one two three");
    assert_eq!(all.segments.len(), 3);
    let one = sample_result().filter_by_confidence(650_001);
    assert_eq!(one.text, "one");
    let none = sample_result().filter_by_confidence(1_000_000);
    assert_eq!(none.text, "");
    assert!(none.segments.is_empty());
}

#[test]
fn confidence_of_a_segment() {
    assert_eq!(segment_confidence(&vec![]), 0);
    assert_eq!(segment_confidence(&vec![None, None]), 500_000);
    assert_eq!(segment_confidence(&vec![Some(900_000), None, Some(300_000)]), 600_000);
    assert_eq!(segment_confidence(&vec![Some(1), Some(2)]), 1);
    assert_eq!(segment_confidence(&vec![Some(u32::MAX), Some(u32::MAX)]), u32::MAX);
}

#[test]
fn result_is_put_together_from_raw_segments() {
    let raw = vec![
        RawSegment { text: " Hello".to_string(), start: 0, end: 150, confidence: 900_000 },
        RawSegment { text: "   ".to_string(), start: 150, end: 160, confidence: 100_000 },
        RawSegment { text: "world. ".to_string(), start: 160, end: 301, confidence: 800_000 },
        RawSegment { text: "".to_string(), start: 301, end: 302, confidence: 0 },
    ];
    let result = assemble_result(&raw, Some("auto".to_string()), 42, 3020);
    assert_eq!(result.text, "Hello world.");
    assert_eq!(result.language.as_deref(), Some("auto"));
    assert_eq!(result.processing_time, 42);
    assert_eq!(result.audio_duration, 3020);
    assert_eq!(result.segments.len(), 2);
    assert_eq!(result.segments[0].text, "Hello");
    assert_eq!((result.segments[0].start_time, result.segments[0].end_time), (0, 1500));
    assert_eq!(result.segments[1].text, "world.");
    assert_eq!((result.segments[1].start_time, result.segments[1].end_time), (1600, 3010));
    assert_eq!(result.segments[1].confidence, 800_000);

    let empty = assemble_result(&vec![], None, 1, 2);
    assert_eq!(empty.text, "");
    assert!(empty.segments.is_empty());
    assert!(empty.language.is_none());
}

#[test]
fn pass_starts_at_the_first_speech() {
    assert_eq!(plan_pass(&vec![], 16000), PassPlan::Skip);
    assert_eq!(plan_pass(&vec![(0, 320)], 16000), PassPlan::Run { start: 0, offset_ms: 0 });
    assert_eq!(
        plan_pass(&vec![(8000, 9000), (12000, 16000)], 16000),
        PassPlan::Run { start: 8000, offset_ms: 500 }
    );
    // 330 * 1000 / 16000 = 20.625
    assert_eq!(plan_pass(&vec![(330, 640)], 16000), PassPlan::Run { start: 330, offset_ms: 20 });
    assert_eq!(plan_pass(&vec![(330, 640)], 0), PassPlan::Run { start: 330, offset_ms: u64::MAX });
    assert_eq!(plan_pass(&vec![(0, 640)], 0), PassPlan::Run { start: 0, offset_ms: 0 });
}

#[test]
fn times_are_shifted() {
    let shifted = shift_segments(sample_result(), 500);
    assert_eq!(shifted.text, "one two three");
    assert_eq!(shifted.segments.len(), 3);
    assert_eq!((shifted.segments[0].start_time, shifted.segments[0].end_time), (500, 1000));
    assert_eq!((shifted.segments[2].start_time, shifted.segments[2].end_time), (1400, 2000));
    assert_eq!(shifted.segments[1].text, "two");
    assert_eq!(shifted.segments[1].confidence, 400_000);
    assert_eq!(shifted.audio_duration, 1500);
    let same = shift_segments(sample_result(), 0);
    assert_eq!(same.segments[2].end_time, 1500);
}
