use std::collections::VecDeque;
use voice_toolkit::aggregator::StreamingAggregator;

#[test]
fn test_streaming_aggregator_lcp() {
    let mut agg = StreamingAggregator::new(3);

    assert_eq!(agg.push_and_confirm("hello world"), None);
    assert_eq!(agg.push_and_confirm("hello world"), None);
    assert_eq!(
        agg.push_and_confirm("hello world"),
        Some("hello world".to_string())
    );

    let mut agg2 = StreamingAggregator::new(3);
    assert_eq!(agg2.push_and_confirm("hello world"), None);
    assert_eq!(agg2.push_and_confirm("hello world"), None);
    assert_eq!(
        agg2.push_and_confirm("hello world"),
        Some("hello world".to_string())
    );

    assert_eq!(agg2.push_and_confirm("hello there"), None);
    assert_eq!(agg2.push_and_confirm("hello there"), None);
    assert_eq!(agg2.push_and_confirm("hello there"), None);
}

#[test]
fn aggregator_convergence() {
    let mut agg = StreamingAggregator::new(3);
    assert_eq!(agg.push_and_confirm("he"), None);
    assert_eq!(agg.push_and_confirm("hello"), None);
    assert_eq!(agg.push_and_confirm("hello world"), Some("he".to_string()));
    assert_eq!(agg.confirmed_prefix(), "he");
}

#[test]
fn aggregator_hands_on_only_what_is_new() {
    let mut agg = StreamingAggregator::new(2);
    let mut said = String::new();
    for text in ["he", "hello", "hello wor", "hello world", "hello world!", "hello world!"] {
        if let Some(delta) = agg.push_and_confirm(text) {
            said.push_str(&delta);
        }
    }
    assert_eq!(said, "hello world!");
    assert_eq!(agg.confirmed_prefix(), "hello world!");
}

#[test]
fn aggregator_trims_the_end_of_the_agreed_text() {
    let mut agg = StreamingAggregator::new(2);
    assert_eq!(agg.push_and_confirm("hello world"), None);
    // The common prefix is "hello " and its trailing blank is dropped.
    assert_eq!(agg.push_and_confirm("hello there"), Some("hello".to_string()));
    assert_eq!(agg.push_and_confirm("hello there"), Some(" there".to_string()));
}

#[test]
fn aggregator_asks_for_two_at_least() {
    for n in [0usize, 1, 2] {
        let mut agg = StreamingAggregator::new(n);
        assert_eq!(agg.window_size(), 2);
        assert_eq!(agg.push_and_confirm("same"), None);
        assert_eq!(agg.push_and_confirm("same"), Some("same".to_string()));
    }
    assert_eq!(StreamingAggregator::new(5).window_size(), 5);
}

#[test]
fn aggregator_confirms_nothing_inside_a_character() {
    // The two texts share the first byte of their second character only.
    let mut agg = StreamingAggregator::new(2);
    assert_eq!(agg.push_and_confirm("a\u{597d}"), None);
    assert_eq!(agg.push_and_confirm("a\u{5982}"), None);
    assert_eq!(agg.confirmed_prefix(), "");
    assert_eq!(agg.push_and_confirm("a\u{5982}"), Some("a\u{5982}".to_string()));
}

#[test]
fn aggregator_divergence_counts_length_only() {
    let mut agg = StreamingAggregator::new(2);
    assert_eq!(agg.push_and_confirm("ab"), None);
    assert_eq!(agg.push_and_confirm("ab"), Some("ab".to_string()));
    assert_eq!(agg.push_and_confirm("xyz"), None);
    assert_eq!(agg.push_and_confirm("xyz"), Some("z".to_string()));
    assert_eq!(agg.confirmed_prefix(), "xyz");
}

#[test]
fn longest_common_prefix_of_texts() {
    let texts = |items: &[&str]| -> VecDeque<Vec<u8>> {
        items.iter().map(|s| s.as_bytes().to_vec()).collect()
    };
    assert_eq!(StreamingAggregator::longest_common_prefix(&texts(&[])), b"".to_vec());
    assert_eq!(StreamingAggregator::longest_common_prefix(&texts(&["solo"])), b"solo".to_vec());
    assert_eq!(
        StreamingAggregator::longest_common_prefix(&texts(&["hello world", "hello there", "help"])),
        b"hel".to_vec()
    );
    assert_eq!(StreamingAggregator::longest_common_prefix(&texts(&["abc", "", "abc"])), b"".to_vec());
    assert_eq!(StreamingAggregator::longest_common_prefix(&texts(&["abc", "xbc"])), b"".to_vec());
}

#[test]
fn aggregator_reads_broken_bytes_with_replacement() {
    let mut agg = StreamingAggregator::new(2);
    assert_eq!(agg.push_and_confirm("a"), None);
    assert_eq!(agg.push_and_confirm("a"), Some("a".to_string()));
    assert_eq!(agg.push_and_confirm("\u{e9}!"), None);
    // The agreed text has three bytes of which one counts as confirmed: what
    // is new begins inside the first character.
    assert_eq!(agg.push_and_confirm("\u{e9}!"), Some("\u{fffd}!".to_string()));
    assert_eq!(agg.confirmed_prefix(), "\u{e9}!");
}

#[test]
fn aggregator_takes_unicode_whitespace_off_the_end() {
    // The characters of the property White_Space.
    let listed = |c: char| {
        let u = c as u32;
        (0x09..=0x0d).contains(&u)
            || u == 0x20
            || u == 0x85
            || u == 0xa0
            || u == 0x1680
            || (0x2000..=0x200a).contains(&u)
            || u == 0x2028
            || u == 0x2029
            || u == 0x202f
            || u == 0x205f
            || u == 0x3000
    };
    for u in 0..=0x10ffffu32 {
        if let Some(c) = char::from_u32(u) {
            assert_eq!(c.is_whitespace(), listed(c), "U+{:04X}", u);
        }
    }
    for c in ['\t', ' ', '\u{a0}', '\u{2003}', '\u{3000}'] {
        let mut agg = StreamingAggregator::new(2);
        let text = format!("{c}word{c}{c}");
        assert_eq!(agg.push_and_confirm(&text), None);
        assert_eq!(agg.push_and_confirm(&text), Some(format!("{c}word")));
    }
    let mut agg = StreamingAggregator::new(2);
    assert_eq!(agg.push_and_confirm(" \n "), None);
    assert_eq!(agg.push_and_confirm(" \n "), None);
    assert_eq!(agg.confirmed_prefix(), "");
}

#[test]
fn aggregator_confirms_what_the_window_agrees_on() {
    // With as many hypotheses as must agree, what is handed on is their
    // common prefix.
    let mut agg = StreamingAggregator::new(2);
    assert_eq!(agg.push_and_confirm("a"), None);
    assert_eq!(agg.push_and_confirm("ab"), Some("a".to_string()));
    assert_eq!(agg.confirmed_prefix(), "a");
    // With one more the window has moved on: it agrees on more than the
    // whole history does, whose common prefix is still "a".
    assert_eq!(agg.push_and_confirm("ab"), Some("b".to_string()));
    assert_eq!(agg.confirmed_prefix(), "ab");
}
