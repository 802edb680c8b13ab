use zinc_core::captions::{captions_from_text, generate_srt_from_text, render_captions, split_sentences, trim_chars, Caption};
use zinc_core::grouping::captions_from_tokens;
use zinc_core::srt_time::{format_srt_time, parse_srt_time};

#[test]
fn srt_time_formats_zero() {
    assert_eq!(format_srt_time(0), "00:00:00,000");
}

#[test]
fn srt_time_formats_mixed_fields() {
    assert_eq!(format_srt_time(3_723_456), "01:02:03,456");
}

#[test]
fn srt_time_pads_hours_but_never_truncates() {
    assert_eq!(format_srt_time(59_999), "00:00:59,999");
    assert_eq!(format_srt_time(360_000_000), "100:00:00,000");
}

#[test]
fn srt_time_round_trips() {
    for ms in [0u64, 1, 999, 1_000, 59_999, 3_600_000, 3_723_456, 86_399_999, 360_000_123] {
        let text = format_srt_time(ms);
        assert_eq!(parse_srt_time(&text), Some(ms));
    }
}

#[test]
fn srt_time_parse_rejects_malformed() {
    assert_eq!(parse_srt_time(""), None);
    assert_eq!(parse_srt_time("abc"), None);
    assert_eq!(parse_srt_time("00:00:60,000"), None);
    assert_eq!(parse_srt_time("0:00:00,000"), None);
    assert_eq!(parse_srt_time("000:00:00,000"), None);
    assert_eq!(parse_srt_time("00-00-00,000"), None);
}

#[test]
fn trim_strips_both_ends() {
    let v: Vec<char> = "  hello \t".chars().collect();
    let t = trim_chars(&v);
    let s: String = t.iter().collect();
    assert_eq!(s, "hello");
}

#[test]
fn sentences_split_on_terminators_and_drop_blanks() {
    let v: Vec<char> = "One. Two!  ?Three".chars().collect();
    let parts = split_sentences(&v);
    let texts: Vec<String> = parts.iter().map(|p| p.iter().collect()).collect();
    assert_eq!(texts, vec!["One".to_string(), "Two".to_string(), "Three".to_string()]);
}

#[test]
fn proportional_split_divides_duration_evenly() {
    let caps = captions_from_text("Hello world. Bye!", 10_000);
    assert_eq!(caps.len(), 2);
    assert_eq!(caps[0].start_ms, 0);
    assert_eq!(caps[0].end_ms, 5_000);
    assert_eq!(caps[1].start_ms, 5_000);
    assert_eq!(caps[1].end_ms, 10_000);
    assert_eq!(caps[0].text, "Hello world.");
    assert_eq!(caps[1].text, "Bye.");
}

#[test]
fn proportional_split_spans_are_contiguous_and_cover_duration() {
    let caps = captions_from_text("a. b. c. d. e. f. g.", 1_000);
    assert_eq!(caps.len(), 7);
    assert_eq!(caps[0].start_ms, 0);
    assert_eq!(caps[caps.len() - 1].end_ms, 1_000);
    let mut total = 0;
    for i in 0..caps.len() {
        assert!(caps[i].start_ms <= caps[i].end_ms);
        if i + 1 < caps.len() {
            assert_eq!(caps[i].end_ms, caps[i + 1].start_ms);
        }
        total += caps[i].end_ms - caps[i].start_ms;
    }
    assert_eq!(total, 1_000);
}

#[test]
fn proportional_split_blank_text_yields_nothing() {
    let caps = captions_from_text("   ", 5_000);
    assert_eq!(caps.len(), 0);
    assert_eq!(generate_srt_from_text("   ", 5_000), "");
}

#[test]
fn proportional_split_single_sentence_takes_whole_span() {
    let caps = captions_from_text("no terminator here", 7_000);
    assert_eq!(caps.len(), 1);
    assert_eq!(caps[0].start_ms, 0);
    assert_eq!(caps[0].end_ms, 7_000);
    assert_eq!(caps[0].text, "no terminator here.");
}

#[test]
fn proportional_split_only_terminators_keeps_raw_text() {
    let caps = captions_from_text("...", 4_000);
    assert_eq!(caps.len(), 1);
    assert_eq!(caps[0].start_ms, 0);
    assert_eq!(caps[0].end_ms, 4_000);
    assert_eq!(caps[0].text, "...");
}

#[test]
fn srt_rendering_shape() {
    let caps = vec![Caption { start_ms: 0, end_ms: 1_500, text: "Hi".to_string() }];
    let srt = render_captions(&caps);
    assert_eq!(srt, "1\n00:00:00,000 --> 00:00:01,500\nHi\n\n");
}

#[test]
fn srt_from_text_full_output() {
    let srt = generate_srt_from_text("Hello world. Bye!", 10_000);
    assert_eq!(
        srt,
        "1\n00:00:00,000 --> 00:00:05,000\nHello world.\n\n2\n00:00:05,000 --> 00:00:10,000\nBye.\n\n"
    );
}

fn toks(words: &[&str]) -> Vec<String> {
    words.iter().map(|w| w.to_string()).collect()
}

#[test]
fn grouping_breaks_on_sentence_end_after_eight_words() {
    let tokens = toks(&[
        "one", " two", " three", " four", " five", " six", " seven", " eight.", " nine", " ten",
    ]);
    let offsets: Vec<u64> = (0..10).map(|i| i * 1_000).collect();
    let caps = captions_from_tokens(&tokens, &offsets);
    assert_eq!(caps.len(), 2);
    assert_eq!(caps[0].text, "one two three four five six seven eight.");
    assert_eq!(caps[0].start_ms, 0);
    assert_eq!(caps[0].end_ms, 8_000);
    assert_eq!(caps[1].text, "nine ten");
    assert_eq!(caps[1].start_ms, 8_000);
    assert_eq!(caps[1].end_ms, 9_000 + 500);
}

#[test]
fn grouping_caps_at_twelve_words() {
    let words: Vec<String> = (0..15).map(|i| format!(" w{}", i)).collect();
    let offsets: Vec<u64> = (0..15).map(|i| i * 100).collect();
    let caps = captions_from_tokens(&words, &offsets);
    assert_eq!(caps.len(), 2);
    let first_words: Vec<&str> = caps[0].text.split(' ').collect();
    assert_eq!(first_words.len(), 12);
    let second_words: Vec<&str> = caps[1].text.split(' ').collect();
    assert_eq!(second_words.len(), 3);
}

#[test]
fn grouping_final_caption_gets_buffer_past_last_offset() {
    let tokens = toks(&["only"]);
    let offsets: Vec<u64> = vec![2_000];
    let caps = captions_from_tokens(&tokens, &offsets);
    assert_eq!(caps.len(), 1);
    assert_eq!(caps[0].start_ms, 2_000);
    assert_eq!(caps[0].end_ms, 2_500);
}

#[test]
fn parakeet_srt_from_tokens_and_offsets() {
    let engine = zinc_core::engines::ParakeetEngine::new();
    let tokens: Vec<String> = vec!["hi".to_string(), " there.".to_string()];
    let offsets: Vec<u64> = vec![0, 1_000];
    let srt = engine.generate_srt_with_timestamps(&tokens, &offsets);
    assert_eq!(srt, "1\n00:00:00,000 --> 00:00:01,500\nhi there.\n\n");
}

#[test]
fn grouping_does_not_break_on_a_comma() {
    let tokens = toks(&[
        "one", " two", " three", " four", " five", " six", " seven", " eight,", " nine",
    ]);
    let offsets: Vec<u64> = (0..9).map(|i| i * 1_000).collect();
    let caps = captions_from_tokens(&tokens, &offsets);
    assert_eq!(caps.len(), 1);
    assert_eq!(caps[0].text, "one two three four five six seven eight, nine");
}

#[test]
fn grouping_without_offsets_yields_no_captions() {
    let tokens = toks(&["hello"]);
    let offsets: Vec<u64> = Vec::new();
    assert_eq!(captions_from_tokens(&tokens, &offsets).len(), 0);
    let engine = zinc_core::engines::ParakeetEngine::new();
    assert_eq!(engine.generate_srt_with_timestamps(&tokens, &offsets), "");
    assert_eq!(engine.generate_srt_with_timestamps(&Vec::new(), &vec![1_000u64]), "");
}
