use zinc_core::pipeline::{should_chunk, should_chunk_short, ChunkSession};
use zinc_core::segments::{merge_chunk_segments, plan_chunks, sort_segments_by_start, Segment};

fn seg(start: i64, end: i64, text: &str) -> Segment {
    Segment { start_ms: start, end_ms: end, text: text.to_string() }
}

#[test]
fn chunk_plan_for_seven_hundred_seconds() {
    let chunks = plan_chunks(700_000, 300_000, 2_000);
    assert_eq!(chunks.len(), 3);
    assert_eq!(chunks[0].start_ms, 0);
    assert_eq!(chunks[1].start_ms, 298_000);
    assert_eq!(chunks[2].start_ms, 596_000);
    assert_eq!(chunks[0].duration_ms, 300_000);
    assert_eq!(chunks[1].duration_ms, 300_000);
    assert_eq!(chunks[2].duration_ms, 104_000);
}

#[test]
fn chunk_plan_short_audio_is_one_chunk() {
    let chunks = plan_chunks(10_000, 300_000, 2_000);
    assert_eq!(chunks.len(), 1);
    assert_eq!(chunks[0].start_ms, 0);
    assert_eq!(chunks[0].duration_ms, 10_000);
}

#[test]
fn chunking_thresholds() {
    assert!(!should_chunk(300_000));
    assert!(should_chunk(300_001));
    assert!(!should_chunk_short(30_000));
    assert!(should_chunk_short(30_001));
}

#[test]
fn merge_keeps_one_reading_of_the_overlap() {
    let prior = vec![
        seg(0, 1_000, "before"),
        seg(297_000, 299_000, "straddles"),
        seg(298_500, 299_500, "inside overlap"),
    ];
    let fresh = vec![seg(297_500, 298_100, "too early"), seg(298_200, 300_000, "fresh reading")];
    let merged = merge_chunk_segments(&prior, &fresh, 298_000);
    let texts: Vec<&str> = merged.iter().map(|s| s.text.as_str()).collect();
    assert_eq!(texts, vec!["before", "straddles", "fresh reading"]);
}

#[test]
fn merge_with_an_empty_side_concatenates() {
    let prior: Vec<Segment> = Vec::new();
    let fresh = vec![seg(10, 20, "a")];
    let merged = merge_chunk_segments(&prior, &fresh, 5);
    assert_eq!(merged.len(), 1);
    let merged2 = merge_chunk_segments(&fresh, &Vec::new(), 5);
    assert_eq!(merged2.len(), 1);
}

#[test]
fn sort_orders_by_start_keeping_all_segments() {
    let segs = vec![seg(500, 600, "b"), seg(0, 100, "a"), seg(500, 700, "c")];
    let sorted = sort_segments_by_start(segs);
    assert_eq!(sorted.len(), 3);
    assert_eq!(sorted[0].text, "a");
    assert!(sorted[0].start_ms <= sorted[1].start_ms);
    assert!(sorted[1].start_ms <= sorted[2].start_ms);
}

#[test]
fn empty_session_fails_with_empty_result() {
    let mut session = ChunkSession::begin(700_000);
    assert_eq!(session.chunks.len(), 3);
    session.record_chunk(Vec::new(), 0);
    session.record_chunk(Vec::new(), 298_000);
    session.record_chunk(Vec::new(), 596_000);
    match session.finish() {
        Err(e) => assert_eq!(
            e.message(),
            "Transcription produced no text. The audio may be silent or corrupted."
        ),
        Ok(_) => panic!("an empty transcript must fail"),
    }
}

#[test]
fn session_with_text_finishes_sorted() {
    let mut session = ChunkSession::begin(400_000);
    assert_eq!(session.chunks.len(), 2);
    session.record_chunk(vec![seg(0, 5_000, "first")], 0);
    session.record_chunk(vec![seg(298_000, 302_000, "second")], 298_000);
    let segs = session.finish().unwrap();
    assert_eq!(segs.len(), 2);
    assert_eq!(segs[0].text, "first");
    assert_eq!(segs[1].text, "second");
}

#[test]
fn whitespace_only_segments_never_become_a_transcript() {
    let mut session = ChunkSession::begin(400_000);
    session.record_chunk(vec![seg(0, 1_000, "   "), seg(1_000, 2_000, "\t\n")], 0);
    session.record_chunk(vec![seg(298_000, 299_000, " ")], 298_000);
    match session.finish() {
        Err(e) => assert_eq!(
            e.message(),
            "Transcription produced no text. The audio may be silent or corrupted."
        ),
        Ok(_) => panic!("whitespace alone must fail with the empty-transcript condition"),
    }
}

#[test]
fn whitespace_segments_are_screened_but_text_survives() {
    let mut session = ChunkSession::begin(100_000);
    session.record_chunk(vec![seg(0, 1_000, "  "), seg(1_000, 2_000, "kept")], 0);
    let segs = session.finish().unwrap();
    assert_eq!(segs.len(), 1);
    assert_eq!(segs[0].text, "kept");
}

#[test]
fn short_windows_are_skipped() {
    assert!(zinc_core::pipeline::chunk_too_short(499));
    assert!(!zinc_core::pipeline::chunk_too_short(500));
}
