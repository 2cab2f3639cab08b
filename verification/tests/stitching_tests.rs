use slova::stitching::{
    calculate_text_similarity, convert_local_to_global, deduplicate_overlap,
    find_segments_in_range, normalize_text, sort_segments_by_start, stitch_chunks, transcripts_fit,
    ChunkTranscript, SegmentLocal,
};
use slova::types::TranscriptSegment;

fn local(start_ms: u64, end_ms: u64, text: &str) -> SegmentLocal {
    SegmentLocal { start_ms, end_ms, text: text.to_string() }
}

fn ratio(r: (usize, usize)) -> f64 {
    r.0 as f64 / r.1 as f64
}

#[test]
fn test_stitch_single_chunk() {
    let chunk = ChunkTranscript {
        chunk_idx: 0,
        chunk_start_ms: 0,
        chunk_end_ms: 5000,
        overlap_start_ms: None,
        overlap_end_ms: None,
        text: "Hello world".to_string(),
        segments: vec![local(0, 1000, "Hello"), local(1000, 2000, "world")],
    };

    let (text, segments) = stitch_chunks(vec![chunk]).expect("should stitch");

    assert_eq!(text, "Hello world");
    assert_eq!(segments.len(), 2);
    assert_eq!(segments[0].start_ms, 0);
    assert_eq!(segments[0].end_ms, 1000);
    assert_eq!(segments[1].start_ms, 1000);
    assert_eq!(segments[1].end_ms, 2000);
}

#[test]
fn test_stitch_multiple_chunks_no_overlap() {
    let chunk1 = ChunkTranscript {
        chunk_idx: 0,
        chunk_start_ms: 0,
        chunk_end_ms: 5000,
        overlap_start_ms: None,
        overlap_end_ms: None,
        text: "Hello".to_string(),
        segments: vec![local(0, 5000, "Hello")],
    };

    let chunk2 = ChunkTranscript {
        chunk_idx: 1,
        chunk_start_ms: 5000,
        chunk_end_ms: 10000,
        overlap_start_ms: None,
        overlap_end_ms: None,
        text: "world".to_string(),
        segments: vec![local(0, 5000, "world")],
    };

    let (text, segments) = stitch_chunks(vec![chunk1, chunk2]).expect("should stitch");

    assert!(text.contains("Hello"));
    assert!(text.contains("world"));
    assert_eq!(segments.len(), 2);
}

#[test]
fn test_normalize_text() {
    assert_eq!(normalize_text("Hello, World!"), "hello world");
    assert_eq!(normalize_text("  Hello   world  "), "hello world");
    assert_eq!(normalize_text("123 abc !@# XYZ"), "123 abc xyz");
}

#[test]
fn test_calculate_text_similarity_identical() {
    let similarity = ratio(calculate_text_similarity("hello world", "hello world"));
    assert_eq!(similarity, 1.0);
}

#[test]
fn test_calculate_text_similarity_partial() {
    let similarity = ratio(calculate_text_similarity("hello world", "hello there"));
    assert!(similarity > 0.4 && similarity < 0.8);
}

#[test]
fn test_calculate_text_similarity_different() {
    let similarity = ratio(calculate_text_similarity("abc def", "xyz uvw"));
    assert_eq!(similarity, 0.0);
}

#[test]
fn test_calculate_text_similarity_punctuation_insensitive() {
    let similarity = ratio(calculate_text_similarity("Hello, World!", "Hello world"));
    assert_eq!(similarity, 1.0);
}

#[test]
fn test_convert_local_to_global() {
    let segments = vec![local(0, 1500, "Hello"), local(2000, 3500, "world")];

    let global = convert_local_to_global(&segments, 5000);

    assert_eq!(global.len(), 2);
    assert_eq!(global[0].start_ms, 5000);
    assert_eq!(global[0].end_ms, 6500);
    assert_eq!(global[1].start_ms, 7000);
    assert_eq!(global[1].end_ms, 8500);
}

#[test]
fn test_find_segments_in_range() {
    let segments = vec![local(0, 2000, "seg1"), local(2000, 4000, "seg2"), local(4000, 6000, "seg3")];

    let chunk_start = 10000;
    let range_start = 11000;
    let range_end = 13000;

    let overlapping = find_segments_in_range(&segments, chunk_start, range_start, range_end);

    assert_eq!(overlapping.len(), 2); // seg1 and seg2
}

#[test]
fn test_empty_chunks() {
    let (text, segments) = stitch_chunks(vec![]).expect("should handle empty");
    assert!(text.is_empty());
    assert!(segments.is_empty());
}

#[test]
fn similarity_counts() {
    assert_eq!(calculate_text_similarity("", "  "), (1, 1));
    assert_eq!(calculate_text_similarity("a", ""), (0, 1));
    assert_eq!(calculate_text_similarity("a b c", "b"), (1, 3));
    assert_eq!(calculate_text_similarity("a a", "a"), (2, 2));
}

#[test]
fn overlap_segments_are_dropped_and_sorted() {
    let c1 = ChunkTranscript {
        chunk_idx: 0,
        chunk_start_ms: 0,
        chunk_end_ms: 10_000,
        overlap_start_ms: None,
        overlap_end_ms: Some(15_000),
        text: "one two".to_string(),
        segments: vec![local(0, 5_000, "one"), local(9_000, 11_000, "two")],
    };
    let c2 = ChunkTranscript {
        chunk_idx: 1,
        chunk_start_ms: 10_000,
        chunk_end_ms: 20_000,
        overlap_start_ms: Some(5_000),
        overlap_end_ms: None,
        text: "".to_string(),
        segments: vec![local(0, 1_000, "two again"), local(6_000, 7_000, "three"), local(500, 900, "early")],
    };
    assert!(transcripts_fit(&[c1.clone(), c2.clone()]));
    let (text, segments) = stitch_chunks(vec![c1, c2]).unwrap();
    // An empty text adds no separator.
    assert_eq!(text, "one two");
    // Segments of the second chunk starting in [5000, 15000) are dropped.
    let starts: Vec<u64> = segments.iter().map(|s| s.start_ms).collect();
    assert_eq!(starts, vec![0, 9_000, 16_000]);
    assert_eq!(segments[2].text, "three");
}

#[test]
fn transcripts_that_overflow_are_detected() {
    let c = ChunkTranscript {
        chunk_idx: 0,
        chunk_start_ms: u64::MAX - 10,
        chunk_end_ms: u64::MAX,
        overlap_start_ms: None,
        overlap_end_ms: None,
        text: String::new(),
        segments: vec![local(0, 11, "x")],
    };
    assert!(!transcripts_fit(&[c]));
}

#[test]
fn sorting_and_dedup() {
    let segs = vec![
        TranscriptSegment { start_ms: 5, end_ms: 6, text: "b".to_string() },
        TranscriptSegment { start_ms: 1, end_ms: 2, text: "a".to_string() },
        TranscriptSegment { start_ms: 5, end_ms: 7, text: "c".to_string() },
    ];
    let sorted = sort_segments_by_start(segs);
    let texts: Vec<&str> = sorted.iter().map(|s| s.text.as_str()).collect();
    assert_eq!(texts, vec!["a", "b", "c"]);
    let prev = vec![(0usize, TranscriptSegment { start_ms: 0, end_ms: 1, text: "Hello world".to_string() })];
    let next = vec![
        (3usize, TranscriptSegment { start_ms: 0, end_ms: 1, text: "bye".to_string() }),
        (4usize, TranscriptSegment { start_ms: 0, end_ms: 1, text: "hello, world".to_string() }),
    ];
    let (drop_prev, drop_next) = deduplicate_overlap(&prev, &next);
    assert!(drop_prev.is_empty());
    assert_eq!(drop_next, vec![4]);
}

#[test]
fn normalized_text_is_spaced_words() {
    for input in ["  Hello   world  ", "Hello, World!", "\tA--b\n\nC ", "!!!", ""] {
        let r = normalize_text(input);
        assert_eq!(r, r.trim());
        assert!(!r.contains("  "));
        assert!(r.chars().all(|c| c == ' ' || c.is_alphanumeric()));
        assert_eq!(normalize_text(&r), r);
    }
    assert_eq!(normalize_text("\tA--b\n\nC "), "ab c");
}
