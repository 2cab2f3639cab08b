use slova::chunking::{
    add_overlaps, calculate_chunk_boundaries, calculate_fixed_size_boundaries, chunks_from_plan,
    fixed_split_in_range, overlaps_fit, plan_chunks, should_chunk, AudioChunk, MAX_CHUNK_SIZE_BYTES,
};
use slova::ffmpeg::SilencePoint;

/// The longest chunk, in milliseconds, that `MAX_CHUNK_SIZE_BYTES` holds
/// at a bitrate, as the application computes it.
fn max_chunk_ms(bitrate_kbps: f64) -> u64 {
    let duration_secs = (MAX_CHUNK_SIZE_BYTES as f64 * 8.0) / (bitrate_kbps * 1000.0);
    (duration_secs * 1000.0) as u64
}

#[test]
fn test_should_chunk() {
    assert!(!should_chunk(50 * 1024 * 1024)); // 50 MB < 100 MB
    assert!(!should_chunk(100 * 1024 * 1024)); // exactly 100 MB (not over limit)
    assert!(should_chunk(100 * 1024 * 1024 + 1)); // 100 MB + 1 byte
    assert!(should_chunk(150 * 1024 * 1024)); // 150 MB > 100 MB
}

#[test]
fn test_calculate_fixed_size_boundaries() {
    let total_duration_ms = 7_200_000u64; // 2 hours
    let bitrate_kbps = 32.0;

    let boundaries = calculate_fixed_size_boundaries(total_duration_ms, max_chunk_ms(bitrate_kbps))
        .expect("should calculate boundaries");

    assert_eq!(boundaries.len(), 1);
    assert_eq!(boundaries[0], (0, 7_200_000));
}

#[test]
fn test_calculate_fixed_size_boundaries_large_file() {
    let total_duration_ms = 86_400_000u64; // 24 hours
    let bitrate_kbps = 32.0;

    let boundaries = calculate_fixed_size_boundaries(total_duration_ms, max_chunk_ms(bitrate_kbps))
        .expect("should calculate boundaries");

    // Should be multiple chunks
    assert!(boundaries.len() > 1);

    // All chunks should fit within total duration
    for (start, end) in &boundaries {
        assert!(*start < *end);
        assert!(*end <= total_duration_ms);
    }

    // Boundaries should be contiguous
    for i in 1..boundaries.len() {
        assert_eq!(boundaries[i].0, boundaries[i - 1].1);
    }
}

#[test]
fn test_calculate_chunk_boundaries_with_silence() {
    let total_duration_ms = 30 * 60 * 1000; // 1800000 ms
    let silence_points = vec![
        SilencePoint { start_ms: 300_000, end_ms: 310_000 },
        SilencePoint { start_ms: 900_000, end_ms: 910_000 },
    ];
    let bitrate_kbps = 32.0;

    let boundaries =
        calculate_chunk_boundaries(total_duration_ms, &silence_points, max_chunk_ms(bitrate_kbps))
            .expect("should calculate boundaries");

    // Should be able to cut at silence points
    assert!(!boundaries.is_empty());

    // All boundaries should be within total duration
    for (start, end) in &boundaries {
        assert!(*start < *end);
        assert!(*end <= total_duration_ms);
    }
}

#[test]
fn test_add_overlaps_single_chunk() {
    let boundaries = vec![(0, 10000)];
    let overlaps = add_overlaps(boundaries, 1000);

    assert_eq!(overlaps.len(), 1);
    assert_eq!(overlaps[0].0, 0);
    assert_eq!(overlaps[0].1, 10000);
    assert_eq!(overlaps[0].2, None);
    assert_eq!(overlaps[0].3, None);
}

#[test]
fn test_add_overlaps_multiple_chunks() {
    let boundaries = vec![(0, 5000), (5000, 10000), (10000, 15000)];
    let overlaps = add_overlaps(boundaries, 500);

    assert_eq!(overlaps.len(), 3);

    assert_eq!(overlaps[0].0, 0);
    assert_eq!(overlaps[0].1, 5000);
    assert_eq!(overlaps[0].2, None);
    assert_eq!(overlaps[0].3, Some(5500));

    assert_eq!(overlaps[1].0, 5000);
    assert_eq!(overlaps[1].1, 10000);
    assert_eq!(overlaps[1].2, Some(4500));
    assert_eq!(overlaps[1].3, Some(10500));

    assert_eq!(overlaps[2].0, 10000);
    assert_eq!(overlaps[2].1, 15000);
    assert_eq!(overlaps[2].2, Some(9500));
    assert_eq!(overlaps[2].3, None);
}

#[test]
fn test_add_overlaps_respects_chunk_boundaries() {
    let boundaries = vec![(0, 1000), (1000, 2000)];
    let overlaps = add_overlaps(boundaries, 500);

    assert_eq!(overlaps[1].2, Some(500)); // 1000 - 500
}

#[test]
fn silence_cuts_follow_the_edges() {
    // Edges 300000, 310000, 900000, 910000 with a 400000 ms maximum: the
    // first piece ends at the latest edge within reach (310000); no edge lies
    // within reach of 310000 before 900000, so the next piece is cut at the
    // maximum (710000); then 910000 is the latest edge within reach, and the
    // rest is cut at the maximum until the end.
    let silences = vec![
        SilencePoint { start_ms: 300_000, end_ms: 310_000 },
        SilencePoint { start_ms: 900_000, end_ms: 910_000 },
    ];
    let b = calculate_chunk_boundaries(1_800_000, &silences, 400_000).unwrap();
    assert_eq!(
        b,
        vec![
            (0, 310_000),
            (310_000, 710_000),
            (710_000, 910_000),
            (910_000, 1_310_000),
            (1_310_000, 1_710_000),
            (1_710_000, 1_800_000)
        ]
    );
    // An edge exactly the maximum past the start closes the piece there.
    let silences = vec![SilencePoint { start_ms: 400, end_ms: 450 }];
    let b = calculate_chunk_boundaries(700, &silences, 400).unwrap();
    assert_eq!(b, vec![(0, 400), (400, 700)]);
    // Without silences the split is by length.
    let b = calculate_chunk_boundaries(1_000, &[], 400).unwrap();
    assert_eq!(b, vec![(0, 400), (400, 800), (800, 1_000)]);
    // Nothing to split.
    assert!(calculate_chunk_boundaries(0, &[], 400).unwrap().is_empty());
}

#[test]
fn long_audio_with_one_early_silence_stays_within_the_maximum() {
    // Ten hours at 32 kbps with one silence near the start.
    let total = 36_000_000u64;
    let m = max_chunk_ms(32.0);
    let silences = vec![SilencePoint { start_ms: 1_000, end_ms: 2_000 }];
    let b = calculate_chunk_boundaries(total, &silences, m).unwrap();
    assert_eq!(b, vec![(0, 2_000), (2_000, 2_000 + m), (2_000 + m, total)]);
    for (start, end) in &b {
        assert!(end - start <= m);
    }
}

#[test]
fn plans_and_their_limits() {
    let silences = vec![SilencePoint { start_ms: 500, end_ms: 600 }];
    let plan = plan_chunks(1_000, &silences, 400).unwrap();
    assert_eq!(
        plan,
        vec![(0, 400, None, Some(5_400)), (400, 600, None, Some(5_600)), (600, 1_000, None, None)]
    );
    let plan = plan_chunks(20_000, &[], 8_000).unwrap();
    assert_eq!(
        plan,
        vec![
            (0, 8_000, None, Some(13_000)),
            (8_000, 16_000, Some(3_000), Some(21_000)),
            (16_000, 20_000, Some(11_000), None)
        ]
    );
    // A zero length never ends a fixed split.
    assert!(plan_chunks(10, &[], 0).is_none());
    assert!(!fixed_split_in_range(10, 0));
    assert!(fixed_split_in_range(0, 0));
    assert!(!fixed_split_in_range(u64::MAX, u64::MAX - 1));
    // An overlap past the largest time is refused.
    assert!(!overlaps_fit(&[(0, u64::MAX - 1), (u64::MAX - 1, u64::MAX)], 5_000));
    assert!(overlaps_fit(&[(0, 10)], u64::MAX));
}

#[test]
fn chunks_carry_their_plan() {
    let plan = vec![(0, 10, None, Some(15)), (10, 20, Some(5), None)];
    let chunks = chunks_from_plan(&plan, vec!["a".to_string(), "b".to_string()]);
    assert_eq!(chunks.len(), 2);
    assert_eq!((chunks[1].start_ms, chunks[1].end_ms), (10, 20));
    assert_eq!(chunks[1].overlap_start_ms, Some(5));
    assert_eq!(chunks[1].path, "b");
    assert_eq!((chunks[1].idx, chunks[1].total), (1, 2));
    assert_eq!(chunks[0].duration_ms(), 10);
    let c = AudioChunk {
        start_ms: 1,
        end_ms: 4,
        overlap_start_ms: None,
        overlap_end_ms: None,
        path: "p".to_string(),
        idx: 0,
        total: 1,
    }
    .with_overlap(Some(0), Some(9));
    assert_eq!((c.overlap_start_ms, c.overlap_end_ms, c.duration_ms()), (Some(0), Some(9), 3));
}
