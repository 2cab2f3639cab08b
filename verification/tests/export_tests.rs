use slova::export::{
    choose_write_target, format_json, format_srt, format_srt_advanced, format_timecode, format_txt,
    numbered_candidate, render_export, ConflictPolicy, WriteTarget,
};
use slova::types::TranscriptSegment;

fn seg(start_ms: u64, end_ms: u64, text: &str) -> TranscriptSegment {
    TranscriptSegment { start_ms, end_ms, text: text.to_string() }
}

#[test]
fn test_format_timecode() {
    assert_eq!(format_timecode(0), "00:00:00,000");
    assert_eq!(format_timecode(1000), "00:00:01,000");
    assert_eq!(format_timecode(61000), "00:01:01,000");
    assert_eq!(format_timecode(3661000), "01:01:01,000");
    assert_eq!(format_timecode(3661500), "01:01:01,500");
}

#[test]
fn test_format_srt_advanced() {
    let segments = vec![
        TranscriptSegment { start_ms: 0, end_ms: 1000, text: "Hello".to_string() },
        TranscriptSegment { start_ms: 1500, end_ms: 2500, text: "world".to_string() },
        TranscriptSegment {
            start_ms: 2600,
            end_ms: 5000,
            text: "This is a test sentence that should be merged.".to_string(),
        },
    ];

    let srt = format_srt_advanced(&segments);

    assert!(srt.contains("00:00:00,000"));
    assert!(srt.contains("-->"));
    assert!(srt.contains("1\n"));

    assert!(srt.contains("Hello"));
    assert!(srt.contains("world"));
}

#[test]
fn test_format_json() {
    let segments = vec![TranscriptSegment { start_ms: 0, end_ms: 1000, text: "Test".to_string() }];

    let json_str = format_json("Test", &segments);

    // Verify it's valid JSON
    assert!(serde_json::from_str::<serde_json::Value>(&json_str).is_ok());
    assert!(json_str.contains("\"text\": \"Test\""));
}

#[test]
fn test_format_txt() {
    let text = "This is a test transcript.";
    let result = format_txt(text);
    assert_eq!(result, text);
}

#[test]
fn timecodes_past_a_day() {
    assert_eq!(format_timecode(90_000_000), "25:00:00,000");
    assert_eq!(format_timecode(999), "00:00:00,999");
    assert_eq!(format_timecode(360_000_000_123), "100000:00:00,123");
}

#[test]
fn grouped_srt_exact_text() {
    let segments = vec![
        seg(0, 1000, "Hello"),
        seg(1500, 2500, "world"),
        seg(2600, 5000, "This is a test sentence that should be merged."),
        seg(6500, 7000, "  later  "),
    ];
    assert_eq!(
        format_srt_advanced(&segments),
        "1\n00:00:00,000 --> 00:00:05,000\nHello world This is a test sentence that should be merged.\n\n\
         2\n00:00:06,500 --> 00:00:07,000\nlater\n\n"
    );
    assert_eq!(format_srt_advanced(&[]), "");
    // A merge that would reach 100 bytes starts a new cue.
    let long = "x".repeat(60);
    let segs = vec![seg(0, 10, &long), seg(10, 20, &long)];
    assert_eq!(format_srt_advanced(&segs).matches("-->").count(), 2);
}

#[test]
fn running_srt_exact_text() {
    let segments = vec![seg(0, 1000, "Hello"), seg(1500, 2500, "world")];
    assert_eq!(format_srt(&segments), "1\n00:00:00,000 --> 00:00:02,500\nHello world\n");
    let segments = vec![seg(0, 1000, "Hello"), seg(1500, 2500, "world"), seg(7000, 8000, "again")];
    assert_eq!(
        format_srt(&segments),
        "1\n00:00:00,000 --> 00:00:02,500\nHello world\n\n2\n00:00:07,000 --> 00:00:08,000\nagain\n"
    );
    assert_eq!(format_srt(&[]), "");
    // A cue opened by a gap starts at its first segment.
    let segments = vec![seg(0, 1000, "A"), seg(10000, 11000, "B")];
    assert_eq!(
        format_srt(&segments),
        "1\n00:00:00,000 --> 00:00:01,000\nA\n\n2\n00:00:10,000 --> 00:00:11,000\nB\n"
    );
    // The first cue starts at the first segment.
    assert!(format_srt(&[seg(2500, 3000, "late")]).starts_with("1\n00:00:02,500 --> 00:00:03,000"));
}

#[test]
fn grouped_srt_counts_characters() {
    let a = "привет".repeat(5);
    let segments = vec![seg(0, 1000, &a), seg(1000, 2000, &a)];
    assert_eq!(
        format_srt_advanced(&segments),
        format!("1\n00:00:00,000 --> 00:00:02,000\n{} {}\n\n", a, a)
    );
}

#[test]
fn json_export_layout() {
    let segments = vec![seg(0, 1000, "Hi"), seg(1000, 2500, "there")];
    let v: serde_json::Value = serde_json::from_str(&format_json("Hi there", &segments)).unwrap();
    assert_eq!(v["text"], "Hi there");
    assert_eq!(v["duration_ms"], 2500);
    assert_eq!(v["segments"][1]["start_ms"], 1000);
    assert_eq!(v["segments"][1]["text"], "there");
    let empty: serde_json::Value = serde_json::from_str(&format_json("", &[])).unwrap();
    assert_eq!(empty["duration_ms"], 0);
}

#[test]
fn render_by_format_name() {
    let segments = vec![seg(0, 1000, "Hi")];
    assert_eq!(render_export("Hi", &segments, "txt").unwrap(), "Hi");
    assert!(render_export("Hi", &segments, "srt").unwrap().starts_with("1\n00:00:00,000 --> 00:00:01,000\nHi"));
    assert!(render_export("Hi", &segments, "json").unwrap().contains("\"duration_ms\": 1000"));
    let e = render_export("Hi", &segments, "docx").unwrap_err();
    assert_eq!(e.code, "INVALID_FORMAT");
    assert_eq!(e.message, "Unknown format: docx");
}

#[test]
fn write_targets_by_policy() {
    assert!(matches!(choose_write_target(ConflictPolicy::Overwrite, true, "a"), WriteTarget::Target));
    assert!(matches!(choose_write_target(ConflictPolicy::Suffix, true, "a"), WriteTarget::NumberedSibling));
    assert!(matches!(choose_write_target(ConflictPolicy::Suffix, false, "a"), WriteTarget::Target));
    assert!(matches!(choose_write_target(ConflictPolicy::Skip, false, "a"), WriteTarget::Target));
    match choose_write_target(ConflictPolicy::Skip, true, "/tmp/a.txt") {
        WriteTarget::Refuse(e) => {
            assert_eq!(e.code, "FILE_EXISTS");
            assert_eq!(e.message, "File already exists: /tmp/a.txt");
        }
        other => panic!("{:?}", other),
    }
    assert_eq!(ConflictPolicy::default(), ConflictPolicy::Overwrite);
}

#[test]
fn numbered_names() {
    assert_eq!(numbered_candidate("video", "srt", 1).unwrap(), "video.1.srt");
    assert_eq!(numbered_candidate("video", "srt", 1000).unwrap(), "video.1000.srt");
    let e = numbered_candidate("video", "srt", 1001).unwrap_err();
    assert_eq!(e.code, "FS_ERROR");
    assert_eq!(e.message, "Too many existing files, cannot generate unique name");
}

#[test]
fn timecodes_below_a_hundred_hours_have_a_fixed_shape() {
    for ms in [0u64, 999, 61_000, 3_661_500, 359_999_999] {
        let t = format_timecode(ms);
        let b = t.as_bytes();
        assert_eq!(t.len(), 12);
        assert_eq!((b[2], b[5], b[8]), (b':', b':', b','));
        let h: u64 = t[0..2].parse().unwrap();
        let m: u64 = t[3..5].parse().unwrap();
        let s: u64 = t[6..8].parse().unwrap();
        let f: u64 = t[9..12].parse().unwrap();
        assert!(m < 60 && s < 60);
        assert_eq!(h * 3_600_000 + m * 60_000 + s * 1000 + f, ms);
    }
    assert_eq!(format_timecode(359_999_999), "99:59:59,999");
}

#[test]
fn running_srt_is_numbered_blocks() {
    let segments = vec![seg(0, 1000, "one"), seg(6000, 7000, "two"), seg(12000, 13000, "three")];
    assert_eq!(
        format_srt(&segments),
        "1\n00:00:00,000 --> 00:00:01,000\none\n\n\
         2\n00:00:06,000 --> 00:00:07,000\ntwo\n\n\
         3\n00:00:12,000 --> 00:00:13,000\nthree\n"
    );
}
