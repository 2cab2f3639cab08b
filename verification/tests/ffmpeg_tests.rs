use slova::ffmpeg::{
    cut_args, cut_failed, extract_audio_args, extract_outcome, format_seconds, pair_silences,
    parse_out_time_us, probe_args, silence_detect_args, silence_events, summarize_probe,
    ExtractStats, FfmpegAdapter, SilencePoint, StreamInfo,
};

#[test]
fn test_parse_progress_output() {
    let progress_line = "out_time_us=1234567890";
    let us_str = parse_out_time_us(progress_line);

    assert_eq!(us_str, Some(1234567890));

    let ms = us_str.unwrap() / 1000;
    assert_eq!(ms, 1234567);
}

#[test]
fn test_progress_calculation() {
    let total_duration_ms = 30000u64; // 30 seconds
    let current_ms = 15000u64; // halfway
    let progress = (current_ms as f32 / total_duration_ms as f32).min(1.0);

    assert!((progress - 0.5).abs() < 0.01);
}

fn seconds_to_ms(text: &str) -> Option<u64> {
    text.parse::<f64>().ok().map(|s| (s * 1000.0) as u64)
}

#[test]
fn test_parse_silence_output() {
    let stderr_sample = r#"[silencedetect @ 0x123] silence_start: 0.5
[silencedetect @ 0x123] silence_end: 2.5 | silence_duration: 2.0
[silencedetect @ 0x123] silence_start: 10.0
[silencedetect @ 0x123] silence_end: 12.0 | silence_duration: 2.0"#;

    let events: Vec<(bool, Option<u64>)> = silence_events(stderr_sample)
        .iter()
        .map(|e| (e.is_start, seconds_to_ms(&e.value)))
        .collect();
    let silence_spans = pair_silences(&events);

    assert_eq!(silence_spans.len(), 2);
    assert_eq!(silence_spans[0].start_ms, 500);
    assert_eq!(silence_spans[0].end_ms, 2500);
    assert_eq!(silence_spans[1].start_ms, 10000);
    assert_eq!(silence_spans[1].end_ms, 12000);
}

#[test]
fn test_extract_stats() {
    let stats = ExtractStats {
        output_size_bytes: 1_000_000,
        noise_reduction_applied: true,
    };

    assert_eq!(stats.output_size_bytes, 1_000_000);
    assert!(stats.noise_reduction_applied);
}

#[test]
fn silence_events_read_values_in_order() {
    let stderr = "junk line\n[x] silence_start: 1.25\n[x] silence_end: 3.5 | silence_duration: 2.25\r\nno report";
    let events = silence_events(stderr);
    assert_eq!(events.len(), 2);
    assert!(events[0].is_start);
    assert_eq!(events[0].value, "1.25");
    assert!(!events[1].is_start);
    assert_eq!(events[1].value, "3.5");
}

#[test]
fn pair_silences_skips_unpaired_and_unparsed() {
    let events = vec![
        (false, Some(100)),  // end without a start
        (true, None),        // start that did not parse
        (true, Some(1000)),
        (false, None),       // end that did not parse
        (false, Some(2000)),
        (false, Some(3000)), // second end reuses the last start
    ];
    let spans = pair_silences(&events);
    assert_eq!(spans.len(), 2);
    assert_eq!((spans[0].start_ms, spans[0].end_ms), (1000, 2000));
    assert_eq!((spans[1].start_ms, spans[1].end_ms), (1000, 3000));
}

#[test]
fn parse_out_time_us_rejects_other_lines() {
    assert_eq!(parse_out_time_us("out_time_ms=5"), None);
    assert_eq!(parse_out_time_us("out_time_us=abc"), None);
    assert_eq!(parse_out_time_us("out_time_us=42\n"), Some(42));
    assert_eq!(parse_out_time_us(" out_time_us=42"), None);
}

#[test]
fn summarize_probe_finds_first_audio_stream() {
    let streams = vec![
        StreamInfo { codec_type: Some("video".to_string()), codec_name: Some("h264".to_string()) },
        StreamInfo { codec_type: Some("audio".to_string()), codec_name: Some("aac".to_string()) },
        StreamInfo { codec_type: Some("audio".to_string()), codec_name: Some("opus".to_string()) },
    ];
    let facts = summarize_probe(Some("1000000"), &streams).unwrap();
    assert_eq!(facts.file_size_bytes, 1_000_000);
    assert!(facts.has_audio);
    assert_eq!(facts.audio_codec.as_deref(), Some("aac"));
    assert_eq!(facts.nb_streams, 3);
}

#[test]
fn summarize_probe_errors() {
    let streams = vec![StreamInfo { codec_type: Some("video".to_string()), codec_name: None }];
    let e = summarize_probe(Some("12"), &streams).unwrap_err();
    assert_eq!(e.code, "INVALID_FILE");
    assert_eq!(e.message, "File has no audio stream");
    let e = summarize_probe(None, &streams).unwrap_err();
    assert_eq!(e.message, "Could not determine file size");
    let e = summarize_probe(Some("1.5"), &streams).unwrap_err();
    assert_eq!(e.message, "Could not determine file size");
}

#[test]
fn command_lines() {
    assert_eq!(
        probe_args("in.mp4"),
        vec!["-v", "quiet", "-print_format", "json", "-show_format", "-show_streams", "in.mp4"]
    );
    assert_eq!(
        extract_audio_args("in.mp4", "out.opus", Some("cb.rnnn")),
        vec![
            "-i", "in.mp4", "-vn", "-ac", "1", "-ar", "16000", "-c:a", "libopus", "-b:a", "32k",
            "-af", "arnndn=m=cb.rnnn", "-progress", "pipe:2", "out.opus"
        ]
    );
    assert_eq!(extract_audio_args("a", "b", None).len(), 14);
    assert_eq!(
        silence_detect_args("a.opus"),
        vec!["-i", "a.opus", "-af", "silencedetect=n=-40dB:d=0.5", "-f", "null", "-"]
    );
    assert_eq!(
        cut_args("a.opus", 61_005, 1_500, "c.opus"),
        vec!["-ss", "61.005", "-i", "a.opus", "-t", "1.500", "-c", "copy", "c.opus"]
    );
    assert_eq!(format_seconds(0), "0.000");
    assert_eq!(format_seconds(1_234_567), "1234.567");
}

#[test]
fn extraction_outcomes() {
    let e = extract_outcome(false, Some(-2), 10, true).unwrap_err();
    assert_eq!(e.code, "INTERNAL_ERROR");
    assert_eq!(e.message, "ffmpeg failed with exit code Some(-2) (bytes written: 10)");
    let e = extract_outcome(false, None, 0, false).unwrap_err();
    assert_eq!(e.message, "ffmpeg failed with exit code None (bytes written: 0)");
    let e = extract_outcome(true, Some(0), 0, false).unwrap_err();
    assert_eq!(e.message, "ffmpeg produced empty output file");
    let s = extract_outcome(true, Some(0), 77, true).unwrap();
    assert_eq!(s.output_size_bytes, 77);
    assert!(s.noise_reduction_applied);
    assert_eq!(cut_failed(Some(1)).message, "ffmpeg cut failed with exit code Some(1)");
}

#[test]
fn adapter_defaults() {
    let a = FfmpegAdapter::default_new();
    assert_eq!(a.ffmpeg_exe, "ffmpeg");
    assert_eq!(a.ffprobe_exe, "ffprobe");
    assert_eq!(a.rnnoise_model, "rnnoise_model");
    let b = FfmpegAdapter::new("x".into(), "y".into(), "z".into());
    assert_eq!((b.ffmpeg_exe.as_str(), b.ffprobe_exe.as_str(), b.rnnoise_model.as_str()), ("x", "y", "z"));
    let p = SilencePoint { start_ms: 1, end_ms: 2 };
    assert_eq!(p.end_ms - p.start_ms, 1);
}
