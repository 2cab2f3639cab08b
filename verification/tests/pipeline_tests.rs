use slova::pipeline::{advance, failed_state, saves_state, start, PipelineStep, Stage};
use slova::stages::{
    check_chunks, export_base_path, extract_stage, extracted_audio, multi_chunk_stage,
    postprocess_stage, probe_stage, processed_output_path, record_chunk_transcript,
    single_chunk_stage, stitch_stage, transcribe_stage, wants_postprocess, write_stage,
    PipelineCtx, StageResult,
};
use slova::stitching::SegmentLocal;
use slova::types::{AppErrorView, Job, JobSettings, JobState};
use std::path::Path;

fn job(path: &str) -> Job {
    Job {
        id: Default::default(),
        source_path: path.to_string(),
        display_name: "test".into(),
        size_bytes: 1000,
        created_at: "2024-01-01".into(),
        state: JobState::Queued,
        settings_snapshot: Default::default(),
        content_hash: None,
    }
}

#[test]
fn test_pipeline_creation() {
    // A pipeline run starts at the probe stage.
    assert!(matches!(start(false), PipelineStep::Run(Stage::Probe)));
}

#[test]
fn test_pipeline_ctx_creation() {
    let job = Job {
        id: Default::default(),
        source_path: "/test/video.mp4".to_string(),
        display_name: "test".into(),
        size_bytes: 1000,
        created_at: "2024-01-01".into(),
        state: JobState::Queued,
        settings_snapshot: Default::default(),
        content_hash: None,
    };

    let ctx = PipelineCtx::new(job);
    assert_eq!(Path::new(&ctx.output_path).extension().unwrap(), "txt");
}

#[test]
fn stages_run_in_order_until_write() {
    let order = [
        Stage::Probe,
        Stage::Extract,
        Stage::Chunk,
        Stage::Transcribe,
        Stage::Stitch,
        Stage::Postprocess,
        Stage::Write,
    ];
    let going = StageResult { state: JobState::Probing, should_continue: true };
    for w in order.windows(2) {
        match advance(w[0], Some(&going), false) {
            PipelineStep::Run(next) => assert_eq!(next, w[1]),
            other => panic!("{:?}", other),
        }
    }
    assert!(matches!(advance(Stage::Write, Some(&going), false), PipelineStep::Finish));
    assert!(matches!(advance(Stage::Stitch, None, false), PipelineStep::Run(Stage::Postprocess)));
    let stop = StageResult { state: JobState::Probing, should_continue: false };
    assert!(matches!(advance(Stage::Probe, Some(&stop), true), PipelineStep::Finish));
    match advance(Stage::Chunk, Some(&going), true) {
        PipelineStep::Fail(e) => {
            assert_eq!(e.code, "CANCELLED");
            assert_eq!(e.message, "Job cancelled by user");
        }
        other => panic!("{:?}", other),
    }
    assert!(matches!(start(true), PipelineStep::Fail(_)));
    assert!(saves_state(Stage::Postprocess));
    assert!(!saves_state(Stage::Write));
    match failed_state(AppErrorView::internal_error("boom")) {
        JobState::Failed { error, attempts } => {
            assert_eq!(error.message, "boom");
            assert_eq!(attempts, 1);
        }
        other => panic!("{:?}", other),
    }
}

#[test]
fn probe_checks() {
    assert_eq!(probe_stage(false, 5000).unwrap_err().message, "Video file has no audio track");
    assert_eq!(probe_stage(true, 999).unwrap_err().message, "Audio duration too short (< 1 second)");
    let r = probe_stage(true, 1000).unwrap();
    assert!(matches!(r.state, JobState::Probing) && r.should_continue);
}

#[test]
fn single_chunk_run() {
    let mut ctx = PipelineCtx::new(job("/videos/talk.mp4"));
    assert_eq!(extracted_audio(&ctx).unwrap_err().message, "Audio temp path not set");
    let r = extract_stage(&mut ctx, "/tmp/a.opus".to_string());
    assert!(matches!(r.state, JobState::Extracting { progress_permille: 1000 }));
    let audio = extracted_audio(&ctx).unwrap();
    assert_eq!(audio, "/tmp/a.opus");
    assert_eq!(check_chunks(&ctx).unwrap_err().message, "No chunks available for transcription");
    let r = single_chunk_stage(&mut ctx, 61_000, audio);
    assert!(matches!(r.state, JobState::Uploading { progress_permille: 0, chunk_idx: 1, chunk_total: 1 }));
    assert!(check_chunks(&ctx).is_ok());
    record_chunk_transcript(
        &mut ctx,
        0,
        "hi there".to_string(),
        vec![SegmentLocal { start_ms: 0, end_ms: 500, text: "hi".into() }, SegmentLocal { start_ms: 600, end_ms: 1200, text: "there".into() }],
    );
    let r = transcribe_stage(&ctx);
    assert!(matches!(r.state, JobState::Transcribing { chunk_idx: 1, chunk_total: 1 }));
    assert!(stitch_stage(&mut ctx).unwrap().is_none());
    assert_eq!(ctx.transcript_raw, "hi there");
    assert_eq!(ctx.segments.len(), 2);
    assert!(!wants_postprocess(&ctx));
    let r = postprocess_stage(&mut ctx, Some(Ok("Hi there.".to_string())));
    assert!(matches!(r.state, JobState::Postprocessing));
    assert_eq!(ctx.get_final_transcript(), "Hi there.");
    postprocess_stage(&mut ctx, Some(Err(AppErrorView::internal_error("x"))));
    assert_eq!(ctx.get_final_transcript(), "hi there");
    match write_stage(&ctx).state {
        JobState::Done { output_path, duration_ms } => {
            assert_eq!(output_path, "/videos/talk.txt");
            assert_eq!(duration_ms, 1200);
        }
        other => panic!("{:?}", other),
    }
    assert!(!write_stage(&ctx).should_continue);
    assert_eq!(export_base_path(&ctx), "/videos/talk");
    assert_eq!(processed_output_path(&ctx.output_path).unwrap(), "/videos/talk.processed.txt");
}

#[test]
fn several_chunks_are_stitched() {
    let mut ctx = PipelineCtx::new(job("clip.mp4"));
    let plan = vec![(0, 10_000, None, Some(15_000)), (10_000, 20_000, Some(5_000), None)];
    let r = multi_chunk_stage(&mut ctx, &plan, vec!["c0".to_string(), "c1".to_string()]);
    assert!(matches!(r.state, JobState::Chunking { progress_permille: 1000 }));
    assert_eq!(ctx.chunks[1].path, "c1");
    assert_eq!(stitch_stage(&mut ctx).unwrap_err().message, "No chunk transcripts available");
    record_chunk_transcript(&mut ctx, 0, "one".into(), vec![SegmentLocal { start_ms: 0, end_ms: 1000, text: "one".into() }]);
    record_chunk_transcript(&mut ctx, 1, "two".into(), vec![SegmentLocal { start_ms: 6000, end_ms: 7000, text: "two".into() }]);
    assert_eq!(ctx.chunk_transcripts[1].chunk_start_ms, 10_000);
    assert_eq!(ctx.chunk_transcripts[1].overlap_start_ms, Some(5_000));
    let r = stitch_stage(&mut ctx).unwrap().unwrap();
    assert!(matches!(r.state, JobState::Stitching));
    assert_eq!(ctx.transcript_raw, "one two");
    assert_eq!(ctx.segments[1].start_ms, 16_000);
    assert_eq!(processed_output_path("clip.txt").unwrap(), "clip.processed.txt");
    assert!(processed_output_path("/").is_none());
}

#[test]
fn cleanup_only_when_asked() {
    let mut j = job("a.mp4");
    j.settings_snapshot = JobSettings { language: "en".into(), output_format: slova::types::ExportFormat::Txt, enable_postprocess: true };
    let mut ctx = PipelineCtx::new(j);
    assert!(wants_postprocess(&ctx));
    ctx.transcript_processed = Some("kept".into());
    postprocess_stage(&mut ctx, None);
    assert_eq!(ctx.transcript_processed.as_deref(), Some("kept"));
}
