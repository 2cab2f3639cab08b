use slova::types::{
    AppErrorView, ExportFormat, JobId, JobSettings, JobState, Settings,
};

#[test]
fn error_constructors() {
    let e = AppErrorView::rate_limit(None);
    assert_eq!(e.message, "Rate limited. Retry after a delay");
    let e = AppErrorView::new("C", "m").with_details("d");
    assert_eq!(e.details.as_deref(), Some("d"));
    assert_eq!(e.to_display_string(), "C: m");
    assert_eq!(AppErrorView::fs_error("x").code, "FS_ERROR");
    assert_eq!(AppErrorView::invalid_file("x").code, "INVALID_FILE");
    assert_eq!(AppErrorView::internal_error("x").code, "INTERNAL_ERROR");
    assert_eq!(AppErrorView::auth_failed().message, "API key is invalid or not set");
}

#[test]
fn job_ids_are_random_v4_uuids() {
    let a = JobId::new();
    let b = JobId::new();
    assert_ne!(a, b);
    let u = uuid::Uuid::from_u128(a.0);
    assert_eq!(u.get_version_num(), 4);
    assert_eq!(u.get_variant(), uuid::Variant::RFC4122);
}

#[test]
fn states_and_defaults() {
    assert_eq!(JobState::Extracting { progress_permille: 5 }.kind(), "Extracting");
    assert_eq!(JobState::Failed { error: AppErrorView::auth_failed(), attempts: 1 }.kind(), "Failed");
    assert!(JobState::Postprocessing.is_unfinished());
    assert!(!JobState::Cancelled.is_unfinished());
    assert!(!JobState::Done { output_path: "x".into(), duration_ms: 1 }.is_unfinished());
    let s = Settings::default();
    assert_eq!((s.language.as_str(), s.parallelism, s.groq_model.as_str()), ("ru", 3, "whisper-large-v3-turbo"));
    let j = JobSettings::default();
    assert_eq!((j.language.as_str(), j.output_format, j.enable_postprocess), ("ru", ExportFormat::Txt, false));
    assert_eq!(ExportFormat::Json.as_str(), "json");
}
