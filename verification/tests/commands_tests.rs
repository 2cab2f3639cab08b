use slova::commands::{
    check_api_key_input, check_enqueue_files, file_content_hash, check_transcript_edit, display_name_of, export_text,
    health_status, is_log_file, key_check_failed, key_delete_failed, log_tail, new_job,
    queued_tick, settings_entries, settings_from_stored, unfinished_jobs, validate_settings,
};
use slova::db::list_query;
use slova::events::EventEmitter;
use slova::keyring::{
    delete_outcome, key_entry_names, key_entry_request, lookup_outcome, presence_outcome, save_outcome, setup_error, KeyringAdapter,
    PasswordLookup,
};
use slova::progress::{ProgressEvent, TickBatch};
use slova::telemetry::get_log_dir;
use slova::types::{AppErrorView, ExportFormat, JobFilter, JobId, JobState, Settings};

fn strings(v: &[&str]) -> Vec<String> {
    v.iter().map(|s| s.to_string()).collect()
}

#[test]
fn enqueue_checks() {
    let e = check_enqueue_files(&[], &[]).unwrap_err();
    assert_eq!((e.code.as_str(), e.message.as_str()), ("INVALID_INPUT", "No files provided"));
    let paths = strings(&["a.mp4", "b.mov", "c.mp4"]);
    let e = check_enqueue_files(&paths, &[true, true, false]).unwrap_err();
    assert_eq!(e.code, "INVALID_FILE");
    assert_eq!(e.message, "File must be MP4: b.mov");
    let e = check_enqueue_files(&paths, &[true, false, true]).unwrap_err();
    assert_eq!(e.message, "File not found: b.mov");
    assert!(check_enqueue_files(&strings(&["x/a.mp4", "b.mp4"]), &[true, true]).is_ok());
    assert!(check_enqueue_files(&strings(&["a.MP4"]), &[true]).is_err());
}

#[test]
fn queued_jobs_and_ticks() {
    assert_eq!(display_name_of("/data/talk.mp4"), "talk.mp4");
    assert_eq!(display_name_of("/"), "unknown");
    let settings = Settings {
        language: "en".into(),
        output_format: ExportFormat::Srt,
        parallelism: 2,
        enable_postprocess: true,
        groq_model: "m".into(),
    };
    let job = new_job(JobId(9), "/a.mp4".into(), "a.mp4".into(), 10, "now".into(), &settings, Some("h".into()));
    assert!(matches!(job.state, JobState::Queued));
    assert_eq!(job.settings_snapshot.language, "en");
    assert_eq!(job.settings_snapshot.output_format, ExportFormat::Srt);
    assert!(job.settings_snapshot.enable_postprocess);
    assert_eq!(job.content_hash.as_deref(), Some("h"));
    let tick = queued_tick(&[JobId(1), JobId(2)], 42);
    assert_eq!(tick.ts, 42);
    assert_eq!(tick.updates.len(), 2);
    assert_eq!(tick.updates[1].id, JobId(2));
    assert!(matches!(tick.updates[0].state, JobState::Queued));
    assert!(tick.updates[0].bytes_uploaded.is_none());
}

#[test]
fn settings_are_read_with_defaults() {
    let s = settings_from_stored(None, None, None, None);
    assert_eq!(s.language, "ru");
    assert_eq!(s.output_format, ExportFormat::Txt);
    assert_eq!(s.parallelism, 3);
    assert!(!s.enable_postprocess);
    assert_eq!(s.groq_model, "whisper-large-v3-turbo");
    let s = settings_from_stored(Some("de".into()), Some("json".into()), Some("7".into()), Some("true".into()));
    assert_eq!((s.language.as_str(), s.output_format, s.parallelism, s.enable_postprocess), ("de", ExportFormat::Json, 7, true));
    let s = settings_from_stored(None, Some("SRT".into()), Some("-1".into()), Some("yes".into()));
    assert_eq!((s.output_format, s.parallelism, s.enable_postprocess), (ExportFormat::Txt, 3, false));
    let s = settings_from_stored(None, None, Some("4294967296".into()), None);
    assert_eq!(s.parallelism, 3);
}

#[test]
fn settings_round_trip() {
    let s = Settings {
        language: "en".into(),
        output_format: ExportFormat::Srt,
        parallelism: 10,
        enable_postprocess: true,
        groq_model: "whisper-large-v3-turbo".into(),
    };
    let entries = settings_entries(&s);
    let pairs: Vec<(&str, &str)> = entries.iter().map(|(k, v)| (k.as_str(), v.as_str())).collect();
    assert_eq!(
        pairs,
        vec![("language", "en"), ("output_format", "srt"), ("parallelism", "10"), ("enable_postprocess", "true")]
    );
    let back = settings_from_stored(
        Some(entries[0].1.clone()),
        Some(entries[1].1.clone()),
        Some(entries[2].1.clone()),
        Some(entries[3].1.clone()),
    );
    assert_eq!(back.language, s.language);
    assert_eq!(back.output_format, s.output_format);
    assert_eq!(back.parallelism, s.parallelism);
    assert_eq!(back.enable_postprocess, s.enable_postprocess);
}

#[test]
fn settings_validation() {
    let mut s = Settings::default();
    assert!(validate_settings(&s).is_ok());
    s.parallelism = 0;
    assert_eq!(validate_settings(&s).unwrap_err().message, "Parallelism must be > 0");
    s.parallelism = 11;
    assert_eq!(validate_settings(&s).unwrap_err().message, "Parallelism should not exceed 10");
    s.parallelism = 10;
    assert!(validate_settings(&s).is_ok());
}

#[test]
fn api_key_input() {
    assert_eq!(check_api_key_input("").unwrap_err().message, "API key cannot be empty");
    assert_eq!(check_api_key_input("short").unwrap_err().message, "API key appears too short");
    // Length is counted in bytes: ten two-byte letters are enough.
    assert!(check_api_key_input("ЖЖЖЖЖЖЖЖЖЖ").is_ok());
    assert!(check_api_key_input("gsk_0123456789abcdefgh").is_ok());
    let cause = AppErrorView::new("X", "y");
    assert_eq!(key_check_failed(&cause).message, "Failed to check API key: X: y");
    assert_eq!(key_delete_failed(&cause).message, "Failed to delete API key: X: y");
}

#[test]
fn transcripts_and_logs() {
    assert_eq!(check_transcript_edit("").unwrap_err().code, "INVALID_INPUT");
    assert!(check_transcript_edit("x").is_ok());
    assert_eq!(export_text(Some("e".into()), Some("p".into())).unwrap(), "e");
    assert_eq!(export_text(None, Some("p".into())).unwrap(), "p");
    assert_eq!(export_text(None, None).unwrap_err().message, "No transcript found for this job");
    assert!(is_log_file("/logs/transcriber.log.2024-01-01") == false);
    assert!(is_log_file("/logs/app.log"));
    let contents = strings(&["a\nb\nc\n", "d\r\ne"]);
    assert_eq!(log_tail(&contents, Some(2)), strings(&["d", "e"]));
    assert_eq!(log_tail(&contents, Some(3)), strings(&["c", "d", "e"]));
    assert_eq!(log_tail(&contents, None), strings(&["a", "b", "c", "d", "e"]));
    assert_eq!(log_tail(&contents, Some(0)), Vec::<String>::new());
    assert_eq!(get_log_dir("/data/app"), "/data/app/logs");
    let h = health_status();
    assert!(h.ok);
    assert_eq!(h.version, "0.1.0");
}

#[test]
fn keyring_outcomes() {
    assert_eq!(setup_error("no store").message, "Keyring setup failed: no store");
    assert!(save_outcome(Ok(())).is_ok());
    assert_eq!(save_outcome(Err("locked".into())).unwrap_err().message, "Failed to save API key: locked");
    assert_eq!(lookup_outcome(PasswordLookup::Found("k".into())).unwrap(), Some("k".to_string()));
    assert_eq!(lookup_outcome(PasswordLookup::Missing).unwrap(), None);
    assert_eq!(
        lookup_outcome(PasswordLookup::Failed("denied".into())).unwrap_err().message,
        "Failed to retrieve API key: denied"
    );
    assert_eq!(delete_outcome(Err("gone".into())).unwrap_err().message, "Failed to delete API key: gone");
    assert_eq!(presence_outcome(Ok(Some("k".into()))).unwrap(), true);
    assert_eq!(presence_outcome(Ok(None)).unwrap(), false);
    assert_eq!(presence_outcome(Err(AppErrorView::internal_error("x"))).unwrap_err().message, "x");
    let e = KeyringAdapter::save_api_key("").unwrap_err();
    assert_eq!((e.code.as_str(), e.message.as_str()), ("INVALID_INPUT", "API key cannot be empty"));
}

#[test]
fn keyring_round_trip_or_store_error() {
    // Whatever the platform's store does, failures are internal errors
    // naming the step.
    match KeyringAdapter::save_api_key("gsk_key_for_tests") {
        Ok(()) => {}
        Err(e) => {
            assert_eq!(e.code, "INTERNAL_ERROR");
            assert!(e.message.starts_with("Keyring setup failed: ") || e.message.starts_with("Failed to save API key: "));
        }
    }
    if let Err(e) = KeyringAdapter::has_api_key() {
        assert_eq!(e.code, "INTERNAL_ERROR");
    }
    if let Err(e) = KeyringAdapter::delete_api_key() {
        assert!(e.message.starts_with("Keyring setup failed: ") || e.message.starts_with("Failed to delete API key: "));
    }
    if let Err(e) = KeyringAdapter::get_api_key() {
        assert_eq!(e.code, "INTERNAL_ERROR");
    }
}

#[test]
fn progress_batches() {
    let ev = ProgressEvent { job_id: JobId(3), state: JobState::Stitching, bytes_uploaded: Some(5), eta_ms: None };
    let u = ev.to_job_update();
    assert_eq!(u.id, JobId(3));
    assert!(matches!(u.state, JobState::Stitching));
    assert_eq!(u.bytes_uploaded, Some(5));
    let mut batch = TickBatch::new(2);
    assert!(!batch.add(&ev));
    assert!(batch.add(&ev.clone()));
    let tick = batch.finish(99).unwrap();
    assert_eq!((tick.updates.len(), tick.ts), (2, 99));
    assert!(TickBatch::new(5).finish(1).is_none());
    let _ = EventEmitter::new();
}

#[test]
fn job_list_queries() {
    let base = "SELECT id, source_path, display_name, size_bytes, content_hash, created_at, state, state_payload, settings_json\n                        FROM jobs WHERE 1=1";
    assert_eq!(list_query(None), format!("{} ORDER BY created_at DESC", base));
    let f = JobFilter { state: Some("Done".into()), limit: Some(10), offset: Some(20) };
    assert_eq!(
        list_query(Some(&f)),
        format!("{} AND state = 'Done' ORDER BY created_at DESC LIMIT 10 OFFSET 20", base)
    );
    let f = JobFilter { state: Some("x' OR '1'='1".into()), limit: None, offset: None };
    assert_eq!(
        list_query(Some(&f)),
        format!("{} AND state = 'x'' OR ''1''=''1' ORDER BY created_at DESC", base)
    );
    let f = JobFilter { state: None, limit: None, offset: Some(5) };
    assert_eq!(list_query(Some(&f)), format!("{} ORDER BY created_at DESC OFFSET 5", base));
}

#[test]
fn unfinished_jobs_are_recovered() {
    let settings = Settings::default();
    let mut jobs = Vec::new();
    let states = vec![
        JobState::Queued,
        JobState::Done { output_path: "o".into(), duration_ms: 1 },
        JobState::Uploading { progress_permille: 10, chunk_idx: 1, chunk_total: 2 },
        JobState::Failed { error: AppErrorView::auth_failed(), attempts: 1 },
        JobState::Paused,
    ];
    for (i, state) in states.into_iter().enumerate() {
        let mut j = new_job(JobId(i as u128), "p".into(), "p".into(), 0, "t".into(), &settings, None);
        j.state = state;
        jobs.push(j);
    }
    assert_eq!(unfinished_jobs(&jobs), vec![JobId(0), JobId(2)]);
}

#[test]
fn key_entries_are_named_by_service_and_user() {
    let e = key_entry_request("").unwrap_err();
    assert_eq!((e.code.as_str(), e.message.as_str()), ("INVALID_INPUT", "API key cannot be empty"));
    let (service, user, secret) = key_entry_request("gsk_abc").unwrap();
    assert_eq!((service.as_str(), user.as_str(), secret.as_str()), ("VideoTranscriber", "groq_api_key", "gsk_abc"));
    let (service, user) = key_entry_names();
    assert_eq!((service.as_str(), user.as_str()), ("VideoTranscriber", "groq_api_key"));
}

#[test]
fn file_content_hash_is_sha256_hex() {
    assert_eq!(
        file_content_hash(b""),
        "e3b0c44298fc1c149afbf4c8996fb92427ae41e4649b934ca495991b7852b855"
    );
    assert_eq!(
        file_content_hash(b"abc"),
        "ba7816bf8f01cfea414140de5dae2223b00361a396177a9cb410ff61f20015ad"
    );
}
