use slova::groq::{
    bearer_value, check_api_key, check_audio_size, client_error, next_step, out_of_time,
    postprocess_max_tokens, postprocess_outcome, postprocess_system_prompt,
    postprocess_user_message, result_unreadable, GroqCall, GroqStep, Reply,
};
use slova::types::AppErrorView;

#[test]
fn test_error_classification_401() {
    let err = AppErrorView::auth_failed();
    assert_eq!(err.code, "AUTH_FAILED");
}

#[test]
fn test_error_classification_rate_limit() {
    let err = AppErrorView::rate_limit(Some(60));
    assert_eq!(err.code, "RATE_LIMIT");
    assert!(err.message.contains("60s"));
}

#[test]
fn test_error_classification_network() {
    let err = AppErrorView::network_error("Connection timeout");
    assert_eq!(err.code, "NETWORK_ERROR");
}

#[test]
fn test_postprocess_prompt_safety() {
    // Verify that the postprocessing prompt includes safety constraints
    let prompt = postprocess_system_prompt();

    assert!(prompt.contains("NEVER change the meaning"));
    assert!(prompt.contains("NEVER add facts"));
    assert!(prompt.contains("NEVER translate"));
    assert!(prompt.contains("NEVER remove important"));
}

fn status(code: u16, retry_after: Option<&str>) -> Reply {
    Reply::Status { code, retry_after: retry_after.map(|s| s.to_string()) }
}

fn fail(step: GroqStep) -> AppErrorView {
    match step {
        GroqStep::Fail(e) => e,
        other => panic!("expected a failure, got {:?}", other),
    }
}

#[test]
fn rate_limit_waits_for_retry_after_then_gives_up() {
    match next_step(GroqCall::Transcribe, 0, &status(429, Some("7"))) {
        GroqStep::Wait { attempt, delay_secs } => assert_eq!((attempt, delay_secs), (1, 7)),
        other => panic!("{:?}", other),
    }
    match next_step(GroqCall::Transcribe, 2, &status(429, Some("soon"))) {
        GroqStep::Wait { attempt, delay_secs } => assert_eq!((attempt, delay_secs), (3, 60)),
        other => panic!("{:?}", other),
    }
    match next_step(GroqCall::Postprocess, 0, &status(429, None)) {
        GroqStep::Wait { attempt, delay_secs } => assert_eq!((attempt, delay_secs), (1, 30)),
        other => panic!("{:?}", other),
    }
    let e = fail(next_step(GroqCall::Transcribe, 4, &status(429, Some("5"))));
    assert_eq!(e.code, "RATE_LIMIT");
    assert_eq!(e.message, "Rate limited. Retry after 5s");
    let e = fail(next_step(GroqCall::Postprocess, 2, &status(429, None)));
    assert_eq!(e.message, "Rate limited. Retry after 30s");
}

#[test]
fn server_errors_back_off_and_give_up() {
    let delays: Vec<u64> = (0..4)
        .map(|a| match next_step(GroqCall::Transcribe, a, &status(503, None)) {
            GroqStep::Wait { delay_secs, .. } => delay_secs,
            other => panic!("{:?}", other),
        })
        .collect();
    assert_eq!(delays, vec![2, 4, 8, 16]);
    let e = fail(next_step(GroqCall::Transcribe, 4, &status(500, None)));
    assert_eq!(e.code, "INTERNAL_ERROR");
    assert_eq!(e.message, "Groq server error: 500 Internal Server Error (after 5 attempts)");
    match next_step(GroqCall::Postprocess, 1, &status(502, None)) {
        GroqStep::Wait { attempt, delay_secs } => assert_eq!((attempt, delay_secs), (2, 4)),
        other => panic!("{:?}", other),
    }
}

#[test]
fn other_statuses() {
    assert_eq!(fail(next_step(GroqCall::Transcribe, 0, &status(401, None))).code, "AUTH_FAILED");
    assert!(matches!(next_step(GroqCall::Transcribe, 0, &status(404, None)), GroqStep::ReadError));
    assert!(matches!(next_step(GroqCall::Postprocess, 0, &status(200, None)), GroqStep::ReadResult));
    let e = fail(next_step(GroqCall::Transcribe, 0, &status(302, None)));
    assert_eq!(e.message, "Unexpected status: 302 Found");
}

#[test]
fn network_failures() {
    let transient = Reply::Transient { message: "timed out".to_string() };
    match next_step(GroqCall::Postprocess, 0, &transient) {
        GroqStep::Wait { attempt, delay_secs } => assert_eq!((attempt, delay_secs), (1, 2)),
        other => panic!("{:?}", other),
    }
    let e = fail(next_step(GroqCall::Postprocess, 2, &transient));
    assert_eq!(e.code, "NETWORK_ERROR");
    assert_eq!(e.message, "Postprocessing network error (after 3 attempts): timed out");
    let e = fail(next_step(GroqCall::Transcribe, 4, &transient));
    assert_eq!(e.message, "Network error (after 5 attempts): timed out");
    let broken = Reply::Broken { message: "bad url".to_string() };
    assert_eq!(fail(next_step(GroqCall::Transcribe, 0, &broken)).message, "Request failed: bad url");
    assert_eq!(
        fail(next_step(GroqCall::Postprocess, 0, &broken)).message,
        "Postprocessing request failed: bad url"
    );
}

#[test]
fn backoff_is_capped() {
    assert_eq!(GroqCall::Transcribe.backoff(5), 32);
    assert_eq!(GroqCall::Transcribe.backoff(9), 32);
    assert_eq!(GroqCall::Postprocess.backoff(3), 8);
    assert_eq!(GroqCall::Postprocess.backoff(0), 1);
    assert_eq!(GroqCall::Transcribe.retry_after(Some("+12")), 12);
    assert_eq!(GroqCall::Transcribe.max_attempts(), 5);
    assert_eq!(GroqCall::Postprocess.max_attempts(), 3);
}

#[test]
fn client_errors_and_unreadable_results() {
    let e = client_error(GroqCall::Transcribe, 400, Some("bad file"));
    assert_eq!(e.code, "API_ERROR");
    assert_eq!(e.message, "Groq API error: bad file");
    assert_eq!(e.details.as_deref(), Some("Status: 400 Bad Request"));
    let e = client_error(GroqCall::Postprocess, 413, None);
    assert_eq!(e.code, "POSTPROCESS_ERROR");
    assert_eq!(e.message, "Groq postprocess error: Unknown error");
    assert!(e.details.is_none());
    assert_eq!(
        result_unreadable(GroqCall::Transcribe, "eof").message,
        "Failed to parse Groq response: eof"
    );
    assert_eq!(
        result_unreadable(GroqCall::Postprocess, "eof").message,
        "Failed to parse postprocess response: eof"
    );
}

#[test]
fn time_budgets() {
    assert!(out_of_time(GroqCall::Transcribe, 120_000_000_000).is_none());
    assert_eq!(
        out_of_time(GroqCall::Transcribe, 120_000_000_001).unwrap().message,
        "Max retry time exceeded (2 minutes)"
    );
    assert!(out_of_time(GroqCall::Postprocess, 60_000_000_000).is_none());
    assert_eq!(
        out_of_time(GroqCall::Postprocess, 60_000_000_001).unwrap().message,
        "Postprocessing timeout (>60s)"
    );
}

#[test]
fn keys_files_and_request_texts() {
    assert_eq!(check_api_key(" \t").unwrap_err().code, "AUTH_FAILED");
    assert!(check_api_key("gsk_test_key_123").is_ok());
    assert_eq!(bearer_value("k"), "Bearer k");
    assert_eq!(check_audio_size(0).unwrap_err().message, "Audio file is empty");
    assert!(check_audio_size(1).is_ok());
    assert_eq!(
        postprocess_user_message("hi"),
        "Clean this transcript (remember: preserve ALL meaning):\n\nhi"
    );
    assert_eq!(postprocess_max_tokens(10), 20);
    assert_eq!(postprocess_max_tokens(4000), 8000);
    assert_eq!(postprocess_max_tokens(100_000), 8000);
    assert_eq!(postprocess_outcome(Some("  clean text \n")).unwrap(), "clean text");
    assert_eq!(
        postprocess_outcome(None).unwrap_err().message,
        "Empty response from postprocessing"
    );
}
