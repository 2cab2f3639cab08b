//! The decisions of the Groq client: when an API key is usable, how each
//! reply of the speech-to-text and chat endpoints is answered (retry after
//! a wait, fail with which error, or read the body), and the texts of the
//! postprocessing request.

use vstd::prelude::*;
use crate::text::{
    decimal, parse_unsigned, push_decimal, push_str, starts_with, string_of, trim,
    trim_str,
};
use crate::types::{AppErrorView, is_error, rate_limit_message};

verus! {

broadcast use vstd::string::group_string_axioms;

// ---------------------------------------------------------------------------
// HTTP status codes
// ---------------------------------------------------------------------------

/// What `reqwest::StatusCode` displays as for a code: the number and its
/// canonical reason phrase (`"<unknown status code>"` where there is none).
pub uninterp spec fn status_text(code: u16) -> Seq<char>;

/// `reqwest::StatusCode::from_u16(code)` shown with `Display`. The text is
/// named `status_text`, a function of the code alone; the table of reason
/// phrases is not restated. What is stated is that it starts with the
/// three digits of the code and a space, as the `Display` impl writes it.
#[verifier::external_body]
fn status_line(code: u16) -> (r: String)
    requires
        100 <= code <= 999,
    ensures
        r@ == status_text(code),
        starts_with(r@, decimal(code as nat) + " "@),
{
    match reqwest::StatusCode::from_u16(code) {
        Ok(s) => s.to_string(),
        Err(_) => String::new(),
    }
}

/// `StatusCode::is_success`.
pub open spec fn is_success_code(code: u16) -> bool {
    200 <= code < 300
}

/// `StatusCode::is_client_error`.
pub open spec fn is_client_error_code(code: u16) -> bool {
    400 <= code < 500
}

/// `StatusCode::is_server_error`.
pub open spec fn is_server_error_code(code: u16) -> bool {
    500 <= code < 600
}

// ---------------------------------------------------------------------------
// The two calls and their limits
// ---------------------------------------------------------------------------

/// The two endpoints the client calls.
#[derive(Debug, Clone, Copy, PartialEq, Eq, Structural)]
pub enum GroqCall {
    /// Speech to text (`/audio/transcriptions`).
    Transcribe,
    /// Transcript cleanup by a chat model (`/chat/completions`).
    Postprocess,
}

/// How many attempts a call gets.
pub open spec fn max_attempts_of(call: GroqCall) -> u32 {
    match call {
        GroqCall::Transcribe => 5,
        GroqCall::Postprocess => 3,
    }
}

/// The wait after a rate limit when the reply names none, in seconds.
pub open spec fn default_retry_after_of(call: GroqCall) -> u64 {
    match call {
        GroqCall::Transcribe => 60,
        GroqCall::Postprocess => 30,
    }
}

/// The largest exponent of the doubling backoff.
pub open spec fn max_shift_of(call: GroqCall) -> nat {
    match call {
        GroqCall::Transcribe => 5,
        GroqCall::Postprocess => 3,
    }
}

/// How long all attempts of a call may take, in seconds.
pub open spec fn time_budget_secs_of(call: GroqCall) -> nat {
    match call {
        GroqCall::Transcribe => 120,
        GroqCall::Postprocess => 60,
    }
}

/// Two to the power `n`.
pub open spec fn two_to(n: nat) -> nat
    decreases n,
{
    if n == 0 { 1 } else { 2 * two_to((n - 1) as nat) }
}

/// The wait before retry number `attempt` after a server or network error:
/// `2^min(attempt, cap)` seconds.
pub open spec fn backoff_secs(call: GroqCall, attempt: nat) -> nat {
    if attempt < max_shift_of(call) { two_to(attempt) } else { two_to(max_shift_of(call)) }
}

/// The wait a rate-limited reply asks for: its `Retry-After` header read as
/// whole seconds, or the call's default where it is missing or not a number.
pub open spec fn retry_after_secs(call: GroqCall, header: Option<Seq<char>>) -> u64 {
    match header {
        Some(h) => match parse_unsigned(h, u64::MAX as nat) {
            Some(n) => n as u64,
            None => default_retry_after_of(call),
        },
        None => default_retry_after_of(call),
    }
}

impl GroqCall {
    pub fn max_attempts(&self) -> (n: u32)
        ensures
            n == max_attempts_of(*self),
    {
        match self {
            GroqCall::Transcribe => 5,
            GroqCall::Postprocess => 3,
        }
    }

    pub fn default_retry_after(&self) -> (n: u64)
        ensures
            n == default_retry_after_of(*self),
    {
        match self {
            GroqCall::Transcribe => 60,
            GroqCall::Postprocess => 30,
        }
    }

    /// The wait before retry number `attempt`, in seconds.
    pub fn backoff(&self, attempt: u32) -> (secs: u64)
        ensures
            secs == backoff_secs(*self, attempt as nat),
    {
        let cap: u32 = match self {
            GroqCall::Transcribe => 5,
            GroqCall::Postprocess => 3,
        };
        let k: u32 = if attempt < cap { attempt } else { cap };
        let mut secs: u64 = 1;
        let mut i: u32 = 0;
        while i < k
            invariant
                i <= k <= 5,
                secs == two_to(i as nat),
                secs <= 32,
            decreases k - i,
        {
            proof {
                lemma_two_to_small(i as nat);
            }
            secs = secs * 2;
            i += 1;
        }
        secs
    }

    /// The wait a rate-limited reply asks for, from its `Retry-After` header.
    pub fn retry_after(&self, header: Option<&str>) -> (secs: u64)
        ensures
            secs == retry_after_secs(*self, opt_view(header)),
    {
        match header {
            Some(h) => {
                let v = crate::text::chars_of(h);
                match crate::text::parse_unsigned_chars(&v, u64::MAX) {
                    Some(n) => n,
                    None => self.default_retry_after(),
                }
            },
            None => self.default_retry_after(),
        }
    }
}

proof fn lemma_two_to_small(i: nat)
    requires
        i < 5,
    ensures
        two_to(i) <= 16,
{
    reveal_with_fuel(two_to, 6);
}

/// The view of an optional string slice.
pub open spec fn opt_view(o: Option<&str>) -> Option<Seq<char>> {
    match o {
        Some(s) => Some(s@),
        None => None,
    }
}

// ---------------------------------------------------------------------------
// Answering a reply
// ---------------------------------------------------------------------------

/// What came back from one attempt.
#[derive(Debug)]
pub enum Reply {
    /// The server answered with a status code and, perhaps, a
    /// `Retry-After` header readable as text.
    Status { code: u16, retry_after: Option<String> },
    /// The request timed out or could not connect; the error as displayed.
    Transient { message: String },
    /// The request failed otherwise; the error as displayed.
    Broken { message: String },
}

/// What the client does next.
#[derive(Debug)]
pub enum GroqStep {
    /// Wait this many seconds, then make attempt number `attempt + 1`.
    Wait { attempt: u32, delay_secs: u64 },
    /// Give up with this error.
    Fail(AppErrorView),
    /// A client error: read the reply's body and report it (`client_error`).
    ReadError,
    /// Success: read the reply's body as the call's result.
    ReadResult,
}

/// The message of a server error after the last attempt.
pub open spec fn server_error_message(code: u16, attempts: nat) -> Seq<char> {
    "Groq server error: "@ + status_text(code) + " (after "@ + decimal(attempts) + " attempts)"@
}

/// The message of a network error after the last attempt.
pub open spec fn network_exhausted_message(call: GroqCall, attempts: nat, err: Seq<char>) -> Seq<char> {
    match call {
        GroqCall::Transcribe => "Network error (after "@ + decimal(attempts) + " attempts): "@ + err,
        GroqCall::Postprocess => "Postprocessing network error (after "@ + decimal(attempts) + " attempts): "@ + err,
    }
}

/// The message of a request that failed for good.
pub open spec fn request_failed_message(call: GroqCall, err: Seq<char>) -> Seq<char> {
    match call {
        GroqCall::Transcribe => "Request failed: "@ + err,
        GroqCall::Postprocess => "Postprocessing request failed: "@ + err,
    }
}

/// Whether `step` waits before attempt `attempt` for `secs` seconds.
pub open spec fn waits(step: GroqStep, attempt: nat, secs: nat) -> bool {
    step matches GroqStep::Wait { attempt: a, delay_secs: d } && a == attempt && d == secs
}

/// Whether `step` gives up with the given code and message.
pub open spec fn fails_with(step: GroqStep, code: Seq<char>, message: Seq<char>) -> bool {
    step matches GroqStep::Fail(e) && is_error(e, code, message)
}

/// The answer to a reply of attempt number `attempt + 1`: a rate limit is
/// waited out for its `Retry-After` seconds, a server or network error is
/// retried after a doubling backoff, until the call's attempts are used
/// up; a rejected key, any other client error, success and any other
/// status end the call.
pub open spec fn step_answers(call: GroqCall, attempt: u32, reply: Reply, step: GroqStep) -> bool {
    let next = attempt + 1;
    let last = next >= max_attempts_of(call);
    match reply {
        Reply::Status { code, retry_after } => {
            if code == 429 {
                let secs = retry_after_secs(call, match retry_after { Some(h) => Some(h@), None => None });
                if last {
                    fails_with(step, "RATE_LIMIT"@, rate_limit_message(Some(secs as u32)))
                } else {
                    waits(step, next as nat, secs as nat)
                }
            } else if code == 401 {
                fails_with(step, "AUTH_FAILED"@, "API key is invalid or not set"@)
            } else if is_server_error_code(code) {
                if last {
                    fails_with(step, "INTERNAL_ERROR"@, server_error_message(code, next as nat))
                } else {
                    waits(step, next as nat, backoff_secs(call, next as nat))
                }
            } else if is_client_error_code(code) {
                step is ReadError
            } else if is_success_code(code) {
                step is ReadResult
            } else {
                fails_with(step, "INTERNAL_ERROR"@, "Unexpected status: "@ + status_text(code))
            }
        },
        Reply::Transient { message } => {
            if last {
                fails_with(step, "NETWORK_ERROR"@, network_exhausted_message(call, next as nat, message@))
            } else {
                waits(step, next as nat, backoff_secs(call, next as nat))
            }
        },
        Reply::Broken { message } => {
            fails_with(step, "NETWORK_ERROR"@, request_failed_message(call, message@))
        },
    }
}

/// Decides what follows the reply to attempt number `attempt + 1` (the
/// attempts made before it are `attempt`).
pub fn next_step(call: GroqCall, attempt: u32, reply: &Reply) -> (step: GroqStep)
    requires
        attempt < max_attempts_of(call),
        *reply matches Reply::Status { code, .. } ==> 100 <= code <= 999,
    ensures
        step_answers(call, attempt, *reply, step),
{
    let next = attempt + 1;
    let last = next >= call.max_attempts();
    match reply {
        Reply::Status { code, retry_after } => {
            let code = *code;
            if code == 429 {
                let secs = match retry_after {
                    Some(h) => call.retry_after(Some(h.as_str())),
                    None => call.retry_after(None),
                };
                if last {
                    GroqStep::Fail(AppErrorView::rate_limit(Some(secs as u32)))
                } else {
                    GroqStep::Wait { attempt: next, delay_secs: secs }
                }
            } else if code == 401 {
                GroqStep::Fail(AppErrorView::auth_failed())
            } else if 500 <= code && code < 600 {
                if last {
                    let mut m = string_of("Groq server error: ");
                    let s = status_line(code);
                    push_str(&mut m, s.as_str());
                    push_str(&mut m, " (after ");
                    push_decimal(&mut m, next as u64);
                    push_str(&mut m, " attempts)");
                    assert(m@ =~= server_error_message(code, next as nat));
                    GroqStep::Fail(AppErrorView::internal_error(m.as_str()))
                } else {
                    GroqStep::Wait { attempt: next, delay_secs: call.backoff(next) }
                }
            } else if 400 <= code && code < 500 {
                GroqStep::ReadError
            } else if 200 <= code && code < 300 {
                GroqStep::ReadResult
            } else {
                let mut m = string_of("Unexpected status: ");
                let s = status_line(code);
                push_str(&mut m, s.as_str());
                GroqStep::Fail(AppErrorView::internal_error(m.as_str()))
            }
        },
        Reply::Transient { message } => {
            if last {
                let mut m = match call {
                    GroqCall::Transcribe => string_of("Network error (after "),
                    GroqCall::Postprocess => string_of("Postprocessing network error (after "),
                };
                push_decimal(&mut m, next as u64);
                push_str(&mut m, " attempts): ");
                push_str(&mut m, message.as_str());
                assert(m@ =~= network_exhausted_message(call, next as nat, message@));
                GroqStep::Fail(AppErrorView::network_error(m.as_str()))
            } else {
                GroqStep::Wait { attempt: next, delay_secs: call.backoff(next) }
            }
        },
        Reply::Broken { message } => {
            let mut m = match call {
                GroqCall::Transcribe => string_of("Request failed: "),
                GroqCall::Postprocess => string_of("Postprocessing request failed: "),
            };
            push_str(&mut m, message.as_str());
            GroqStep::Fail(AppErrorView::network_error(m.as_str()))
        },
    }
}

/// The error of a client-error reply, from its body as text (`None` where
/// the body could not be read): for transcription an `API_ERROR` with the
/// status as details, for postprocessing a `POSTPROCESS_ERROR`.
pub fn client_error(call: GroqCall, code: u16, body: Option<&str>) -> (e: AppErrorView)
    requires
        100 <= code <= 999,
    ensures
        ({
            let text = match body { Some(b) => b@, None => "Unknown error"@ };
            match call {
                GroqCall::Transcribe => {
                    &&& e.code@ == "API_ERROR"@
                    &&& e.message@ == "Groq API error: "@ + text
                    &&& e.details matches Some(d) && d@ == "Status: "@ + status_text(code)
                },
                GroqCall::Postprocess => is_error(e, "POSTPROCESS_ERROR"@, "Groq postprocess error: "@ + text),
            }
        }),
{
    let text = match body {
        Some(b) => string_of(b),
        None => string_of("Unknown error"),
    };
    match call {
        GroqCall::Transcribe => {
            let mut m = string_of("Groq API error: ");
            push_str(&mut m, text.as_str());
            let mut d = string_of("Status: ");
            let s = status_line(code);
            push_str(&mut d, s.as_str());
            AppErrorView::new("API_ERROR", m.as_str()).with_details(d.as_str())
        },
        GroqCall::Postprocess => {
            let mut m = string_of("Groq postprocess error: ");
            push_str(&mut m, text.as_str());
            AppErrorView::new("POSTPROCESS_ERROR", m.as_str())
        },
    }
}

/// The error of a successful reply whose body could not be read as the
/// call's result.
pub fn result_unreadable(call: GroqCall, reason: &str) -> (e: AppErrorView)
    ensures
        match call {
            GroqCall::Transcribe => is_error(e, "INTERNAL_ERROR"@, "Failed to parse Groq response: "@ + reason@),
            GroqCall::Postprocess => is_error(e, "INTERNAL_ERROR"@, "Failed to parse postprocess response: "@ + reason@),
        },
{
    let mut m = match call {
        GroqCall::Transcribe => string_of("Failed to parse Groq response: "),
        GroqCall::Postprocess => string_of("Failed to parse postprocess response: "),
    };
    push_str(&mut m, reason);
    AppErrorView::internal_error(m.as_str())
}

/// The error that ends a call whose attempts have taken longer than its
/// time budget (`elapsed_nanos` since the first), if they have.
pub fn out_of_time(call: GroqCall, elapsed_nanos: u128) -> (r: Option<AppErrorView>)
    ensures
        elapsed_nanos > time_budget_secs_of(call) * 1_000_000_000 ==> (r matches Some(e) && match call {
            GroqCall::Transcribe => is_error(e, "INTERNAL_ERROR"@, "Max retry time exceeded (2 minutes)"@),
            GroqCall::Postprocess => is_error(e, "INTERNAL_ERROR"@, "Postprocessing timeout (>60s)"@),
        }),
        elapsed_nanos <= time_budget_secs_of(call) * 1_000_000_000 ==> r is None,
{
    match call {
        GroqCall::Transcribe => {
            if elapsed_nanos > 120_000_000_000 {
                Some(AppErrorView::internal_error("Max retry time exceeded (2 minutes)"))
            } else {
                None
            }
        },
        GroqCall::Postprocess => {
            if elapsed_nanos > 60_000_000_000 {
                Some(AppErrorView::internal_error("Postprocessing timeout (>60s)"))
            } else {
                None
            }
        },
    }
}

// ---------------------------------------------------------------------------
// Keys, files and the postprocessing request
// ---------------------------------------------------------------------------

/// Refuses an API key that is empty or only white space.
pub fn check_api_key(api_key: &str) -> (r: Result<(), AppErrorView>)
    ensures
        trim(api_key@).len() == 0 ==> (r matches Err(e) && is_error(e, "AUTH_FAILED"@, "API key is invalid or not set"@)),
        trim(api_key@).len() > 0 ==> r is Ok,
{
    let v = crate::text::chars_of(api_key);
    let t = crate::text::trim_vec(&v);
    if t.len() == 0 {
        Err(AppErrorView::auth_failed())
    } else {
        Ok(())
    }
}

/// The value of the `Authorization` header for a key.
pub fn bearer_value(api_key: &str) -> (s: String)
    ensures
        s@ == "Bearer "@ + api_key@,
{
    let mut s = string_of("Bearer ");
    push_str(&mut s, api_key);
    s
}

/// Refuses an empty audio file before it is uploaded.
pub fn check_audio_size(size_bytes: u64) -> (r: Result<(), AppErrorView>)
    ensures
        size_bytes == 0 ==> (r matches Err(e) && is_error(e, "INVALID_FILE"@, "Audio file is empty"@)),
        size_bytes > 0 ==> r is Ok,
{
    if size_bytes == 0 {
        Err(AppErrorView::invalid_file("Audio file is empty"))
    } else {
        Ok(())
    }
}

/// The instructions given to the chat model: clean the transcript and
/// never change its meaning.
pub open spec fn system_prompt_text() -> Seq<char> {
    "You are a transcript cleaner. Your task is to:\n1. Fix punctuation and capitalization\n2. Improve readability with proper spacing\n3. Correct obvious typos\n4. Add paragraph breaks where appropriate\n\nSTRICT RULES (DO NOT VIOLATE):\n- NEVER change the meaning of any words\n- NEVER add facts not in the original text\n- NEVER translate to another language\n- NEVER remove important words or concepts\n- NEVER reorder sentences\n- Keep all names, places, and technical terms exactly as they appear\n- Return ONLY the cleaned transcript, nothing else"@
}

/// The system prompt of the postprocessing request.
pub fn postprocess_system_prompt() -> (s: String)
    ensures
        s@ == system_prompt_text(),
{
    string_of("You are a transcript cleaner. Your task is to:\n1. Fix punctuation and capitalization\n2. Improve readability with proper spacing\n3. Correct obvious typos\n4. Add paragraph breaks where appropriate\n\nSTRICT RULES (DO NOT VIOLATE):\n- NEVER change the meaning of any words\n- NEVER add facts not in the original text\n- NEVER translate to another language\n- NEVER remove important words or concepts\n- NEVER reorder sentences\n- Keep all names, places, and technical terms exactly as they appear\n- Return ONLY the cleaned transcript, nothing else")
}

/// The user message of the postprocessing request.
pub fn postprocess_user_message(text: &str) -> (s: String)
    ensures
        s@ == "Clean this transcript (remember: preserve ALL meaning):\n\n"@ + text@,
{
    let mut s = string_of("Clean this transcript (remember: preserve ALL meaning):\n\n");
    push_str(&mut s, text);
    s
}

/// The token limit of the postprocessing request for a transcript of
/// `text_len` bytes: twice the length (as an `i32`), at most 8000.
pub fn postprocess_max_tokens(text_len: usize) -> (n: i32)
    requires
        i32::MIN <= 2 * (text_len as i32) <= i32::MAX,
    ensures
        n == (if 2 * (text_len as i32) < 8000 { 2 * (text_len as i32) } else { 8000 }),
{
    let t: i32 = text_len as i32;
    let doubled: i32 = t * 2;
    if doubled < 8000 { doubled } else { 8000 }
}

/// The cleaned transcript from the first choice of the chat reply, trimmed,
/// or an error where the reply has no choice.
pub fn postprocess_outcome(first_choice: Option<&str>) -> (r: Result<String, AppErrorView>)
    ensures
        match first_choice {
            Some(c) => r matches Ok(s) && s@ == trim(c@),
            None => r matches Err(e) && is_error(e, "INTERNAL_ERROR"@, "Empty response from postprocessing"@),
        },
{
    match first_choice {
        Some(c) => Ok(trim_str(c)),
        None => Err(AppErrorView::internal_error("Empty response from postprocessing")),
    }
}

// ---------------------------------------------------------------------------
// Laws
// ---------------------------------------------------------------------------

/// A call never goes past its attempts: whenever a reply is answered by a
/// wait, the attempt it waits for is the next one and is still within the
/// call's limit (five for transcription, three for postprocessing).
pub proof fn lemma_attempts_bounded(call: GroqCall, attempt: u32, reply: Reply, step: GroqStep)
    requires
        attempt < max_attempts_of(call),
        step_answers(call, attempt, reply, step),
        step is Wait,
    ensures
        step->Wait_attempt == attempt + 1,
        step->Wait_attempt < max_attempts_of(call),
{
}

/// A timeout, a failed connection or a server error (status 500 to 599) is
/// retried, by either call, until its attempts are used up (five for
/// transcription, three for postprocessing): before the last attempt the
/// reply is answered by a wait for the next attempt of `2^(attempt + 1)`
/// seconds, never by giving up; after the last attempt the call gives up
/// with a network error for a timeout or failed connection and an internal
/// error for a server error.
pub proof fn lemma_transient_failures_retried(call: GroqCall, attempt: u32, reply: Reply, step: GroqStep)
    requires
        attempt < max_attempts_of(call),
        step_answers(call, attempt, reply, step),
        reply is Transient || (reply matches Reply::Status { code, .. } && 500 <= code < 600),
    ensures
        attempt + 1 < (if call is Transcribe { 5int } else { 3int }) ==>
            (step matches GroqStep::Wait { attempt: a, delay_secs: d } && a == attempt + 1 && d == two_to((attempt + 1) as nat)),
        attempt + 1 == (if call is Transcribe { 5int } else { 3int }) ==>
            (step matches GroqStep::Fail(e) && e.code@ == (if reply is Transient { "NETWORK_ERROR"@ } else { "INTERNAL_ERROR"@ })),
{
}

proof fn lemma_two_to_monotone(a: nat, b: nat)
    requires
        a <= b,
    ensures
        two_to(a) <= two_to(b),
    decreases b,
{
    if a < b {
        lemma_two_to_monotone(a, (b - 1) as nat);
    }
}

/// The backoff after a server or network error doubles with each attempt
/// and never exceeds `2^cap` seconds (32 for transcription, 8 for
/// postprocessing).
pub proof fn lemma_backoff_doubles_and_caps(call: GroqCall, attempt: nat)
    ensures
        backoff_secs(call, attempt) <= two_to(max_shift_of(call)),
        attempt < max_shift_of(call) ==> backoff_secs(call, attempt + 1) == 2 * backoff_secs(call, attempt),
        attempt >= max_shift_of(call) ==> backoff_secs(call, attempt + 1) == backoff_secs(call, attempt),
{
    if attempt < max_shift_of(call) {
        lemma_two_to_monotone(attempt, max_shift_of(call));
    }
}

} // verus!
