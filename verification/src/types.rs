//! The library's data model: job identity and state, settings, transcripts,
//! cache keys, errors and the events sent to the user interface.
//!
//! Paths are held as `String`s and job identifiers as the 128-bit value of
//! their UUID; progress fractions are held in thousandths.

use vstd::prelude::*;
use crate::text::{decimal, format_decimal, push_char, push_decimal, push_str, string_of};

verus! {

broadcast use vstd::string::group_string_axioms;

// ---------------------------------------------------------------------------
// Job identity
// ---------------------------------------------------------------------------

/// The unique identifier of a job: the 128-bit value of a UUID.
#[derive(Clone, Copy, Debug, PartialEq, Eq, Hash, Structural)]
pub struct JobId(pub u128);

/// Whether a 128-bit UUID value carries version 4 and the RFC 4122 variant.
pub open spec fn is_random_uuid(v: u128) -> bool {
    (v >> 76u128) & 0xfu128 == 4 && (v >> 62u128) & 0x3u128 == 2
}

/// `uuid::Uuid::new_v4`, as its 128-bit value (`Uuid::as_u128`). The value is
/// random; the crate sets the version nibble to 4 and the variant bits to
/// `0b10`, and nothing more is claimed of it.
#[verifier::external_body]
fn random_uuid_value() -> (v: u128)
    ensures
        is_random_uuid(v),
{
    uuid::Uuid::new_v4().as_u128()
}

impl JobId {
    /// A fresh random identifier (a version-4 UUID).
    pub fn new() -> (id: JobId)
        ensures
            is_random_uuid(id.0),
    {
        JobId(random_uuid_value())
    }
}

impl Default for JobId {
    /// A fresh random identifier.
    fn default() -> (id: JobId)
        ensures
            is_random_uuid(id.0),
    {
        JobId::new()
    }
}

// ---------------------------------------------------------------------------
// Cache and deduplication keys
// ---------------------------------------------------------------------------

/// Full content hash of a file (hex string).
#[derive(Debug)]
pub struct ContentHash(pub String);

impl Clone for ContentHash {
    fn clone(&self) -> (r: Self)
        ensures
            r == *self,
    {
        ContentHash(self.0.clone())
    }
}

impl ContentHash {
    pub fn new(hash_hex: String) -> (h: ContentHash)
        ensures
            h.0@ == hash_hex@,
    {
        ContentHash(hash_hex)
    }
}

/// Fingerprint of the settings that change a transcription result.
#[derive(Debug)]
pub struct SettingsFingerprint(pub String);

impl Clone for SettingsFingerprint {
    fn clone(&self) -> (r: Self)
        ensures
            r == *self,
    {
        SettingsFingerprint(self.0.clone())
    }
}

impl SettingsFingerprint {
    pub fn new(fingerprint_hex: String) -> (f: SettingsFingerprint)
        ensures
            f.0@ == fingerprint_hex@,
    {
        SettingsFingerprint(fingerprint_hex)
    }
}

/// Cache key: content hash and settings fingerprint joined by `'-'`.
#[derive(Debug)]
pub struct CacheKey(pub String);

impl Clone for CacheKey {
    fn clone(&self) -> (r: Self)
        ensures
            r == *self,
    {
        CacheKey(self.0.clone())
    }
}

/// The text of the cache key for a content hash and a settings fingerprint.
pub open spec fn cache_key_text(content: Seq<char>, fingerprint: Seq<char>) -> Seq<char> {
    content + seq!['-'] + fingerprint
}

/// Cache keys of equally long content hashes are equal only when both the
/// hashes and the fingerprints are: different content or settings never
/// share a key.
pub proof fn lemma_cache_key_injective(c1: Seq<char>, f1: Seq<char>, c2: Seq<char>, f2: Seq<char>)
    requires
        c1.len() == c2.len(),
        cache_key_text(c1, f1) == cache_key_text(c2, f2),
    ensures
        c1 == c2,
        f1 == f2,
{
    let k = cache_key_text(c1, f1);
    assert(c1 =~= k.subrange(0, c1.len() as int));
    assert(c2 =~= cache_key_text(c2, f2).subrange(0, c2.len() as int));
    assert(f1 =~= k.subrange(c1.len() as int + 1, k.len() as int));
    assert(f2 =~= cache_key_text(c2, f2).subrange(c2.len() as int + 1, k.len() as int));
}

impl CacheKey {
    pub fn new(content_hash: &ContentHash, settings_fingerprint: &SettingsFingerprint) -> (k: CacheKey)
        ensures
            k.0@ == cache_key_text(content_hash.0@, settings_fingerprint.0@),
    {
        let mut s = content_hash.0.clone();
        push_char(&mut s, '-');
        push_str(&mut s, settings_fingerprint.0.as_str());
        CacheKey(s)
    }
}

/// Weak key for deduplication within one batch: size, modification time and
/// the hash of the first megabyte, joined by `'-'`.
#[derive(Debug)]
pub struct WeakKey(pub String);

impl Clone for WeakKey {
    fn clone(&self) -> (r: Self)
        ensures
            r == *self,
    {
        WeakKey(self.0.clone())
    }
}

/// The text of the weak key for a size, a modification time and a partial hash.
pub open spec fn weak_key_text(size: u64, mtime: u64, partial_hash: Seq<char>) -> Seq<char> {
    decimal(size as nat) + seq!['-'] + decimal(mtime as nat) + seq!['-'] + partial_hash
}

impl WeakKey {
    pub fn new(size: u64, mtime: u64, partial_hash: &str) -> (k: WeakKey)
        ensures
            k.0@ == weak_key_text(size, mtime, partial_hash@),
    {
        let mut s = format_decimal(size);
        push_char(&mut s, '-');
        push_decimal(&mut s, mtime);
        push_char(&mut s, '-');
        push_str(&mut s, partial_hash);
        WeakKey(s)
    }
}

// ---------------------------------------------------------------------------
// Errors
// ---------------------------------------------------------------------------

/// An error as shown to the user: a machine-readable code, a message and
/// optional details.
#[derive(Debug)]
pub struct AppErrorView {
    pub code: String,
    pub message: String,
    pub details: Option<String>,
}

/// Whether an error has the given code and message and no details.
pub open spec fn is_error(e: AppErrorView, code: Seq<char>, message: Seq<char>) -> bool {
    e.code@ == code && e.message@ == message && e.details is None
}

/// The message of a rate-limit error.
pub open spec fn rate_limit_message(retry_after: Option<u32>) -> Seq<char> {
    match retry_after {
        Some(secs) => "Rate limited. Retry after "@ + decimal(secs as nat) + "s"@,
        None => "Rate limited. Retry after a delay"@,
    }
}

impl Clone for AppErrorView {
    fn clone(&self) -> (r: Self)
        ensures
            r == *self,
    {
        AppErrorView {
            code: self.code.clone(),
            message: self.message.clone(),
            details: match &self.details {
                Some(d) => Some(d.clone()),
                None => None,
            },
        }
    }
}

impl AppErrorView {
    pub fn new(code: &str, message: &str) -> (e: AppErrorView)
        ensures
            is_error(e, code@, message@),
    {
        AppErrorView { code: string_of(code), message: string_of(message), details: None }
    }

    /// The same error with the given details.
    pub fn with_details(self, details: &str) -> (e: AppErrorView)
        ensures
            e.code == self.code,
            e.message == self.message,
            e.details matches Some(d) && d@ == details@,
    {
        let mut e = self;
        e.details = Some(string_of(details));
        e
    }

    /// `"{code}: {message}"`, the text the error displays as.
    pub fn to_display_string(&self) -> (s: String)
        ensures
            s@ == self.code@ + ": "@ + self.message@,
    {
        let mut s = self.code.clone();
        push_str(&mut s, ": ");
        push_str(&mut s, self.message.as_str());
        s
    }

    pub fn invalid_file(reason: &str) -> (e: AppErrorView)
        ensures
            is_error(e, "INVALID_FILE"@, reason@),
    {
        Self::new("INVALID_FILE", reason)
    }

    pub fn rate_limit(retry_after: Option<u32>) -> (e: AppErrorView)
        ensures
            is_error(e, "RATE_LIMIT"@, rate_limit_message(retry_after)),
    {
        let msg = match retry_after {
            Some(secs) => {
                let mut m = string_of("Rate limited. Retry after ");
                push_decimal(&mut m, secs as u64);
                push_str(&mut m, "s");
                m
            },
            None => string_of("Rate limited. Retry after a delay"),
        };
        Self::new("RATE_LIMIT", msg.as_str())
    }

    pub fn auth_failed() -> (e: AppErrorView)
        ensures
            is_error(e, "AUTH_FAILED"@, "API key is invalid or not set"@),
    {
        Self::new("AUTH_FAILED", "API key is invalid or not set")
    }

    pub fn network_error(reason: &str) -> (e: AppErrorView)
        ensures
            is_error(e, "NETWORK_ERROR"@, reason@),
    {
        Self::new("NETWORK_ERROR", reason)
    }

    pub fn fs_error(reason: &str) -> (e: AppErrorView)
        ensures
            is_error(e, "FS_ERROR"@, reason@),
    {
        Self::new("FS_ERROR", reason)
    }

    pub fn internal_error(reason: &str) -> (e: AppErrorView)
        ensures
            is_error(e, "INTERNAL_ERROR"@, reason@),
    {
        Self::new("INTERNAL_ERROR", reason)
    }
}

// ---------------------------------------------------------------------------
// Settings
// ---------------------------------------------------------------------------

/// Export format of a transcript.
#[derive(Clone, Copy, Debug, PartialEq, Eq, Structural)]
pub enum ExportFormat {
    Txt,
    Srt,
    Json,
}

impl ExportFormat {
    /// The lowercase name of the format, which is also its file extension.
    pub fn as_str(&self) -> (s: &'static str)
        ensures
            s@ == export_format_name(*self),
    {
        match self {
            ExportFormat::Txt => "txt",
            ExportFormat::Srt => "srt",
            ExportFormat::Json => "json",
        }
    }
}

/// The lowercase name of a format.
pub open spec fn export_format_name(f: ExportFormat) -> Seq<char> {
    match f {
        ExportFormat::Txt => "txt"@,
        ExportFormat::Srt => "srt"@,
        ExportFormat::Json => "json"@,
    }
}

/// Application settings.
#[derive(Debug)]
pub struct Settings {
    /// Transcription language, e.g. `"ru"`.
    pub language: String,
    pub output_format: ExportFormat,
    /// Maximum number of concurrent jobs.
    pub parallelism: u32,
    /// Whether transcripts are cleaned up by a language model.
    pub enable_postprocess: bool,
    /// Speech-to-text model name.
    pub groq_model: String,
}

/// The default settings.
pub open spec fn is_default_settings(s: Settings) -> bool {
    &&& s.language@ == "ru"@
    &&& s.output_format == ExportFormat::Txt
    &&& s.parallelism == 3
    &&& !s.enable_postprocess
    &&& s.groq_model@ == "whisper-large-v3-turbo"@
}

impl Clone for Settings {
    fn clone(&self) -> (r: Self)
        ensures
            r == *self,
    {
        Settings {
            language: self.language.clone(),
            output_format: self.output_format,
            parallelism: self.parallelism,
            enable_postprocess: self.enable_postprocess,
            groq_model: self.groq_model.clone(),
        }
    }
}

impl Default for Settings {
    fn default() -> (s: Self)
        ensures
            is_default_settings(s),
    {
        Settings {
            language: string_of("ru"),
            output_format: ExportFormat::Txt,
            parallelism: 3,
            enable_postprocess: false,
            groq_model: string_of("whisper-large-v3-turbo"),
        }
    }
}

/// The settings captured when a job is enqueued.
#[derive(Debug)]
pub struct JobSettings {
    pub language: String,
    pub output_format: ExportFormat,
    pub enable_postprocess: bool,
}

impl Clone for JobSettings {
    fn clone(&self) -> (r: Self)
        ensures
            r == *self,
    {
        JobSettings {
            language: self.language.clone(),
            output_format: self.output_format,
            enable_postprocess: self.enable_postprocess,
        }
    }
}

impl Default for JobSettings {
    fn default() -> (s: Self)
        ensures
            s.language@ == "ru"@,
            s.output_format == ExportFormat::Txt,
            !s.enable_postprocess,
    {
        JobSettings {
            language: string_of("ru"),
            output_format: ExportFormat::Txt,
            enable_postprocess: false,
        }
    }
}

// ---------------------------------------------------------------------------
// Job state machine
// ---------------------------------------------------------------------------

/// The state of a job in the pipeline. Progress fractions are in thousandths.
#[derive(Debug)]
pub enum JobState {
    /// Waiting in the queue.
    Queued,
    /// The file is being checked.
    Probing,
    /// Audio is being extracted.
    Extracting { progress_permille: u32 },
    /// Audio is being split into chunks.
    Chunking { progress_permille: u32 },
    /// Audio is being uploaded.
    Uploading { progress_permille: u32, chunk_idx: u32, chunk_total: u32 },
    /// Waiting for the speech-to-text service.
    Transcribing { chunk_idx: u32, chunk_total: u32 },
    /// Chunk transcripts are being merged.
    Stitching,
    /// The transcript is being cleaned up.
    Postprocessing,
    /// Finished.
    Done { output_path: String, duration_ms: u64 },
    /// Finished from the cache, without calling the service.
    Cached { output_path: String, duration_ms: u64 },
    /// Skipped as a duplicate of another job in the batch.
    Skipped { duplicate_of: JobId },
    /// Failed.
    Failed { error: AppErrorView, attempts: u32 },
    /// Cancelled by the user.
    Cancelled,
    /// Paused.
    Paused,
}

/// The name of the variant of a state, as stored in the database.
pub open spec fn state_kind(s: JobState) -> Seq<char> {
    match s {
        JobState::Queued => "Queued"@,
        JobState::Probing => "Probing"@,
        JobState::Extracting { .. } => "Extracting"@,
        JobState::Chunking { .. } => "Chunking"@,
        JobState::Uploading { .. } => "Uploading"@,
        JobState::Transcribing { .. } => "Transcribing"@,
        JobState::Stitching => "Stitching"@,
        JobState::Postprocessing => "Postprocessing"@,
        JobState::Done { .. } => "Done"@,
        JobState::Cached { .. } => "Cached"@,
        JobState::Skipped { .. } => "Skipped"@,
        JobState::Failed { .. } => "Failed"@,
        JobState::Cancelled => "Cancelled"@,
        JobState::Paused => "Paused"@,
    }
}

/// Whether a job in this state has not finished and is resumed at start-up.
pub open spec fn is_unfinished(s: JobState) -> bool {
    match s {
        JobState::Queued | JobState::Probing | JobState::Extracting { .. }
        | JobState::Chunking { .. } | JobState::Uploading { .. }
        | JobState::Transcribing { .. } | JobState::Stitching | JobState::Postprocessing => true,
        _ => false,
    }
}

impl Clone for JobState {
    fn clone(&self) -> (r: Self)
        ensures
            r == *self,
    {
        match self {
            JobState::Queued => JobState::Queued,
            JobState::Probing => JobState::Probing,
            JobState::Extracting { progress_permille } => JobState::Extracting { progress_permille: *progress_permille },
            JobState::Chunking { progress_permille } => JobState::Chunking { progress_permille: *progress_permille },
            JobState::Uploading { progress_permille, chunk_idx, chunk_total } => JobState::Uploading {
                progress_permille: *progress_permille,
                chunk_idx: *chunk_idx,
                chunk_total: *chunk_total,
            },
            JobState::Transcribing { chunk_idx, chunk_total } => JobState::Transcribing { chunk_idx: *chunk_idx, chunk_total: *chunk_total },
            JobState::Stitching => JobState::Stitching,
            JobState::Postprocessing => JobState::Postprocessing,
            JobState::Done { output_path, duration_ms } => JobState::Done { output_path: output_path.clone(), duration_ms: *duration_ms },
            JobState::Cached { output_path, duration_ms } => JobState::Cached { output_path: output_path.clone(), duration_ms: *duration_ms },
            JobState::Skipped { duplicate_of } => JobState::Skipped { duplicate_of: *duplicate_of },
            JobState::Failed { error, attempts } => JobState::Failed { error: error.clone(), attempts: *attempts },
            JobState::Cancelled => JobState::Cancelled,
            JobState::Paused => JobState::Paused,
        }
    }
}

impl JobState {
    /// The name of the variant, as stored in the database.
    pub fn kind(&self) -> (s: &'static str)
        ensures
            s@ == state_kind(*self),
    {
        match self {
            JobState::Queued => "Queued",
            JobState::Probing => "Probing",
            JobState::Extracting { .. } => "Extracting",
            JobState::Chunking { .. } => "Chunking",
            JobState::Uploading { .. } => "Uploading",
            JobState::Transcribing { .. } => "Transcribing",
            JobState::Stitching => "Stitching",
            JobState::Postprocessing => "Postprocessing",
            JobState::Done { .. } => "Done",
            JobState::Cached { .. } => "Cached",
            JobState::Skipped { .. } => "Skipped",
            JobState::Failed { .. } => "Failed",
            JobState::Cancelled => "Cancelled",
            JobState::Paused => "Paused",
        }
    }

    /// Whether the job has not finished and is resumed at start-up.
    pub fn is_unfinished(&self) -> (r: bool)
        ensures
            r == is_unfinished(*self),
    {
        match self {
            JobState::Queued | JobState::Probing | JobState::Extracting { .. }
            | JobState::Chunking { .. } | JobState::Uploading { .. }
            | JobState::Transcribing { .. } | JobState::Stitching | JobState::Postprocessing => true,
            _ => false,
        }
    }
}

/// A job.
#[derive(Debug)]
pub struct Job {
    pub id: JobId,
    pub source_path: String,
    pub display_name: String,
    pub size_bytes: u64,
    /// ISO 8601 creation time.
    pub created_at: String,
    pub state: JobState,
    pub settings_snapshot: JobSettings,
    /// Content hash (hex), when it could be computed.
    pub content_hash: Option<String>,
}

impl Clone for Job {
    fn clone(&self) -> (r: Self)
        ensures
            r == *self,
    {
        Job {
            id: self.id,
            source_path: self.source_path.clone(),
            display_name: self.display_name.clone(),
            size_bytes: self.size_bytes,
            created_at: self.created_at.clone(),
            state: self.state.clone(),
            settings_snapshot: self.settings_snapshot.clone(),
            content_hash: match &self.content_hash {
                Some(h) => Some(h.clone()),
                None => None,
            },
        }
    }
}

// ---------------------------------------------------------------------------
// Transcripts
// ---------------------------------------------------------------------------

/// The text of a job's transcript.
#[derive(Debug)]
pub struct Transcript {
    pub job_id: JobId,
    pub text: String,
}

/// A timed piece of a transcript (milliseconds from the start of the audio).
#[derive(Debug)]
pub struct TranscriptSegment {
    pub start_ms: u64,
    pub end_ms: u64,
    pub text: String,
}

impl Clone for TranscriptSegment {
    fn clone(&self) -> (r: Self)
        ensures
            r == *self,
    {
        TranscriptSegment { start_ms: self.start_ms, end_ms: self.end_ms, text: self.text.clone() }
    }
}

/// A transcript with its segments and duration.
#[derive(Debug)]
pub struct FullTranscript {
    pub job_id: JobId,
    pub text: String,
    pub segments: Vec<TranscriptSegment>,
    pub duration_ms: u64,
}

// ---------------------------------------------------------------------------
// Queries and events
// ---------------------------------------------------------------------------

/// A filter for listing jobs.
#[derive(Debug)]
pub struct JobFilter {
    /// Only jobs whose state has this variant name.
    pub state: Option<String>,
    pub limit: Option<u32>,
    pub offset: Option<u32>,
}

/// A batch of job updates sent to the user interface.
#[derive(Debug)]
pub struct QueueTick {
    pub updates: Vec<JobUpdate>,
    /// Milliseconds since the Unix epoch.
    pub ts: u64,
}

/// One job's update.
#[derive(Debug)]
pub struct JobUpdate {
    pub id: JobId,
    pub state: JobState,
    pub bytes_uploaded: Option<u64>,
    pub eta_ms: Option<u64>,
}

/// Sent when the service asks the client to slow down.
#[derive(Debug)]
pub struct RateLimitEvent {
    pub retry_after_ms: u64,
}

/// Sent when an error is shown to the user.
#[derive(Debug)]
pub struct AppErrorEvent {
    pub error: AppErrorView,
    pub job_id: Option<JobId>,
}

} // verus!
