//! The checks and decisions behind the user interface's commands: which
//! files can be queued, what a queued job looks like (with the SHA-256
//! digest of its file), how settings are
//! stored and read back, which API keys are accepted, which transcript is
//! exported and which log lines are shown.

use vstd::prelude::*;
use crate::cache::is_lower_hex_64;
use crate::paths::{extension, file_name, path_extension, path_file_name};
use crate::text::{
    byte_len, decimal, lemma_parse_decimal, lines_of, parse_unsigned, parse_unsigned_chars,
    chars_of, format_decimal, push_str, split_lines, str_byte_len, str_eq, string_from_chars,
    string_of,
};
use crate::types::{
    AppErrorView, ExportFormat, Job, JobId, JobSettings, JobState, JobUpdate, QueueTick, Settings,
    export_format_name, is_default_settings, is_error, is_unfinished,
};

verus! {

broadcast use vstd::string::group_string_axioms;

// ---------------------------------------------------------------------------
// Health
// ---------------------------------------------------------------------------

/// The answer to a health check.
#[derive(Debug)]
pub struct HealthStatus {
    pub ok: bool,
    pub version: &'static str,
}

/// A healthy answer, with the application's version.
pub fn health_status() -> (h: HealthStatus)
    ensures
        h.ok,
        h.version@ == "0.1.0"@,
{
    HealthStatus { ok: true, version: "0.1.0" }
}

// ---------------------------------------------------------------------------
// Queueing files
// ---------------------------------------------------------------------------

/// What is wrong with a file offered for the queue, if anything: it must
/// exist and have the extension `mp4`.
pub open spec fn file_problem(path: Seq<char>, exists: bool) -> Option<Seq<char>> {
    if !exists {
        Some("File not found: "@ + path)
    } else if path_extension(path) != Some("mp4"@) {
        Some("File must be MP4: "@ + path)
    } else {
        None
    }
}

/// The first problem among the files from `i` on.
pub open spec fn first_problem(paths: Seq<String>, exists: Seq<bool>, i: nat) -> Option<Seq<char>>
    decreases paths.len() - i,
{
    if i >= paths.len() {
        None
    } else {
        match file_problem(paths[i as int]@, exists[i as int]) {
            Some(m) => Some(m),
            None => first_problem(paths, exists, i + 1),
        }
    }
}

/// Checks the files offered for the queue, given whether each exists:
/// there must be at least one, and the first missing or non-MP4 file is
/// reported.
pub fn check_enqueue_files(paths: &[String], exists: &[bool]) -> (r: Result<(), AppErrorView>)
    requires
        exists@.len() == paths@.len(),
    ensures
        paths@.len() == 0 ==> (r matches Err(e) && is_error(e, "INVALID_INPUT"@, "No files provided"@)),
        paths@.len() > 0 ==> match first_problem(paths@, exists@, 0) {
            Some(m) => r matches Err(e) && is_error(e, "INVALID_FILE"@, m),
            None => r is Ok,
        },
{
    if paths.len() == 0 {
        return Err(AppErrorView::new("INVALID_INPUT", "No files provided"));
    }
    let mut i: usize = 0;
    while i < paths.len()
        invariant
            i <= paths@.len(),
            exists@.len() == paths@.len(),
            first_problem(paths@, exists@, 0) == first_problem(paths@, exists@, i as nat),
        decreases paths.len() - i,
    {
        let p = paths[i].as_str();
        if !exists[i] {
            let mut m = string_of("File not found: ");
            push_str(&mut m, p);
            return Err(AppErrorView::invalid_file(m.as_str()));
        }
        let is_mp4 = match extension(p) {
            Some(ext) => str_eq(ext.as_str(), "mp4"),
            None => false,
        };
        if !is_mp4 {
            let mut m = string_of("File must be MP4: ");
            push_str(&mut m, p);
            return Err(AppErrorView::invalid_file(m.as_str()));
        }
        i += 1;
    }
    Ok(())
}

/// Whether a file may be queued: it exists and its extension is `mp4`.
pub open spec fn file_acceptable(path: Seq<char>, exists: bool) -> bool {
    exists && path_extension(path) == Some("mp4"@)
}

proof fn lemma_first_problem_from(paths: Seq<String>, exists: Seq<bool>, i: nat)
    requires
        exists.len() == paths.len(),
        i <= paths.len(),
    ensures
        first_problem(paths, exists, i) is None <==>
            forall|j: int| i <= j < paths.len() ==> file_acceptable(paths[j]@, #[trigger] exists[j]),
        forall|j: int| i <= j < paths.len() && !(#[trigger] exists[j])
            && (forall|k: int| i <= k < j ==> file_acceptable(paths[k]@, exists[k]))
            ==> first_problem(paths, exists, i) == Some("File not found: "@ + paths[j]@),
        forall|j: int| i <= j < paths.len() && exists[j] && path_extension(paths[j]@) != Some("mp4"@)
            && (forall|k: int| i <= k < j ==> file_acceptable(paths[k]@, #[trigger] exists[k]))
            ==> first_problem(paths, exists, i) == Some("File must be MP4: "@ + paths[j]@),
    decreases paths.len() - i,
{
    if i < paths.len() {
        lemma_first_problem_from(paths, exists, i + 1);
        if file_acceptable(paths[i as int]@, exists[i as int]) {
            assert(file_problem(paths[i as int]@, exists[i as int]) is None);
        }
    }
}

/// A batch is queued only when every file exists and is an MP4 file; a
/// missing file is refused whatever its extension. The error names the
/// first file with a problem: `File not found: ` and its path when it is
/// missing, `File must be MP4: ` and its path when it exists but is not an
/// MP4 file.
pub proof fn lemma_enqueue_refuses_bad_files(paths: Seq<String>, exists: Seq<bool>)
    requires
        exists.len() == paths.len(),
    ensures
        first_problem(paths, exists, 0) is None <==>
            forall|j: int| 0 <= j < paths.len() ==> file_acceptable(paths[j]@, #[trigger] exists[j]),
        forall|j: int| 0 <= j < paths.len() && !(#[trigger] exists[j]) ==> first_problem(paths, exists, 0) is Some,
        forall|j: int| 0 <= j < paths.len() && !(#[trigger] exists[j])
            && (forall|k: int| 0 <= k < j ==> file_acceptable(paths[k]@, exists[k]))
            ==> first_problem(paths, exists, 0) == Some("File not found: "@ + paths[j]@),
        forall|j: int| 0 <= j < paths.len() && exists[j] && path_extension(paths[j]@) != Some("mp4"@)
            && (forall|k: int| 0 <= k < j ==> file_acceptable(paths[k]@, #[trigger] exists[k]))
            ==> first_problem(paths, exists, 0) == Some("File must be MP4: "@ + paths[j]@),
{
    lemma_first_problem_from(paths, exists, 0);
}

/// The name shown for a file: its file name, or `unknown`.
pub fn display_name_of(path: &str) -> (s: String)
    ensures
        s@ == match path_file_name(path@) {
            Some(n) => n,
            None => "unknown"@,
        },
{
    match file_name(path) {
        Some(n) => n,
        None => string_of("unknown"),
    }
}

/// The lowercase hexadecimal SHA-256 digest of some bytes
/// (`format!("{:x}", Sha256::digest(data))`).
pub uninterp spec fn sha256_hex_of(data: Seq<u8>) -> Seq<char>;

/// `sha2::Sha256::digest` (a fresh hasher fed `data`, then finalised),
/// written with `{:x}`. The digest is named `sha256_hex_of`; that it is 64
/// lowercase hex digits is what the 32-byte output's `LowerHex` writes.
#[verifier::external_body]
fn sha256_digest_hex(data: &[u8]) -> (r: String)
    ensures
        r@ == sha256_hex_of(data@),
        is_lower_hex_64(r@),
{
    format!("{:x}", <sha2::Sha256 as sha2::Digest>::digest(data))
}

/// The content hash recorded with a queued job: the SHA-256 digest of the
/// file's bytes, in lowercase hexadecimal.
pub fn file_content_hash(data: &[u8]) -> (r: String)
    ensures
        r@ == sha256_hex_of(data@),
        is_lower_hex_64(r@),
{
    sha256_digest_hex(data)
}

/// A queued job for a file, with the settings that apply to it.
pub fn new_job(
    id: JobId,
    source_path: String,
    display_name: String,
    size_bytes: u64,
    created_at: String,
    settings: &Settings,
    content_hash: Option<String>,
) -> (job: Job)
    ensures
        job.id == id,
        job.source_path == source_path,
        job.display_name == display_name,
        job.size_bytes == size_bytes,
        job.created_at == created_at,
        job.state == JobState::Queued,
        job.settings_snapshot.language == settings.language,
        job.settings_snapshot.output_format == settings.output_format,
        job.settings_snapshot.enable_postprocess == settings.enable_postprocess,
        job.content_hash == content_hash,
{
    Job {
        id,
        source_path,
        display_name,
        size_bytes,
        created_at,
        state: JobState::Queued,
        settings_snapshot: JobSettings {
            language: settings.language.clone(),
            output_format: settings.output_format,
            enable_postprocess: settings.enable_postprocess,
        },
        content_hash,
    }
}

/// The tick announcing freshly queued jobs.
pub fn queued_tick(ids: &[JobId], ts: u64) -> (t: QueueTick)
    ensures
        t.ts == ts,
        t.updates@.len() == ids@.len(),
        forall|i: int| 0 <= i < ids@.len() ==> (#[trigger] t.updates@[i]) == (JobUpdate {
            id: ids@[i],
            state: JobState::Queued,
            bytes_uploaded: None,
            eta_ms: None,
        }),
{
    let mut updates: Vec<JobUpdate> = Vec::new();
    let mut i: usize = 0;
    while i < ids.len()
        invariant
            i <= ids@.len(),
            updates@.len() == i,
            forall|k: int| 0 <= k < i ==> (#[trigger] updates@[k]) == (JobUpdate {
                id: ids@[k],
                state: JobState::Queued,
                bytes_uploaded: None,
                eta_ms: None,
            }),
        decreases ids.len() - i,
    {
        updates.push(JobUpdate { id: ids[i], state: JobState::Queued, bytes_uploaded: None, eta_ms: None });
        i += 1;
    }
    QueueTick { updates, ts }
}

// ---------------------------------------------------------------------------
// Settings
// ---------------------------------------------------------------------------

/// The stored settings as values: language, output format, parallelism and
/// whether cleanup is enabled.
pub open spec fn settings_view(s: Settings) -> (Seq<char>, ExportFormat, u32, bool) {
    (s.language@, s.output_format, s.parallelism, s.enable_postprocess)
}

/// The output format named by a stored text: `srt`, `json`, anything else
/// plain text.
pub open spec fn format_of_name(name: Seq<char>) -> ExportFormat {
    if name == "srt"@ {
        ExportFormat::Srt
    } else if name == "json"@ {
        ExportFormat::Json
    } else {
        ExportFormat::Txt
    }
}

/// The settings read from stored texts, with the defaults where a text is
/// missing: the language as stored; the format by name (plain text when
/// missing); the parallelism where it reads as a `u32` (otherwise 3);
/// cleanup when the text is exactly `true`.
pub open spec fn stored_settings_view(
    language: Option<Seq<char>>,
    output_format: Option<Seq<char>>,
    parallelism: Option<Seq<char>>,
    enable_postprocess: Option<Seq<char>>,
) -> (Seq<char>, ExportFormat, u32, bool) {
    (
        match language { Some(l) => l, None => "ru"@ },
        match output_format { Some(f) => format_of_name(f), None => ExportFormat::Txt },
        match parallelism {
            Some(p) => match parse_unsigned(p, u32::MAX as nat) {
                Some(n) => n as u32,
                None => 3,
            },
            None => 3,
        },
        match enable_postprocess { Some(b) => b == "true"@, None => false },
    )
}

/// The view of an optional string.
pub open spec fn opt_string_view(o: Option<String>) -> Option<Seq<char>> {
    match o {
        Some(s) => Some(s@),
        None => None,
    }
}

/// Reads the settings from their stored texts (`None` where a setting is
/// not stored or could not be read); the model is always the default.
pub fn settings_from_stored(
    language: Option<String>,
    output_format: Option<String>,
    parallelism: Option<String>,
    enable_postprocess: Option<String>,
) -> (s: Settings)
    ensures
        settings_view(s) == stored_settings_view(
            opt_string_view(language),
            opt_string_view(output_format),
            opt_string_view(parallelism),
            opt_string_view(enable_postprocess),
        ),
        s.groq_model@ == "whisper-large-v3-turbo"@,
{
    let defaults = Settings::default();
    let lang = match language {
        Some(l) => l,
        None => defaults.language,
    };
    let format = match &output_format {
        Some(f) => {
            if str_eq(f.as_str(), "srt") {
                ExportFormat::Srt
            } else if str_eq(f.as_str(), "json") {
                ExportFormat::Json
            } else {
                ExportFormat::Txt
            }
        },
        None => ExportFormat::Txt,
    };
    let par = match &parallelism {
        Some(p) => {
            let v = chars_of(p.as_str());
            match parse_unsigned_chars(&v, u32::MAX as u64) {
                Some(n) => n as u32,
                None => defaults.parallelism,
            }
        },
        None => defaults.parallelism,
    };
    let pp = match &enable_postprocess {
        Some(b) => str_eq(b.as_str(), "true"),
        None => false,
    };
    Settings {
        language: lang,
        output_format: format,
        parallelism: par,
        enable_postprocess: pp,
        groq_model: defaults.groq_model,
    }
}

/// Refuses a parallelism of 0 or above 10.
pub fn validate_settings(settings: &Settings) -> (r: Result<(), AppErrorView>)
    ensures
        settings.parallelism == 0 ==> (r matches Err(e) && is_error(e, "INVALID_INPUT"@, "Parallelism must be > 0"@)),
        settings.parallelism > 10 ==> (r matches Err(e) && is_error(e, "INVALID_INPUT"@, "Parallelism should not exceed 10"@)),
        1 <= settings.parallelism <= 10 ==> r is Ok,
{
    if settings.parallelism == 0 {
        return Err(AppErrorView::new("INVALID_INPUT", "Parallelism must be > 0"));
    }
    if settings.parallelism > 10 {
        return Err(AppErrorView::new("INVALID_INPUT", "Parallelism should not exceed 10"));
    }
    Ok(())
}

/// The stored text of a boolean setting.
pub open spec fn bool_text(b: bool) -> Seq<char> {
    if b { "true"@ } else { "false"@ }
}

/// The key and text under which each setting is stored, in order.
pub open spec fn settings_entries_view(s: Settings) -> Seq<(Seq<char>, Seq<char>)> {
    seq![
        ("language"@, s.language@),
        ("output_format"@, export_format_name(s.output_format)),
        ("parallelism"@, decimal(s.parallelism as nat)),
        ("enable_postprocess"@, bool_text(s.enable_postprocess)),
    ]
}

/// The view of stored key and text pairs.
pub open spec fn pairs_view(v: Seq<(String, String)>) -> Seq<(Seq<char>, Seq<char>)> {
    Seq::new(v.len(), |i: int| (v[i].0@, v[i].1@))
}

/// The settings as key and text pairs to store.
pub fn settings_entries(settings: &Settings) -> (r: Vec<(String, String)>)
    ensures
        pairs_view(r@) == settings_entries_view(*settings),
{
    let mut r: Vec<(String, String)> = Vec::new();
    r.push((string_of("language"), settings.language.clone()));
    r.push((string_of("output_format"), string_of(settings.output_format.as_str())));
    r.push((string_of("parallelism"), format_decimal(settings.parallelism as u64)));
    r.push((string_of("enable_postprocess"), string_of(if settings.enable_postprocess { "true" } else { "false" })));
    assert(pairs_view(r@) =~= settings_entries_view(*settings));
    r
}

/// Settings read back from what was stored for them are the same settings.
pub proof fn lemma_settings_round_trip(s: Settings)
    ensures
        stored_settings_view(
            Some(settings_entries_view(s)[0].1),
            Some(settings_entries_view(s)[1].1),
            Some(settings_entries_view(s)[2].1),
            Some(settings_entries_view(s)[3].1),
        ) == settings_view(s),
{
    lemma_parse_decimal(s.parallelism as nat, u32::MAX as nat);
    reveal_strlit("txt");
    reveal_strlit("srt");
    reveal_strlit("json");
    reveal_strlit("true");
    reveal_strlit("false");
    assert("txt"@[0] != "srt"@[0] && "txt"@[0] != "json"@[0] && "srt"@.len() != "json"@.len());
    assert("false"@.len() != "true"@.len());
}

/// Nothing stored reads as the default settings.
pub proof fn lemma_nothing_stored_is_default(d: Settings)
    requires
        is_default_settings(d),
    ensures
        stored_settings_view(None, None, None, None) == settings_view(d),
{
}

// ---------------------------------------------------------------------------
// API keys
// ---------------------------------------------------------------------------

/// Refuses an API key that is empty or shorter than 20 bytes.
pub fn check_api_key_input(key: &str) -> (r: Result<(), AppErrorView>)
    ensures
        key@.len() == 0 ==> (r matches Err(e) && is_error(e, "INVALID_INPUT"@, "API key cannot be empty"@)),
        key@.len() > 0 && byte_len(key@) < 20 ==> (r matches Err(e) && is_error(e, "INVALID_INPUT"@, "API key appears too short"@)),
        key@.len() > 0 && byte_len(key@) >= 20 ==> r is Ok,
{
    if key.is_empty() {
        return Err(AppErrorView::new("INVALID_INPUT", "API key cannot be empty"));
    }
    if str_byte_len(key) < 20 {
        return Err(AppErrorView::new("INVALID_INPUT", "API key appears too short"));
    }
    Ok(())
}

/// The error of a failed check for a stored key.
pub fn key_check_failed(cause: &AppErrorView) -> (e: AppErrorView)
    ensures
        is_error(e, "INTERNAL_ERROR"@, "Failed to check API key: "@ + cause.code@ + ": "@ + cause.message@),
{
    let mut m = string_of("Failed to check API key: ");
    let d = cause.to_display_string();
    push_str(&mut m, d.as_str());
    assert(m@ =~= "Failed to check API key: "@ + cause.code@ + ": "@ + cause.message@);
    AppErrorView::internal_error(m.as_str())
}

/// The error of a failed deletion of the stored key.
pub fn key_delete_failed(cause: &AppErrorView) -> (e: AppErrorView)
    ensures
        is_error(e, "INTERNAL_ERROR"@, "Failed to delete API key: "@ + cause.code@ + ": "@ + cause.message@),
{
    let mut m = string_of("Failed to delete API key: ");
    let d = cause.to_display_string();
    push_str(&mut m, d.as_str());
    assert(m@ =~= "Failed to delete API key: "@ + cause.code@ + ": "@ + cause.message@);
    AppErrorView::internal_error(m.as_str())
}

// ---------------------------------------------------------------------------
// Transcripts
// ---------------------------------------------------------------------------

/// Refuses an empty edited transcript.
pub fn check_transcript_edit(text: &str) -> (r: Result<(), AppErrorView>)
    ensures
        text@.len() == 0 ==> (r matches Err(e) && is_error(e, "INVALID_INPUT"@, "Transcript text cannot be empty"@)),
        text@.len() > 0 ==> r is Ok,
{
    if text.is_empty() {
        Err(AppErrorView::new("INVALID_INPUT", "Transcript text cannot be empty"))
    } else {
        Ok(())
    }
}

/// The text to export: the user's edit if there is one, otherwise the
/// transcript as produced.
pub fn export_text(edited: Option<String>, plain: Option<String>) -> (r: Result<String, AppErrorView>)
    ensures
        match (edited, plain) {
            (Some(e), _) => r == Ok::<String, AppErrorView>(e),
            (None, Some(p)) => r == Ok::<String, AppErrorView>(p),
            (None, None) => r matches Err(e) && is_error(e, "INTERNAL_ERROR"@, "No transcript found for this job"@),
        },
{
    match edited {
        Some(e) => Ok(e),
        None => match plain {
            Some(p) => Ok(p),
            None => Err(AppErrorView::internal_error("No transcript found for this job")),
        },
    }
}

// ---------------------------------------------------------------------------
// Logs
// ---------------------------------------------------------------------------

/// How many log lines are shown: 100 unless asked otherwise, at most 1000.
pub open spec fn log_line_limit(lines: Option<u32>) -> nat {
    let n = match lines { Some(n) => n as nat, None => 100 };
    if n < 1000 { n } else { 1000 }
}

/// The last `n` items of `s` (all of them when there are fewer).
pub open spec fn last_n<T>(s: Seq<T>, n: nat) -> Seq<T> {
    if s.len() > n { s.skip(s.len() - n) } else { s }
}

/// The view of a list of strings.
pub open spec fn strings_view(v: Seq<String>) -> Seq<Seq<char>> {
    Seq::new(v.len(), |i: int| v[i]@)
}

/// The last lines of each log file, in turn, for the first `k` files.
pub open spec fn file_tails(contents: Seq<Seq<char>>, n: nat, k: nat) -> Seq<Seq<char>>
    decreases k,
{
    if k == 0 {
        Seq::empty()
    } else {
        file_tails(contents, n, (k - 1) as nat) + last_n(lines_of(contents[k - 1]), n)
    }
}

/// Whether a file is a log file (its extension is `log`).
pub fn is_log_file(path: &str) -> (r: bool)
    ensures
        r == (path_extension(path@) == Some("log"@)),
{
    match extension(path) {
        Some(ext) => str_eq(ext.as_str(), "log"),
        None => false,
    }
}

/// The log lines shown: of each log file's contents its last lines, and of
/// all those the last lines, up to the limit.
pub fn log_tail(contents: &[String], lines: Option<u32>) -> (r: Vec<String>)
    ensures
        strings_view(r@) == last_n(
            file_tails(strings_view(contents@), log_line_limit(lines), contents@.len()),
            log_line_limit(lines),
        ),
{
    let limit: usize = match lines {
        Some(n) => if n < 1000 { n as usize } else { 1000 },
        None => 100,
    };
    let ghost cv = strings_view(contents@);
    let mut all: Vec<String> = Vec::new();
    let mut i: usize = 0;
    while i < contents.len()
        invariant
            i <= contents@.len(),
            cv == strings_view(contents@),
            limit as nat == log_line_limit(lines),
            strings_view(all@) == file_tails(cv, limit as nat, i as nat),
        decreases contents.len() - i,
    {
        let v = chars_of(contents[i].as_str());
        let ls = split_lines(&v);
        let start: usize = if ls.len() > limit { ls.len() - limit } else { 0 };
        let ghost before = strings_view(all@);
        let ghost tail = last_n(lines_of(cv[i as int]), limit as nat);
        assert(tail.len() == ls@.len() - start);
        let mut j: usize = start;
        while j < ls.len()
            invariant
                i < contents@.len(),
                cv == strings_view(contents@),
                start <= j <= ls@.len(),
                ls@.len() == lines_of(cv[i as int]).len(),
                forall|k: int| 0 <= k < ls@.len() ==> #[trigger] ls@[k]@ == lines_of(cv[i as int])[k],
                tail == last_n(lines_of(cv[i as int]), limit as nat),
                tail.len() == ls@.len() - start,
                start == (if ls@.len() > limit { ls@.len() - limit } else { 0 }),
                strings_view(all@) == before + tail.take(j - start),
            decreases ls.len() - j,
        {
            let line = &ls[j];
            let text = string_from_chars(line, 0, line.len());
            assert(text@ =~= ls@[j as int]@);
            let ghost prev = all@;
            all.push(text);
            assert(strings_view(all@) =~= strings_view(prev).push(text@));
            assert(tail[j - start] == lines_of(cv[i as int])[j as int]);
            assert(tail.take(j + 1 - start) =~= tail.take(j - start).push(tail[j - start]));
            assert(strings_view(all@) =~= before + tail.take(j + 1 - start));
            j += 1;
        }
        assert(tail.take(j - start) =~= tail);
        i += 1;
    }
    let n = all.len();
    let from: usize = if n > limit { n - limit } else { 0 };
    let mut r: Vec<String> = Vec::new();
    let mut k: usize = from;
    let ghost allv = strings_view(all@);
    while k < n
        invariant
            from <= k <= n,
            n == all@.len(),
            allv == strings_view(all@),
            strings_view(r@) == allv.subrange(from as int, k as int),
        decreases n - k,
    {
        let ghost prev = r@;
        let t = string_of(all[k].as_str());
        r.push(t);
        assert(strings_view(r@) =~= strings_view(prev).push(t@));
        assert(t@ == allv[k as int]);
        assert(strings_view(r@) =~= allv.subrange(from as int, k + 1));
        k += 1;
    }
    assert(allv.subrange(from as int, n as int) =~= last_n(allv, limit as nat));
    r
}

// ---------------------------------------------------------------------------
// Start-up
// ---------------------------------------------------------------------------

/// The jobs, from the first `n`, that had not finished, in order.
pub open spec fn unfinished_upto(jobs: Seq<Job>, n: nat) -> Seq<JobId>
    decreases n,
{
    if n == 0 {
        Seq::empty()
    } else if is_unfinished(jobs[n - 1].state) {
        unfinished_upto(jobs, (n - 1) as nat).push(jobs[n - 1].id)
    } else {
        unfinished_upto(jobs, (n - 1) as nat)
    }
}

/// The jobs to queue again at start-up: those that had not finished.
pub fn unfinished_jobs(jobs: &[Job]) -> (r: Vec<JobId>)
    ensures
        r@ == unfinished_upto(jobs@, jobs@.len()),
{
    let mut r: Vec<JobId> = Vec::new();
    let mut i: usize = 0;
    while i < jobs.len()
        invariant
            i <= jobs@.len(),
            r@ == unfinished_upto(jobs@, i as nat),
        decreases jobs.len() - i,
    {
        if jobs[i].state.is_unfinished() {
            r.push(jobs[i].id);
        }
        i += 1;
    }
    r
}

/// Whether a job's state means it has ended (done, cached, skipped, failed
/// or cancelled) or was paused by the user.
pub open spec fn has_ended_or_paused(s: JobState) -> bool {
    s is Done || s is Cached || s is Skipped || s is Failed || s is Cancelled || s is Paused
}

proof fn lemma_unfinished_upto_members(jobs: Seq<Job>, n: nat)
    requires
        n <= jobs.len(),
    ensures
        forall|i: int| 0 <= i < n && !has_ended_or_paused(#[trigger] jobs[i].state) ==>
            unfinished_upto(jobs, n).contains(jobs[i].id),
        forall|id: JobId| #[trigger] unfinished_upto(jobs, n).contains(id) ==> exists|i: int|
            0 <= i < n && #[trigger] jobs[i].id == id && !has_ended_or_paused(jobs[i].state),
    decreases n,
{
    if n > 0 {
        lemma_unfinished_upto_members(jobs, (n - 1) as nat);
        let prev = unfinished_upto(jobs, (n - 1) as nat);
        let cur = unfinished_upto(jobs, n);
        let j = jobs[n - 1];
        if is_unfinished(j.state) {
            assert(cur == prev.push(j.id));
            assert forall|i: int| 0 <= i < n && !has_ended_or_paused(#[trigger] jobs[i].state) implies cur.contains(jobs[i].id) by {
                if i < n - 1 {
                    let k = choose|k: int| 0 <= k < prev.len() && prev[k] == jobs[i].id;
                    assert(cur[k] == jobs[i].id);
                } else {
                    assert(cur[prev.len() as int] == jobs[i].id);
                }
            }
            assert forall|id: JobId| #[trigger] cur.contains(id) implies exists|i: int|
                0 <= i < n && #[trigger] jobs[i].id == id && !has_ended_or_paused(jobs[i].state) by {
                let k = choose|k: int| 0 <= k < cur.len() && cur[k] == id;
                if k < prev.len() {
                    assert(cur[k] == prev[k]);
                    assert(prev.contains(id));
                } else {
                    assert(jobs[n - 1].id == id);
                }
            }
        } else {
            assert forall|i: int| 0 <= i < n && !has_ended_or_paused(#[trigger] jobs[i].state) implies cur.contains(jobs[i].id) by {
                if i == n - 1 {
                    assert(false);
                }
            }
        }
    }
}

/// Every job still in progress when the application stopped (queued,
/// probing, extracting, chunking, uploading, transcribing, stitching or
/// postprocessing) is queued again at start-up, and only such jobs are:
/// those that ended (done, cached, skipped, failed, cancelled) or were
/// paused stay as they are.
pub proof fn lemma_unfinished_jobs_are_recovered(jobs: Seq<Job>)
    ensures
        forall|i: int| 0 <= i < jobs.len() && !has_ended_or_paused(#[trigger] jobs[i].state) ==>
            unfinished_upto(jobs, jobs.len()).contains(jobs[i].id),
        forall|id: JobId| #[trigger] unfinished_upto(jobs, jobs.len()).contains(id) ==> exists|i: int|
            0 <= i < jobs.len() && #[trigger] jobs[i].id == id && !has_ended_or_paused(jobs[i].state),
{
    lemma_unfinished_upto_members(jobs, jobs.len());
}

} // verus!
