//! What the library knows of the ffmpeg and ffprobe tools: where they are,
//! the arguments it passes them and how it reads what they print.

use vstd::prelude::*;
use crate::text::{
    before_first, contains_at, before_first_exec, chars_from, chars_of, decimal, find_in, first_occurrence,
    lines_of, parse_unsigned, parse_unsigned_chars, push_char, push_decimal, push_str,
    push_zero_padded, split_lines, string_from_chars, string_of, starts_with, trim, trim_vec,
    zero_padded,
};
use crate::types::{AppErrorView, is_error};

verus! {

broadcast use vstd::string::group_string_axioms;

/// Locations of the ffmpeg and ffprobe executables and of the noise
/// reduction model.
#[derive(Debug)]
pub struct FfmpegAdapter {
    pub ffmpeg_exe: String,
    pub ffprobe_exe: String,
    pub rnnoise_model: String,
}

impl FfmpegAdapter {
    pub fn new(ffmpeg_exe: String, ffprobe_exe: String, rnnoise_model: String) -> (a: FfmpegAdapter)
        ensures
            a.ffmpeg_exe == ffmpeg_exe,
            a.ffprobe_exe == ffprobe_exe,
            a.rnnoise_model == rnnoise_model,
    {
        FfmpegAdapter { ffmpeg_exe, ffprobe_exe, rnnoise_model }
    }

    /// The tools as found on the search path, for development.
    pub fn default_new() -> (a: FfmpegAdapter)
        ensures
            a.ffmpeg_exe@ == "ffmpeg"@,
            a.ffprobe_exe@ == "ffprobe"@,
            a.rnnoise_model@ == "rnnoise_model"@,
    {
        FfmpegAdapter {
            ffmpeg_exe: string_of("ffmpeg"),
            ffprobe_exe: string_of("ffprobe"),
            rnnoise_model: string_of("rnnoise_model"),
        }
    }
}

/// What an audio extraction produced.
#[derive(Debug, Clone, Copy)]
pub struct ExtractStats {
    pub output_size_bytes: u64,
    pub noise_reduction_applied: bool,
}

/// A silent stretch of audio, in milliseconds.
#[derive(Debug, Clone, Copy)]
pub struct SilencePoint {
    pub start_ms: u64,
    pub end_ms: u64,
}

// ---------------------------------------------------------------------------
// Reading ffmpeg's output
// ---------------------------------------------------------------------------

/// A `silence_start` or `silence_end` report of the silencedetect filter,
/// with the number as printed.
#[derive(Debug)]
pub struct SilenceEvent {
    pub is_start: bool,
    pub value: String,
}

/// The report on one line of silencedetect output, if any: the text after
/// `silence_start:` (trimmed), or else the text after `silence_end:` up to
/// the first `'|'` (trimmed).
pub open spec fn silence_event_of(line: Seq<char>) -> Option<(bool, Seq<char>)> {
    match first_occurrence(line, "silence_start:"@) {
        Some(p) => Some((true, trim(line.skip(p + "silence_start:"@.len())))),
        None => match first_occurrence(line, "silence_end:"@) {
            Some(p) => Some((false, trim(before_first(trim(line.skip(p + "silence_end:"@.len())), '|')))),
            None => None,
        },
    }
}

/// The reports on the first `n` lines.
pub open spec fn silence_events_upto(lines: Seq<Seq<char>>, n: nat) -> Seq<(bool, Seq<char>)>
    decreases n,
{
    if n == 0 {
        Seq::empty()
    } else {
        let rest = silence_events_upto(lines, (n - 1) as nat);
        match silence_event_of(lines[n - 1]) {
            Some(e) => rest.push(e),
            None => rest,
        }
    }
}

/// The silencedetect reports in ffmpeg's error output, in order.
pub open spec fn silence_events_of(stderr: Seq<char>) -> Seq<(bool, Seq<char>)> {
    let ls = lines_of(stderr);
    silence_events_upto(ls, ls.len())
}

/// The view of reports held as strings.
pub open spec fn events_view(v: Seq<SilenceEvent>) -> Seq<(bool, Seq<char>)> {
    Seq::new(v.len(), |i: int| (v[i].is_start, v[i].value@))
}

fn silence_event_of_line(line: &Vec<char>, start_tag: &Vec<char>, end_tag: &Vec<char>) -> (r: Option<SilenceEvent>)
    requires
        start_tag@ == "silence_start:"@,
        end_tag@ == "silence_end:"@,
    ensures
        match silence_event_of(line@) {
            Some((is_start, value)) => r matches Some(e) && e.is_start == is_start && e.value@ == value,
            None => r is None,
        },
{
    match find_in(line, start_tag) {
        Some(pos) => {
            assert(contains_at(line@, start_tag@, pos as int) && line@.len() == line.len());
            let after = chars_from(line, pos + start_tag.len());
            let t = trim_vec(&after);
            Some(SilenceEvent { is_start: true, value: string_from_chars(&t, 0, t.len()) })
        },
        None => match find_in(line, end_tag) {
            Some(pos) => {
                assert(contains_at(line@, end_tag@, pos as int) && line@.len() == line.len());
                let after = chars_from(line, pos + end_tag.len());
                let t = trim_vec(&after);
                let first = before_first_exec(&t, '|');
                let v = trim_vec(&first);
                Some(SilenceEvent { is_start: false, value: string_from_chars(&v, 0, v.len()) })
            },
            None => None,
        },
    }
}

/// Reads the silencedetect reports from ffmpeg's error output: for each
/// line mentioning `silence_start:` the number after it, and for each line
/// mentioning `silence_end:` the number after it, before any `'|'`.
pub fn silence_events(stderr: &str) -> (r: Vec<SilenceEvent>)
    ensures
        events_view(r@) == silence_events_of(stderr@),
{
    let v = chars_of(stderr);
    let lines = split_lines(&v);
    let ghost ls = lines_of(v@);
    let start_tag = chars_of("silence_start:");
    let end_tag = chars_of("silence_end:");
    let mut r: Vec<SilenceEvent> = Vec::new();
    let mut i: usize = 0;
    while i < lines.len()
        invariant
            i <= lines.len(),
            lines@.len() == ls.len(),
            forall|k: int| 0 <= k < lines@.len() ==> #[trigger] lines@[k]@ == ls[k],
            start_tag@ == "silence_start:"@,
            end_tag@ == "silence_end:"@,
            events_view(r@) == silence_events_upto(ls, i as nat),
        decreases lines.len() - i,
    {
        let ghost before = r@;
        match silence_event_of_line(&lines[i], &start_tag, &end_tag) {
            Some(e) => {
                r.push(e);
                assert(events_view(r@) =~= events_view(before).push((r@.last().is_start, r@.last().value@)));
            },
            None => {},
        }
        i += 1;
    }
    r
}

/// The silences paired from reports whose numbers were read as milliseconds
/// (`None` where the number did not parse): a start remembers its time, and
/// an end closes a silence with the most recent start, if any.
pub open spec fn paired_silences_upto(events: Seq<(bool, Option<u64>)>, n: nat) -> (Seq<SilencePoint>, Option<u64>)
    decreases n,
{
    if n == 0 {
        (Seq::empty(), None)
    } else {
        let (out, cur) = paired_silences_upto(events, (n - 1) as nat);
        let (is_start, value) = events[n - 1];
        if is_start {
            match value {
                Some(v) => (out, Some(v)),
                None => (out, cur),
            }
        } else {
            match (value, cur) {
                (Some(e), Some(s)) => (out.push(SilencePoint { start_ms: s, end_ms: e }), cur),
                _ => (out, cur),
            }
        }
    }
}

/// Pairs silence starts and ends into silences.
pub fn pair_silences(events: &[(bool, Option<u64>)]) -> (r: Vec<SilencePoint>)
    ensures
        r@ == paired_silences_upto(events@, events@.len()).0,
{
    let mut out: Vec<SilencePoint> = Vec::new();
    let mut current_start: Option<u64> = None;
    let mut i: usize = 0;
    while i < events.len()
        invariant
            i <= events.len(),
            (out@, current_start) == paired_silences_upto(events@, i as nat),
        decreases events.len() - i,
    {
        let (is_start, value) = events[i];
        if is_start {
            if let Some(v) = value {
                current_start = Some(v);
            }
        } else {
            if let (Some(e), Some(s)) = (value, current_start) {
                out.push(SilencePoint { start_ms: s, end_ms: e });
            }
        }
        i += 1;
    }
    out
}

/// The microseconds of an `out_time_us=` progress line: the line starts
/// with the key, and the trimmed line after the key is an unsigned number.
pub open spec fn out_time_us_of(line: Seq<char>) -> Option<nat> {
    if starts_with(line, "out_time_us="@) && starts_with(trim(line), "out_time_us="@) {
        parse_unsigned(trim(line).skip("out_time_us="@.len() as int), u64::MAX as nat)
    } else {
        None
    }
}

/// Reads the time of an ffmpeg `-progress` line `out_time_us=<microseconds>`.
pub fn parse_out_time_us(line: &str) -> (r: Option<u64>)
    ensures
        match out_time_us_of(line@) {
            Some(us) => r == Some(us as u64),
            None => r is None,
        },
{
    let v = chars_of(line);
    let key = chars_of("out_time_us=");
    if !(key.len() <= v.len() && crate::text::matches_at(&v, &key, 0)) {
        assert(!starts_with(line@, "out_time_us="@)) by {
            if key.len() <= v.len() {
                assert(v@.subrange(0, key.len() as int) =~= v@.take(key.len() as int));
            }
        }
        return None;
    }
    assert(v@.subrange(0, key.len() as int) =~= v@.take(key.len() as int));
    let t = trim_vec(&v);
    if !(key.len() <= t.len() && crate::text::matches_at(&t, &key, 0)) {
        assert(!starts_with(t@, "out_time_us="@)) by {
            if key.len() <= t.len() {
                assert(t@.subrange(0, key.len() as int) =~= t@.take(key.len() as int));
            }
        }
        return None;
    }
    assert(t@.subrange(0, key.len() as int) =~= t@.take(key.len() as int));
    let rest = chars_from(&t, key.len());
    parse_unsigned_chars(&rest, u64::MAX)
}

// ---------------------------------------------------------------------------
// ffprobe's report
// ---------------------------------------------------------------------------

/// One stream of ffprobe's report.
#[derive(Debug)]
pub struct StreamInfo {
    pub codec_type: Option<String>,
    pub codec_name: Option<String>,
}

/// What the library reads from ffprobe's report besides the duration.
#[derive(Debug)]
pub struct ProbeFacts {
    pub file_size_bytes: u64,
    pub has_audio: bool,
    pub audio_codec: Option<String>,
    pub nb_streams: usize,
}

/// Whether a stream is an audio stream.
pub open spec fn is_audio_stream(s: StreamInfo) -> bool {
    s.codec_type matches Some(t) && t@ == "audio"@
}

/// The index of the first audio stream at or after `i`.
pub open spec fn first_audio_from(streams: Seq<StreamInfo>, i: nat) -> Option<int>
    decreases streams.len() - i,
{
    if i >= streams.len() {
        None
    } else if is_audio_stream(streams[i as int]) {
        Some(i as int)
    } else {
        first_audio_from(streams, i + 1)
    }
}

/// Reads the size, the audio streams and the stream count from ffprobe's
/// report: the size must be an unsigned number, and there must be an audio
/// stream, whose codec is the first audio stream's.
pub fn summarize_probe(size: Option<&str>, streams: &[StreamInfo]) -> (r: Result<ProbeFacts, AppErrorView>)
    ensures
        match size {
            Some(sz) => match parse_unsigned(sz@, u64::MAX as nat) {
                Some(n) => match first_audio_from(streams@, 0) {
                    Some(k) => r matches Ok(f) && f.file_size_bytes == n && f.has_audio
                        && f.audio_codec == streams@[k].codec_name && f.nb_streams == streams@.len(),
                    None => r matches Err(e) && is_error(e, "INVALID_FILE"@, "File has no audio stream"@),
                },
                None => r matches Err(e) && is_error(e, "INVALID_FILE"@, "Could not determine file size"@),
            },
            None => r matches Err(e) && is_error(e, "INVALID_FILE"@, "Could not determine file size"@),
        },
{
    let file_size_bytes = match size {
        Some(sz) => {
            let v = chars_of(sz);
            match parse_unsigned_chars(&v, u64::MAX) {
                Some(n) => n,
                None => return Err(AppErrorView::invalid_file("Could not determine file size")),
            }
        },
        None => return Err(AppErrorView::invalid_file("Could not determine file size")),
    };
    let mut i: usize = 0;
    while i < streams.len()
        invariant
            i <= streams.len(),
            first_audio_from(streams@, 0) == first_audio_from(streams@, i as nat),
            size matches Some(sz) && parse_unsigned(sz@, u64::MAX as nat) == Some(file_size_bytes as nat),
        decreases streams.len() - i,
    {
        let is_audio = match &streams[i].codec_type {
            Some(t) => crate::text::str_eq(t.as_str(), "audio"),
            None => false,
        };
        if is_audio {
            let codec = match &streams[i].codec_name {
                Some(c) => Some(c.clone()),
                None => None,
            };
            return Ok(ProbeFacts { file_size_bytes, has_audio: true, audio_codec: codec, nb_streams: streams.len() });
        }
        i += 1;
    }
    Err(AppErrorView::invalid_file("File has no audio stream"))
}

// ---------------------------------------------------------------------------
// Command lines
// ---------------------------------------------------------------------------

/// The view of a list of strings.
pub open spec fn strings_view(v: Seq<String>) -> Seq<Seq<char>> {
    Seq::new(v.len(), |i: int| v[i]@)
}

/// `{:.3}` of a whole number of milliseconds read as seconds:
/// the seconds, a point and three digits of milliseconds.
pub open spec fn seconds_text(ms: u64) -> Seq<char> {
    decimal((ms / 1000) as nat) + seq!['.'] + zero_padded((ms % 1000) as nat, 3)
}

/// Seconds with three decimals for a time in milliseconds.
pub fn format_seconds(ms: u64) -> (s: String)
    ensures
        s@ == seconds_text(ms),
{
    let mut s = String::new();
    push_decimal(&mut s, ms / 1000);
    push_char(&mut s, '.');
    push_zero_padded(&mut s, ms % 1000, 3);
    assert(s@ =~= seconds_text(ms));
    s
}

fn push_arg(args: &mut Vec<String>, a: &str)
    ensures
        strings_view(final(args)@) == strings_view(old(args)@).push(a@),
{
    let ghost before = strings_view(args@);
    args.push(string_of(a));
    assert(strings_view(args@) =~= before.push(a@));
}

/// ffprobe's arguments for a JSON report of a file's format and streams.
pub fn probe_args(path: &str) -> (r: Vec<String>)
    ensures
        strings_view(r@) == seq!["-v"@, "quiet"@, "-print_format"@, "json"@, "-show_format"@, "-show_streams"@, path@],
{
    let mut a: Vec<String> = Vec::new();
    push_arg(&mut a, "-v");
    push_arg(&mut a, "quiet");
    push_arg(&mut a, "-print_format");
    push_arg(&mut a, "json");
    push_arg(&mut a, "-show_format");
    push_arg(&mut a, "-show_streams");
    push_arg(&mut a, path);
    assert(strings_view(a@) =~= seq!["-v"@, "quiet"@, "-print_format"@, "json"@, "-show_format"@, "-show_streams"@, path@]);
    a
}

/// The ffmpeg audio filter that applies a noise reduction model.
pub open spec fn noise_filter(model: Seq<char>) -> Seq<char> {
    "arnndn=m="@ + model
}

/// ffmpeg's arguments for extracting mono 16 kHz Opus audio at 32 kbit/s,
/// with the noise reduction filter when a model is given, reporting
/// progress on the error output.
pub open spec fn extract_args_of(input: Seq<char>, output: Seq<char>, model: Option<Seq<char>>) -> Seq<Seq<char>> {
    let base = seq!["-i"@, input, "-vn"@, "-ac"@, "1"@, "-ar"@, "16000"@, "-c:a"@, "libopus"@, "-b:a"@, "32k"@];
    let filtered = match model {
        Some(m) => base + seq!["-af"@, noise_filter(m)],
        None => base,
    };
    filtered + seq!["-progress"@, "pipe:2"@, output]
}

/// The view of an optional string slice.
pub open spec fn opt_str_view(o: Option<&str>) -> Option<Seq<char>> {
    match o {
        Some(s) => Some(s@),
        None => None,
    }
}

/// ffmpeg's arguments for audio extraction.
pub fn extract_audio_args(input: &str, output: &str, rnnoise_model: Option<&str>) -> (r: Vec<String>)
    ensures
        strings_view(r@) == extract_args_of(input@, output@, opt_str_view(rnnoise_model)),
{
    let mut a: Vec<String> = Vec::new();
    push_arg(&mut a, "-i");
    push_arg(&mut a, input);
    push_arg(&mut a, "-vn");
    push_arg(&mut a, "-ac");
    push_arg(&mut a, "1");
    push_arg(&mut a, "-ar");
    push_arg(&mut a, "16000");
    push_arg(&mut a, "-c:a");
    push_arg(&mut a, "libopus");
    push_arg(&mut a, "-b:a");
    push_arg(&mut a, "32k");
    if let Some(m) = rnnoise_model {
        push_arg(&mut a, "-af");
        let mut f = string_of("arnndn=m=");
        push_str(&mut f, m);
        push_arg(&mut a, f.as_str());
    }
    push_arg(&mut a, "-progress");
    push_arg(&mut a, "pipe:2");
    push_arg(&mut a, output);
    assert(strings_view(a@) =~= extract_args_of(input@, output@, opt_str_view(rnnoise_model)));
    a
}

/// ffmpeg's arguments for detecting silences below -40 dB lasting at least
/// half a second.
pub fn silence_detect_args(audio_path: &str) -> (r: Vec<String>)
    ensures
        strings_view(r@) == seq!["-i"@, audio_path@, "-af"@, "silencedetect=n=-40dB:d=0.5"@, "-f"@, "null"@, "-"@],
{
    let mut a: Vec<String> = Vec::new();
    push_arg(&mut a, "-i");
    push_arg(&mut a, audio_path);
    push_arg(&mut a, "-af");
    push_arg(&mut a, "silencedetect=n=-40dB:d=0.5");
    push_arg(&mut a, "-f");
    push_arg(&mut a, "null");
    push_arg(&mut a, "-");
    assert(strings_view(a@) =~= seq!["-i"@, audio_path@, "-af"@, "silencedetect=n=-40dB:d=0.5"@, "-f"@, "null"@, "-"@]);
    a
}

/// ffmpeg's arguments for copying `duration_ms` of audio from `start_ms`.
pub fn cut_args(audio_path: &str, start_ms: u64, duration_ms: u64, output: &str) -> (r: Vec<String>)
    ensures
        strings_view(r@) == seq!["-ss"@, seconds_text(start_ms), "-i"@, audio_path@, "-t"@, seconds_text(duration_ms), "-c"@, "copy"@, output@],
{
    let mut a: Vec<String> = Vec::new();
    push_arg(&mut a, "-ss");
    let s = format_seconds(start_ms);
    push_arg(&mut a, s.as_str());
    push_arg(&mut a, "-i");
    push_arg(&mut a, audio_path);
    push_arg(&mut a, "-t");
    let d = format_seconds(duration_ms);
    push_arg(&mut a, d.as_str());
    push_arg(&mut a, "-c");
    push_arg(&mut a, "copy");
    push_arg(&mut a, output);
    assert(strings_view(a@) =~= seq!["-ss"@, seconds_text(start_ms), "-i"@, audio_path@, "-t"@, seconds_text(duration_ms), "-c"@, "copy"@, output@]);
    a
}

// ---------------------------------------------------------------------------
// Outcomes
// ---------------------------------------------------------------------------

/// `{:?}` of an optional exit code: `Some(<code>)` or `None`.
pub open spec fn exit_code_text(code: Option<i32>) -> Seq<char> {
    match code {
        Some(c) => "Some("@ + (if c < 0 { seq!['-'] + decimal((-c) as nat) } else { decimal(c as nat) }) + seq![')'],
        None => "None"@,
    }
}

fn push_exit_code(s: &mut String, code: Option<i32>)
    ensures
        final(s)@ == old(s)@ + exit_code_text(code),
{
    match code {
        Some(c) => {
            push_str(s, "Some(");
            if c < 0 {
                push_char(s, '-');
                let m: u64 = (-(c as i64)) as u64;
                push_decimal(s, m);
            } else {
                push_decimal(s, c as u64);
            }
            push_char(s, ')');
        },
        None => push_str(s, "None"),
    }
    assert(final(s)@ =~= old(s)@ + exit_code_text(code));
}

/// The outcome of an audio extraction: failure with the exit code and the
/// bytes written, an empty output, or the size of the output and whether
/// noise reduction was applied.
pub fn extract_outcome(success: bool, exit_code: Option<i32>, output_size: u64, noise_reduction_applied: bool) -> (r: Result<ExtractStats, AppErrorView>)
    ensures
        !success ==> (r matches Err(e) && is_error(e, "INTERNAL_ERROR"@,
            "ffmpeg failed with exit code "@ + exit_code_text(exit_code) + " (bytes written: "@ + decimal(output_size as nat) + seq![')'])),
        success && output_size == 0 ==> (r matches Err(e) && is_error(e, "INTERNAL_ERROR"@, "ffmpeg produced empty output file"@)),
        success && output_size > 0 ==> r == Ok::<ExtractStats, AppErrorView>(ExtractStats { output_size_bytes: output_size, noise_reduction_applied }),
{
    if !success {
        let mut m = string_of("ffmpeg failed with exit code ");
        push_exit_code(&mut m, exit_code);
        push_str(&mut m, " (bytes written: ");
        push_decimal(&mut m, output_size);
        push_char(&mut m, ')');
        assert(m@ =~= "ffmpeg failed with exit code "@ + exit_code_text(exit_code) + " (bytes written: "@ + decimal(output_size as nat) + seq![')']);
        return Err(AppErrorView::internal_error(m.as_str()));
    }
    if output_size == 0 {
        return Err(AppErrorView::internal_error("ffmpeg produced empty output file"));
    }
    Ok(ExtractStats { output_size_bytes: output_size, noise_reduction_applied })
}

/// The error of a failed cut.
pub fn cut_failed(exit_code: Option<i32>) -> (e: AppErrorView)
    ensures
        is_error(e, "INTERNAL_ERROR"@, "ffmpeg cut failed with exit code "@ + exit_code_text(exit_code)),
{
    let mut m = string_of("ffmpeg cut failed with exit code ");
    push_exit_code(&mut m, exit_code);
    AppErrorView::internal_error(m.as_str())
}

} // verus!
