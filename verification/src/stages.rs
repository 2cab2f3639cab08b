//! The work of each pipeline stage that does not touch the outside world:
//! what a job's context holds, what each stage checks, records and
//! reports, and where the transcripts are written.

use vstd::prelude::*;
use crate::chunking::{AudioChunk, chunks_of_plan, chunks_from_plan};
use crate::stitching::{
    ChunkTranscript, SegmentLocal, chunks_fit_globally, convert_local_to_global, globals, stitch_slice,
    stitched,
};
use crate::paths::{file_stem, join, parent, path_file_stem, path_join, path_parent, path_with_extension, with_extension};
use crate::text::{push_str, string_of};
use crate::types::{AppErrorView, Job, JobState, TranscriptSegment, is_error};

verus! {

broadcast use vstd::string::group_string_axioms;

// ---------------------------------------------------------------------------
// The context of a job
// ---------------------------------------------------------------------------

/// What the pipeline knows of a job while it runs.
#[derive(Debug)]
pub struct PipelineCtx {
    pub job: Job,
    /// The extracted audio file.
    pub audio_temp_path: Option<String>,
    /// The audio chunks to transcribe.
    pub chunks: Vec<AudioChunk>,
    /// The transcripts of the chunks, in chunk order.
    pub chunk_transcripts: Vec<ChunkTranscript>,
    /// The transcript's segments in global time.
    pub segments: Vec<TranscriptSegment>,
    /// The transcript as the speech-to-text service returned it.
    pub transcript_raw: String,
    /// The transcript after cleanup, when cleanup ran and succeeded.
    pub transcript_processed: Option<String>,
    /// Where the transcript is written: the source path with `.txt`.
    pub output_path: String,
}

/// The result of a stage: the state it leaves the job in, and whether the
/// pipeline goes on.
#[derive(Debug)]
pub struct StageResult {
    pub state: JobState,
    pub should_continue: bool,
}

impl PipelineCtx {
    /// A fresh context for a job, writing next to the source file.
    pub fn new(job: Job) -> (ctx: PipelineCtx)
        ensures
            ctx.job == job,
            ctx.audio_temp_path is None,
            ctx.chunks@.len() == 0,
            ctx.chunk_transcripts@.len() == 0,
            ctx.segments@.len() == 0,
            ctx.transcript_raw@.len() == 0,
            ctx.transcript_processed is None,
            ctx.output_path@ == path_with_extension(job.source_path@, "txt"@),
    {
        proof {
            reveal_strlit("txt");
        }
        let output_path = with_extension(job.source_path.as_str(), "txt");
        PipelineCtx {
            job,
            audio_temp_path: None,
            chunks: Vec::new(),
            chunk_transcripts: Vec::new(),
            segments: Vec::new(),
            transcript_raw: String::new(),
            transcript_processed: None,
            output_path,
        }
    }

    /// The transcript to export: the cleaned one if there is one, otherwise
    /// the raw one.
    pub fn get_final_transcript(&self) -> (s: &str)
        ensures
            s@ == match self.transcript_processed {
                Some(p) => p@,
                None => self.transcript_raw@,
            },
    {
        match &self.transcript_processed {
            Some(p) => p.as_str(),
            None => self.transcript_raw.as_str(),
        }
    }
}

// ---------------------------------------------------------------------------
// Stages
// ---------------------------------------------------------------------------

/// Whether a stage result is the given state, going on.
pub open spec fn goes_on_in(r: StageResult, state: JobState) -> bool {
    r.state == state && r.should_continue
}

/// The probe stage's verdict on ffprobe's report: the file must have audio
/// and last at least a second.
pub fn probe_stage(has_audio: bool, duration_ms: u64) -> (r: Result<StageResult, AppErrorView>)
    ensures
        !has_audio ==> (r matches Err(e) && is_error(e, "INVALID_FILE"@, "Video file has no audio track"@)),
        has_audio && duration_ms < 1000 ==> (r matches Err(e) && is_error(e, "INVALID_FILE"@, "Audio duration too short (< 1 second)"@)),
        has_audio && duration_ms >= 1000 ==> (r matches Ok(s) && goes_on_in(s, JobState::Probing)),
{
    if !has_audio {
        return Err(AppErrorView::invalid_file("Video file has no audio track"));
    }
    if duration_ms < 1000 {
        return Err(AppErrorView::invalid_file("Audio duration too short (< 1 second)"));
    }
    Ok(StageResult { state: JobState::Probing, should_continue: true })
}

/// Records the extracted audio file.
pub fn extract_stage(ctx: &mut PipelineCtx, audio_path: String) -> (r: StageResult)
    ensures
        final(ctx).audio_temp_path == Some(audio_path),
        final(ctx).job == old(ctx).job,
        final(ctx).chunks@ == old(ctx).chunks@,
        final(ctx).chunk_transcripts@ == old(ctx).chunk_transcripts@,
        final(ctx).segments@ == old(ctx).segments@,
        final(ctx).transcript_raw == old(ctx).transcript_raw,
        final(ctx).transcript_processed == old(ctx).transcript_processed,
        final(ctx).output_path == old(ctx).output_path,
        goes_on_in(r, JobState::Extracting { progress_permille: 1000 }),
{
    ctx.audio_temp_path = Some(audio_path);
    StageResult { state: JobState::Extracting { progress_permille: 1000 }, should_continue: true }
}

/// The extracted audio file, which the chunking stage needs.
pub fn extracted_audio(ctx: &PipelineCtx) -> (r: Result<String, AppErrorView>)
    ensures
        match ctx.audio_temp_path {
            Some(p) => r matches Ok(q) && q == p,
            None => r matches Err(e) && is_error(e, "INTERNAL_ERROR"@, "Audio temp path not set"@),
        },
{
    match &ctx.audio_temp_path {
        Some(p) => Ok(p.clone()),
        None => Err(AppErrorView::internal_error("Audio temp path not set")),
    }
}

/// Records audio small enough to upload whole as the only chunk.
pub fn single_chunk_stage(ctx: &mut PipelineCtx, total_duration_ms: u64, audio_path: String) -> (r: StageResult)
    ensures
        final(ctx).chunks@ == seq![AudioChunk {
            start_ms: 0,
            end_ms: total_duration_ms,
            overlap_start_ms: None,
            overlap_end_ms: None,
            path: audio_path,
            idx: 0,
            total: 1,
        }],
        final(ctx).job == old(ctx).job,
        final(ctx).audio_temp_path == old(ctx).audio_temp_path,
        final(ctx).chunk_transcripts@ == old(ctx).chunk_transcripts@,
        final(ctx).segments@ == old(ctx).segments@,
        final(ctx).transcript_raw == old(ctx).transcript_raw,
        final(ctx).transcript_processed == old(ctx).transcript_processed,
        final(ctx).output_path == old(ctx).output_path,
        goes_on_in(r, JobState::Uploading { progress_permille: 0, chunk_idx: 1, chunk_total: 1 }),
{
    let mut chunks: Vec<AudioChunk> = Vec::new();
    chunks.push(AudioChunk {
        start_ms: 0,
        end_ms: total_duration_ms,
        overlap_start_ms: None,
        overlap_end_ms: None,
        path: audio_path,
        idx: 0,
        total: 1,
    });
    ctx.chunks = chunks;
    StageResult {
        state: JobState::Uploading { progress_permille: 0, chunk_idx: 1, chunk_total: 1 },
        should_continue: true,
    }
}

/// Records the chunks cut from a plan, with their files.
pub fn multi_chunk_stage(
    ctx: &mut PipelineCtx,
    plan: &[(u64, u64, Option<u64>, Option<u64>)],
    paths: Vec<String>,
) -> (r: StageResult)
    requires
        paths@.len() == plan@.len(),
    ensures
        final(ctx).chunks@ == chunks_of_plan(plan@, paths@),
        final(ctx).job == old(ctx).job,
        final(ctx).audio_temp_path == old(ctx).audio_temp_path,
        final(ctx).chunk_transcripts@ == old(ctx).chunk_transcripts@,
        final(ctx).segments@ == old(ctx).segments@,
        final(ctx).transcript_raw == old(ctx).transcript_raw,
        final(ctx).transcript_processed == old(ctx).transcript_processed,
        final(ctx).output_path == old(ctx).output_path,
        goes_on_in(r, JobState::Chunking { progress_permille: 1000 }),
{
    ctx.chunks = chunks_from_plan(plan, paths);
    StageResult { state: JobState::Chunking { progress_permille: 1000 }, should_continue: true }
}

/// Refuses to transcribe when there are no chunks.
pub fn check_chunks(ctx: &PipelineCtx) -> (r: Result<(), AppErrorView>)
    ensures
        ctx.chunks@.len() == 0 ==> (r matches Err(e) && is_error(e, "INTERNAL_ERROR"@, "No chunks available for transcription"@)),
        ctx.chunks@.len() > 0 ==> r is Ok,
{
    if ctx.chunks.len() == 0 {
        Err(AppErrorView::internal_error("No chunks available for transcription"))
    } else {
        Ok(())
    }
}

/// Records the service's transcript of chunk `idx`: its text and its
/// segments (in milliseconds from the chunk's start), with the chunk's
/// place and overlaps.
pub fn record_chunk_transcript(ctx: &mut PipelineCtx, idx: usize, text: String, segments: Vec<SegmentLocal>)
    requires
        idx < old(ctx).chunks@.len(),
    ensures
        final(ctx).chunk_transcripts@.len() == old(ctx).chunk_transcripts@.len() + 1,
        forall|k: int| 0 <= k < old(ctx).chunk_transcripts@.len() ==> #[trigger] final(ctx).chunk_transcripts@[k] == old(ctx).chunk_transcripts@[k],
        ({
            let t = final(ctx).chunk_transcripts@.last();
            let c = old(ctx).chunks@[idx as int];
            &&& t.chunk_idx == idx as u32
            &&& t.chunk_start_ms == c.start_ms
            &&& t.chunk_end_ms == c.end_ms
            &&& t.overlap_start_ms == c.overlap_start_ms
            &&& t.overlap_end_ms == c.overlap_end_ms
            &&& t.text == text
            &&& t.segments@ == segments@
        }),
        final(ctx).job == old(ctx).job,
        final(ctx).audio_temp_path == old(ctx).audio_temp_path,
        final(ctx).chunks@ == old(ctx).chunks@,
        final(ctx).segments@ == old(ctx).segments@,
        final(ctx).transcript_raw == old(ctx).transcript_raw,
        final(ctx).transcript_processed == old(ctx).transcript_processed,
        final(ctx).output_path == old(ctx).output_path,
{
    let c = &ctx.chunks[idx];
    let t = ChunkTranscript {
        chunk_idx: idx as u32,
        chunk_start_ms: c.start_ms,
        chunk_end_ms: c.end_ms,
        overlap_start_ms: c.overlap_start_ms,
        overlap_end_ms: c.overlap_end_ms,
        text,
        segments,
    };
    ctx.chunk_transcripts.push(t);
}

/// The state after all chunks are transcribed.
pub fn transcribe_stage(ctx: &PipelineCtx) -> (r: StageResult)
    ensures
        goes_on_in(r, JobState::Transcribing {
            chunk_idx: ctx.chunks@.len() as u32,
            chunk_total: ctx.chunks@.len() as u32,
        }),
{
    let total = ctx.chunks.len() as u32;
    StageResult { state: JobState::Transcribing { chunk_idx: total, chunk_total: total }, should_continue: true }
}

/// Merges the chunk transcripts. With several chunks the stitched text and
/// segments become the transcript and the stage reports `Stitching` (or
/// fails when no transcript was recorded); with one chunk its transcript
/// is taken as it is, in global time, and nothing is reported.
pub fn stitch_stage(ctx: &mut PipelineCtx) -> (r: Result<Option<StageResult>, AppErrorView>)
    requires
        chunks_fit_globally(old(ctx).chunk_transcripts@),
    ensures
        old(ctx).chunks@.len() > 1 && old(ctx).chunk_transcripts@.len() == 0 ==> (r matches Err(e)
            && is_error(e, "INTERNAL_ERROR"@, "No chunk transcripts available"@)),
        old(ctx).chunks@.len() > 1 && old(ctx).chunk_transcripts@.len() > 0 ==> (r matches Ok(Some(s))
            && goes_on_in(s, JobState::Stitching)
            && final(ctx).transcript_raw@ == stitched(old(ctx).chunk_transcripts@).0
            && final(ctx).segments@ == stitched(old(ctx).chunk_transcripts@).1),
        old(ctx).chunks@.len() <= 1 && old(ctx).chunk_transcripts@.len() > 0 ==> (r matches Ok(None)
            && final(ctx).transcript_raw == old(ctx).chunk_transcripts@[0].text
            && final(ctx).segments@ == globals(old(ctx).chunk_transcripts@[0].segments@, old(ctx).chunk_transcripts@[0].chunk_start_ms)),
        old(ctx).chunks@.len() <= 1 && old(ctx).chunk_transcripts@.len() == 0 ==> (r matches Ok(None)
            && final(ctx).transcript_raw == old(ctx).transcript_raw
            && final(ctx).segments@ == old(ctx).segments@),
        final(ctx).job == old(ctx).job,
        final(ctx).audio_temp_path == old(ctx).audio_temp_path,
        final(ctx).chunks@ == old(ctx).chunks@,
        final(ctx).chunk_transcripts@ == old(ctx).chunk_transcripts@,
        final(ctx).transcript_processed == old(ctx).transcript_processed,
        final(ctx).output_path == old(ctx).output_path,
{
    if ctx.chunks.len() > 1 {
        if ctx.chunk_transcripts.len() == 0 {
            return Err(AppErrorView::internal_error("No chunk transcripts available"));
        }
        let (text, segments) = stitch_slice(ctx.chunk_transcripts.as_slice());
        ctx.transcript_raw = text;
        ctx.segments = segments;
        Ok(Some(StageResult { state: JobState::Stitching, should_continue: true }))
    } else {
        if ctx.chunk_transcripts.len() > 0 {
            assert(crate::stitching::fits_globally(ctx.chunk_transcripts@[0].segments@, ctx.chunk_transcripts@[0].chunk_start_ms));
            let first = &ctx.chunk_transcripts[0];
            let text = first.text.clone();
            let segments = convert_local_to_global(first.segments.as_slice(), first.chunk_start_ms);
            ctx.transcript_raw = text;
            ctx.segments = segments;
        }
        Ok(None)
    }
}

/// Whether the job asks for transcript cleanup.
pub fn wants_postprocess(ctx: &PipelineCtx) -> (r: bool)
    ensures
        r == ctx.job.settings_snapshot.enable_postprocess,
{
    ctx.job.settings_snapshot.enable_postprocess
}

/// Records the outcome of transcript cleanup (`None` where it did not
/// run): a cleaned transcript is kept, a failure leaves only the raw one.
/// Either way the pipeline goes on.
pub fn postprocess_stage(ctx: &mut PipelineCtx, outcome: Option<Result<String, AppErrorView>>) -> (r: StageResult)
    ensures
        final(ctx).transcript_processed == match outcome {
            Some(Ok(p)) => Some(p),
            Some(Err(_)) => None,
            None => old(ctx).transcript_processed,
        },
        final(ctx).job == old(ctx).job,
        final(ctx).audio_temp_path == old(ctx).audio_temp_path,
        final(ctx).chunks@ == old(ctx).chunks@,
        final(ctx).chunk_transcripts@ == old(ctx).chunk_transcripts@,
        final(ctx).segments@ == old(ctx).segments@,
        final(ctx).transcript_raw == old(ctx).transcript_raw,
        final(ctx).output_path == old(ctx).output_path,
        goes_on_in(r, JobState::Postprocessing),
{
    match outcome {
        Some(Ok(p)) => {
            ctx.transcript_processed = Some(p);
        },
        Some(Err(_)) => {
            ctx.transcript_processed = None;
        },
        None => {},
    }
    StageResult { state: JobState::Postprocessing, should_continue: true }
}

/// Where the cleaned transcript goes: `<stem>.processed.txt` beside the
/// main output (stem `transcript` where the output has none readable), or
/// nowhere when the output has no parent directory.
pub open spec fn processed_path_of(output_path: Seq<char>) -> Option<Seq<char>> {
    let stem = match path_file_stem(output_path) {
        Some(s) => s,
        None => "transcript"@,
    };
    match path_parent(output_path) {
        Some(p) => Some(path_join(p, stem + ".processed.txt"@)),
        None => None,
    }
}

/// The path of the cleaned transcript.
pub fn processed_output_path(output_path: &str) -> (r: Option<String>)
    ensures
        match processed_path_of(output_path@) {
            Some(p) => r matches Some(q) && q@ == p,
            None => r is None,
        },
{
    let stem = match file_stem(output_path) {
        Some(s) => s,
        None => string_of("transcript"),
    };
    match parent(output_path) {
        Some(p) => {
            let mut name = stem;
            push_str(&mut name, ".processed.txt");
            Some(join(p.as_str(), name.as_str()))
        },
        None => None,
    }
}

/// The end of the last segment, or 0 without segments.
pub open spec fn transcript_duration_ms(segments: Seq<TranscriptSegment>) -> u64 {
    if segments.len() == 0 { 0 } else { segments.last().end_ms }
}

/// The final state once the transcript is written: done, at the output
/// path, lasting until the end of the last segment.
pub fn write_stage(ctx: &PipelineCtx) -> (r: StageResult)
    ensures
        r.state matches JobState::Done { output_path, duration_ms }
            && output_path == ctx.output_path && duration_ms == transcript_duration_ms(ctx.segments@),
        !r.should_continue,
{
    let duration_ms = if ctx.segments.len() == 0 { 0 } else { ctx.segments[ctx.segments.len() - 1].end_ms };
    StageResult {
        state: JobState::Done { output_path: ctx.output_path.clone(), duration_ms },
        should_continue: false,
    }
}

/// The path, without extension, that exports are written next to.
pub fn export_base_path(ctx: &PipelineCtx) -> (r: String)
    ensures
        r@ == path_with_extension(ctx.output_path@, ""@),
{
    proof {
        reveal_strlit("");
    }
    with_extension(ctx.output_path.as_str(), "")
}

} // verus!
