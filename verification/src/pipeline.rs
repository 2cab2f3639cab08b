//! The job pipeline as a state machine: probe, extract, chunk, transcribe,
//! stitch, postprocess and write, in that order, with a cancellation check
//! before each stage. The caller runs each stage and hands back what it
//! reported; the functions here say what comes next.

use vstd::prelude::*;
use crate::stages::StageResult;
use crate::types::{AppErrorView, JobState, is_error};

verus! {

/// A stage of the pipeline.
#[derive(Debug, Clone, Copy, PartialEq, Eq, Structural)]
pub enum Stage {
    /// Check the file with ffprobe.
    Probe,
    /// Extract the audio track.
    Extract,
    /// Split the audio when it is too large.
    Chunk,
    /// Transcribe every chunk.
    Transcribe,
    /// Merge the chunk transcripts.
    Stitch,
    /// Clean up the transcript, when asked for.
    Postprocess,
    /// Write the transcript.
    Write,
}

/// The place of a stage in the pipeline, from 0.
pub open spec fn stage_index(s: Stage) -> nat {
    match s {
        Stage::Probe => 0,
        Stage::Extract => 1,
        Stage::Chunk => 2,
        Stage::Transcribe => 3,
        Stage::Stitch => 4,
        Stage::Postprocess => 5,
        Stage::Write => 6,
    }
}

/// The stage after `s`, if any.
pub open spec fn next_stage(s: Stage) -> Option<Stage> {
    match s {
        Stage::Probe => Some(Stage::Extract),
        Stage::Extract => Some(Stage::Chunk),
        Stage::Chunk => Some(Stage::Transcribe),
        Stage::Transcribe => Some(Stage::Stitch),
        Stage::Stitch => Some(Stage::Postprocess),
        Stage::Postprocess => Some(Stage::Write),
        Stage::Write => None,
    }
}

/// What the pipeline does next.
#[derive(Debug)]
pub enum PipelineStep {
    /// Run this stage.
    Run(Stage),
    /// Stop: the job is finished.
    Finish,
    /// Stop with this error.
    Fail(AppErrorView),
}

/// Whether `step` stops with the cancellation error.
pub open spec fn is_cancelled_step(step: PipelineStep) -> bool {
    step matches PipelineStep::Fail(e) && is_error(e, "CANCELLED"@, "Job cancelled by user"@)
}

/// The error of a job cancelled before a stage.
pub fn cancelled_error() -> (e: AppErrorView)
    ensures
        is_error(e, "CANCELLED"@, "Job cancelled by user"@),
{
    AppErrorView::new("CANCELLED", "Job cancelled by user")
}

/// The first step: the probe stage, unless the job is already cancelled.
pub fn start(cancelled: bool) -> (step: PipelineStep)
    ensures
        cancelled ==> is_cancelled_step(step),
        !cancelled ==> (step matches PipelineStep::Run(s) && s == Stage::Probe),
{
    if cancelled {
        PipelineStep::Fail(cancelled_error())
    } else {
        PipelineStep::Run(Stage::Probe)
    }
}

/// The step after `stage` ran and reported `reported` (`None` where it had
/// nothing to report, as stitching a single chunk): the pipeline finishes
/// after the write stage or when a stage says not to go on; otherwise it
/// stops if the job was cancelled meanwhile, and runs the next stage if not.
pub fn advance(stage: Stage, reported: Option<&StageResult>, cancelled: bool) -> (step: PipelineStep)
    ensures
        stage == Stage::Write ==> step is Finish,
        (reported matches Some(r) && !r.should_continue) ==> step is Finish,
        stage != Stage::Write && !(reported matches Some(r) && !r.should_continue) ==> {
            &&& cancelled ==> is_cancelled_step(step)
            &&& !cancelled ==> (step matches PipelineStep::Run(s) && Some(s) == next_stage(stage))
        },
{
    let stop = match reported {
        Some(r) => !r.should_continue,
        None => false,
    };
    if stop {
        return PipelineStep::Finish;
    }
    let next = match stage {
        Stage::Probe => Stage::Extract,
        Stage::Extract => Stage::Chunk,
        Stage::Chunk => Stage::Transcribe,
        Stage::Transcribe => Stage::Stitch,
        Stage::Stitch => Stage::Postprocess,
        Stage::Postprocess => Stage::Write,
        Stage::Write => return PipelineStep::Finish,
    };
    if cancelled {
        PipelineStep::Fail(cancelled_error())
    } else {
        PipelineStep::Run(next)
    }
}

/// Whether the state a stage reports is saved to the database as soon as
/// it is reported; the write stage's state is saved when the run ends.
pub fn saves_state(stage: Stage) -> (r: bool)
    ensures
        r == (stage != Stage::Write),
{
    match stage {
        Stage::Write => false,
        _ => true,
    }
}

/// The state of a job whose run failed with `error`.
pub fn failed_state(error: AppErrorView) -> (s: JobState)
    ensures
        s == (JobState::Failed { error: error, attempts: 1 }),
{
    JobState::Failed { error, attempts: 1 }
}

// ---------------------------------------------------------------------------
// Laws
// ---------------------------------------------------------------------------

/// The pipeline only moves forward: every stage it runs after `stage` is
/// the one right after it, so each stage runs at most once per run, in
/// order, and nothing runs after the write stage.
pub proof fn lemma_stages_run_in_order(stage: Stage, s: Stage)
    requires
        next_stage(stage) == Some(s),
    ensures
        stage_index(s) == stage_index(stage) + 1,
        stage != Stage::Write,
{
}

/// Every run starts at the probe stage and reaches the write stage after
/// the six stages before it.
pub proof fn lemma_write_is_last(s: Stage)
    ensures
        stage_index(s) <= stage_index(Stage::Write),
        next_stage(s) is None <==> s == Stage::Write,
        stage_index(s) == 0 <==> s == Stage::Probe,
{
}

} // verus!
