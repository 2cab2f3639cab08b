//! Progress reports of running jobs and their batching into queue ticks
//! for the user interface.

use vstd::prelude::*;
use crate::types::{JobId, JobState, JobUpdate, QueueTick};

verus! {

/// A job's progress: its state, and what is known of the upload.
#[derive(Debug)]
pub struct ProgressEvent {
    pub job_id: JobId,
    pub state: JobState,
    pub bytes_uploaded: Option<u64>,
    pub eta_ms: Option<u64>,
}

impl Clone for ProgressEvent {
    fn clone(&self) -> (r: Self)
        ensures
            r == *self,
    {
        ProgressEvent {
            job_id: self.job_id,
            state: self.state.clone(),
            bytes_uploaded: self.bytes_uploaded,
            eta_ms: self.eta_ms,
        }
    }
}

/// The update a progress event becomes in a queue tick.
pub open spec fn update_of(e: ProgressEvent) -> JobUpdate {
    JobUpdate { id: e.job_id, state: e.state, bytes_uploaded: e.bytes_uploaded, eta_ms: e.eta_ms }
}

impl ProgressEvent {
    /// The event as a job update.
    pub fn to_job_update(&self) -> (u: JobUpdate)
        ensures
            u == update_of(*self),
    {
        JobUpdate {
            id: self.job_id,
            state: self.state.clone(),
            bytes_uploaded: self.bytes_uploaded,
            eta_ms: self.eta_ms,
        }
    }
}

/// Progress events gathered into one queue tick: the batch is full once
/// it holds `batch_size` updates.
#[derive(Debug)]
pub struct TickBatch {
    pub updates: Vec<JobUpdate>,
    pub batch_size: usize,
}

impl TickBatch {
    /// An empty batch.
    pub fn new(batch_size: usize) -> (b: TickBatch)
        ensures
            b.updates@.len() == 0,
            b.batch_size == batch_size,
    {
        TickBatch { updates: Vec::new(), batch_size }
    }

    /// Adds an event's update; says whether the batch is now full.
    pub fn add(&mut self, event: &ProgressEvent) -> (full: bool)
        ensures
            final(self).updates@ == old(self).updates@.push(update_of(*event)),
            final(self).batch_size == old(self).batch_size,
            full == (final(self).updates@.len() >= final(self).batch_size),
    {
        self.updates.push(event.to_job_update());
        self.updates.len() >= self.batch_size
    }

    /// The tick of the gathered updates, stamped `ts` (milliseconds since
    /// the Unix epoch), or nothing when no event came.
    pub fn finish(self, ts: u64) -> (t: Option<QueueTick>)
        ensures
            self.updates@.len() == 0 ==> t is None,
            self.updates@.len() > 0 ==> (t matches Some(q) && q.updates@ == self.updates@ && q.ts == ts),
    {
        if self.updates.len() == 0 {
            None
        } else {
            Some(QueueTick { updates: self.updates, ts })
        }
    }
}

} // verus!
