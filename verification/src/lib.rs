//! Verified core of a batch transcription desktop application: chunk
//! planning, transcript stitching, subtitle and text export, retry and
//! backoff policy, and the decisions of the job pipeline.

pub mod text;
pub mod paths;
pub mod types;
pub mod export;
pub mod stitching;
pub mod chunking;
pub mod ffmpeg;
pub mod retry;
pub mod cache;
pub mod groq;
pub mod stages;
pub mod pipeline;
pub mod keyring;
pub mod commands;
pub mod progress;
pub mod events;
pub mod telemetry;
pub mod db;
