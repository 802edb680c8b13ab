//! Core library of a media transcription pipeline: subtitle timing synthesis,
//! chunked-inference planning and overlap merge, task lifecycle with
//! cooperative cancellation, and the speech-engine catalog and dispatch rules.
//!
//! Everything that computes or decides lives here, verified; subprocesses,
//! file handling and event delivery are driven by a thin unverified shell
//! that feeds results back in as plain values.

pub mod captions;
pub mod config;
pub mod engines;
pub mod errors;
pub mod grouping;
pub mod jsontext;
pub mod managers;
pub mod network;
pub mod pipeline;
pub mod segments;
pub mod srt_time;
pub mod tasks;
pub mod text;
pub mod ytdlp;
