//! A verified core for a voice-journaling application.
//!
//! The library covers the audio capture-and-transcription pipeline:
//! fixed-point sample processing (resampling, channel mixdown), the
//! recording-session state machine, the packet-loop policy of the file
//! importer, model-artifact bookkeeping with download progress, and
//! transcript assembly — plus the naming and ordering rules of the
//! journal's entry files.

pub mod audio;
pub mod import;
pub mod journal;
pub mod model;
pub mod recorder;
pub mod transcribe;
