//! Verified core of a local speech-to-text daemon: the rules by which it records, transcribes,
//! cleans, logs, types and announces what was said.

pub mod audio_capture;
pub mod cli;
pub mod config;
pub mod daemon;
pub mod ipc;
pub mod ldsctl;
pub mod patterns;
pub mod smooth_typist;
pub mod streaming;
pub mod text;
pub mod text_middleware;
pub mod transcript_log;
pub mod vad;
pub mod wav;
pub mod wayland_typist;
pub mod whisper_provider;
