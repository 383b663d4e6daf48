//! Verified core of the OpenChatCut project daemon: origin and host policy,
//! browser session bookkeeping, content-addressed media rules, media
//! classification, compiler-output checks and job bookkeeping.

pub mod text;
pub mod encoding;
pub mod error;
pub mod json;
pub mod media;
pub mod net;
pub mod paths;
pub mod config;
pub mod auth;
pub mod content;
pub mod requests;
pub mod motion;
pub mod codex;
pub mod codex_requests;
pub mod image_jobs;
pub mod jobs;
pub mod agent;
pub mod broll;
pub mod story;
pub mod status;
pub mod events;
pub mod script;
pub mod imports;
pub mod captions;
pub mod script_edits;
pub mod caption_edits;
pub mod tools;
pub mod conversation;
pub mod placement;
pub mod uploads;
pub mod dispatch;
pub mod media_gc;
pub mod audio;
pub mod transcription;
