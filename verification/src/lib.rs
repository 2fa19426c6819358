//! Bounded, self-hosted speech-to-text and text-to-speech server logic.

pub mod api;
pub mod audio;
pub mod chunks;
pub mod config;
pub mod digest;
pub mod download;
pub mod engines;
pub mod frames;
pub mod grpc;
pub mod health;
pub mod incremental;
pub mod install;
pub mod limiter;
pub mod limits;
pub mod manifest;
pub mod mcp;
pub mod names;
pub mod native;
pub mod number;
pub mod paths;
pub mod pcm;
pub mod realtime;
pub mod request;
pub mod resample;
pub mod sample;
pub mod server;
pub mod setup;
pub mod shutdown;
pub mod splits;
pub mod stt;
pub mod text;
pub mod tts;
pub mod vad;
pub mod verify_object;
pub mod wav;
