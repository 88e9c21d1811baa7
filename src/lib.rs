//! Casting engine that projects a karaoke room's queue onto a DLNA renderer.
//!
//! Each module holds the decisions and encodings of one component; the
//! network, timers and device discovery are driven by the surrounding program.
pub mod text;
pub mod utils;
pub mod dlna;
pub mod engine;
pub mod error;
pub mod media_server;
pub mod mp4;
pub mod playlist_manager;
pub mod status_poller;
