//! Verified core of the OBS WebRTC (WHIP) output plugin.
pub mod text;
pub mod obs_log;
pub mod output;
pub mod ffi;
pub mod whip;
