//! Streaming speech recognition over a message-based duplex channel, with an
//! adaptive voice activity detector in front of it.
//!
//! The crate has two independent parts:
//! - [`voice_activity_detection`]: a stateful, self-calibrating classifier
//!   that labels fixed-point sample frames as speech or silence;
//! - [`speech_recognition`]: the session protocol — outbound audio framing
//!   with a buffered flush policy, and inbound header/JSON message dispatch
//!   over the turn lifecycle.

pub mod protocol;
pub mod speech_recognition;
pub mod voice_activity_detection;

pub use speech_recognition::Session;
pub use voice_activity_detection::VoiceActivityDetector;
