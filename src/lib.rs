//! Decoding of MIDI channel-voice messages into one line of text each.
pub mod laws;
pub mod message;
pub mod text;
