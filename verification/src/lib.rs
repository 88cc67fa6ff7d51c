//! A small real-time software synthesizer: given a declarative tune
//! (instrument definitions plus per-channel note sequences encoded as a tiny
//! bytecode), it generates interleaved stereo audio samples on demand,
//! sample-accurately, at a fixed sample rate, using only integer fixed-point
//! arithmetic with explicit wraparound semantics.
pub mod channel;
pub mod instrument;
#[allow(non_upper_case_globals)]
pub mod note_names;
pub mod player;
pub mod tune;
pub mod wave;
