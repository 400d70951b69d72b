//! Signal-generation core of a polyphonic software synthesizer.
//!
//! The library works entirely in fixed-point arithmetic so that every
//! sample it emits is the value its contracts describe: a phase is a
//! `u64` count of `2^32` units per cycle, and an audio sample is a Q15
//! integer where `32768` stands for full scale (`1.0`).  A thin host
//! layer converts to floating point at the boundary.

pub mod amsynth_oscillator;
pub mod analogsaw;
pub mod analogsquare;
pub mod engine;
pub mod fixed;
pub mod params;
pub mod rng;
pub mod saw;
pub mod sine;
pub mod square;
pub mod synth;
pub mod utils;
pub mod vasaw;
pub mod vasquare;
pub mod vintagesaw;
pub mod voice;
pub mod voice_manager;
