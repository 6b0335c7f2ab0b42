//! Fixed-point voice and effects engine of a pressure-controlled monophonic synthesizer.
pub mod config;
pub mod fixed;
pub mod wavetables;
pub mod audio;
pub mod buffer;
pub mod effects;
pub mod voice;
pub mod output;
pub mod controls;
