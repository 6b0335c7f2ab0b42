//! The sound sources and the amplitude envelope.

pub mod envelope;
pub mod lfo;
pub mod oscillator;

pub use envelope::Envelope;
pub use lfo::LFO;
pub use oscillator::Oscillator;
