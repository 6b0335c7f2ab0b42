//! Integer configuration of the audio engine.
use vstd::prelude::*;

verus! {

/// Stack size reserved for the audio core.
pub const AUDIO_CORE_STACK_SIZE: usize = 49152;
/// Output sample rate in Hz.
pub const AUDIO_SAMPLE_RATE: u32 = 44100;
/// Number of samples rendered per block.
pub const AUDIO_BUFFER_SIZE: usize = 256;
/// Base-two logarithm of the wavetable length.
pub const WAVETABLE_POWER: u32 = 10;
/// Number of entries in each wavetable.
pub const WAVETABLE_SIZE: usize = 1024;

/// Pressure above which an idle envelope opens its gate (Q15).
pub const PRESSURE_GATE_ON_Q15: i16 = 3932;
/// Pressure at or below which an active envelope closes its gate (Q15).
pub const PRESSURE_GATE_OFF_Q15: i16 = 2621;
/// Master volume before the controls are first read (Q15).
pub const DEFAULT_MASTER_VOLUME_Q15: i16 = 26214;
/// Length of the delay line; a power of two.
pub const MAX_DELAY_SAMPLES: usize = 16384;
/// Largest share of the echo fed back into the delay line (0.9 of full scale, Q15).
pub const DELAY_FEEDBACK_MAX_Q15: i16 = 29490;
/// Gain of the direct signal in the delay mix (Q15).
pub const DELAY_DRY_GAIN_Q15: i16 = 22938;
/// Gain of the delayed signal in the delay mix (Q15).
pub const DELAY_WET_GAIN_Q15: i16 = 9830;
/// Lengths of the four parallel comb filters of the reverb.
pub const REVERB_COMB_SIZE_0: usize = 1557;
pub const REVERB_COMB_SIZE_1: usize = 1617;
pub const REVERB_COMB_SIZE_2: usize = 1491;
pub const REVERB_COMB_SIZE_3: usize = 1422;
/// Lengths of the two series allpass filters of the reverb.
pub const REVERB_AP_SIZE_0: usize = 225;
pub const REVERB_AP_SIZE_1: usize = 341;
/// Feedback of the comb filters (Q15).
pub const REVERB_COMB_FEEDBACK_Q15: i16 = 26214;
/// Gain of the allpass filters (Q15).
pub const REVERB_AP_FEEDBACK_Q15: i16 = 16384;
/// Wet share of the reverb before the controls are first read (Q15).
pub const REVERB_DEFAULT_AMOUNT_Q15: i16 = 8192;

} // verus!
