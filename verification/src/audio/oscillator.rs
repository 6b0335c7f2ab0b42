//! Phase-accumulator wavetable oscillator.
use vstd::prelude::*;

use crate::config::{WAVETABLE_POWER, WAVETABLE_SIZE};

verus! {

/// One turn of a 32-bit phase accumulator.
pub open spec fn phase_modulus() -> int {
    0x1_0000_0000
}

/// The phase after one sample: the increment added modulo 2^32.
pub open spec fn next_phase(phase: int, inc: int) -> int {
    (phase + inc) % phase_modulus()
}

/// The phase after `k` samples at a fixed increment.
pub open spec fn phase_after(phase: int, inc: int, k: nat) -> int
    decreases k,
{
    if k == 0 {
        phase
    } else {
        next_phase(phase_after(phase, inc, (k - 1) as nat), inc)
    }
}

/// The table entry that a phase selects: its ten highest bits.
pub open spec fn table_index(phase: int) -> int {
    phase / 0x40_0000
}

/// After `k` samples at a fixed increment the phase has advanced by `k` increments,
/// modulo 2^32.
pub proof fn lemma_phase_after(phase: int, inc: int, k: nat)
    ensures
        phase_after(phase, inc, k) == if k == 0 {
            phase
        } else {
            (phase + k * inc) % phase_modulus()
        },
    decreases k,
{
    if k > 1 {
        lemma_phase_after(phase, inc, (k - 1) as nat);
        vstd::arithmetic::div_mod::lemma_add_mod_noop_right(inc, phase + (k - 1) * inc, phase_modulus());
        assert(phase + (k - 1) * inc + inc == phase + k * inc) by (nonlinear_arith);
        let y = phase + (k - 1) * inc;
        assert(phase_after(phase, inc, (k - 1) as nat) == y % phase_modulus());
        assert(phase_after(phase, inc, k) == (y % phase_modulus() + inc) % phase_modulus());
        assert((inc + y % phase_modulus()) % phase_modulus() == (inc + y) % phase_modulus());
        assert(inc + y == phase + k * inc);
    } else if k == 1 {
        assert(phase + 1 * inc == phase + inc);
        assert(phase_after(phase, inc, 0) == phase);
    }
}

/// The top ten bits of a phase index the table.
pub proof fn lemma_table_index(phase: u32)
    ensures
        phase >> 22 == table_index(phase as int),
        0 <= table_index(phase as int) < 1024,
{
    assert(phase >> 22 == phase / 0x40_0000) by (bit_vector);
}

/// Wavetable oscillator: a 32-bit phase accumulator whose ten highest bits index the table.
pub struct Oscillator {
    phase: u32,
    phase_inc: u32,
    wavetable: &'static [i16; WAVETABLE_SIZE],
}

impl Oscillator {
    /// Current phase.
    pub closed spec fn phase(&self) -> u32 {
        self.phase
    }

    /// Phase advance per sample.
    pub closed spec fn phase_inc(&self) -> u32 {
        self.phase_inc
    }

    /// The table being played.
    pub closed spec fn table(&self) -> Seq<i16> {
        self.wavetable@
    }

    /// The table has the full wavetable length.
    pub proof fn lemma_table_len(&self)
        ensures
            self.table().len() == WAVETABLE_SIZE,
            0 <= self.phase(),
    {
    }

    /// A silent-phase oscillator on the given table, at increment zero.
    pub fn new(wavetable: &'static [i16; WAVETABLE_SIZE]) -> (o: Self)
        ensures
            o.phase() == 0,
            o.phase_inc() == 0,
            o.table() == wavetable@,
    {
        Self { phase: 0, phase_inc: 0, wavetable }
    }

    /// Sets the phase advance per sample (frequency * 2^32 / sample rate).
    pub fn set_phase_increment(&mut self, phase_inc: u32)
        ensures
            final(self).phase_inc() == phase_inc,
            final(self).phase() == old(self).phase(),
            final(self).table() == old(self).table(),
    {
        self.phase_inc = phase_inc;
    }

    /// Switches to another table, keeping the phase.
    pub fn set_wavetable(&mut self, wavetable: &'static [i16; WAVETABLE_SIZE])
        ensures
            final(self).table() == wavetable@,
            final(self).phase() == old(self).phase(),
            final(self).phase_inc() == old(self).phase_inc(),
    {
        self.wavetable = wavetable;
    }

    /// Restarts the cycle at phase zero.
    pub fn reset(&mut self)
        ensures
            final(self).phase() == 0,
            final(self).phase_inc() == old(self).phase_inc(),
            final(self).table() == old(self).table(),
    {
        self.phase = 0;
    }

    /// Returns the table entry at the current phase, then advances the phase.
    pub fn process(&mut self) -> (sample: i16)
        ensures
            sample == old(self).table()[table_index(old(self).phase() as int)],
            sample == old(self).table()[old(self).phase() as int / 0x40_0000],
            final(self).phase() == next_phase(old(self).phase() as int, old(self).phase_inc() as int),
            final(self).phase() == (old(self).phase() + old(self).phase_inc()) % 0x1_0000_0000,
            final(self).phase_inc() == old(self).phase_inc(),
            final(self).table() == old(self).table(),
    {
        proof {
            lemma_table_index(self.phase);
        }
        let index = (self.phase >> (32 - WAVETABLE_POWER)) as usize;
        let sample = self.wavetable[index];
        self.phase = self.phase.wrapping_add(self.phase_inc);
        sample
    }
}

} // verus!
