//! Triangle low-frequency oscillator for filter modulation.
use vstd::prelude::*;

use crate::audio::oscillator::next_phase;
use crate::fixed::{lemma_q15_bounds, lemma_shr15, q15};

verus! {

/// Phase increment of the slowest rate (0.1 Hz at 44.1 kHz, as `0.1 / 44100 * u32::MAX`).
pub const LFO_MIN_RATE_PHASE_INC: u32 = 9739;

/// The triangle that the phase folds into: its upper 16 bits rise to 32767 and fall back,
/// scaled to [-32768, 32766].
pub open spec fn lfo_triangle(phase: int) -> int {
    let saw16 = phase / 0x1_0000;
    let folded = if saw16 < 32768 { saw16 } else { 65535 - saw16 };
    folded * 2 - 32768
}

/// The LFO output at a phase: the triangle scaled by the depth in Q15.
pub open spec fn lfo_output(phase: int, depth_q15: int) -> int {
    q15(lfo_triangle(phase), depth_q15)
}

/// Low-frequency triangle oscillator with a Q15 depth.
pub struct LFO {
    phase: u32,
    phase_inc: u32,
    depth_q15: i16,
}

impl LFO {
    /// Current phase.
    pub closed spec fn phase(&self) -> u32 {
        self.phase
    }

    /// Phase advance per sample.
    pub closed spec fn phase_inc(&self) -> u32 {
        self.phase_inc
    }

    /// Modulation depth in Q15.
    pub closed spec fn depth_q15(&self) -> i16 {
        self.depth_q15
    }

    /// The depth is never negative.
    pub closed spec fn wf(&self) -> bool {
        self.depth_q15 >= 0
    }

    /// The well-formedness, stated over the public view.
    pub proof fn lemma_wf(&self)
        requires
            self.wf(),
        ensures
            self.depth_q15() >= 0,
    {
    }

    /// An LFO at phase zero, at the slowest rate, with depth zero.
    pub fn new() -> (l: Self)
        ensures
            l.wf(),
            l.phase() == 0,
            l.phase_inc() == LFO_MIN_RATE_PHASE_INC,
            l.depth_q15() == 0,
    {
        let mut lfo = Self { phase: 0, phase_inc: 0, depth_q15: 0 };
        lfo.set_phase_increment(LFO_MIN_RATE_PHASE_INC);
        lfo
    }

    /// Sets the phase advance per sample (rate * (2^32 - 1) / sample rate).
    pub fn set_phase_increment(&mut self, phase_inc: u32)
        ensures
            final(self).phase_inc() == phase_inc,
            final(self).phase() == old(self).phase(),
            final(self).depth_q15() == old(self).depth_q15(),
            old(self).wf() ==> final(self).wf(),
    {
        self.phase_inc = phase_inc;
    }

    /// Sets the depth, a Q15 fraction of full swing.
    pub fn set_depth_q15(&mut self, depth_q15: i16)
        requires
            depth_q15 >= 0,
        ensures
            final(self).wf(),
            final(self).depth_q15() == depth_q15,
            final(self).phase() == old(self).phase(),
            final(self).phase_inc() == old(self).phase_inc(),
    {
        self.depth_q15 = depth_q15;
    }

    /// Returns the scaled triangle at the current phase, then advances the phase.
    pub fn process(&mut self) -> (out: i16)
        requires
            old(self).wf(),
        ensures
            final(self).wf(),
            out == lfo_output(old(self).phase() as int, old(self).depth_q15() as int),
            -old(self).depth_q15() <= out <= old(self).depth_q15(),
            final(self).phase() == next_phase(old(self).phase() as int, old(self).phase_inc() as int),
            final(self).phase() == (old(self).phase() + old(self).phase_inc()) % 0x1_0000_0000,
            final(self).phase_inc() == old(self).phase_inc(),
            final(self).depth_q15() == old(self).depth_q15(),
    {
        let phase = self.phase;
        assert(phase >> 16 == phase / 0x1_0000) by (bit_vector);
        assert(phase / 0x1_0000 < 0x1_0000);
        let saw16 = (phase >> 16) as i32;
        let folded = if saw16 < 32768 {
            saw16
        } else {
            65535 - saw16
        };
        let triangle = (folded * 2 - 32768) as i16;
        self.phase = self.phase.wrapping_add(self.phase_inc);
        proof {
            lemma_q15_bounds(triangle as int, self.depth_q15 as int);
        }
        let product = triangle as i32 * self.depth_q15 as i32;
        proof {
            lemma_shr15(product);
        }
        (product >> 15) as i16
    }
}

impl Default for LFO {
    fn default() -> (l: Self)
        ensures
            l.wf(),
            l.phase() == 0,
            l.phase_inc() == LFO_MIN_RATE_PHASE_INC,
            l.depth_q15() == 0,
    {
        Self::new()
    }
}

/// The folded triangle spans [-32768, 32766]: it is lowest at phase zero and highest where
/// the upper 16 bits of the phase reach 32767 or 32768.
pub proof fn lemma_lfo_triangle_range(phase: u32)
    ensures
        -32768 <= lfo_triangle(phase as int) <= 32766,
        lfo_triangle(0) == -32768,
        lfo_triangle(0x7fff_0000) == 32766,
        lfo_triangle(0x8000_0000) == 32766,
{
}

/// The LFO's shape in plain arithmetic: with `s` the upper 16 bits of the phase, the
/// triangle rises as `2 s - 32768` while `s < 32768` and falls as `98302 - 2 s` after, and
/// the output is the triangle times the depth over 32768, rounded toward minus infinity.
pub proof fn lemma_lfo_shape(phase: u32, depth: int)
    ensures
        ({
            let s = phase / 0x1_0000;
            &&& s < 32768 ==> lfo_triangle(phase as int) == 2 * s - 32768
            &&& s >= 32768 ==> lfo_triangle(phase as int) == 98302 - 2 * s
            &&& lfo_output(phase as int, depth) == (lfo_triangle(phase as int) * depth) / 32768
        }),
{
}

} // verus!
