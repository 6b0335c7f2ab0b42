//! The effect chain: delay, then reverb.
pub mod delay;
pub mod reverb;

use vstd::prelude::*;

use delay::{delay_run, lemma_delay_run_split, DelayEffect, DelayModel};
use reverb::{lemma_reverb_run_split, reverb_run, ReverbEffect, ReverbModel};

verus! {

/// Delay followed by reverb.
pub struct EffectEngine {
    delay: DelayEffect,
    reverb: ReverbEffect,
}

impl View for EffectEngine {
    type V = (DelayModel, ReverbModel);

    closed spec fn view(&self) -> (DelayModel, ReverbModel) {
        (self.delay@, self.reverb@)
    }
}

/// The state and the outputs after a block: the delay's outputs run through the reverb.
pub open spec fn effects_run(m: (DelayModel, ReverbModel), xs: Seq<i16>) -> (
    (DelayModel, ReverbModel),
    Seq<i16>,
) {
    let (d, delayed) = delay_run(m.0, xs);
    let (r, out) = reverb_run(m.1, delayed);
    ((d, r), out)
}

impl EffectEngine {
    /// Both effects are well formed.
    pub closed spec fn wf(&self) -> bool {
        self.delay.wf() && self.reverb.wf()
    }

    /// A fresh delay and a fresh reverb.
    pub fn new() -> (e: Self)
        ensures
            e.wf(),
            e@.0 == DelayEffect::new_model(),
            e@.1 == ReverbEffect::new_model(),
    {
        Self { delay: DelayEffect::new(), reverb: ReverbEffect::new() }
    }

    /// Sets the delay time in samples (clamped by the delay), the delay feedback (Q15, at
    /// most 0.9 of full scale) and the reverb amount (Q15).
    pub fn set_params(&mut self, delay_samples: usize, feedback_q15: i16, reverb_amount_q15: i16)
        requires
            old(self).wf(),
            0 <= feedback_q15 <= crate::config::DELAY_FEEDBACK_MAX_Q15,
            reverb_amount_q15 >= 0,
        ensures
            final(self).wf(),
            final(self)@.0 == (DelayModel {
                delay: DelayEffect::clamped_delay(delay_samples as int),
                feedback: feedback_q15 as int,
                ..old(self)@.0
            }),
            final(self)@.1 == (ReverbModel { amount: reverb_amount_q15 as int, ..old(self)@.1 }),
    {
        self.delay.set_delay_samples(delay_samples);
        self.delay.set_feedback_q15(feedback_q15);
        self.reverb.set_amount_q15(reverb_amount_q15);
    }

    /// Runs a block through the delay, then the reverb, then saturates it to i16.
    pub fn process_buffer(&mut self, buffer: &mut [i16])
        requires
            old(self).wf(),
        ensures
            final(self).wf(),
            (final(self)@, final(buffer)@) == effects_run(old(self)@, old(buffer)@),
    {
        self.delay.process_buffer(buffer);
        self.reverb.process_buffer(buffer);
        let ghost processed = buffer@;
        let n = buffer.len();
        let mut i: usize = 0;
        while i < n
            invariant
                buffer@ == processed,
                buffer@.len() == n,
                i <= n,
            decreases n - i,
        {
            let s = buffer[i];
            buffer[i] = if s < -32768 {
                -32768
            } else if s > 32767 {
                32767
            } else {
                s
            };
            assert(buffer@ =~= processed);
            i += 1;
        }
    }
}

impl Default for EffectEngine {
    fn default() -> (e: Self)
        ensures
            e.wf(),
            e@.0 == DelayEffect::new_model(),
            e@.1 == ReverbEffect::new_model(),
    {
        Self::new()
    }
}

/// Splitting a block changes nothing: running `a` then `b` through the chain gives the
/// state and the outputs of running `a + b`.
pub proof fn lemma_effects_run_split(m: (DelayModel, ReverbModel), a: Seq<i16>, b: Seq<i16>)
    ensures
        ({
            let (m1, ya) = effects_run(m, a);
            let (m2, yb) = effects_run(m1, b);
            effects_run(m, a + b) == (m2, ya + yb)
        }),
{
    lemma_delay_run_split(m.0, a, b);
    let (d1, da) = delay_run(m.0, a);
    let (d2, db) = delay_run(d1, b);
    let (r1, ra) = reverb_run(m.1, da);
    lemma_reverb_run_split(m.1, da, db);
}

} // verus!
