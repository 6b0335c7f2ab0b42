//! Feedback delay line with a fixed dry/wet mix.
use vstd::prelude::*;

use crate::buffer::SampleLine;
use crate::config::{DELAY_DRY_GAIN_Q15, DELAY_FEEDBACK_MAX_Q15, DELAY_WET_GAIN_Q15, MAX_DELAY_SAMPLES};
use crate::fixed::{clamp16, clamp_to_i16, lemma_q15_bounds, mul_q15, q15, saturating_add_i16};

verus! {

/// The state of a delay line, as mathematical values.
pub struct DelayModel {
    /// The ring of past samples, `MAX_DELAY_SAMPLES` long.
    pub line: Seq<i16>,
    /// Where the next sample is stored.
    pub write_pos: int,
    /// How many samples back the echo is read.
    pub delay: int,
    /// Share of the echo fed back into the line (Q15).
    pub feedback: int,
}

/// Where the echo is read: `delay` samples behind the write position, around the ring.
pub open spec fn delay_read_pos(write_pos: int, delay: int) -> int {
    (write_pos - delay) % (MAX_DELAY_SAMPLES as int)
}

/// The sample that comes out of the line for an input `x`.
pub open spec fn delay_output(m: DelayModel, x: int) -> int {
    let delayed = m.line[delay_read_pos(m.write_pos, m.delay)] as int;
    clamp16(q15(x, DELAY_DRY_GAIN_Q15 as int) + q15(delayed, DELAY_WET_GAIN_Q15 as int))
}

/// The sample stored into the line for an input `x`: the input plus the fed-back echo,
/// saturated.
pub open spec fn delay_stored(m: DelayModel, x: int) -> int {
    let delayed = m.line[delay_read_pos(m.write_pos, m.delay)] as int;
    clamp16(x + q15(delayed, m.feedback))
}

/// The state after one sample.
pub open spec fn delay_next(m: DelayModel, x: int) -> DelayModel {
    DelayModel {
        line: m.line.update(m.write_pos, delay_stored(m, x) as i16),
        write_pos: (m.write_pos + 1) % (MAX_DELAY_SAMPLES as int),
        ..m
    }
}

/// The state and the outputs after running a block of inputs through the line.
pub open spec fn delay_run(m: DelayModel, xs: Seq<i16>) -> (DelayModel, Seq<i16>)
    decreases xs.len(),
{
    if xs.len() == 0 {
        (m, Seq::empty())
    } else {
        let (m1, ys) = delay_run(m, xs.drop_last());
        (delay_next(m1, xs.last() as int), ys.push(delay_output(m1, xs.last() as int) as i16))
    }
}

/// A model that a delay line can be in.
pub open spec fn delay_model_wf(m: DelayModel) -> bool {
    &&& m.line.len() == MAX_DELAY_SAMPLES
    &&& 0 <= m.write_pos < MAX_DELAY_SAMPLES
    &&& 1 <= m.delay < MAX_DELAY_SAMPLES
    &&& 0 <= m.feedback <= DELAY_FEEDBACK_MAX_Q15
}

/// The ring position that the wrapped difference selects through the mask.
proof fn lemma_read_pos(w: usize, d: usize)
    requires
        w < 16384,
        1 <= d < 16384,
    ensures
        w.wrapping_sub(d) & 16383 == delay_read_pos(w as int, d as int),
        0 <= delay_read_pos(w as int, d as int) < 16384,
{
    let x = w.wrapping_sub(d);
    assert(x & 16383 == x % 16384) by (bit_vector);
    if w < d {
        let r = usize::MAX as int + 1;
        assert(r % 16384 == 0);
        assert(x == w - d + r);
        vstd::arithmetic::div_mod::lemma_mod_multiples_vanish(r / 16384, w - d + 16384, 16384);
        assert(16384 * (r / 16384) + (w - d + 16384) == x + 16384);
        vstd::arithmetic::div_mod::lemma_mod_add_multiples_vanish(x as int, 16384);
        vstd::arithmetic::div_mod::lemma_mod_add_multiples_vanish(w - d, 16384);
    }
}

/// Feedback delay: each output mixes the input with the sample stored `delay` samples ago.
pub struct DelayEffect {
    buffer: SampleLine,
    write_pos: usize,
    delay_samples: usize,
    feedback_q15: i16,
    mask: usize,
}

impl View for DelayEffect {
    type V = DelayModel;

    closed spec fn view(&self) -> DelayModel {
        DelayModel {
            line: self.buffer@,
            write_pos: self.write_pos as int,
            delay: self.delay_samples as int,
            feedback: self.feedback_q15 as int,
        }
    }
}

impl DelayEffect {
    /// The line has its full length, the positions lie on it, and the mask is its length
    /// minus one.
    pub closed spec fn wf(&self) -> bool {
        &&& delay_model_wf(self@)
        &&& self.mask == MAX_DELAY_SAMPLES - 1
    }

    /// The well-formedness, stated over the model.
    pub proof fn lemma_wf(&self)
        requires
            self.wf(),
        ensures
            delay_model_wf(self@),
    {
    }

    /// The state of a fresh line: silent, half its length long, without feedback.
    pub open spec fn new_model() -> DelayModel {
        DelayModel {
            line: Seq::new(MAX_DELAY_SAMPLES as nat, |i: int| 0i16),
            write_pos: 0,
            delay: MAX_DELAY_SAMPLES as int / 2,
            feedback: 0,
        }
    }

    /// A delay time clamped to [1, MAX_DELAY_SAMPLES - 1].
    pub open spec fn clamped_delay(samples: int) -> int {
        if samples < 1 {
            1
        } else if samples > MAX_DELAY_SAMPLES - 1 {
            MAX_DELAY_SAMPLES - 1
        } else {
            samples
        }
    }

    /// A silent line, half its length long, without feedback.
    pub fn new() -> (d: Self)
        ensures
            d.wf(),
            d@ == Self::new_model(),
            d@.feedback == 0,
            d@.delay == 8192,
            d@.write_pos == 0,
            d@.line == Seq::new(16384, |i: int| 0i16),
    {
        Self {
            buffer: SampleLine::zeroed(MAX_DELAY_SAMPLES),
            write_pos: 0,
            delay_samples: MAX_DELAY_SAMPLES / 2,
            feedback_q15: 0,
            mask: MAX_DELAY_SAMPLES - 1,
        }
    }

    /// Sets the delay in samples, clamped to [1, MAX_DELAY_SAMPLES - 1].
    pub fn set_delay_samples(&mut self, samples: usize)
        requires
            old(self).wf(),
        ensures
            final(self).wf(),
            final(self)@ == (DelayModel { delay: Self::clamped_delay(samples as int), ..old(self)@ }),
    {
        self.delay_samples = if samples < 1 {
            1
        } else if samples > MAX_DELAY_SAMPLES - 1 {
            MAX_DELAY_SAMPLES - 1
        } else {
            samples
        };
    }

    /// Sets the share of the echo fed back (Q15), at most 0.9 of full scale.
    pub fn set_feedback_q15(&mut self, feedback_q15: i16)
        requires
            old(self).wf(),
            0 <= feedback_q15 <= DELAY_FEEDBACK_MAX_Q15,
        ensures
            final(self).wf(),
            final(self)@ == (DelayModel { feedback: feedback_q15 as int, ..old(self)@ }),
    {
        self.feedback_q15 = feedback_q15;
    }

    /// Runs one sample through the line.
    fn process_sample(&mut self, x: i16) -> (y: i16)
        requires
            old(self).wf(),
        ensures
            final(self).wf(),
            final(self)@ == delay_next(old(self)@, x as int),
            y == delay_output(old(self)@, x as int),
    {
        let mask = self.mask;
        proof {
            lemma_read_pos(self.write_pos, self.delay_samples);
        }
        let read_pos = (self.write_pos.wrapping_sub(self.delay_samples)) & mask;
        let delayed = self.buffer.read(read_pos);
        proof {
            lemma_q15_bounds(delayed as int, self.feedback_q15 as int);
        }
        let fb = mul_q15(delayed as i32, self.feedback_q15 as i32);
        let stored = saturating_add_i16(x, fb as i16);
        self.buffer.write(self.write_pos, stored);
        let dry = mul_q15(x as i32, DELAY_DRY_GAIN_Q15 as i32);
        let wet = mul_q15(delayed as i32, DELAY_WET_GAIN_Q15 as i32);
        proof {
            lemma_q15_bounds(x as int, DELAY_DRY_GAIN_Q15 as int);
            lemma_q15_bounds(delayed as int, DELAY_WET_GAIN_Q15 as int);
        }
        let y = clamp_to_i16(dry + wet);
        let next = self.write_pos + 1;
        assert(next & 16383 == next % 16384) by (bit_vector);
        self.write_pos = next & mask;
        y
    }

    /// Runs a block of samples through the line, in place.
    pub fn process_buffer(&mut self, buffer: &mut [i16])
        requires
            old(self).wf(),
        ensures
            final(self).wf(),
            (final(self)@, final(buffer)@) == delay_run(old(self)@, old(buffer)@),
    {
        let ghost m0 = self@;
        let ghost b0 = buffer@;
        let n = buffer.len();
        let mut i: usize = 0;
        while i < n
            invariant
                self.wf(),
                buffer@.len() == n,
                n == b0.len(),
                i <= n,
                (self@, buffer@.take(i as int)) == delay_run(m0, b0.take(i as int)),
                buffer@.skip(i as int) == b0.skip(i as int),
            decreases n - i,
        {
            let x = buffer[i];
            assert(x == b0[i as int]) by {
                assert(buffer@.skip(i as int)[0] == b0.skip(i as int)[0]);
            }
            let ghost before = buffer@;
            let y = self.process_sample(x);
            buffer[i] = y;
            proof {
                assert(b0.take(i + 1).drop_last() =~= b0.take(i as int));
                assert(b0.take(i + 1).last() == x);
                assert(buffer@.take(i + 1) =~= before.take(i as int).push(y));
                assert(buffer@.skip(i + 1) =~= b0.skip(i + 1)) by {
                    assert forall|j: int| 0 <= j < n - (i + 1) implies #[trigger] buffer@.skip(i + 1)[j]
                        == b0.skip(i + 1)[j] by {
                        assert(buffer@.skip(i + 1)[j] == before[i + 1 + j]);
                        assert(before.skip(i as int)[j + 1] == b0.skip(i as int)[j + 1]);
                    }
                }
            }
            i += 1;
        }
        proof {
            assert(buffer@.take(n as int) =~= buffer@);
            assert(b0.take(n as int) =~= b0);
        }
    }
}

impl Default for DelayEffect {
    fn default() -> (d: Self)
        ensures
            d.wf(),
            d@ == Self::new_model(),
    {
        Self::new()
    }
}

/// Running a block keeps the line well formed (its length, the delay in range, the
/// feedback at most 0.9), moves the write position on by the block's length around the
/// line, keeps the delay and the feedback, and yields one output per input.
pub proof fn lemma_delay_run_shape(m: DelayModel, xs: Seq<i16>)
    requires
        delay_model_wf(m),
    ensures
        delay_model_wf(delay_run(m, xs).0),
        delay_run(m, xs).0.write_pos == (m.write_pos + xs.len()) % (MAX_DELAY_SAMPLES as int),
        delay_run(m, xs).0.delay == m.delay,
        delay_run(m, xs).0.feedback == m.feedback,
        delay_run(m, xs).1.len() == xs.len(),
    decreases xs.len(),
{
    if xs.len() > 0 {
        lemma_delay_run_shape(m, xs.drop_last());
    }
}

/// The echo: after `delay` samples, the line is read where the first of them was written,
/// and that position still holds what was stored then.
pub proof fn lemma_delay_echo(m: DelayModel, xs: Seq<i16>)
    requires
        delay_model_wf(m),
        xs.len() == m.delay,
    ensures
        ({
            let md = delay_run(m, xs).0;
            &&& delay_read_pos(md.write_pos, md.delay) == m.write_pos
            &&& md.line[m.write_pos] == delay_stored(m, xs[0] as int)
        }),
{
    let n = MAX_DELAY_SAMPLES as int;
    let d = m.delay;
    assert forall|k: int| 1 <= k <= d implies #[trigger] delay_run(m, xs.take(k)).0.line[m.write_pos]
        == delay_stored(m, xs[0] as int) by {
        lemma_delay_prefix(m, xs, k);
    }
    assert(xs.take(d) =~= xs);
    lemma_delay_run_shape(m, xs);
    let md = delay_run(m, xs).0;
    assert(md.write_pos == (m.write_pos + d) % n);
    vstd::arithmetic::div_mod::lemma_add_mod_noop(m.write_pos + d, -d, n);
    assert((-d) % n == n - d);
}

proof fn lemma_delay_prefix(m: DelayModel, xs: Seq<i16>, k: int)
    requires
        delay_model_wf(m),
        xs.len() == m.delay,
        1 <= k <= m.delay,
    ensures
        delay_run(m, xs.take(k)).0.line[m.write_pos] == delay_stored(m, xs[0] as int),
    decreases k,
{
    let n = MAX_DELAY_SAMPLES as int;
    if k == 1 {
        assert(xs.take(1).drop_last() =~= Seq::<i16>::empty());
        assert(delay_run(m, Seq::<i16>::empty()).0 == m);
    } else {
        lemma_delay_prefix(m, xs, k - 1);
        assert(xs.take(k).drop_last() =~= xs.take(k - 1));
        let prev = delay_run(m, xs.take(k - 1)).0;
        lemma_delay_run_shape(m, xs.take(k - 1));
        assert(prev.write_pos == (m.write_pos + (k - 1)) % n);
        assert(prev.write_pos != m.write_pos) by {
            if m.write_pos + (k - 1) >= n {
                assert(prev.write_pos == m.write_pos + (k - 1) - n);
            } else {
                assert(prev.write_pos == m.write_pos + (k - 1));
            }
        }
    }
}

/// The echo decays: with the feedback at most 0.9 of full scale, the part of a delayed
/// sample fed back into the line is never larger in magnitude than the sample, and at most
/// nine tenths of it plus one.
pub proof fn lemma_feedback_decays(delayed: int, feedback: int)
    requires
        -32768 <= delayed <= 32767,
        0 <= feedback <= DELAY_FEEDBACK_MAX_Q15,
    ensures
        ({
            let f = q15(delayed, feedback);
            let a = if delayed >= 0 { delayed } else { -delayed };
            let b = if f >= 0 { f } else { -f };
            &&& b <= a
            &&& 10 * b <= 9 * a + 10
        }),
{
    let p = delayed * feedback;
    if delayed >= 0 {
        assert(0 <= p <= delayed * 29490) by (nonlinear_arith)
            requires
                delayed >= 0,
                0 <= feedback <= 29490,
                p == delayed * feedback,
        ;
        assert(0 <= p / 32768 && 10 * (p / 32768) <= 9 * delayed + 10) by (nonlinear_arith)
            requires
                0 <= p <= delayed * 29490,
                delayed >= 0,
        ;
    } else {
        assert(delayed * 29490 <= p <= 0) by (nonlinear_arith)
            requires
                delayed < 0,
                0 <= feedback <= 29490,
                p == delayed * feedback,
        ;
        assert(p / 32768 <= 0 && delayed <= p / 32768 && 10 * (-(p / 32768)) <= 9 * (-delayed) + 10)
            by (nonlinear_arith)
            requires
                delayed * 29490 <= p <= 0,
                delayed < 0,
        ;
    }
}

/// Splitting a block changes nothing: running `a` then `b` gives the state and the
/// outputs of running `a + b`.
pub proof fn lemma_delay_run_split(m: DelayModel, a: Seq<i16>, b: Seq<i16>)
    ensures
        ({
            let (m1, ya) = delay_run(m, a);
            let (m2, yb) = delay_run(m1, b);
            delay_run(m, a + b) == (m2, ya + yb)
        }),
    decreases b.len(),
{
    let (m1, ya) = delay_run(m, a);
    if b.len() == 0 {
        assert(a + b =~= a);
        assert(ya + Seq::<i16>::empty() =~= ya);
    } else {
        lemma_delay_run_split(m, a, b.drop_last());
        assert((a + b).drop_last() =~= a + b.drop_last());
        assert((a + b).last() == b.last());
        let (m2, yb) = delay_run(m1, b.drop_last());
        let (m3, yc) = delay_run(m1, b);
        assert(yc == yb.push(yc.last()));
        assert((ya + yb).push(yc.last()) =~= ya + yc);
    }
}

/// A fresh line: silent, 16384 samples long, writing at the start, delaying by 8192
/// samples, with no feedback.
pub proof fn lemma_fresh_delay()
    ensures
        DelayEffect::new_model().feedback == 0,
        DelayEffect::new_model().delay == 8192,
        DelayEffect::new_model().write_pos == 0,
        DelayEffect::new_model().line =~= Seq::new(16384, |i: int| 0i16),
        delay_model_wf(DelayEffect::new_model()),
{
}

/// Without feedback the line stores each input as it is, so an impulse echoes exactly once:
/// whatever the line holds, the sample stored is the input, and the output mixes 22938/32768
/// of the input with 9830/32768 of the delayed sample.
pub proof fn lemma_no_feedback_echoes_once(m: DelayModel, xs: Seq<i16>, x: i16)
    requires
        delay_model_wf(m),
        m.feedback == 0,
    ensures
        ({
            let (m1, ys1) = delay_run(m, xs);
            let (m2, ys2) = delay_run(m, xs.push(x));
            let r = (m1.write_pos - m1.delay) % 16384;
            &&& m2.line == m1.line.update(m1.write_pos, x)
            &&& m2.write_pos == (m1.write_pos + 1) % 16384
            &&& m2.feedback == 0
            &&& ys2 == ys1.push(
                clamp16((x * 22938) / 32768 + (m1.line[r] * 9830) / 32768) as i16,
            )
        }),
{
    lemma_delay_run_shape(m, xs);
    let (m1, ys1) = delay_run(m, xs);
    assert(xs.push(x).drop_last() =~= xs);
    assert(xs.push(x).last() == x);
    let d = m1.line[delay_read_pos(m1.write_pos, m1.delay)] as int;
    assert(d * 0 == 0);
    assert(delay_stored(m1, x as int) == x);
}

/// One sample of the line, after any block `xs`, in plain arithmetic: it reads the sample
/// `delay` positions behind the write position (around the line), stores at the write
/// position the input plus that sample times the feedback over 32768 (saturated), moves the
/// write position on by one, and outputs 22938/32768 of the input plus 9830/32768 of the
/// delayed sample (saturated).
pub proof fn lemma_delay_step(m: DelayModel, xs: Seq<i16>, x: i16)
    requires
        delay_model_wf(m),
    ensures
        ({
            let (m1, ys1) = delay_run(m, xs);
            let (m2, ys2) = delay_run(m, xs.push(x));
            let r = (m1.write_pos - m1.delay) % 16384;
            let d = m1.line[r] as int;
            &&& m2.line == m1.line.update(m1.write_pos, clamp16(x + (d * m.feedback) / 32768) as i16)
            &&& m2.write_pos == (m1.write_pos + 1) % 16384
            &&& m2.delay == m.delay
            &&& m2.feedback == m.feedback
            &&& ys2 == ys1.push(clamp16((x * 22938) / 32768 + (d * 9830) / 32768) as i16)
        }),
{
    lemma_delay_run_shape(m, xs);
    assert(xs.push(x).drop_last() =~= xs);
    assert(xs.push(x).last() == x);
}

} // verus!
