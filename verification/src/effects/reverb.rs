//! Schroeder reverb: four parallel feedback combs into two series allpasses.
use vstd::prelude::*;

use crate::buffer::SampleLine;
use crate::config::{
    REVERB_AP_FEEDBACK_Q15, REVERB_AP_SIZE_0, REVERB_AP_SIZE_1, REVERB_COMB_FEEDBACK_Q15,
    REVERB_COMB_SIZE_0, REVERB_COMB_SIZE_1, REVERB_COMB_SIZE_2, REVERB_COMB_SIZE_3,
    REVERB_DEFAULT_AMOUNT_Q15,
};
use crate::fixed::{clamp16, clamp_to_i16, lemma_q15_bounds, mul_q15, q15, saturating_add_i16};

verus! {

/// A circular line of samples and the position that is read and then overwritten.
pub struct RingModel {
    pub line: Seq<i16>,
    pub pos: int,
}

/// A ring of `size` zeros, at position zero.
pub open spec fn silent_ring(size: nat) -> RingModel {
    RingModel { line: Seq::new(size, |i: int| 0i16), pos: 0 }
}

/// A ring whose position lies on a non-empty line.
pub open spec fn ring_wf(r: RingModel) -> bool {
    0 <= r.pos < r.line.len()
}

/// The position after one sample: one further, back to zero at the end of the line.
pub open spec fn ring_advance(pos: int, size: int) -> int {
    if pos + 1 >= size {
        0
    } else {
        pos + 1
    }
}

/// The ring after storing `stored` at the current position and moving on.
pub open spec fn ring_store(r: RingModel, stored: int) -> RingModel {
    RingModel { line: r.line.update(r.pos, stored as i16), pos: ring_advance(r.pos, r.line.len() as int) }
}

/// What a comb filter stores for an input: the input plus the fed-back output, saturated.
pub open spec fn comb_stored(r: RingModel, x: int, feedback: int) -> int {
    clamp16(x + q15(r.line[r.pos] as int, feedback))
}

/// The comb filter after one sample.
pub open spec fn comb_next(r: RingModel, x: int, feedback: int) -> RingModel {
    ring_store(r, comb_stored(r, x, feedback))
}

/// The allpass filter's delayed sample scaled by its gain.
pub open spec fn allpass_scaled(r: RingModel, g: int) -> int {
    q15(r.line[r.pos] as int, g)
}

/// The allpass output: minus the input plus the delayed sample and its scaled copy.
pub open spec fn allpass_output(r: RingModel, x: int, g: int) -> int {
    clamp16(-x + r.line[r.pos] + allpass_scaled(r, g))
}

/// The allpass filter after one sample: it stores the input plus the scaled delayed sample.
pub open spec fn allpass_next(r: RingModel, x: int, g: int) -> RingModel {
    ring_store(r, clamp16(x + allpass_scaled(r, g)))
}

/// Feedback comb filter over a fixed-length line.
struct CombFilter {
    buffer: SampleLine,
    pos: usize,
    size: usize,
}

impl CombFilter {
    spec fn model(&self) -> RingModel {
        RingModel { line: self.buffer@, pos: self.pos as int }
    }

    spec fn wf(&self) -> bool {
        &&& ring_wf(self.model())
        &&& self.size == self.buffer@.len()
    }

    fn new(size: usize) -> (c: Self)
        requires
            1 <= size <= 0x3fff_ffff,
        ensures
            c.wf(),
            c.model() == silent_ring(size as nat),
    {
        Self { buffer: SampleLine::zeroed(size), pos: 0, size }
    }

    /// Returns the sample stored `size` samples ago and stores the input plus its echo.
    fn process(&mut self, input: i16, feedback_q15: i16) -> (output: i16)
        requires
            old(self).wf(),
            feedback_q15 >= 0,
        ensures
            final(self).wf(),
            output == old(self).model().line[old(self).model().pos],
            final(self).model() == comb_next(old(self).model(), input as int, feedback_q15 as int),
    {
        let output = self.buffer.read(self.pos);
        proof {
            lemma_q15_bounds(output as int, feedback_q15 as int);
        }
        let fb = mul_q15(output as i32, feedback_q15 as i32) as i16;
        self.buffer.write(self.pos, saturating_add_i16(input, fb));
        self.pos += 1;
        if self.pos >= self.size {
            self.pos = 0;
        }
        output
    }
}

/// Schroeder allpass filter over a fixed-length line.
struct AllpassFilter {
    buffer: SampleLine,
    pos: usize,
    size: usize,
}

impl AllpassFilter {
    spec fn model(&self) -> RingModel {
        RingModel { line: self.buffer@, pos: self.pos as int }
    }

    spec fn wf(&self) -> bool {
        &&& ring_wf(self.model())
        &&& self.size == self.buffer@.len()
    }

    fn new(size: usize) -> (a: Self)
        requires
            1 <= size <= 0x3fff_ffff,
        ensures
            a.wf(),
            a.model() == silent_ring(size as nat),
    {
        Self { buffer: SampleLine::zeroed(size), pos: 0, size }
    }

    fn process(&mut self, input: i16, g_q15: i16) -> (output: i16)
        requires
            old(self).wf(),
            g_q15 >= 0,
        ensures
            final(self).wf(),
            output == allpass_output(old(self).model(), input as int, g_q15 as int),
            final(self).model() == allpass_next(old(self).model(), input as int, g_q15 as int),
    {
        let delayed = self.buffer.read(self.pos);
        proof {
            lemma_q15_bounds(delayed as int, g_q15 as int);
        }
        let g_delayed = mul_q15(delayed as i32, g_q15 as i32) as i16;
        let output = clamp_to_i16(-(input as i32) + delayed as i32 + g_delayed as i32);
        self.buffer.write(self.pos, saturating_add_i16(input, g_delayed));
        self.pos += 1;
        if self.pos >= self.size {
            self.pos = 0;
        }
        output
    }
}

/// The state of the reverb, as mathematical values.
pub struct ReverbModel {
    pub comb0: RingModel,
    pub comb1: RingModel,
    pub comb2: RingModel,
    pub comb3: RingModel,
    pub allpass0: RingModel,
    pub allpass1: RingModel,
    /// Wet share of the output (Q15).
    pub amount: int,
}

/// The comb outputs summed and divided by four (rounded toward minus infinity).
pub open spec fn reverb_comb_average(m: ReverbModel) -> int {
    (m.comb0.line[m.comb0.pos] + m.comb1.line[m.comb1.pos] + m.comb2.line[m.comb2.pos]
        + m.comb3.line[m.comb3.pos]) / 4
}

/// The wet signal: the comb average through both allpasses.
pub open spec fn reverb_wet(m: ReverbModel) -> int {
    let g = REVERB_AP_FEEDBACK_Q15 as int;
    let w0 = reverb_comb_average(m);
    let w1 = allpass_output(m.allpass0, w0, g);
    allpass_output(m.allpass1, w1, g)
}

/// The output for a dry input: dry and wet weighted by the amount.
pub open spec fn reverb_output(m: ReverbModel, x: int) -> int {
    clamp16(q15(x, 32767 - m.amount) + q15(reverb_wet(m), m.amount))
}

/// The reverb after one sample.
pub open spec fn reverb_next(m: ReverbModel, x: int) -> ReverbModel {
    let g = REVERB_AP_FEEDBACK_Q15 as int;
    let fb = REVERB_COMB_FEEDBACK_Q15 as int;
    let w0 = reverb_comb_average(m);
    let w1 = allpass_output(m.allpass0, w0, g);
    ReverbModel {
        comb0: comb_next(m.comb0, x, fb),
        comb1: comb_next(m.comb1, x, fb),
        comb2: comb_next(m.comb2, x, fb),
        comb3: comb_next(m.comb3, x, fb),
        allpass0: allpass_next(m.allpass0, w0, g),
        allpass1: allpass_next(m.allpass1, w1, g),
        amount: m.amount,
    }
}

/// The state and the outputs after running a block of inputs through the reverb.
pub open spec fn reverb_run(m: ReverbModel, xs: Seq<i16>) -> (ReverbModel, Seq<i16>)
    decreases xs.len(),
{
    if xs.len() == 0 {
        (m, Seq::empty())
    } else {
        let (m1, ys) = reverb_run(m, xs.drop_last());
        (reverb_next(m1, xs.last() as int), ys.push(reverb_output(m1, xs.last() as int) as i16))
    }
}

/// A model that a reverb can be in.
pub open spec fn reverb_model_wf(m: ReverbModel) -> bool {
    &&& m.comb0.line.len() == REVERB_COMB_SIZE_0
    &&& m.comb1.line.len() == REVERB_COMB_SIZE_1
    &&& m.comb2.line.len() == REVERB_COMB_SIZE_2
    &&& m.comb3.line.len() == REVERB_COMB_SIZE_3
    &&& m.allpass0.line.len() == REVERB_AP_SIZE_0
    &&& m.allpass1.line.len() == REVERB_AP_SIZE_1
    &&& ring_wf(m.comb0)
    &&& ring_wf(m.comb1)
    &&& ring_wf(m.comb2)
    &&& ring_wf(m.comb3)
    &&& ring_wf(m.allpass0)
    &&& ring_wf(m.allpass1)
    &&& 0 <= m.amount <= 32767
}

/// Reverb with a dry/wet amount.
pub struct ReverbEffect {
    comb0: CombFilter,
    comb1: CombFilter,
    comb2: CombFilter,
    comb3: CombFilter,
    allpass0: AllpassFilter,
    allpass1: AllpassFilter,
    amount_q15: i16,
}

impl View for ReverbEffect {
    type V = ReverbModel;

    closed spec fn view(&self) -> ReverbModel {
        ReverbModel {
            comb0: self.comb0.model(),
            comb1: self.comb1.model(),
            comb2: self.comb2.model(),
            comb3: self.comb3.model(),
            allpass0: self.allpass0.model(),
            allpass1: self.allpass1.model(),
            amount: self.amount_q15 as int,
        }
    }
}

impl ReverbEffect {
    /// Every filter is well formed with its configured length, and the amount lies in
    /// [0, 32767].
    pub closed spec fn wf(&self) -> bool {
        &&& self.comb0.wf()
        &&& self.comb1.wf()
        &&& self.comb2.wf()
        &&& self.comb3.wf()
        &&& self.allpass0.wf()
        &&& self.allpass1.wf()
        &&& self.comb0.size == REVERB_COMB_SIZE_0
        &&& self.comb1.size == REVERB_COMB_SIZE_1
        &&& self.comb2.size == REVERB_COMB_SIZE_2
        &&& self.comb3.size == REVERB_COMB_SIZE_3
        &&& self.allpass0.size == REVERB_AP_SIZE_0
        &&& self.allpass1.size == REVERB_AP_SIZE_1
        &&& 0 <= self.amount_q15
    }

    /// The well-formedness, stated over the model.
    pub proof fn lemma_wf(&self)
        requires
            self.wf(),
        ensures
            reverb_model_wf(self@),
    {
    }

    /// The state of a fresh reverb: silent filters of the configured lengths and the default
    /// amount.
    pub open spec fn new_model() -> ReverbModel {
        ReverbModel {
            comb0: silent_ring(REVERB_COMB_SIZE_0 as nat),
            comb1: silent_ring(REVERB_COMB_SIZE_1 as nat),
            comb2: silent_ring(REVERB_COMB_SIZE_2 as nat),
            comb3: silent_ring(REVERB_COMB_SIZE_3 as nat),
            allpass0: silent_ring(REVERB_AP_SIZE_0 as nat),
            allpass1: silent_ring(REVERB_AP_SIZE_1 as nat),
            amount: REVERB_DEFAULT_AMOUNT_Q15 as int,
        }
    }

    /// Silent filters of the configured lengths and the default amount.
    pub fn new() -> (r: Self)
        ensures
            r.wf(),
            r@ == Self::new_model(),
            r@.amount == 8192,
            r@.comb0 == silent_ring(1557),
            r@.comb1 == silent_ring(1617),
            r@.comb2 == silent_ring(1491),
            r@.comb3 == silent_ring(1422),
            r@.allpass0 == silent_ring(225),
            r@.allpass1 == silent_ring(341),
    {
        Self {
            comb0: CombFilter::new(REVERB_COMB_SIZE_0),
            comb1: CombFilter::new(REVERB_COMB_SIZE_1),
            comb2: CombFilter::new(REVERB_COMB_SIZE_2),
            comb3: CombFilter::new(REVERB_COMB_SIZE_3),
            allpass0: AllpassFilter::new(REVERB_AP_SIZE_0),
            allpass1: AllpassFilter::new(REVERB_AP_SIZE_1),
            amount_q15: REVERB_DEFAULT_AMOUNT_Q15,
        }
    }

    /// Sets the wet share of the output (Q15).
    pub fn set_amount_q15(&mut self, amount_q15: i16)
        requires
            old(self).wf(),
            amount_q15 >= 0,
        ensures
            final(self).wf(),
            final(self)@ == (ReverbModel { amount: amount_q15 as int, ..old(self)@ }),
    {
        self.amount_q15 = amount_q15;
    }

    /// Runs one sample through the reverb.
    fn process_sample(&mut self, dry: i16) -> (y: i16)
        requires
            old(self).wf(),
        ensures
            final(self).wf(),
            final(self)@ == reverb_next(old(self)@, dry as int),
            y == reverb_output(old(self)@, dry as int),
    {
        let amt = self.amount_q15 as i32;
        let inv_amt = 32767 - amt;
        let mut wet_sum: i32 = 0;
        wet_sum += self.comb0.process(dry, REVERB_COMB_FEEDBACK_Q15) as i32;
        wet_sum += self.comb1.process(dry, REVERB_COMB_FEEDBACK_Q15) as i32;
        wet_sum += self.comb2.process(dry, REVERB_COMB_FEEDBACK_Q15) as i32;
        wet_sum += self.comb3.process(dry, REVERB_COMB_FEEDBACK_Q15) as i32;
        assert(wet_sum >> 2 == wet_sum / 4) by (bit_vector);
        let mut wet = (wet_sum >> 2) as i16;
        wet = self.allpass0.process(wet, REVERB_AP_FEEDBACK_Q15);
        wet = self.allpass1.process(wet, REVERB_AP_FEEDBACK_Q15);
        proof {
            lemma_q15_bounds(dry as int, inv_amt as int);
            lemma_q15_bounds(wet as int, amt as int);
        }
        let dry_part = mul_q15(dry as i32, inv_amt);
        let wet_part = mul_q15(wet as i32, amt);
        clamp_to_i16(dry_part + wet_part)
    }

    /// Runs a block of samples through the reverb, in place.
    pub fn process_buffer(&mut self, buffer: &mut [i16])
        requires
            old(self).wf(),
        ensures
            final(self).wf(),
            (final(self)@, final(buffer)@) == reverb_run(old(self)@, old(buffer)@),
    {
        let ghost m0 = self@;
        let ghost b0 = buffer@;
        let n = buffer.len();
        let mut i: usize = 0;
        while i < n
            invariant
                self.wf(),
                buffer@.len() == n,
                n == b0.len(),
                i <= n,
                (self@, buffer@.take(i as int)) == reverb_run(m0, b0.take(i as int)),
                buffer@.skip(i as int) == b0.skip(i as int),
            decreases n - i,
        {
            let x = buffer[i];
            assert(x == b0[i as int]) by {
                assert(buffer@.skip(i as int)[0] == b0.skip(i as int)[0]);
            }
            let ghost before = buffer@;
            let y = self.process_sample(x);
            buffer[i] = y;
            proof {
                assert(b0.take(i + 1).drop_last() =~= b0.take(i as int));
                assert(b0.take(i + 1).last() == x);
                assert(buffer@.take(i + 1) =~= before.take(i as int).push(y));
                assert(buffer@.skip(i + 1) =~= b0.skip(i + 1)) by {
                    assert forall|j: int| 0 <= j < n - (i + 1) implies #[trigger] buffer@.skip(
                        i + 1,
                    )[j] == b0.skip(i + 1)[j] by {
                        assert(buffer@.skip(i + 1)[j] == before[i + 1 + j]);
                        assert(before.skip(i as int)[j + 1] == b0.skip(i as int)[j + 1]);
                    }
                }
            }
            i += 1;
        }
        proof {
            assert(buffer@.take(n as int) =~= buffer@);
            assert(b0.take(n as int) =~= b0);
        }
    }
}

impl Default for ReverbEffect {
    fn default() -> (r: Self)
        ensures
            r.wf(),
            r@ == Self::new_model(),
    {
        Self::new()
    }
}

/// With the amount at zero the reverb passes the dry signal alone (scaled by 32767/32768),
/// while its filters keep running.
pub proof fn lemma_reverb_dry_at_zero(m: ReverbModel, x: int)
    requires
        m.amount == 0,
    ensures
        reverb_output(m, x) == clamp16(q15(x, 32767)),
{
    assert(reverb_wet(m) * 0 == 0);
}

/// The ring after storing each of `vals` in turn, one per sample.
pub open spec fn ring_after_stores(r: RingModel, vals: Seq<int>) -> RingModel
    decreases vals.len(),
{
    if vals.len() == 0 {
        r
    } else {
        ring_store(ring_after_stores(r, vals.drop_last()), vals.last())
    }
}

proof fn lemma_ring_stores_shape(r: RingModel, vals: Seq<int>)
    requires
        ring_wf(r),
    ensures
        ring_wf(ring_after_stores(r, vals)),
        ring_after_stores(r, vals).line.len() == r.line.len(),
        ring_after_stores(r, vals).pos == (r.pos + vals.len()) % (r.line.len() as int),
    decreases vals.len(),
{
    if vals.len() > 0 {
        lemma_ring_stores_shape(r, vals.drop_last());
        let prev = ring_after_stores(r, vals.drop_last());
        let n = r.line.len() as int;
        let x = r.pos + vals.len() - 1;
        assert(prev.pos == x % n);
        if n == 1 {
            assert((r.pos + vals.len()) % n == 0);
        } else {
            vstd::arithmetic::div_mod::lemma_small_mod(1, n as nat);
            vstd::arithmetic::div_mod::lemma_add_mod_noop(x, 1, n);
            assert((prev.pos + 1) % n == (x + 1) % n);
            if prev.pos + 1 >= n {
                vstd::arithmetic::div_mod::lemma_mod_self_0(n);
            } else {
                vstd::arithmetic::div_mod::lemma_small_mod((prev.pos + 1) as nat, n as nat);
            }
        }
    } else {
        vstd::arithmetic::div_mod::lemma_small_mod(r.pos as nat, r.line.len());
    }
}

proof fn lemma_ring_stores_prefix(r: RingModel, vals: Seq<int>, k: int)
    requires
        ring_wf(r),
        vals.len() == r.line.len(),
        1 <= k <= vals.len(),
    ensures
        ring_after_stores(r, vals.take(k)).line[r.pos] == vals[0] as i16,
    decreases k,
{
    let n = r.line.len() as int;
    if k == 1 {
        assert(vals.take(1).drop_last() =~= Seq::<int>::empty());
        assert(ring_after_stores(r, Seq::<int>::empty()) == r);
        assert(vals.take(1).last() == vals[0]);
    } else {
        lemma_ring_stores_prefix(r, vals, k - 1);
        assert(vals.take(k).drop_last() =~= vals.take(k - 1));
        let prev = ring_after_stores(r, vals.take(k - 1));
        lemma_ring_stores_shape(r, vals.take(k - 1));
        assert(prev.pos != r.pos) by {
            if r.pos + (k - 1) >= n {
                vstd::arithmetic::div_mod::lemma_mod_add_multiples_vanish(r.pos + (k - 1) - n, n);
                vstd::arithmetic::div_mod::lemma_small_mod((r.pos + (k - 1) - n) as nat, n as nat);
            } else {
                vstd::arithmetic::div_mod::lemma_small_mod((r.pos + (k - 1)) as nat, n as nat);
            }
        }
    }
}

/// The comb and allpass lines delay by their length: after as many samples as the line is
/// long, the position read next is back where the first of them was stored, and holds
/// what was stored there. Each comb or allpass step is such a store (`comb_next`,
/// `allpass_next`).
pub proof fn lemma_ring_delay(r: RingModel, vals: Seq<int>)
    requires
        ring_wf(r),
        vals.len() == r.line.len(),
    ensures
        ring_after_stores(r, vals).pos == r.pos,
        ring_after_stores(r, vals).line[r.pos] == vals[0] as i16,
{
    lemma_ring_stores_shape(r, vals);
    lemma_ring_stores_prefix(r, vals, vals.len() as int);
    assert(vals.take(vals.len() as int) =~= vals);
    vstd::arithmetic::div_mod::lemma_mod_add_multiples_vanish(r.pos, r.line.len() as int);
    vstd::arithmetic::div_mod::lemma_small_mod(r.pos as nat, r.line.len());
}

/// Splitting a block changes nothing: running `a` then `b` gives the state and the
/// outputs of running `a + b`.
pub proof fn lemma_reverb_run_split(m: ReverbModel, a: Seq<i16>, b: Seq<i16>)
    ensures
        ({
            let (m1, ya) = reverb_run(m, a);
            let (m2, yb) = reverb_run(m1, b);
            reverb_run(m, a + b) == (m2, ya + yb)
        }),
    decreases b.len(),
{
    let (m1, ya) = reverb_run(m, a);
    if b.len() == 0 {
        assert(a + b =~= a);
        assert(ya + Seq::<i16>::empty() =~= ya);
    } else {
        lemma_reverb_run_split(m, a, b.drop_last());
        assert((a + b).drop_last() =~= a + b.drop_last());
        assert((a + b).last() == b.last());
        let (m2, yb) = reverb_run(m1, b.drop_last());
        let (m3, yc) = reverb_run(m1, b);
        assert(yc == yb.push(yc.last()));
        assert((ya + yb).push(yc.last()) =~= ya + yc);
    }
}

proof fn lemma_ring_store_step(r: RingModel, v: int)
    requires
        ring_wf(r),
    ensures
        ring_wf(ring_store(r, v)),
        ring_store(r, v).line.len() == r.line.len(),
        ring_store(r, v).pos == (r.pos + 1) % (r.line.len() as int),
{
    let n = r.line.len() as int;
    if r.pos + 1 >= n {
        vstd::arithmetic::div_mod::lemma_mod_self_0(n);
    } else {
        vstd::arithmetic::div_mod::lemma_small_mod((r.pos + 1) as nat, n as nat);
    }
}

proof fn lemma_ring_advance_by(r: RingModel, k: int, p: int)
    requires
        ring_wf(r),
        p == (r.pos + k) % (r.line.len() as int),
        k >= 0,
    ensures
        (p + 1) % (r.line.len() as int) == (r.pos + k + 1) % (r.line.len() as int),
{
    let n = r.line.len() as int;
    vstd::arithmetic::div_mod::lemma_add_mod_noop(r.pos + k, 1, n);
    vstd::arithmetic::div_mod::lemma_add_mod_noop(p, 1, n);
    vstd::arithmetic::div_mod::lemma_mod_twice(r.pos + k, n);
}

/// Running a block keeps the reverb well formed (every line at its configured length), keeps
/// the amount, moves every line's position on by the block's length around that line, and
/// yields one output per input.
pub proof fn lemma_reverb_run_shape(m: ReverbModel, xs: Seq<i16>)
    requires
        reverb_model_wf(m),
    ensures
        ({
            let (m1, ys) = reverb_run(m, xs);
            let k = xs.len() as int;
            &&& reverb_model_wf(m1)
            &&& m1.amount == m.amount
            &&& ys.len() == xs.len()
            &&& m1.comb0.pos == (m.comb0.pos + k) % (REVERB_COMB_SIZE_0 as int)
            &&& m1.comb1.pos == (m.comb1.pos + k) % (REVERB_COMB_SIZE_1 as int)
            &&& m1.comb2.pos == (m.comb2.pos + k) % (REVERB_COMB_SIZE_2 as int)
            &&& m1.comb3.pos == (m.comb3.pos + k) % (REVERB_COMB_SIZE_3 as int)
            &&& m1.allpass0.pos == (m.allpass0.pos + k) % (REVERB_AP_SIZE_0 as int)
            &&& m1.allpass1.pos == (m.allpass1.pos + k) % (REVERB_AP_SIZE_1 as int)
        }),
    decreases xs.len(),
{
    let k = xs.len() as int;
    if xs.len() == 0 {
        vstd::arithmetic::div_mod::lemma_small_mod(m.comb0.pos as nat, REVERB_COMB_SIZE_0 as nat);
        vstd::arithmetic::div_mod::lemma_small_mod(m.comb1.pos as nat, REVERB_COMB_SIZE_1 as nat);
        vstd::arithmetic::div_mod::lemma_small_mod(m.comb2.pos as nat, REVERB_COMB_SIZE_2 as nat);
        vstd::arithmetic::div_mod::lemma_small_mod(m.comb3.pos as nat, REVERB_COMB_SIZE_3 as nat);
        vstd::arithmetic::div_mod::lemma_small_mod(m.allpass0.pos as nat, REVERB_AP_SIZE_0 as nat);
        vstd::arithmetic::div_mod::lemma_small_mod(m.allpass1.pos as nat, REVERB_AP_SIZE_1 as nat);
    } else {
        lemma_reverb_run_shape(m, xs.drop_last());
        let (m0, ys0) = reverb_run(m, xs.drop_last());
        let x = xs.last() as int;
        let g = REVERB_AP_FEEDBACK_Q15 as int;
        let fb = REVERB_COMB_FEEDBACK_Q15 as int;
        let w0 = reverb_comb_average(m0);
        let w1 = allpass_output(m0.allpass0, w0, g);
        lemma_ring_store_step(m0.comb0, comb_stored(m0.comb0, x, fb));
        lemma_ring_store_step(m0.comb1, comb_stored(m0.comb1, x, fb));
        lemma_ring_store_step(m0.comb2, comb_stored(m0.comb2, x, fb));
        lemma_ring_store_step(m0.comb3, comb_stored(m0.comb3, x, fb));
        lemma_ring_store_step(m0.allpass0, clamp16(w0 + allpass_scaled(m0.allpass0, g)));
        lemma_ring_store_step(m0.allpass1, clamp16(w1 + allpass_scaled(m0.allpass1, g)));
        lemma_ring_advance_by(m.comb0, k - 1, m0.comb0.pos);
        lemma_ring_advance_by(m.comb1, k - 1, m0.comb1.pos);
        lemma_ring_advance_by(m.comb2, k - 1, m0.comb2.pos);
        lemma_ring_advance_by(m.comb3, k - 1, m0.comb3.pos);
        lemma_ring_advance_by(m.allpass0, k - 1, m0.allpass0.pos);
        lemma_ring_advance_by(m.allpass1, k - 1, m0.allpass1.pos);
    }
}

/// One sample of the reverb, after any block `xs`, in plain arithmetic. Each comb returns
/// the sample at its position and stores there the input plus 26214/32768 of that output
/// (saturated); the allpasses take the average of the four comb outputs in series, each
/// returning minus its input plus its delayed sample plus half of it, and storing its input
/// plus half its delayed sample; the output mixes the input by 32767 minus the amount and
/// the wet signal by the amount. Positions move on by one; nothing else in the lines
/// changes.
pub proof fn lemma_reverb_step(m: ReverbModel, xs: Seq<i16>, x: i16)
    requires
        reverb_model_wf(m),
    ensures
        ({
            let (m1, ys1) = reverb_run(m, xs);
            let (m2, ys2) = reverb_run(m, xs.push(x));
            let o0 = m1.comb0.line[m1.comb0.pos] as int;
            let o1 = m1.comb1.line[m1.comb1.pos] as int;
            let o2 = m1.comb2.line[m1.comb2.pos] as int;
            let o3 = m1.comb3.line[m1.comb3.pos] as int;
            let w0 = (o0 + o1 + o2 + o3) / 4;
            let d0 = m1.allpass0.line[m1.allpass0.pos] as int;
            let w1 = clamp16(-w0 + d0 + (d0 * 16384) / 32768);
            let d1 = m1.allpass1.line[m1.allpass1.pos] as int;
            let w2 = clamp16(-w1 + d1 + (d1 * 16384) / 32768);
            &&& m2.comb0.line == m1.comb0.line.update(m1.comb0.pos, clamp16(x + (o0 * 26214) / 32768) as i16)
            &&& m2.comb1.line == m1.comb1.line.update(m1.comb1.pos, clamp16(x + (o1 * 26214) / 32768) as i16)
            &&& m2.comb2.line == m1.comb2.line.update(m1.comb2.pos, clamp16(x + (o2 * 26214) / 32768) as i16)
            &&& m2.comb3.line == m1.comb3.line.update(m1.comb3.pos, clamp16(x + (o3 * 26214) / 32768) as i16)
            &&& m2.allpass0.line == m1.allpass0.line.update(
                m1.allpass0.pos,
                clamp16(w0 + (d0 * 16384) / 32768) as i16,
            )
            &&& m2.allpass1.line == m1.allpass1.line.update(
                m1.allpass1.pos,
                clamp16(w1 + (d1 * 16384) / 32768) as i16,
            )
            &&& m2.comb0.pos == (m1.comb0.pos + 1) % 1557
            &&& m2.comb1.pos == (m1.comb1.pos + 1) % 1617
            &&& m2.comb2.pos == (m1.comb2.pos + 1) % 1491
            &&& m2.comb3.pos == (m1.comb3.pos + 1) % 1422
            &&& m2.allpass0.pos == (m1.allpass0.pos + 1) % 225
            &&& m2.allpass1.pos == (m1.allpass1.pos + 1) % 341
            &&& m2.amount == m.amount
            &&& ys2 == ys1.push(
                clamp16((x * (32767 - m.amount)) / 32768 + (w2 * m.amount) / 32768) as i16,
            )
        }),
{
    lemma_reverb_run_shape(m, xs);
    let (m1, ys1) = reverb_run(m, xs);
    assert(xs.push(x).drop_last() =~= xs);
    assert(xs.push(x).last() == x);
    let fb = REVERB_COMB_FEEDBACK_Q15 as int;
    let w0 = reverb_comb_average(m1);
    let w1 = allpass_output(m1.allpass0, w0, 16384);
    lemma_ring_store_step(m1.comb0, comb_stored(m1.comb0, x as int, fb));
    lemma_ring_store_step(m1.comb1, comb_stored(m1.comb1, x as int, fb));
    lemma_ring_store_step(m1.comb2, comb_stored(m1.comb2, x as int, fb));
    lemma_ring_store_step(m1.comb3, comb_stored(m1.comb3, x as int, fb));
    lemma_ring_store_step(m1.allpass0, clamp16(w0 + allpass_scaled(m1.allpass0, 16384)));
    lemma_ring_store_step(m1.allpass1, clamp16(w1 + allpass_scaled(m1.allpass1, 16384)));
}

/// The combs recirculate: with silence at the input, each comb stores back 26214/32768 of
/// what it outputs (rounded toward minus infinity), so an echo comes round again, decayed,
/// one line length later; it is not lost as long as the output is not 0 or 1.
pub proof fn lemma_comb_recirculates(m: ReverbModel, xs: Seq<i16>)
    requires
        reverb_model_wf(m),
    ensures
        ({
            let (m1, ys1) = reverb_run(m, xs);
            let (m2, ys2) = reverb_run(m, xs.push(0i16));
            let o = m1.comb0.line[m1.comb0.pos] as int;
            let v = m2.comb0.line[m1.comb0.pos] as int;
            &&& v == (o * 26214) / 32768
            &&& (o >= 2 ==> 0 < v < o)
            &&& (o < 0 ==> o <= v < 0)
        }),
{
    lemma_reverb_step(m, xs, 0i16);
    lemma_reverb_run_shape(m, xs);
    let (m1, ys1) = reverb_run(m, xs);
    let o = m1.comb0.line[m1.comb0.pos] as int;
    assert(-32768 <= o <= 32767);
    assert(-26214 <= (o * 26214) / 32768 <= 26213) by (nonlinear_arith)
        requires
            -32768 <= o <= 32767,
    ;
    if o >= 2 {
        assert(0 < (o * 26214) / 32768 < o) by (nonlinear_arith)
            requires
                2 <= o <= 32767,
        ;
    }
    if o < 0 {
        assert(o <= (o * 26214) / 32768 < 0) by (nonlinear_arith)
            requires
                -32768 <= o < 0,
        ;
    }
}

/// The first allpass feeds back: it stores its input (the comb average) plus half its
/// delayed sample, rounded toward minus infinity, so a sample it holds comes round again,
/// halved, one line length later.
pub proof fn lemma_allpass_recirculates(m: ReverbModel, xs: Seq<i16>, x: i16)
    requires
        reverb_model_wf(m),
    ensures
        ({
            let (m1, ys1) = reverb_run(m, xs);
            let (m2, ys2) = reverb_run(m, xs.push(x));
            let o0 = m1.comb0.line[m1.comb0.pos] as int;
            let o1 = m1.comb1.line[m1.comb1.pos] as int;
            let o2 = m1.comb2.line[m1.comb2.pos] as int;
            let o3 = m1.comb3.line[m1.comb3.pos] as int;
            let d = m1.allpass0.line[m1.allpass0.pos] as int;
            let v = m2.allpass0.line[m1.allpass0.pos] as int;
            &&& v == clamp16((o0 + o1 + o2 + o3) / 4 + d / 2)
            &&& ((o0 + o1 + o2 + o3) / 4 == 0 ==> v == d / 2)
        }),
{
    lemma_reverb_step(m, xs, x);
    lemma_reverb_run_shape(m, xs);
    let (m1, ys1) = reverb_run(m, xs);
    let d = m1.allpass0.line[m1.allpass0.pos] as int;
    lemma_half(d);
}

proof fn lemma_half(d: int)
    requires
        -32768 <= d <= 32767,
    ensures
        (d * 16384) / 32768 == d / 2,
        -16384 <= d / 2 <= 16383,
{
    assert((d * 16384) / 32768 == d / 2) by (nonlinear_arith);
}

/// A fresh reverb: every line silent at position zero, the combs 1557, 1617, 1491 and
/// 1422 samples long, the allpasses 225 and 341, the amount 8192 (a quarter wet).
pub proof fn lemma_fresh_reverb()
    ensures
        ({
            let m = ReverbEffect::new_model();
            &&& reverb_model_wf(m)
            &&& m.amount == 8192
            &&& m.comb0.line =~= Seq::new(1557, |i: int| 0i16) && m.comb0.pos == 0
            &&& m.comb1.line =~= Seq::new(1617, |i: int| 0i16) && m.comb1.pos == 0
            &&& m.comb2.line =~= Seq::new(1491, |i: int| 0i16) && m.comb2.pos == 0
            &&& m.comb3.line =~= Seq::new(1422, |i: int| 0i16) && m.comb3.pos == 0
            &&& m.allpass0.line =~= Seq::new(225, |i: int| 0i16) && m.allpass0.pos == 0
            &&& m.allpass1.line =~= Seq::new(341, |i: int| 0i16) && m.allpass1.pos == 0
        }),
{
}

} // verus!
