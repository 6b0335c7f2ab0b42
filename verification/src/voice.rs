//! The voice: two oscillators, the pressure envelope, the LFO and the output gain stage.
use vstd::prelude::*;

use crate::audio::envelope::{env_next_level, Envelope};
use crate::audio::lfo::{lfo_output, LFO};
use crate::audio::oscillator::{next_phase, table_index, Oscillator};
use crate::config::DEFAULT_MASTER_VOLUME_Q15;
use crate::fixed::{clamp16, clamp_to_i16, lemma_q15_bounds, mul_q15, q15};
use crate::wavetables::{waveform_table, Waveform, Wavetables};

verus! {

/// The state of a voice, as mathematical values.
pub struct VoiceModel {
    pub main_phase: int,
    pub main_inc: int,
    pub main_table: Seq<i16>,
    pub sub_phase: int,
    pub sub_inc: int,
    pub sub_table: Seq<i16>,
    pub env_idle: bool,
    pub env_level: int,
    pub attack_inc: int,
    pub release_inc: int,
    pub lfo_phase: int,
    pub lfo_inc: int,
    pub lfo_depth: int,
    pub sub_level: int,
    pub main_level: int,
    pub pressure_filter_amt: int,
    pub master_volume: int,
}

/// The envelope level after one sample at a pressure.
pub open spec fn voice_envelope(m: VoiceModel, pressure: int) -> int {
    env_next_level(m.env_idle, m.env_level, m.attack_inc, m.release_inc, pressure)
}

/// The two oscillators mixed by their levels and saturated.
pub open spec fn voice_osc_mix(m: VoiceModel) -> int {
    let main = m.main_table[table_index(m.main_phase)] as int;
    let sub = m.sub_table[table_index(m.sub_phase)] as int;
    clamp16(q15(main, m.main_level) + q15(sub, m.sub_level))
}

/// The filter modulation: the LFO plus the envelope scaled by the pressure amount,
/// saturated.
pub open spec fn voice_modulation(m: VoiceModel, pressure: int) -> int {
    clamp16(lfo_output(m.lfo_phase, m.lfo_depth) + q15(voice_envelope(m, pressure), m.pressure_filter_amt))
}

/// The output sample for a filtered signal and an envelope level: the signal scaled by the
/// envelope, then by the master volume, saturated.
pub open spec fn voice_output(m: VoiceModel, filtered: int, envelope: int) -> int {
    clamp16(q15(q15(filtered, envelope), m.master_volume))
}

/// The voice after one sample; `with_lfo` tells whether the LFO advanced.
pub open spec fn voice_next(m: VoiceModel, pressure: int, with_lfo: bool) -> VoiceModel {
    let e = voice_envelope(m, pressure);
    VoiceModel {
        main_phase: next_phase(m.main_phase, m.main_inc),
        sub_phase: next_phase(m.sub_phase, m.sub_inc),
        env_idle: e == 0,
        env_level: e,
        lfo_phase: if with_lfo { next_phase(m.lfo_phase, m.lfo_inc) } else { m.lfo_phase },
        ..m
    }
}

/// The state and the samples after rendering `n` unfiltered samples at a pressure.
pub open spec fn voice_run_unfiltered(m: VoiceModel, pressure: int, n: nat) -> (VoiceModel, Seq<i16>)
    decreases n,
{
    if n == 0 {
        (m, Seq::empty())
    } else {
        let (m1, ys) = voice_run_unfiltered(m, pressure, (n - 1) as nat);
        let y = voice_output(m1, voice_osc_mix(m1), voice_envelope(m1, pressure));
        (voice_next(m1, pressure, false), ys.push(y as i16))
    }
}

/// What one sample of the voice yields before the filter.
pub struct SourceFrame {
    /// The envelope level.
    pub envelope: i16,
    /// The mixed oscillators.
    pub osc_mix: i16,
    /// The filter modulation.
    pub modulation: i16,
}

/// The integer settings that the controls map to.
pub struct VoiceParams {
    pub main_phase_inc: u32,
    pub main_waveform: Waveform,
    pub sub_phase_inc: u32,
    pub sub_waveform: Waveform,
    pub sub_level_q15: i16,
    pub attack_inc: i32,
    pub release_inc: i32,
    pub lfo_phase_inc: u32,
    pub lfo_depth_q15: i16,
    pub pressure_filter_amt_q15: i16,
    pub master_volume_q15: i16,
}

/// Settings that a voice accepts.
pub open spec fn voice_params_valid(p: VoiceParams) -> bool {
    &&& 0 <= p.sub_level_q15
    &&& 0 <= p.attack_inc <= 32768
    &&& 0 <= p.release_inc <= 32768
    &&& 0 <= p.lfo_depth_q15
    &&& 0 <= p.master_volume_q15
}

/// A monophonic voice.
pub struct Voice {
    main_osc: Oscillator,
    sub_osc: Oscillator,
    envelope: Envelope,
    lfo: LFO,
    sub_level_q15: i16,
    main_level_q15: i16,
    pressure_filter_amt_q15: i16,
    master_volume_q15: i16,
}

impl View for Voice {
    type V = VoiceModel;

    closed spec fn view(&self) -> VoiceModel {
        VoiceModel {
            main_phase: self.main_osc.phase() as int,
            main_inc: self.main_osc.phase_inc() as int,
            main_table: self.main_osc.table(),
            sub_phase: self.sub_osc.phase() as int,
            sub_inc: self.sub_osc.phase_inc() as int,
            sub_table: self.sub_osc.table(),
            env_idle: self.envelope.idle(),
            env_level: self.envelope.level(),
            attack_inc: self.envelope.attack_inc(),
            release_inc: self.envelope.release_inc(),
            lfo_phase: self.lfo.phase() as int,
            lfo_inc: self.lfo.phase_inc() as int,
            lfo_depth: self.lfo.depth_q15() as int,
            sub_level: self.sub_level_q15 as int,
            main_level: self.main_level_q15 as int,
            pressure_filter_amt: self.pressure_filter_amt_q15 as int,
            master_volume: self.master_volume_q15 as int,
        }
    }
}

/// A model that a voice can be in.
pub open spec fn voice_model_wf(m: VoiceModel) -> bool {
    &&& 0 <= m.env_level <= 32767
    &&& (m.env_idle <==> m.env_level == 0)
    &&& 0 <= m.attack_inc <= 32768
    &&& 0 <= m.release_inc <= 32768
    &&& 0 <= m.lfo_depth <= 32767
    &&& 0 <= m.sub_level <= 32767
    &&& m.main_level == 32767 - m.sub_level
    &&& 0 <= m.master_volume <= 32767
    &&& m.main_table.len() == 1024
    &&& m.sub_table.len() == 1024
    &&& 0 <= m.main_phase < 0x1_0000_0000
    &&& 0 <= m.sub_phase < 0x1_0000_0000
    &&& 0 <= m.lfo_phase < 0x1_0000_0000
}

impl Voice {
    /// The components are well formed, the two levels add up to full scale and the master
    /// volume is not negative.
    pub closed spec fn wf(&self) -> bool {
        &&& self.envelope.wf()
        &&& self.lfo.wf()
        &&& 0 <= self.sub_level_q15
        &&& self.main_level_q15 == 32767 - self.sub_level_q15
        &&& 0 <= self.master_volume_q15
    }

    /// The well-formedness, stated over the model.
    pub proof fn lemma_wf(&self)
        requires
            self.wf(),
        ensures
            voice_model_wf(self@),
    {
        self.envelope.lemma_wf();
        self.lfo.lemma_wf();
        self.main_osc.lemma_table_len();
        self.sub_osc.lemma_table_len();
    }

    /// The state of a fresh voice: saw and sine oscillators at rest, a silent envelope,
    /// the slowest LFO without depth, only the main oscillator audible, the default volume.
    pub open spec fn new_model(wt: Wavetables) -> VoiceModel {
        VoiceModel {
            main_phase: 0,
            main_inc: 0,
            main_table: wt.saw@,
            sub_phase: 0,
            sub_inc: 0,
            sub_table: wt.sine@,
            env_idle: true,
            env_level: 0,
            attack_inc: crate::audio::envelope::ENVELOPE_DEFAULT_INC as int,
            release_inc: crate::audio::envelope::ENVELOPE_DEFAULT_INC as int,
            lfo_phase: 0,
            lfo_inc: crate::audio::lfo::LFO_MIN_RATE_PHASE_INC as int,
            lfo_depth: 0,
            sub_level: 0,
            main_level: 32767,
            pressure_filter_amt: 0,
            master_volume: DEFAULT_MASTER_VOLUME_Q15 as int,
        }
    }

    /// A silent voice on the saw and sine tables.
    pub fn new(wt: &'static Wavetables) -> (v: Self)
        ensures
            v.wf(),
            v@ == Self::new_model(*wt),
    {
        Self {
            main_osc: Oscillator::new(&wt.saw),
            sub_osc: Oscillator::new(&wt.sine),
            envelope: Envelope::new(),
            lfo: LFO::new(),
            sub_level_q15: 0,
            main_level_q15: 32767,
            pressure_filter_amt_q15: 0,
            master_volume_q15: DEFAULT_MASTER_VOLUME_Q15,
        }
    }

    /// Applies the settings that the controls map to: the oscillators' increments and
    /// tables, the sub level (the main level takes the rest of full scale), the envelope
    /// increments, the LFO, the pressure amount and the master volume.
    pub fn apply_params(&mut self, p: &VoiceParams, wt: &'static Wavetables)
        requires
            old(self).wf(),
            voice_params_valid(*p),
        ensures
            final(self).wf(),
            final(self)@ == (VoiceModel {
                main_inc: p.main_phase_inc as int,
                main_table: waveform_table(*wt, p.main_waveform),
                sub_inc: p.sub_phase_inc as int,
                sub_table: waveform_table(*wt, p.sub_waveform),
                sub_level: p.sub_level_q15 as int,
                main_level: 32767 - p.sub_level_q15,
                attack_inc: p.attack_inc as int,
                release_inc: p.release_inc as int,
                lfo_inc: p.lfo_phase_inc as int,
                lfo_depth: p.lfo_depth_q15 as int,
                pressure_filter_amt: p.pressure_filter_amt_q15 as int,
                master_volume: p.master_volume_q15 as int,
                ..old(self)@
            }),
    {
        self.main_osc.set_phase_increment(p.main_phase_inc);
        self.main_osc.set_wavetable(wt.get(&p.main_waveform));
        self.sub_osc.set_phase_increment(p.sub_phase_inc);
        self.sub_osc.set_wavetable(wt.get(&p.sub_waveform));
        self.sub_level_q15 = p.sub_level_q15;
        self.main_level_q15 = 32767 - self.sub_level_q15;
        self.envelope.set_attack_increment(p.attack_inc);
        self.envelope.set_release_increment(p.release_inc);
        self.lfo.set_phase_increment(p.lfo_phase_inc);
        self.lfo.set_depth_q15(p.lfo_depth_q15);
        self.pressure_filter_amt_q15 = p.pressure_filter_amt_q15;
        self.master_volume_q15 = p.master_volume_q15;
    }

    /// Advances the envelope and both oscillators by one sample and mixes the oscillators.
    fn advance_sources(&mut self, pressure_q15: i16) -> (r: (i16, i16))
        requires
            old(self).wf(),
        ensures
            final(self).wf(),
            r.0 == voice_envelope(old(self)@, pressure_q15 as int),
            r.1 == voice_osc_mix(old(self)@),
            final(self)@ == voice_next(old(self)@, pressure_q15 as int, false),
    {
        let env = self.envelope.process(pressure_q15);
        let main = self.main_osc.process() as i32;
        let sub = self.sub_osc.process() as i32;
        proof {
            lemma_q15_bounds(main as int, self.main_level_q15 as int);
            lemma_q15_bounds(sub as int, self.sub_level_q15 as int);
        }
        let main_scaled = mul_q15(main, self.main_level_q15 as i32);
        let sub_scaled = mul_q15(sub, self.sub_level_q15 as i32);
        let osc_mix = clamp_to_i16(main_scaled + sub_scaled);
        (env, osc_mix)
    }

    /// The part of one sample before the filter: advances the envelope, the oscillators
    /// and the LFO, and returns the envelope level, the oscillator mix and the filter
    /// modulation.
    pub fn next_sources(&mut self, pressure_q15: i16) -> (f: SourceFrame)
        requires
            old(self).wf(),
        ensures
            final(self).wf(),
            f.envelope == voice_envelope(old(self)@, pressure_q15 as int),
            f.osc_mix == voice_osc_mix(old(self)@),
            f.osc_mix == clamp16(
                (old(self)@.main_table[old(self)@.main_phase / 0x40_0000] * old(self)@.main_level)
                    / 32768 + (old(self)@.sub_table[old(self)@.sub_phase / 0x40_0000]
                    * old(self)@.sub_level) / 32768,
            ),
            f.modulation == voice_modulation(old(self)@, pressure_q15 as int),
            f.modulation == clamp16(
                lfo_output(old(self)@.lfo_phase, old(self)@.lfo_depth) + (f.envelope
                    * old(self)@.pressure_filter_amt) / 32768,
            ),
            final(self)@ == voice_next(old(self)@, pressure_q15 as int, true),
    {
        let (env, osc_mix) = self.advance_sources(pressure_q15);
        let lfo_mod = self.lfo.process() as i32;
        proof {
            lemma_q15_bounds(env as int, self.pressure_filter_amt_q15 as int);
        }
        let env_mod = mul_q15(env as i32, self.pressure_filter_amt_q15 as i32);
        let total_mod = clamp_to_i16(lfo_mod + env_mod);
        SourceFrame { envelope: env, osc_mix, modulation: total_mod }
    }

    /// The part of one sample after the filter: scales the filtered signal by the envelope
    /// level and the master volume, saturated.
    pub fn output_sample(&self, filtered: i16, envelope: i16) -> (y: i16)
        ensures
            y == voice_output(self@, filtered as int, envelope as int),
            y == clamp16((((filtered * envelope) / 32768) * self@.master_volume) / 32768),
    {
        proof {
            lemma_q15_bounds(filtered as int, envelope as int);
        }
        let enveloped = mul_q15(filtered as i32, envelope as i32);
        proof {
            lemma_q15_bounds(enveloped as int, self.master_volume_q15 as int);
        }
        let final_val = mul_q15(enveloped, self.master_volume_q15 as i32);
        clamp_to_i16(final_val)
    }

    /// Renders a block without the filter (the build without it), overwriting the buffer:
    /// each sample is the oscillator mix scaled by the envelope and the master volume.
    pub fn process_buffer_unfiltered(&mut self, buffer: &mut [i16], pressure_q15: i16)
        requires
            old(self).wf(),
        ensures
            final(self).wf(),
            (final(self)@, final(buffer)@) == voice_run_unfiltered(
                old(self)@,
                pressure_q15 as int,
                old(buffer)@.len(),
            ),
    {
        let ghost m0 = self@;
        let n = buffer.len();
        let mut i: usize = 0;
        while i < n
            invariant
                self.wf(),
                buffer@.len() == n,
                i <= n,
                (self@, buffer@.take(i as int)) == voice_run_unfiltered(m0, pressure_q15 as int, i as nat),
            decreases n - i,
        {
            let ghost before = buffer@;
            let ghost m1 = self@;
            let (env, osc_mix) = self.advance_sources(pressure_q15);
            proof {
                self.envelope.lemma_wf();
            }
            let y = {
                let enveloped = {
                    proof {
                        lemma_q15_bounds(osc_mix as int, env as int);
                    }
                    mul_q15(osc_mix as i32, env as i32)
                };
                proof {
                    lemma_q15_bounds(enveloped as int, self.master_volume_q15 as int);
                }
                clamp_to_i16(mul_q15(enveloped, self.master_volume_q15 as i32))
            };
            buffer[i] = y;
            proof {
                assert(buffer@.take(i + 1) =~= before.take(i as int).push(y));
            }
            i += 1;
        }
        proof {
            assert(buffer@.take(n as int) =~= buffer@);
        }
    }
}

/// Silence: an idle voice held at a pressure no higher than the on threshold stays
/// idle, and every sample it renders is zero, whatever the filter made of the mix.
pub proof fn lemma_voice_silent(m: VoiceModel, pressure: i16, filtered: int, n: nat)
    requires
        voice_model_wf(m),
        m.env_idle,
        pressure <= crate::config::PRESSURE_GATE_ON_Q15,
    ensures
        voice_envelope(m, pressure as int) == 0,
        voice_next(m, pressure as int, true).env_idle,
        voice_output(m, filtered, 0) == 0,
        ({
            let (m1, ys) = voice_run_unfiltered(m, pressure as int, n);
            &&& m1.env_idle
            &&& m1.env_level == 0
            &&& ys =~= Seq::new(n, |i: int| 0i16)
        }),
    decreases n,
{
    lemma_output_at_zero_envelope(m, filtered);
    if n > 0 {
        lemma_voice_silent(m, pressure, filtered, (n - 1) as nat);
        let (m1, ys) = voice_run_unfiltered(m, pressure as int, (n - 1) as nat);
        lemma_output_at_zero_envelope(m1, voice_osc_mix(m1));
        assert(voice_envelope(m1, pressure as int) == 0);
        let (m2, zs) = voice_run_unfiltered(m, pressure as int, n);
        assert(zs =~= ys.push(0i16));
    }
}

proof fn lemma_output_at_zero_envelope(m: VoiceModel, filtered: int)
    ensures
        voice_output(m, filtered, 0) == 0,
{
    assert(filtered * 0 == 0);
    assert(0 * m.master_volume == 0);
}

/// Splitting a block changes nothing: rendering `n1` then `n2` unfiltered samples gives
/// the state and the samples of rendering `n1 + n2`.
pub proof fn lemma_voice_run_split(m: VoiceModel, pressure: int, n1: nat, n2: nat)
    ensures
        ({
            let (m1, ya) = voice_run_unfiltered(m, pressure, n1);
            let (m2, yb) = voice_run_unfiltered(m1, pressure, n2);
            voice_run_unfiltered(m, pressure, n1 + n2) == (m2, ya + yb)
        }),
    decreases n2,
{
    let (m1, ya) = voice_run_unfiltered(m, pressure, n1);
    if n2 == 0 {
        assert(ya + Seq::<i16>::empty() =~= ya);
    } else {
        lemma_voice_run_split(m, pressure, n1, (n2 - 1) as nat);
        assert((n1 + n2 - 1) as nat == n1 + (n2 - 1) as nat);
        let (m2, yb) = voice_run_unfiltered(m1, pressure, (n2 - 1) as nat);
        let (m3, yc) = voice_run_unfiltered(m1, pressure, n2);
        assert((ya + yb).push(yc.last()) =~= ya + yc);
    }
}

/// The output never exceeds the master volume in magnitude: the envelope scales the
/// filtered sample down, and the volume scales the result.
pub proof fn lemma_output_within_volume(m: VoiceModel, filtered: i16, envelope: int)
    requires
        0 <= envelope <= 32767,
        0 <= m.master_volume <= 32767,
    ensures
        -m.master_volume <= voice_output(m, filtered as int, envelope) <= m.master_volume,
{
    lemma_q15_bounds(filtered as int, envelope);
    let e = q15(filtered as int, envelope);
    lemma_q15_bounds(e, m.master_volume);
}

/// The filter modulation follows the envelope, not the raw pressure: without LFO depth it
/// is the envelope level returned in the same sample scaled by the pressure amount, so it is
/// zero whenever that level is zero, in particular for an idle voice at a pressure no higher
/// than the on threshold, however large the amount.
pub proof fn lemma_modulation_follows_envelope(m: VoiceModel, pressure: i16)
    requires
        voice_model_wf(m),
        m.lfo_depth == 0,
        -32768 <= m.pressure_filter_amt <= 32767,
    ensures
        voice_modulation(m, pressure as int) == (voice_envelope(m, pressure as int)
            * m.pressure_filter_amt) / 32768,
        voice_envelope(m, pressure as int) == 0 ==> voice_modulation(m, pressure as int) == 0,
        m.env_idle && pressure <= crate::config::PRESSURE_GATE_ON_Q15 ==> voice_modulation(
            m,
            pressure as int,
        ) == 0,
{
    let e = voice_envelope(m, pressure as int);
    crate::audio::envelope::lemma_step_toward_target(
        m.env_idle,
        m.env_level,
        m.attack_inc,
        m.release_inc,
        pressure,
    );
    let t = crate::audio::lfo::lfo_triangle(m.lfo_phase);
    assert(t * 0 == 0);
    assert(lfo_output(m.lfo_phase, 0) == 0);
    lemma_q15_bounds(m.pressure_filter_amt, e);
    assert(m.pressure_filter_amt * e == e * m.pressure_filter_amt) by (nonlinear_arith);
    assert(0 * m.pressure_filter_amt == 0);
}

/// One unfiltered sample of the voice, after any number of samples, in plain arithmetic:
/// the two oscillators read their tables at the top ten bits of their phases and are mixed
/// by their levels over 32768 (saturated); the mix is scaled by the new envelope level and
/// then by the master volume, each over 32768 (saturated); both phases advance by their
/// increments modulo 2^32 and the envelope takes its new level.
pub proof fn lemma_voice_step(m: VoiceModel, pressure: int, n: nat)
    ensures
        ({
            let (m1, ys1) = voice_run_unfiltered(m, pressure, n);
            let (m2, ys2) = voice_run_unfiltered(m, pressure, n + 1);
            let main = m1.main_table[m1.main_phase / 0x40_0000] as int;
            let sub = m1.sub_table[m1.sub_phase / 0x40_0000] as int;
            let mix = clamp16((main * m1.main_level) / 32768 + (sub * m1.sub_level) / 32768);
            let e = voice_envelope(m1, pressure);
            &&& ys2 == ys1.push(clamp16((((mix * e) / 32768) * m1.master_volume) / 32768) as i16)
            &&& m2.main_phase == (m1.main_phase + m1.main_inc) % 0x1_0000_0000
            &&& m2.sub_phase == (m1.sub_phase + m1.sub_inc) % 0x1_0000_0000
            &&& m2.env_level == e
            &&& m2.env_idle == (e == 0)
            &&& m2.master_volume == m1.master_volume
        }),
{
    assert((n + 1) as nat - 1 == n);
}

} // verus!
