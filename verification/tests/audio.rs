use trautonium::audio::envelope::{EnvState, ENVELOPE_DEFAULT_INC};
use trautonium::audio::lfo::LFO_MIN_RATE_PHASE_INC;
use trautonium::audio::{Envelope, Oscillator, LFO};
use trautonium::wavetables::Wavetables;

fn tables() -> &'static Wavetables {
    Box::leak(Box::new(Wavetables::new()))
}

#[test]
fn oscillator_reads_top_ten_bits() {
    let t = tables();
    let mut osc = Oscillator::new(&t.saw);
    assert_eq!(osc.process(), -32768);
    assert_eq!(osc.process(), -32768);
    osc.set_phase_increment(1 << 22);
    assert_eq!(osc.process(), -32768);
    assert_eq!(osc.process(), -32704);
    assert_eq!(osc.process(), t.saw[2]);
    osc.set_phase_increment((1 << 22) + (1 << 21));
    assert_eq!(osc.process(), t.saw[3]);
    assert_eq!(osc.process(), t.saw[4]);
    assert_eq!(osc.process(), t.saw[6]);
}

#[test]
fn oscillator_phase_wraps() {
    let t = tables();
    let mut osc = Oscillator::new(&t.triangle);
    osc.set_phase_increment(0xC000_0000);
    assert_eq!(osc.process(), t.triangle[0]);
    assert_eq!(osc.process(), t.triangle[768]);
    assert_eq!(osc.process(), t.triangle[512]);
    assert_eq!(osc.process(), t.triangle[256]);
    assert_eq!(osc.process(), t.triangle[0]);
}

#[test]
fn oscillator_reset_and_table_switch() {
    let t = tables();
    let mut osc = Oscillator::new(&t.saw);
    osc.set_phase_increment(1 << 30);
    osc.process();
    osc.process();
    osc.set_wavetable(&t.sine);
    assert_eq!(osc.process(), t.sine[512]);
    osc.reset();
    assert_eq!(osc.process(), t.sine[0]);
    assert_eq!(osc.process(), 26754);
}

#[test]
fn lfo_starts_slow_and_silent() {
    let mut lfo = LFO::new();
    assert_eq!(LFO_MIN_RATE_PHASE_INC, 9739);
    for _ in 0..10 {
        assert_eq!(lfo.process(), 0);
    }
    let mut d = LFO::default();
    assert_eq!(d.process(), 0);
}

#[test]
fn lfo_triangle_scaled_by_depth() {
    let mut lfo = LFO::new();
    lfo.set_depth_q15(32767);
    assert_eq!(lfo.process(), -32767);
    assert_eq!(lfo.process(), -32767);
    let mut lfo = LFO::new();
    lfo.set_phase_increment(0x4000_0000);
    lfo.set_depth_q15(16384);
    assert_eq!(lfo.process(), -16384);
    assert_eq!(lfo.process(), 0);
    lfo.set_depth_q15(32767);
    assert_eq!(lfo.process(), 32765);
    lfo.set_depth_q15(10000);
    assert_eq!(lfo.process(), -1);
}

#[test]
fn lfo_output_within_depth() {
    let mut lfo = LFO::new();
    lfo.set_phase_increment(12_345_677);
    lfo.set_depth_q15(1234);
    for _ in 0..2000 {
        let v = lfo.process();
        assert!(v >= -1234 && v <= 1234);
    }
}

#[test]
fn envelope_attack_hold_release() {
    let mut e = Envelope::new();
    assert!(e.is_idle());
    let rise: Vec<i16> = (0..9).map(|_| e.process(5000)).collect();
    assert_eq!(rise, vec![743, 1486, 2229, 2972, 3715, 4458, 5000, 5000, 5000]);
    assert!(!e.is_idle());
    let follow: Vec<i16> = (0..2).map(|_| e.process(3000)).collect();
    assert_eq!(follow, vec![4257, 3514]);
    let fall: Vec<i16> = (0..8).map(|_| e.process(2621)).collect();
    assert_eq!(fall, vec![2771, 2028, 1285, 542, 0, 0, 0, 0]);
    assert!(e.is_idle());
}

#[test]
fn envelope_gate_hysteresis() {
    let mut e = Envelope::new();
    assert_eq!(e.process(3932), 0);
    assert_eq!(e.process(3932), 0);
    assert!(e.is_idle());
    assert_eq!(e.process(3933), 743);
    assert_eq!(e.process(2622), 1486);
    assert_eq!(e.process(2622), 2229);
    assert_eq!(e.process(2621), 1486);
}

#[test]
fn envelope_increments() {
    let mut e = Envelope::new();
    assert_eq!(ENVELOPE_DEFAULT_INC, 743);
    e.set_attack_increment(32768);
    e.set_release_increment(100);
    assert_eq!(e.process(30000), 30000);
    assert_eq!(e.process(0), 29900);
    e.set_attack_increment(0);
    assert_eq!(e.process(32767), 29900);
    e.set_release_increment(32768);
    assert_eq!(e.process(-5), 0);
    assert!(e.is_idle());
    assert_eq!(EnvState::Idle, EnvState::Idle);
    let mut d = Envelope::default();
    assert_eq!(d.process(32767), 743);
}

#[test]
fn envelope_releases_under_changing_low_pressures() {
    let mut e = Envelope::new();
    e.set_attack_increment(32768);
    e.set_release_increment(1000);
    assert_eq!(e.process(10000), 10000);
    let pressures = [2621i16, 0, -400, 1500, 2000, 2621, 100, 7, 2500, 0, 1];
    let out: Vec<i16> = pressures.iter().map(|&p| e.process(p)).collect();
    assert_eq!(out, vec![9000, 8000, 7000, 6000, 5000, 4000, 3000, 2000, 1000, 0, 0]);
    assert!(e.is_idle());
}
