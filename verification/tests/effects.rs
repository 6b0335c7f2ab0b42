use trautonium::effects::delay::DelayEffect;
use trautonium::effects::reverb::ReverbEffect;
use trautonium::effects::EffectEngine;

#[test]
fn delay_echo_after_delay_samples() {
    let mut d = DelayEffect::new();
    d.set_delay_samples(3);
    d.set_feedback_q15(16384);
    let mut buf = [10000i16, 0, 0, 0, 0, 0, 0, 0, -20000, 0, 0, 0];
    d.process_buffer(&mut buf);
    assert_eq!(buf, [7000, 0, 0, 2999, 0, 0, 1499, 0, -14001, 749, 0, -6000]);
}

#[test]
fn delay_time_is_clamped() {
    let mut d = DelayEffect::new();
    d.set_delay_samples(0);
    d.set_feedback_q15(29490);
    let mut buf = [32767i16; 6];
    d.process_buffer(&mut buf);
    assert_eq!(buf, [22937, 32766, 32766, 32766, 32766, 32766]);
    let mut far = DelayEffect::default();
    far.set_delay_samples(usize::MAX);
    let mut first = [1000i16];
    far.process_buffer(&mut first);
    assert_eq!(first, [700]);
    let mut zeros = [0i16; 16382];
    far.process_buffer(&mut zeros);
    assert!(zeros.iter().all(|&s| s == 0));
    let mut next = [0i16; 2];
    far.process_buffer(&mut next);
    assert_eq!(next, [299, 0]);
}

#[test]
fn delay_default_is_half_line() {
    let mut d = DelayEffect::new();
    let mut buf = vec![0i16; 8193];
    buf[0] = 32767;
    d.process_buffer(&mut buf);
    assert_eq!(buf[0], 22937);
    assert_eq!(buf[8192], 9829);
    assert!(buf[1..8192].iter().all(|&s| s == 0));
}

#[test]
fn reverb_impulse_response() {
    let mut r = ReverbEffect::new();
    let mut buf = vec![0i16; 1501];
    buf[0] = 10000;
    r.process_buffer(&mut buf);
    assert_eq!(&buf[0..3], &[7499, 0, 0]);
    assert_eq!(&buf[225..228], &[0, 0, 0]);
    assert_eq!(&buf[1422..1425], &[625, 0, 0]);
}

#[test]
fn reverb_fully_wet() {
    let mut r = ReverbEffect::default();
    r.set_amount_q15(32767);
    let mut buf = vec![-32768i16; 2000];
    r.process_buffer(&mut buf);
    assert_eq!(buf[0], 0);
    assert_eq!(buf[225], 0);
    assert_eq!(buf[1421], 0);
    assert_eq!(buf[1422], -8192);
    assert_eq!(buf[1999], 32766);
}

#[test]
fn reverb_dry_at_zero_amount() {
    let mut r = ReverbEffect::new();
    r.set_amount_q15(0);
    let input: Vec<i16> = (0..3000).map(|i| ((i * 7919) % 65536 - 32768) as i16).collect();
    let mut buf = input.clone();
    r.process_buffer(&mut buf);
    for (x, y) in input.iter().zip(buf.iter()) {
        assert_eq!(*y as i32, (*x as i32 * 32767) >> 15);
    }
}

#[test]
fn engine_runs_delay_then_reverb() {
    let input: Vec<i16> = (0..4000).map(|i| (((i * 37) % 2001) - 1000) as i16 * 30).collect();
    let mut engine = EffectEngine::new();
    engine.set_params(700, 20000, 12000);
    let mut d = DelayEffect::new();
    d.set_delay_samples(700);
    d.set_feedback_q15(20000);
    let mut r = ReverbEffect::new();
    r.set_amount_q15(12000);
    let mut a = input.clone();
    engine.process_buffer(&mut a);
    let mut b = input.clone();
    d.process_buffer(&mut b);
    r.process_buffer(&mut b);
    assert_eq!(a, b);
    assert!(a.iter().any(|&s| s != 0));
}

#[test]
fn engine_default_silence_stays_silent() {
    let mut engine = EffectEngine::default();
    let mut buf = [0i16; 256];
    engine.process_buffer(&mut buf);
    assert_eq!(buf, [0i16; 256]);
}

#[test]
fn splitting_a_block_changes_nothing() {
    let input: Vec<i16> = (0..3000).map(|i| (((i * 131) % 4001) - 2000) as i16 * 15).collect();
    let mut whole = EffectEngine::new();
    whole.set_params(450, 29490, 20000);
    let mut parts = EffectEngine::new();
    parts.set_params(450, 29490, 20000);
    let mut a = input.clone();
    whole.process_buffer(&mut a);
    let mut b1 = input[..1234].to_vec();
    let mut b2 = input[1234..].to_vec();
    parts.process_buffer(&mut b1);
    parts.process_buffer(&mut b2);
    b1.extend_from_slice(&b2);
    assert_eq!(a, b1);
}

#[test]
fn delay_feedback_decays() {
    let mut d = DelayEffect::new();
    d.set_delay_samples(1);
    d.set_feedback_q15(trautonium::config::DELAY_FEEDBACK_MAX_Q15);
    let mut buf = vec![0i16; 200];
    buf[0] = 30000;
    d.process_buffer(&mut buf);
    let mut prev = i32::MAX;
    for &s in &buf[1..] {
        assert!((s as i32).abs() <= prev);
        prev = (s as i32).abs();
    }
    assert!(buf[199].abs() < 10);
}
