use trautonium::voice::{Voice, VoiceParams};
use trautonium::wavetables::{Waveform, Wavetables};

fn tables() -> &'static Wavetables {
    Box::leak(Box::new(Wavetables::new()))
}

#[test]
fn fresh_voice_silent_without_pressure() {
    let mut v = Voice::new(tables());
    let mut buf = [123i16; 4];
    v.process_buffer_unfiltered(&mut buf, 0);
    assert_eq!(buf, [0, 0, 0, 0]);
    let mut buf = [0i16; 4];
    v.process_buffer_unfiltered(&mut buf, 3932);
    assert_eq!(buf, [0, 0, 0, 0]);
}

#[test]
fn fresh_voice_follows_pressure() {
    let mut v = Voice::new(tables());
    let mut buf = [0i16; 4];
    v.process_buffer_unfiltered(&mut buf, 20000);
    assert_eq!(buf, [-595, -1189, -1784, -2378]);
}

#[test]
fn applied_params_shape_the_mix() {
    let wt = tables();
    let mut v = Voice::new(wt);
    let p = VoiceParams {
        main_phase_inc: 1 << 22,
        main_waveform: Waveform::Square,
        sub_phase_inc: 3 << 22,
        sub_waveform: Waveform::Triangle,
        sub_level_q15: 16384,
        attack_inc: 10000,
        release_inc: 32768,
        lfo_phase_inc: 9739,
        lfo_depth_q15: 0,
        pressure_filter_amt_q15: 0,
        master_volume_q15: 32767,
    };
    v.apply_params(&p, wt);
    let mut buf = [0i16; 6];
    v.process_buffer_unfiltered(&mut buf, 20000);
    assert_eq!(buf, [-2114, -4111, -3994, -3877, -3760, -3642]);
    let mut tail = [7i16; 2];
    v.process_buffer_unfiltered(&mut tail, 0);
    assert_eq!(tail, [0, 0]);
}

#[test]
fn sources_then_output_stage() {
    let wt = tables();
    let mut v = Voice::new(wt);
    let p = VoiceParams {
        main_phase_inc: 1 << 22,
        main_waveform: Waveform::Saw,
        sub_phase_inc: 0,
        sub_waveform: Waveform::Sine,
        sub_level_q15: 0,
        attack_inc: 32768,
        release_inc: 743,
        lfo_phase_inc: 1 << 30,
        lfo_depth_q15: 32767,
        pressure_filter_amt_q15: 16384,
        master_volume_q15: 26214,
    };
    v.apply_params(&p, wt);
    let expected = [(30000, -32767, -17767), (30000, -32704, 15000), (30000, -32640, 32767)];
    for (env, mix, modulation) in expected {
        let f = v.next_sources(30000);
        assert_eq!((f.envelope, f.osc_mix, f.modulation), (env, mix, modulation));
    }
    assert_eq!(v.output_sample(-32768, 32767), -26214);
    assert_eq!(v.output_sample(12345, 20000), 6027);
    assert_eq!(v.output_sample(12345, 0), 0);
}

#[test]
fn output_within_master_volume() {
    let wt = tables();
    let v = Voice::new(wt);
    for f in [-32768i16, -1, 0, 1, 32767] {
        for env in [0i16, 1, 16384, 32767] {
            let y = v.output_sample(f, env) as i32;
            assert!(y.abs() <= 26214);
        }
    }
}

#[test]
fn voice_block_split() {
    let mut a = Voice::new(tables());
    let mut b = Voice::new(tables());
    let mut whole = [0i16; 300];
    a.process_buffer_unfiltered(&mut whole, 25000);
    let mut p1 = [0i16; 123];
    let mut p2 = [0i16; 177];
    b.process_buffer_unfiltered(&mut p1, 25000);
    b.process_buffer_unfiltered(&mut p2, 25000);
    assert_eq!(&whole[..123], &p1[..]);
    assert_eq!(&whole[123..], &p2[..]);
}
