use trautonium::config::WAVETABLE_SIZE;
use trautonium::wavetables::{Waveform, Wavetables};

fn tables() -> &'static Wavetables {
    Box::leak(Box::new(Wavetables::new()))
}

#[test]
fn selector_maps_low_two_bits() {
    assert_eq!(Waveform::from_selector(0), Waveform::Sine);
    assert_eq!(Waveform::from_selector(1), Waveform::Square);
    assert_eq!(Waveform::from_selector(2), Waveform::Triangle);
    assert_eq!(Waveform::from_selector(3), Waveform::Saw);
    assert_eq!(Waveform::from_selector(4), Waveform::Sine);
    assert_eq!(Waveform::from_selector(0b1111_1101), Waveform::Square);
    assert_eq!(Waveform::from_selector(255), Waveform::Saw);
}

#[test]
fn waveform_default_is_saw() {
    assert_eq!(Waveform::default(), Waveform::Saw);
}

#[test]
fn saw_spans_full_scale_and_rises() {
    let t = tables();
    assert_eq!(t.saw[0], -32768);
    assert_eq!(t.saw[1], -32704);
    assert_eq!(t.saw[511], -33);
    assert_eq!(t.saw[512], 31);
    assert_eq!(t.saw[WAVETABLE_SIZE - 1], 32767);
    for i in 1..WAVETABLE_SIZE {
        assert!(t.saw[i - 1] < t.saw[i]);
    }
}

#[test]
fn sine_peak_and_symmetry() {
    let t = tables();
    assert_eq!(t.sine[0], 0);
    assert_eq!(t.sine[1], 166);
    assert_eq!(t.sine[100], 15390);
    assert_eq!(t.sine[256], 26754);
    assert_eq!(t.sine[300], 25772);
    assert_eq!(t.sine[512], 0);
    assert_eq!(t.sine[612], -15390);
    assert_eq!(t.sine[768], -26754);
    for i in 0..512 {
        assert_eq!(t.sine[i + 512], -t.sine[i]);
        assert!(t.sine[i] >= 0 && t.sine[i] <= 26754);
    }
    for i in 1..512 {
        assert_eq!(t.sine[512 - i], t.sine[i]);
    }
}

#[test]
fn square_halves() {
    let t = tables();
    for i in 0..WAVETABLE_SIZE {
        assert_eq!(t.square[i], if i < 512 { 18918 } else { -18918 });
    }
}

#[test]
fn triangle_shape() {
    let t = tables();
    assert_eq!(t.triangle[0], -32768);
    assert_eq!(t.triangle[1], -32641);
    assert_eq!(t.triangle[256], -1);
    assert_eq!(t.triangle[511], 32639);
    assert_eq!(t.triangle[512], 32767);
    assert_eq!(t.triangle[513], 32640);
    assert_eq!(t.triangle[1023], -32640);
    for i in 1..=512 {
        assert!(t.triangle[i - 1] < t.triangle[i]);
    }
    for i in 513..WAVETABLE_SIZE {
        assert!(t.triangle[i - 1] > t.triangle[i]);
    }
}

#[test]
fn get_returns_the_named_table() {
    let t = tables();
    assert_eq!(t.get(&Waveform::Saw)[1], -32704);
    assert_eq!(t.get(&Waveform::Sine)[256], 26754);
    assert_eq!(t.get(&Waveform::Square)[600], -18918);
    assert_eq!(t.get(&Waveform::Triangle)[512], 32767);
    assert!(std::ptr::eq(t.get(&Waveform::Sine), &t.sine));
}

#[test]
fn default_tables_equal_new() {
    let a = Wavetables::default();
    let b = Wavetables::new();
    assert_eq!(a.saw, b.saw);
    assert_eq!(a.sine, b.sine);
    assert_eq!(a.square, b.square);
    assert_eq!(a.triangle, b.triangle);
}
