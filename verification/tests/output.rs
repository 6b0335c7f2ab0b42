use trautonium::controls::switch_position;
use trautonium::output::fill_stereo_frames;

#[test]
fn frames_duplicate_little_endian_samples() {
    let samples = [0x1234i16, -2, 0, i16::MIN, i16::MAX];
    let mut buf = [0xAAu8; 14];
    let written = fill_stereo_frames(&samples, 1, &mut buf);
    assert_eq!(written, 12);
    assert_eq!(
        buf,
        [0xFE, 0xFF, 0xFE, 0xFF, 0, 0, 0, 0, 0x00, 0x80, 0x00, 0x80, 0xAA, 0xAA]
    );
}

#[test]
fn frames_stop_at_the_last_sample() {
    let samples = [0x1234i16, 0x0102];
    let mut buf = [0u8; 16];
    let written = fill_stereo_frames(&samples, 0, &mut buf);
    assert_eq!(written, 8);
    assert_eq!(&buf[0..8], &[0x34, 0x12, 0x34, 0x12, 0x02, 0x01, 0x02, 0x01]);
    assert_eq!(&buf[8..], &[0u8; 8]);
    assert_eq!(fill_stereo_frames(&samples, 2, &mut buf), 0);
}

#[test]
fn switch_positions() {
    assert_eq!(switch_position(false, false), 0);
    assert_eq!(switch_position(false, true), 1);
    assert_eq!(switch_position(true, false), 2);
    assert_eq!(switch_position(true, true), 3);
}
