use salmon_rs::vec4::{channel_to_byte, Vec4, CHANNEL_ONE};

#[test]
fn presets_pack_exactly() {
    assert_eq!(Vec4::white().to_argb(), 0xFFFF_FFFF);
    assert_eq!(Vec4::red().to_argb(), 0xFFFF_0000);
    assert_eq!(Vec4::black().to_argb(), 0xFF00_0000);
    assert_eq!(Vec4::green().to_argb(), 0xFF00_FF00);
    assert_eq!(Vec4::blue().to_argb(), 0xFF00_00FF);
    assert_eq!(Vec4::yellow().to_argb(), 0xFFFF_FF00);
    assert_eq!(Vec4::pink().to_argb(), 0xFFFF_00FF);
}

#[test]
fn preset_channels() {
    assert_eq!(Vec4::black(), Vec4::new(0, 0, 0, CHANNEL_ONE));
    assert_eq!(Vec4::pink(), Vec4::new(CHANNEL_ONE, 0, CHANNEL_ONE, CHANNEL_ONE));
}

#[test]
fn channels_round_to_nearest_byte() {
    // 32768 / 65535 * 255 = 127.50...
    assert_eq!(channel_to_byte(32768), 128);
    // 128 / 257 = 0.498...
    assert_eq!(channel_to_byte(128), 0);
    // 129 / 257 = 0.501...
    assert_eq!(channel_to_byte(129), 1);
    assert_eq!(channel_to_byte(257), 1);
    assert_eq!(channel_to_byte(CHANNEL_ONE), 255);
}

#[test]
fn channels_are_clamped() {
    assert_eq!(channel_to_byte(-5), 0);
    assert_eq!(channel_to_byte(i32::MIN), 0);
    assert_eq!(channel_to_byte(CHANNEL_ONE + 1), 255);
    assert_eq!(channel_to_byte(i32::MAX), 255);
    let c = Vec4::new(-1, 2 * CHANNEL_ONE, 0, CHANNEL_ONE * 3);
    assert_eq!(c.to_argb(), 0xFF00_FF00);
}

#[test]
fn packed_layout_is_alpha_red_green_blue() {
    let c = Vec4::new(257 * 0x12, 257 * 0x34, 257 * 0x56, 257 * 0x78);
    assert_eq!(c.to_argb(), 0x7812_3456);
}

#[test]
fn decoded_bytes_stay_within_one_step() {
    let mut v: i32 = 0;
    while v <= CHANNEL_ONE {
        let byte = channel_to_byte(v) as f64;
        let err = (v as f64 / 65535.0 - byte / 255.0).abs();
        assert!(err <= 1.0 / 255.0, "channel {} gave byte {}", v, byte);
        v += 37;
    }
}
