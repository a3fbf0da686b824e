use graphics::Color;

#[test]
fn test_from_rgb_u32() {
    let value: u32 = 0xe4a672;
    let color = Color::from_rgb_u32(value);

    assert_eq!(color.red, 0xe4);
    assert_eq!(color.green, 0xa6);
    assert_eq!(color.blue, 0x72);
    assert_eq!(color.alpha, 0xff);
}

#[test]
fn test_from_rgba_u32() {
    let value: u32 = 0xe4a672ff;
    let color = Color::from_rgba_u32(value);

    assert_eq!(color.red, 0xe4);
    assert_eq!(color.green, 0xa6);
    assert_eq!(color.blue, 0x72);
    assert_eq!(color.alpha, 0xff);
}

#[test]
fn test_from_argb_u32() {
    let value: u32 = 0xffe4a672;
    let color = Color::from_argb_u32(value);

    assert_eq!(color.red, 0xe4);
    assert_eq!(color.green, 0xa6);
    assert_eq!(color.blue, 0x72);
    assert_eq!(color.alpha, 0xff);
}

#[test]
fn test_as_hex() {
    let value: u32 = 0xe4a672;
    let color = Color::from_rgb_u32(value);
    assert_eq!(color.as_hex(false), "e4a672".to_string());
    assert_eq!(color.as_hex(true), "#e4a672".to_string());
}

#[test]
fn as_hex_drops_leading_zeros_and_alpha() {
    let color = Color::from_rgba_u32(0x00000f80);
    assert_eq!(color.as_hex(false), "f".to_string());
    assert_eq!(Color::clear().as_hex(true), "#0".to_string());
    assert_eq!(Color::from_rgb_u32(0x0a0b0c).as_hex(false), "a0b0c".to_string());
}

#[test]
fn packing_round_trips() {
    let color = Color { red: 0x12, green: 0x34, blue: 0x56, alpha: 0x78 };
    assert_eq!(color.as_rgb_u32(), 0x123456);
    assert_eq!(color.as_rgba_u32(), 0x12345678);
    assert_eq!(color.as_argb_u32(), 0x78123456);
    assert_eq!(Color::from_rgba_u32(color.as_rgba_u32()), color);
    assert_eq!(Color::from_argb_u32(color.as_argb_u32()), color);
}

#[test]
fn from_rgb_ignores_high_byte() {
    let color = Color::from_rgb_u32(0xab123456);
    assert_eq!(color, Color { red: 0x12, green: 0x34, blue: 0x56, alpha: 0xff });
}

#[test]
fn presets_and_default() {
    assert_eq!(Color::default(), Color::black());
    assert_eq!(Color::cyan(), Color::from_rgb_u32(0x00ffff));
    assert_eq!(Color::magenta(), Color::from_rgb_u32(0xff00ff));
    assert_eq!(Color::clear().alpha, 0);
    assert_eq!(Color::from([1u8, 2, 3, 4]), Color { red: 1, green: 2, blue: 3, alpha: 4 });
}

#[test]
fn random_color_is_opaque() {
    for _ in 0..16 {
        assert_eq!(Color::random().alpha, 0xff);
    }
}
