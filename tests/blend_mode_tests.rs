use graphics::BlendMode;

const ALL: [BlendMode; 22] = [
    BlendMode::Normal,
    BlendMode::Multiply,
    BlendMode::Screen,
    BlendMode::Overlay,
    BlendMode::Darken,
    BlendMode::Lighten,
    BlendMode::ColorDodge,
    BlendMode::ColorBurn,
    BlendMode::HardLight,
    BlendMode::SoftLight,
    BlendMode::Difference,
    BlendMode::Exclusion,
    BlendMode::Hue,
    BlendMode::Saturation,
    BlendMode::Color,
    BlendMode::Luminosity,
    BlendMode::Addition,
    BlendMode::Subtract,
    BlendMode::Divide,
    BlendMode::PassThrough,
    BlendMode::DestinationIn,
    BlendMode::DestinationOut,
];

#[test]
fn string_form_round_trips() {
    for mode in ALL {
        assert_eq!(BlendMode::from_str(mode.as_str()), Some(mode));
    }
}

#[test]
fn numeric_code_round_trips() {
    for (index, mode) in ALL.iter().enumerate() {
        assert_eq!(mode.to_primitive(), index as u32);
        assert_eq!(BlendMode::from_primitive(mode.to_primitive()), Some(*mode));
    }
}

#[test]
fn unknown_names_and_codes_fail() {
    assert_eq!(BlendMode::from_str("sparkle"), None);
    assert_eq!(BlendMode::from_str(""), None);
    assert_eq!(BlendMode::from_str("Normal"), None);
    assert_eq!(BlendMode::from_primitive(22), None);
    assert_eq!(BlendMode::from_primitive(u32::MAX), None);
}

#[test]
fn legacy_spellings_are_accepted() {
    for name in ["colorBurn", "color_burn", "color-burn"] {
        assert_eq!(BlendMode::from_str(name), Some(BlendMode::ColorBurn));
    }
    assert_eq!(BlendMode::from_str("destination_out"), Some(BlendMode::DestinationOut));
    assert_eq!(BlendMode::from_str("passThrough"), Some(BlendMode::PassThrough));
    assert_eq!(BlendMode::from_str("softLight"), Some(BlendMode::SoftLight));
    assert_eq!(BlendMode::ColorDodge.as_str(), "color-dodge");
}

#[test]
fn porter_duff_modes() {
    for mode in ALL {
        let expected = mode == BlendMode::DestinationIn || mode == BlendMode::DestinationOut;
        assert_eq!(mode.is_porter_duff(), expected);
    }
    assert_eq!(BlendMode::default(), BlendMode::Normal);
}

#[test]
fn pass_through_spellings() {
    for name in ["passThrough", "pass_through", "pass-through"] {
        assert_eq!(BlendMode::from_str(name), Some(BlendMode::PassThrough));
    }
    assert_eq!(BlendMode::from_str("pass_trough"), None);
    assert_eq!(BlendMode::from_str("sepia"), None);
}
