use vstd::prelude::*;

use crate::text::str_equals;

verus! {
/// The blend modes with which a layer is drawn over what lies below it.
#[derive(Debug, Clone, Copy, PartialEq, Eq, Structural, Hash)]
pub enum BlendMode {
    /// Normal blending.
    Normal,
    /// Multiplies the source samples with the background samples.
    Multiply,
    /// Multiplies the inverses of the source and background samples.
    Screen,
    /// Multiplies or screens, depending on the background sample.
    Overlay,
    /// Chooses the darker of the source and background samples.
    Darken,
    /// Chooses the lighter of the source and background samples.
    Lighten,
    /// Brightens the background samples to reflect the source samples.
    ColorDodge,
    /// Darkens the background samples to reflect the source samples.
    ColorBurn,
    /// Multiplies or screens, depending on the source sample.
    HardLight,
    /// Darkens or lightens, depending on the source sample.
    SoftLight,
    /// Subtracts the darker sample from the lighter one.
    Difference,
    /// Like difference, with lower contrast.
    Exclusion,
    /// Uses the luminance and saturation of the background with the hue of the source.
    Hue,
    /// Uses the luminance and hue of the background with the saturation of the source.
    Saturation,
    /// Uses the luminance of the background with the hue and saturation of the source.
    Color,
    /// Uses the hue and saturation of the background with the luminance of the source.
    Luminosity,
    /// Adds colour components to achieve a brightening effect.
    Addition,
    /// Subtracts the source sample from the background sample.
    Subtract,
    /// Divides the background sample by the source sample.
    Divide,
    /// Only meaningful for groups; blends like normal for single layers.
    PassThrough,
    /// Porter-Duff: keeps the background where the source covers it.
    DestinationIn,
    /// Porter-Duff: keeps the background where the source does not cover it.
    DestinationOut,
}

/// The numeric code of a mode in binary interchange formats.
pub open spec fn code_of(m: BlendMode) -> u32 {
    match m {
        BlendMode::Normal => 0,
        BlendMode::Multiply => 1,
        BlendMode::Screen => 2,
        BlendMode::Overlay => 3,
        BlendMode::Darken => 4,
        BlendMode::Lighten => 5,
        BlendMode::ColorDodge => 6,
        BlendMode::ColorBurn => 7,
        BlendMode::HardLight => 8,
        BlendMode::SoftLight => 9,
        BlendMode::Difference => 10,
        BlendMode::Exclusion => 11,
        BlendMode::Hue => 12,
        BlendMode::Saturation => 13,
        BlendMode::Color => 14,
        BlendMode::Luminosity => 15,
        BlendMode::Addition => 16,
        BlendMode::Subtract => 17,
        BlendMode::Divide => 18,
        BlendMode::PassThrough => 19,
        BlendMode::DestinationIn => 20,
        BlendMode::DestinationOut => 21,
    }
}

/// The mode with a numeric code, if any.
pub open spec fn mode_of_code(v: u32) -> Option<BlendMode> {
    if v == 0 {
        Some(BlendMode::Normal)
    } else if v == 1 {
        Some(BlendMode::Multiply)
    } else if v == 2 {
        Some(BlendMode::Screen)
    } else if v == 3 {
        Some(BlendMode::Overlay)
    } else if v == 4 {
        Some(BlendMode::Darken)
    } else if v == 5 {
        Some(BlendMode::Lighten)
    } else if v == 6 {
        Some(BlendMode::ColorDodge)
    } else if v == 7 {
        Some(BlendMode::ColorBurn)
    } else if v == 8 {
        Some(BlendMode::HardLight)
    } else if v == 9 {
        Some(BlendMode::SoftLight)
    } else if v == 10 {
        Some(BlendMode::Difference)
    } else if v == 11 {
        Some(BlendMode::Exclusion)
    } else if v == 12 {
        Some(BlendMode::Hue)
    } else if v == 13 {
        Some(BlendMode::Saturation)
    } else if v == 14 {
        Some(BlendMode::Color)
    } else if v == 15 {
        Some(BlendMode::Luminosity)
    } else if v == 16 {
        Some(BlendMode::Addition)
    } else if v == 17 {
        Some(BlendMode::Subtract)
    } else if v == 18 {
        Some(BlendMode::Divide)
    } else if v == 19 {
        Some(BlendMode::PassThrough)
    } else if v == 20 {
        Some(BlendMode::DestinationIn)
    } else if v == 21 {
        Some(BlendMode::DestinationOut)
    } else {
        None
    }
}

/// The stable string form of a mode.
pub open spec fn name_of(m: BlendMode) -> Seq<char> {
    match m {
        BlendMode::Normal => "normal"@,
        BlendMode::Multiply => "multiply"@,
        BlendMode::Screen => "screen"@,
        BlendMode::Overlay => "overlay"@,
        BlendMode::Darken => "darken"@,
        BlendMode::Lighten => "lighten"@,
        BlendMode::ColorDodge => "color-dodge"@,
        BlendMode::ColorBurn => "color-burn"@,
        BlendMode::HardLight => "hard-light"@,
        BlendMode::SoftLight => "soft-light"@,
        BlendMode::Difference => "difference"@,
        BlendMode::Exclusion => "exclusion"@,
        BlendMode::Hue => "hue"@,
        BlendMode::Saturation => "saturation"@,
        BlendMode::Color => "color"@,
        BlendMode::Luminosity => "luminosity"@,
        BlendMode::Addition => "addition"@,
        BlendMode::Subtract => "subtract"@,
        BlendMode::Divide => "divide"@,
        BlendMode::PassThrough => "pass-through"@,
        BlendMode::DestinationIn => "destination-in"@,
        BlendMode::DestinationOut => "destination-out"@,
    }
}

/// The mode that a string names, accepting the legacy spellings too.
pub open spec fn mode_of_name(s: Seq<char>) -> Option<BlendMode> {
    if s == "normal"@ {
        Some(BlendMode::Normal)
    } else if s == "multiply"@ {
        Some(BlendMode::Multiply)
    } else if s == "screen"@ {
        Some(BlendMode::Screen)
    } else if s == "overlay"@ {
        Some(BlendMode::Overlay)
    } else if s == "darken"@ {
        Some(BlendMode::Darken)
    } else if s == "lighten"@ {
        Some(BlendMode::Lighten)
    } else if s == "colorDodge"@ || s == "color_dodge"@ || s == "color-dodge"@ {
        Some(BlendMode::ColorDodge)
    } else if s == "colorBurn"@ || s == "color_burn"@ || s == "color-burn"@ {
        Some(BlendMode::ColorBurn)
    } else if s == "hardLight"@ || s == "hard_light"@ || s == "hard-light"@ {
        Some(BlendMode::HardLight)
    } else if s == "softLight"@ || s == "soft_light"@ || s == "soft-light"@ {
        Some(BlendMode::SoftLight)
    } else if s == "difference"@ {
        Some(BlendMode::Difference)
    } else if s == "exclusion"@ {
        Some(BlendMode::Exclusion)
    } else if s == "hue"@ {
        Some(BlendMode::Hue)
    } else if s == "saturation"@ {
        Some(BlendMode::Saturation)
    } else if s == "color"@ {
        Some(BlendMode::Color)
    } else if s == "luminosity"@ {
        Some(BlendMode::Luminosity)
    } else if s == "addition"@ {
        Some(BlendMode::Addition)
    } else if s == "subtract"@ {
        Some(BlendMode::Subtract)
    } else if s == "divide"@ {
        Some(BlendMode::Divide)
    } else if s == "passThrough"@ || s == "pass_through"@ || s == "pass-through"@ {
        Some(BlendMode::PassThrough)
    } else if s == "destinationIn"@ || s == "destination_in"@ || s == "destination-in"@ {
        Some(BlendMode::DestinationIn)
    } else if s == "destinationOut"@ || s == "destination_out"@ || s == "destination-out"@ {
        Some(BlendMode::DestinationOut)
    } else {
        None
    }
}

/// Whether a mode acts on alpha alone, following Porter and Duff.
pub open spec fn porter_duff(m: BlendMode) -> bool {
    m == BlendMode::DestinationIn || m == BlendMode::DestinationOut
}

impl Default for BlendMode {
    fn default() -> (m: BlendMode)
        ensures
            m == BlendMode::Normal,
    {
        BlendMode::Normal
    }
}

impl BlendMode {
    /// Returns the mode with the numeric code `value`, or `None` for an
    /// unknown code.
    pub fn from_primitive(value: u32) -> (r: Option<BlendMode>)
        ensures
            r == mode_of_code(value),
    {
        match value {
            0 => Some(BlendMode::Normal),
            1 => Some(BlendMode::Multiply),
            2 => Some(BlendMode::Screen),
            3 => Some(BlendMode::Overlay),
            4 => Some(BlendMode::Darken),
            5 => Some(BlendMode::Lighten),
            6 => Some(BlendMode::ColorDodge),
            7 => Some(BlendMode::ColorBurn),
            8 => Some(BlendMode::HardLight),
            9 => Some(BlendMode::SoftLight),
            10 => Some(BlendMode::Difference),
            11 => Some(BlendMode::Exclusion),
            12 => Some(BlendMode::Hue),
            13 => Some(BlendMode::Saturation),
            14 => Some(BlendMode::Color),
            15 => Some(BlendMode::Luminosity),
            16 => Some(BlendMode::Addition),
            17 => Some(BlendMode::Subtract),
            18 => Some(BlendMode::Divide),
            19 => Some(BlendMode::PassThrough),
            20 => Some(BlendMode::DestinationIn),
            21 => Some(BlendMode::DestinationOut),
            _ => None,
        }
    }

    /// Returns the numeric code of the mode.
    pub fn to_primitive(&self) -> (r: u32)
        ensures
            r == code_of(*self),
    {
        match self {
            BlendMode::Normal => 0,
            BlendMode::Multiply => 1,
            BlendMode::Screen => 2,
            BlendMode::Overlay => 3,
            BlendMode::Darken => 4,
            BlendMode::Lighten => 5,
            BlendMode::ColorDodge => 6,
            BlendMode::ColorBurn => 7,
            BlendMode::HardLight => 8,
            BlendMode::SoftLight => 9,
            BlendMode::Difference => 10,
            BlendMode::Exclusion => 11,
            BlendMode::Hue => 12,
            BlendMode::Saturation => 13,
            BlendMode::Color => 14,
            BlendMode::Luminosity => 15,
            BlendMode::Addition => 16,
            BlendMode::Subtract => 17,
            BlendMode::Divide => 18,
            BlendMode::PassThrough => 19,
            BlendMode::DestinationIn => 20,
            BlendMode::DestinationOut => 21,
        }
    }

    /// Returns the string form of the mode.
    pub fn as_str(&self) -> (r: &'static str)
        ensures
            r@ == name_of(*self),
    {
        match self {
            BlendMode::Normal => "normal",
            BlendMode::Multiply => "multiply",
            BlendMode::Screen => "screen",
            BlendMode::Overlay => "overlay",
            BlendMode::Darken => "darken",
            BlendMode::Lighten => "lighten",
            BlendMode::ColorDodge => "color-dodge",
            BlendMode::ColorBurn => "color-burn",
            BlendMode::HardLight => "hard-light",
            BlendMode::SoftLight => "soft-light",
            BlendMode::Difference => "difference",
            BlendMode::Exclusion => "exclusion",
            BlendMode::Hue => "hue",
            BlendMode::Saturation => "saturation",
            BlendMode::Color => "color",
            BlendMode::Luminosity => "luminosity",
            BlendMode::Addition => "addition",
            BlendMode::Subtract => "subtract",
            BlendMode::Divide => "divide",
            BlendMode::PassThrough => "pass-through",
            BlendMode::DestinationIn => "destination-in",
            BlendMode::DestinationOut => "destination-out",
        }
    }

    /// Parses a mode from its string form or a legacy spelling; `None` for
    /// any other string.
    pub fn from_str(string: &str) -> (r: Option<BlendMode>)
        ensures
            r == mode_of_name(string@),
    {
        if str_equals(string, "normal") {
            return Some(BlendMode::Normal);
        }
        if str_equals(string, "multiply") {
            return Some(BlendMode::Multiply);
        }
        if str_equals(string, "screen") {
            return Some(BlendMode::Screen);
        }
        if str_equals(string, "overlay") {
            return Some(BlendMode::Overlay);
        }
        if str_equals(string, "darken") {
            return Some(BlendMode::Darken);
        }
        if str_equals(string, "lighten") {
            return Some(BlendMode::Lighten);
        }
        if str_equals(string, "colorDodge") || str_equals(string, "color_dodge") || str_equals(string, "color-dodge") {
            return Some(BlendMode::ColorDodge);
        }
        if str_equals(string, "colorBurn") || str_equals(string, "color_burn") || str_equals(string, "color-burn") {
            return Some(BlendMode::ColorBurn);
        }
        if str_equals(string, "hardLight") || str_equals(string, "hard_light") || str_equals(string, "hard-light") {
            return Some(BlendMode::HardLight);
        }
        if str_equals(string, "softLight") || str_equals(string, "soft_light") || str_equals(string, "soft-light") {
            return Some(BlendMode::SoftLight);
        }
        if str_equals(string, "difference") {
            return Some(BlendMode::Difference);
        }
        if str_equals(string, "exclusion") {
            return Some(BlendMode::Exclusion);
        }
        if str_equals(string, "hue") {
            return Some(BlendMode::Hue);
        }
        if str_equals(string, "saturation") {
            return Some(BlendMode::Saturation);
        }
        if str_equals(string, "color") {
            return Some(BlendMode::Color);
        }
        if str_equals(string, "luminosity") {
            return Some(BlendMode::Luminosity);
        }
        if str_equals(string, "addition") {
            return Some(BlendMode::Addition);
        }
        if str_equals(string, "subtract") {
            return Some(BlendMode::Subtract);
        }
        if str_equals(string, "divide") {
            return Some(BlendMode::Divide);
        }
        if str_equals(string, "passThrough") || str_equals(string, "pass_through") || str_equals(string, "pass-through") {
            return Some(BlendMode::PassThrough);
        }
        if str_equals(string, "destinationIn") || str_equals(string, "destination_in") || str_equals(string, "destination-in") {
            return Some(BlendMode::DestinationIn);
        }
        if str_equals(string, "destinationOut") || str_equals(string, "destination_out") || str_equals(string, "destination-out") {
            return Some(BlendMode::DestinationOut);
        }
        None
    }

    /// Returns whether the mode is one of the Porter-Duff modes.
    pub fn is_porter_duff(&self) -> (r: bool)
        ensures
            r == porter_duff(*self),
    {
        match self {
            BlendMode::DestinationIn | BlendMode::DestinationOut => true,
            _ => false,
        }
    }
}

/// Reading a mode back from its string form gives the same mode.
pub proof fn lemma_name_round_trip(m: BlendMode)
    ensures
        mode_of_name(name_of(m)) == Some(m),
{
    match m {
        BlendMode::Normal => {
            reveal_strlit("normal");
        },
        BlendMode::Multiply => {
            reveal_strlit("multiply");
            reveal_strlit("normal");
            assert("normal"@.len() != "multiply"@.len());
        },
        BlendMode::Screen => {
            reveal_strlit("screen");
            reveal_strlit("normal");
            assert("normal"@[0] != "screen"@[0]);
            reveal_strlit("multiply");
            assert("multiply"@.len() != "screen"@.len());
        },
        BlendMode::Overlay => {
            reveal_strlit("overlay");
            reveal_strlit("normal");
            assert("normal"@.len() != "overlay"@.len());
            reveal_strlit("multiply");
            assert("multiply"@.len() != "overlay"@.len());
            reveal_strlit("screen");
            assert("screen"@.len() != "overlay"@.len());
        },
        BlendMode::Darken => {
            reveal_strlit("darken");
            reveal_strlit("normal");
            assert("normal"@[0] != "darken"@[0]);
            reveal_strlit("multiply");
            assert("multiply"@.len() != "darken"@.len());
            reveal_strlit("screen");
            assert("screen"@[0] != "darken"@[0]);
            reveal_strlit("overlay");
            assert("overlay"@.len() != "darken"@.len());
        },
        BlendMode::Lighten => {
            reveal_strlit("lighten");
            reveal_strlit("normal");
            assert("normal"@.len() != "lighten"@.len());
            reveal_strlit("multiply");
            assert("multiply"@.len() != "lighten"@.len());
            reveal_strlit("screen");
            assert("screen"@.len() != "lighten"@.len());
            reveal_strlit("overlay");
            assert("overlay"@[0] != "lighten"@[0]);
            reveal_strlit("darken");
            assert("darken"@.len() != "lighten"@.len());
        },
        BlendMode::ColorDodge => {
            reveal_strlit("color-dodge");
            reveal_strlit("normal");
            assert("normal"@.len() != "color-dodge"@.len());
            reveal_strlit("multiply");
            assert("multiply"@.len() != "color-dodge"@.len());
            reveal_strlit("screen");
            assert("screen"@.len() != "color-dodge"@.len());
            reveal_strlit("overlay");
            assert("overlay"@.len() != "color-dodge"@.len());
            reveal_strlit("darken");
            assert("darken"@.len() != "color-dodge"@.len());
            reveal_strlit("lighten");
            assert("lighten"@.len() != "color-dodge"@.len());
        },
        BlendMode::ColorBurn => {
            reveal_strlit("color-burn");
            reveal_strlit("normal");
            assert("normal"@.len() != "color-burn"@.len());
            reveal_strlit("multiply");
            assert("multiply"@.len() != "color-burn"@.len());
            reveal_strlit("screen");
            assert("screen"@.len() != "color-burn"@.len());
            reveal_strlit("overlay");
            assert("overlay"@.len() != "color-burn"@.len());
            reveal_strlit("darken");
            assert("darken"@.len() != "color-burn"@.len());
            reveal_strlit("lighten");
            assert("lighten"@.len() != "color-burn"@.len());
            reveal_strlit("colorDodge");
            assert("colorDodge"@[5] != "color-burn"@[5]);
            reveal_strlit("color_dodge");
            assert("color_dodge"@.len() != "color-burn"@.len());
            reveal_strlit("color-dodge");
            assert("color-dodge"@.len() != "color-burn"@.len());
        },
        BlendMode::HardLight => {
            reveal_strlit("hard-light");
            reveal_strlit("normal");
            assert("normal"@.len() != "hard-light"@.len());
            reveal_strlit("multiply");
            assert("multiply"@.len() != "hard-light"@.len());
            reveal_strlit("screen");
            assert("screen"@.len() != "hard-light"@.len());
            reveal_strlit("overlay");
            assert("overlay"@.len() != "hard-light"@.len());
            reveal_strlit("darken");
            assert("darken"@.len() != "hard-light"@.len());
            reveal_strlit("lighten");
            assert("lighten"@.len() != "hard-light"@.len());
            reveal_strlit("colorDodge");
            assert("colorDodge"@[0] != "hard-light"@[0]);
            reveal_strlit("color_dodge");
            assert("color_dodge"@.len() != "hard-light"@.len());
            reveal_strlit("color-dodge");
            assert("color-dodge"@.len() != "hard-light"@.len());
            reveal_strlit("colorBurn");
            assert("colorBurn"@.len() != "hard-light"@.len());
            reveal_strlit("color_burn");
            assert("color_burn"@[0] != "hard-light"@[0]);
            reveal_strlit("color-burn");
            assert("color-burn"@[0] != "hard-light"@[0]);
        },
        BlendMode::SoftLight => {
            reveal_strlit("soft-light");
            reveal_strlit("normal");
            assert("normal"@.len() != "soft-light"@.len());
            reveal_strlit("multiply");
            assert("multiply"@.len() != "soft-light"@.len());
            reveal_strlit("screen");
            assert("screen"@.len() != "soft-light"@.len());
            reveal_strlit("overlay");
            assert("overlay"@.len() != "soft-light"@.len());
            reveal_strlit("darken");
            assert("darken"@.len() != "soft-light"@.len());
            reveal_strlit("lighten");
            assert("lighten"@.len() != "soft-light"@.len());
            reveal_strlit("colorDodge");
            assert("colorDodge"@[0] != "soft-light"@[0]);
            reveal_strlit("color_dodge");
            assert("color_dodge"@.len() != "soft-light"@.len());
            reveal_strlit("color-dodge");
            assert("color-dodge"@.len() != "soft-light"@.len());
            reveal_strlit("colorBurn");
            assert("colorBurn"@.len() != "soft-light"@.len());
            reveal_strlit("color_burn");
            assert("color_burn"@[0] != "soft-light"@[0]);
            reveal_strlit("color-burn");
            assert("color-burn"@[0] != "soft-light"@[0]);
            reveal_strlit("hardLight");
            assert("hardLight"@.len() != "soft-light"@.len());
            reveal_strlit("hard_light");
            assert("hard_light"@[0] != "soft-light"@[0]);
            reveal_strlit("hard-light");
            assert("hard-light"@[0] != "soft-light"@[0]);
        },
        BlendMode::Difference => {
            reveal_strlit("difference");
            reveal_strlit("normal");
            assert("normal"@.len() != "difference"@.len());
            reveal_strlit("multiply");
            assert("multiply"@.len() != "difference"@.len());
            reveal_strlit("screen");
            assert("screen"@.len() != "difference"@.len());
            reveal_strlit("overlay");
            assert("overlay"@.len() != "difference"@.len());
            reveal_strlit("darken");
            assert("darken"@.len() != "difference"@.len());
            reveal_strlit("lighten");
            assert("lighten"@.len() != "difference"@.len());
            reveal_strlit("colorDodge");
            assert("colorDodge"@[0] != "difference"@[0]);
            reveal_strlit("color_dodge");
            assert("color_dodge"@.len() != "difference"@.len());
            reveal_strlit("color-dodge");
            assert("color-dodge"@.len() != "difference"@.len());
            reveal_strlit("colorBurn");
            assert("colorBurn"@.len() != "difference"@.len());
            reveal_strlit("color_burn");
            assert("color_burn"@[0] != "difference"@[0]);
            reveal_strlit("color-burn");
            assert("color-burn"@[0] != "difference"@[0]);
            reveal_strlit("hardLight");
            assert("hardLight"@.len() != "difference"@.len());
            reveal_strlit("hard_light");
            assert("hard_light"@[0] != "difference"@[0]);
            reveal_strlit("hard-light");
            assert("hard-light"@[0] != "difference"@[0]);
            reveal_strlit("softLight");
            assert("softLight"@.len() != "difference"@.len());
            reveal_strlit("soft_light");
            assert("soft_light"@[0] != "difference"@[0]);
            reveal_strlit("soft-light");
            assert("soft-light"@[0] != "difference"@[0]);
        },
        BlendMode::Exclusion => {
            reveal_strlit("exclusion");
            reveal_strlit("normal");
            assert("normal"@.len() != "exclusion"@.len());
            reveal_strlit("multiply");
            assert("multiply"@.len() != "exclusion"@.len());
            reveal_strlit("screen");
            assert("screen"@.len() != "exclusion"@.len());
            reveal_strlit("overlay");
            assert("overlay"@.len() != "exclusion"@.len());
            reveal_strlit("darken");
            assert("darken"@.len() != "exclusion"@.len());
            reveal_strlit("lighten");
            assert("lighten"@.len() != "exclusion"@.len());
            reveal_strlit("colorDodge");
            assert("colorDodge"@.len() != "exclusion"@.len());
            reveal_strlit("color_dodge");
            assert("color_dodge"@.len() != "exclusion"@.len());
            reveal_strlit("color-dodge");
            assert("color-dodge"@.len() != "exclusion"@.len());
            reveal_strlit("colorBurn");
            assert("colorBurn"@[0] != "exclusion"@[0]);
            reveal_strlit("color_burn");
            assert("color_burn"@.len() != "exclusion"@.len());
            reveal_strlit("color-burn");
            assert("color-burn"@.len() != "exclusion"@.len());
            reveal_strlit("hardLight");
            assert("hardLight"@[0] != "exclusion"@[0]);
            reveal_strlit("hard_light");
            assert("hard_light"@.len() != "exclusion"@.len());
            reveal_strlit("hard-light");
            assert("hard-light"@.len() != "exclusion"@.len());
            reveal_strlit("softLight");
            assert("softLight"@[0] != "exclusion"@[0]);
            reveal_strlit("soft_light");
            assert("soft_light"@.len() != "exclusion"@.len());
            reveal_strlit("soft-light");
            assert("soft-light"@.len() != "exclusion"@.len());
            reveal_strlit("difference");
            assert("difference"@.len() != "exclusion"@.len());
        },
        BlendMode::Hue => {
            reveal_strlit("hue");
            reveal_strlit("normal");
            assert("normal"@.len() != "hue"@.len());
            reveal_strlit("multiply");
            assert("multiply"@.len() != "hue"@.len());
            reveal_strlit("screen");
            assert("screen"@.len() != "hue"@.len());
            reveal_strlit("overlay");
            assert("overlay"@.len() != "hue"@.len());
            reveal_strlit("darken");
            assert("darken"@.len() != "hue"@.len());
            reveal_strlit("lighten");
            assert("lighten"@.len() != "hue"@.len());
            reveal_strlit("colorDodge");
            assert("colorDodge"@.len() != "hue"@.len());
            reveal_strlit("color_dodge");
            assert("color_dodge"@.len() != "hue"@.len());
            reveal_strlit("color-dodge");
            assert("color-dodge"@.len() != "hue"@.len());
            reveal_strlit("colorBurn");
            assert("colorBurn"@.len() != "hue"@.len());
            reveal_strlit("color_burn");
            assert("color_burn"@.len() != "hue"@.len());
            reveal_strlit("color-burn");
            assert("color-burn"@.len() != "hue"@.len());
            reveal_strlit("hardLight");
            assert("hardLight"@.len() != "hue"@.len());
            reveal_strlit("hard_light");
            assert("hard_light"@.len() != "hue"@.len());
            reveal_strlit("hard-light");
            assert("hard-light"@.len() != "hue"@.len());
            reveal_strlit("softLight");
            assert("softLight"@.len() != "hue"@.len());
            reveal_strlit("soft_light");
            assert("soft_light"@.len() != "hue"@.len());
            reveal_strlit("soft-light");
            assert("soft-light"@.len() != "hue"@.len());
            reveal_strlit("difference");
            assert("difference"@.len() != "hue"@.len());
            reveal_strlit("exclusion");
            assert("exclusion"@.len() != "hue"@.len());
        },
        BlendMode::Saturation => {
            reveal_strlit("saturation");
            reveal_strlit("normal");
            assert("normal"@.len() != "saturation"@.len());
            reveal_strlit("multiply");
            assert("multiply"@.len() != "saturation"@.len());
            reveal_strlit("screen");
            assert("screen"@.len() != "saturation"@.len());
            reveal_strlit("overlay");
            assert("overlay"@.len() != "saturation"@.len());
            reveal_strlit("darken");
            assert("darken"@.len() != "saturation"@.len());
            reveal_strlit("lighten");
            assert("lighten"@.len() != "saturation"@.len());
            reveal_strlit("colorDodge");
            assert("colorDodge"@[0] != "saturation"@[0]);
            reveal_strlit("color_dodge");
            assert("color_dodge"@.len() != "saturation"@.len());
            reveal_strlit("color-dodge");
            assert("color-dodge"@.len() != "saturation"@.len());
            reveal_strlit("colorBurn");
            assert("colorBurn"@.len() != "saturation"@.len());
            reveal_strlit("color_burn");
            assert("color_burn"@[0] != "saturation"@[0]);
            reveal_strlit("color-burn");
            assert("color-burn"@[0] != "saturation"@[0]);
            reveal_strlit("hardLight");
            assert("hardLight"@.len() != "saturation"@.len());
            reveal_strlit("hard_light");
            assert("hard_light"@[0] != "saturation"@[0]);
            reveal_strlit("hard-light");
            assert("hard-light"@[0] != "saturation"@[0]);
            reveal_strlit("softLight");
            assert("softLight"@.len() != "saturation"@.len());
            reveal_strlit("soft_light");
            assert("soft_light"@[1] != "saturation"@[1]);
            reveal_strlit("soft-light");
            assert("soft-light"@[1] != "saturation"@[1]);
            reveal_strlit("difference");
            assert("difference"@[0] != "saturation"@[0]);
            reveal_strlit("exclusion");
            assert("exclusion"@.len() != "saturation"@.len());
            reveal_strlit("hue");
            assert("hue"@.len() != "saturation"@.len());
        },
        BlendMode::Color => {
            reveal_strlit("color");
            reveal_strlit("normal");
            assert("normal"@.len() != "color"@.len());
            reveal_strlit("multiply");
            assert("multiply"@.len() != "color"@.len());
            reveal_strlit("screen");
            assert("screen"@.len() != "color"@.len());
            reveal_strlit("overlay");
            assert("overlay"@.len() != "color"@.len());
            reveal_strlit("darken");
            assert("darken"@.len() != "color"@.len());
            reveal_strlit("lighten");
            assert("lighten"@.len() != "color"@.len());
            reveal_strlit("colorDodge");
            assert("colorDodge"@.len() != "color"@.len());
            reveal_strlit("color_dodge");
            assert("color_dodge"@.len() != "color"@.len());
            reveal_strlit("color-dodge");
            assert("color-dodge"@.len() != "color"@.len());
            reveal_strlit("colorBurn");
            assert("colorBurn"@.len() != "color"@.len());
            reveal_strlit("color_burn");
            assert("color_burn"@.len() != "color"@.len());
            reveal_strlit("color-burn");
            assert("color-burn"@.len() != "color"@.len());
            reveal_strlit("hardLight");
            assert("hardLight"@.len() != "color"@.len());
            reveal_strlit("hard_light");
            assert("hard_light"@.len() != "color"@.len());
            reveal_strlit("hard-light");
            assert("hard-light"@.len() != "color"@.len());
            reveal_strlit("softLight");
            assert("softLight"@.len() != "color"@.len());
            reveal_strlit("soft_light");
            assert("soft_light"@.len() != "color"@.len());
            reveal_strlit("soft-light");
            assert("soft-light"@.len() != "color"@.len());
            reveal_strlit("difference");
            assert("difference"@.len() != "color"@.len());
            reveal_strlit("exclusion");
            assert("exclusion"@.len() != "color"@.len());
            reveal_strlit("hue");
            assert("hue"@.len() != "color"@.len());
            reveal_strlit("saturation");
            assert("saturation"@.len() != "color"@.len());
        },
        BlendMode::Luminosity => {
            reveal_strlit("luminosity");
            reveal_strlit("normal");
            assert("normal"@.len() != "luminosity"@.len());
            reveal_strlit("multiply");
            assert("multiply"@.len() != "luminosity"@.len());
            reveal_strlit("screen");
            assert("screen"@.len() != "luminosity"@.len());
            reveal_strlit("overlay");
            assert("overlay"@.len() != "luminosity"@.len());
            reveal_strlit("darken");
            assert("darken"@.len() != "luminosity"@.len());
            reveal_strlit("lighten");
            assert("lighten"@.len() != "luminosity"@.len());
            reveal_strlit("colorDodge");
            assert("colorDodge"@[0] != "luminosity"@[0]);
            reveal_strlit("color_dodge");
            assert("color_dodge"@.len() != "luminosity"@.len());
            reveal_strlit("color-dodge");
            assert("color-dodge"@.len() != "luminosity"@.len());
            reveal_strlit("colorBurn");
            assert("colorBurn"@.len() != "luminosity"@.len());
            reveal_strlit("color_burn");
            assert("color_burn"@[0] != "luminosity"@[0]);
            reveal_strlit("color-burn");
            assert("color-burn"@[0] != "luminosity"@[0]);
            reveal_strlit("hardLight");
            assert("hardLight"@.len() != "luminosity"@.len());
            reveal_strlit("hard_light");
            assert("hard_light"@[0] != "luminosity"@[0]);
            reveal_strlit("hard-light");
            assert("hard-light"@[0] != "luminosity"@[0]);
            reveal_strlit("softLight");
            assert("softLight"@.len() != "luminosity"@.len());
            reveal_strlit("soft_light");
            assert("soft_light"@[0] != "luminosity"@[0]);
            reveal_strlit("soft-light");
            assert("soft-light"@[0] != "luminosity"@[0]);
            reveal_strlit("difference");
            assert("difference"@[0] != "luminosity"@[0]);
            reveal_strlit("exclusion");
            assert("exclusion"@.len() != "luminosity"@.len());
            reveal_strlit("hue");
            assert("hue"@.len() != "luminosity"@.len());
            reveal_strlit("saturation");
            assert("saturation"@[0] != "luminosity"@[0]);
            reveal_strlit("color");
            assert("color"@.len() != "luminosity"@.len());
        },
        BlendMode::Addition => {
            reveal_strlit("addition");
            reveal_strlit("normal");
            assert("normal"@.len() != "addition"@.len());
            reveal_strlit("multiply");
            assert("multiply"@[0] != "addition"@[0]);
            reveal_strlit("screen");
            assert("screen"@.len() != "addition"@.len());
            reveal_strlit("overlay");
            assert("overlay"@.len() != "addition"@.len());
            reveal_strlit("darken");
            assert("darken"@.len() != "addition"@.len());
            reveal_strlit("lighten");
            assert("lighten"@.len() != "addition"@.len());
            reveal_strlit("colorDodge");
            assert("colorDodge"@.len() != "addition"@.len());
            reveal_strlit("color_dodge");
            assert("color_dodge"@.len() != "addition"@.len());
            reveal_strlit("color-dodge");
            assert("color-dodge"@.len() != "addition"@.len());
            reveal_strlit("colorBurn");
            assert("colorBurn"@.len() != "addition"@.len());
            reveal_strlit("color_burn");
            assert("color_burn"@.len() != "addition"@.len());
            reveal_strlit("color-burn");
            assert("color-burn"@.len() != "addition"@.len());
            reveal_strlit("hardLight");
            assert("hardLight"@.len() != "addition"@.len());
            reveal_strlit("hard_light");
            assert("hard_light"@.len() != "addition"@.len());
            reveal_strlit("hard-light");
            assert("hard-light"@.len() != "addition"@.len());
            reveal_strlit("softLight");
            assert("softLight"@.len() != "addition"@.len());
            reveal_strlit("soft_light");
            assert("soft_light"@.len() != "addition"@.len());
            reveal_strlit("soft-light");
            assert("soft-light"@.len() != "addition"@.len());
            reveal_strlit("difference");
            assert("difference"@.len() != "addition"@.len());
            reveal_strlit("exclusion");
            assert("exclusion"@.len() != "addition"@.len());
            reveal_strlit("hue");
            assert("hue"@.len() != "addition"@.len());
            reveal_strlit("saturation");
            assert("saturation"@.len() != "addition"@.len());
            reveal_strlit("color");
            assert("color"@.len() != "addition"@.len());
            reveal_strlit("luminosity");
            assert("luminosity"@.len() != "addition"@.len());
        },
        BlendMode::Subtract => {
            reveal_strlit("subtract");
            reveal_strlit("normal");
            assert("normal"@.len() != "subtract"@.len());
            reveal_strlit("multiply");
            assert("multiply"@[0] != "subtract"@[0]);
            reveal_strlit("screen");
            assert("screen"@.len() != "subtract"@.len());
            reveal_strlit("overlay");
            assert("overlay"@.len() != "subtract"@.len());
            reveal_strlit("darken");
            assert("darken"@.len() != "subtract"@.len());
            reveal_strlit("lighten");
            assert("lighten"@.len() != "subtract"@.len());
            reveal_strlit("colorDodge");
            assert("colorDodge"@.len() != "subtract"@.len());
            reveal_strlit("color_dodge");
            assert("color_dodge"@.len() != "subtract"@.len());
            reveal_strlit("color-dodge");
            assert("color-dodge"@.len() != "subtract"@.len());
            reveal_strlit("colorBurn");
            assert("colorBurn"@.len() != "subtract"@.len());
            reveal_strlit("color_burn");
            assert("color_burn"@.len() != "subtract"@.len());
            reveal_strlit("color-burn");
            assert("color-burn"@.len() != "subtract"@.len());
            reveal_strlit("hardLight");
            assert("hardLight"@.len() != "subtract"@.len());
            reveal_strlit("hard_light");
            assert("hard_light"@.len() != "subtract"@.len());
            reveal_strlit("hard-light");
            assert("hard-light"@.len() != "subtract"@.len());
            reveal_strlit("softLight");
            assert("softLight"@.len() != "subtract"@.len());
            reveal_strlit("soft_light");
            assert("soft_light"@.len() != "subtract"@.len());
            reveal_strlit("soft-light");
            assert("soft-light"@.len() != "subtract"@.len());
            reveal_strlit("difference");
            assert("difference"@.len() != "subtract"@.len());
            reveal_strlit("exclusion");
            assert("exclusion"@.len() != "subtract"@.len());
            reveal_strlit("hue");
            assert("hue"@.len() != "subtract"@.len());
            reveal_strlit("saturation");
            assert("saturation"@.len() != "subtract"@.len());
            reveal_strlit("color");
            assert("color"@.len() != "subtract"@.len());
            reveal_strlit("luminosity");
            assert("luminosity"@.len() != "subtract"@.len());
            reveal_strlit("addition");
            assert("addition"@[0] != "subtract"@[0]);
        },
        BlendMode::Divide => {
            reveal_strlit("divide");
            reveal_strlit("normal");
            assert("normal"@[0] != "divide"@[0]);
            reveal_strlit("multiply");
            assert("multiply"@.len() != "divide"@.len());
            reveal_strlit("screen");
            assert("screen"@[0] != "divide"@[0]);
            reveal_strlit("overlay");
            assert("overlay"@.len() != "divide"@.len());
            reveal_strlit("darken");
            assert("darken"@[1] != "divide"@[1]);
            reveal_strlit("lighten");
            assert("lighten"@.len() != "divide"@.len());
            reveal_strlit("colorDodge");
            assert("colorDodge"@.len() != "divide"@.len());
            reveal_strlit("color_dodge");
            assert("color_dodge"@.len() != "divide"@.len());
            reveal_strlit("color-dodge");
            assert("color-dodge"@.len() != "divide"@.len());
            reveal_strlit("colorBurn");
            assert("colorBurn"@.len() != "divide"@.len());
            reveal_strlit("color_burn");
            assert("color_burn"@.len() != "divide"@.len());
            reveal_strlit("color-burn");
            assert("color-burn"@.len() != "divide"@.len());
            reveal_strlit("hardLight");
            assert("hardLight"@.len() != "divide"@.len());
            reveal_strlit("hard_light");
            assert("hard_light"@.len() != "divide"@.len());
            reveal_strlit("hard-light");
            assert("hard-light"@.len() != "divide"@.len());
            reveal_strlit("softLight");
            assert("softLight"@.len() != "divide"@.len());
            reveal_strlit("soft_light");
            assert("soft_light"@.len() != "divide"@.len());
            reveal_strlit("soft-light");
            assert("soft-light"@.len() != "divide"@.len());
            reveal_strlit("difference");
            assert("difference"@.len() != "divide"@.len());
            reveal_strlit("exclusion");
            assert("exclusion"@.len() != "divide"@.len());
            reveal_strlit("hue");
            assert("hue"@.len() != "divide"@.len());
            reveal_strlit("saturation");
            assert("saturation"@.len() != "divide"@.len());
            reveal_strlit("color");
            assert("color"@.len() != "divide"@.len());
            reveal_strlit("luminosity");
            assert("luminosity"@.len() != "divide"@.len());
            reveal_strlit("addition");
            assert("addition"@.len() != "divide"@.len());
            reveal_strlit("subtract");
            assert("subtract"@.len() != "divide"@.len());
        },
        BlendMode::PassThrough => {
            reveal_strlit("pass-through");
            reveal_strlit("normal");
            assert("normal"@.len() != "pass-through"@.len());
            reveal_strlit("multiply");
            assert("multiply"@.len() != "pass-through"@.len());
            reveal_strlit("screen");
            assert("screen"@.len() != "pass-through"@.len());
            reveal_strlit("overlay");
            assert("overlay"@.len() != "pass-through"@.len());
            reveal_strlit("darken");
            assert("darken"@.len() != "pass-through"@.len());
            reveal_strlit("lighten");
            assert("lighten"@.len() != "pass-through"@.len());
            reveal_strlit("colorDodge");
            assert("colorDodge"@.len() != "pass-through"@.len());
            reveal_strlit("color_dodge");
            assert("color_dodge"@.len() != "pass-through"@.len());
            reveal_strlit("color-dodge");
            assert("color-dodge"@.len() != "pass-through"@.len());
            reveal_strlit("colorBurn");
            assert("colorBurn"@.len() != "pass-through"@.len());
            reveal_strlit("color_burn");
            assert("color_burn"@.len() != "pass-through"@.len());
            reveal_strlit("color-burn");
            assert("color-burn"@.len() != "pass-through"@.len());
            reveal_strlit("hardLight");
            assert("hardLight"@.len() != "pass-through"@.len());
            reveal_strlit("hard_light");
            assert("hard_light"@.len() != "pass-through"@.len());
            reveal_strlit("hard-light");
            assert("hard-light"@.len() != "pass-through"@.len());
            reveal_strlit("softLight");
            assert("softLight"@.len() != "pass-through"@.len());
            reveal_strlit("soft_light");
            assert("soft_light"@.len() != "pass-through"@.len());
            reveal_strlit("soft-light");
            assert("soft-light"@.len() != "pass-through"@.len());
            reveal_strlit("difference");
            assert("difference"@.len() != "pass-through"@.len());
            reveal_strlit("exclusion");
            assert("exclusion"@.len() != "pass-through"@.len());
            reveal_strlit("hue");
            assert("hue"@.len() != "pass-through"@.len());
            reveal_strlit("saturation");
            assert("saturation"@.len() != "pass-through"@.len());
            reveal_strlit("color");
            assert("color"@.len() != "pass-through"@.len());
            reveal_strlit("luminosity");
            assert("luminosity"@.len() != "pass-through"@.len());
            reveal_strlit("addition");
            assert("addition"@.len() != "pass-through"@.len());
            reveal_strlit("subtract");
            assert("subtract"@.len() != "pass-through"@.len());
            reveal_strlit("divide");
            assert("divide"@.len() != "pass-through"@.len());
        },
        BlendMode::DestinationIn => {
            reveal_strlit("destination-in");
            reveal_strlit("normal");
            assert("normal"@.len() != "destination-in"@.len());
            reveal_strlit("multiply");
            assert("multiply"@.len() != "destination-in"@.len());
            reveal_strlit("screen");
            assert("screen"@.len() != "destination-in"@.len());
            reveal_strlit("overlay");
            assert("overlay"@.len() != "destination-in"@.len());
            reveal_strlit("darken");
            assert("darken"@.len() != "destination-in"@.len());
            reveal_strlit("lighten");
            assert("lighten"@.len() != "destination-in"@.len());
            reveal_strlit("colorDodge");
            assert("colorDodge"@.len() != "destination-in"@.len());
            reveal_strlit("color_dodge");
            assert("color_dodge"@.len() != "destination-in"@.len());
            reveal_strlit("color-dodge");
            assert("color-dodge"@.len() != "destination-in"@.len());
            reveal_strlit("colorBurn");
            assert("colorBurn"@.len() != "destination-in"@.len());
            reveal_strlit("color_burn");
            assert("color_burn"@.len() != "destination-in"@.len());
            reveal_strlit("color-burn");
            assert("color-burn"@.len() != "destination-in"@.len());
            reveal_strlit("hardLight");
            assert("hardLight"@.len() != "destination-in"@.len());
            reveal_strlit("hard_light");
            assert("hard_light"@.len() != "destination-in"@.len());
            reveal_strlit("hard-light");
            assert("hard-light"@.len() != "destination-in"@.len());
            reveal_strlit("softLight");
            assert("softLight"@.len() != "destination-in"@.len());
            reveal_strlit("soft_light");
            assert("soft_light"@.len() != "destination-in"@.len());
            reveal_strlit("soft-light");
            assert("soft-light"@.len() != "destination-in"@.len());
            reveal_strlit("difference");
            assert("difference"@.len() != "destination-in"@.len());
            reveal_strlit("exclusion");
            assert("exclusion"@.len() != "destination-in"@.len());
            reveal_strlit("hue");
            assert("hue"@.len() != "destination-in"@.len());
            reveal_strlit("saturation");
            assert("saturation"@.len() != "destination-in"@.len());
            reveal_strlit("color");
            assert("color"@.len() != "destination-in"@.len());
            reveal_strlit("luminosity");
            assert("luminosity"@.len() != "destination-in"@.len());
            reveal_strlit("addition");
            assert("addition"@.len() != "destination-in"@.len());
            reveal_strlit("subtract");
            assert("subtract"@.len() != "destination-in"@.len());
            reveal_strlit("divide");
            assert("divide"@.len() != "destination-in"@.len());
            reveal_strlit("passThrough");
            assert("passThrough"@.len() != "destination-in"@.len());
            reveal_strlit("pass_through");
            assert("pass_through"@.len() != "destination-in"@.len());
            reveal_strlit("pass-through");
            assert("pass-through"@.len() != "destination-in"@.len());
        },
        BlendMode::DestinationOut => {
            reveal_strlit("destination-out");
            reveal_strlit("normal");
            assert("normal"@.len() != "destination-out"@.len());
            reveal_strlit("multiply");
            assert("multiply"@.len() != "destination-out"@.len());
            reveal_strlit("screen");
            assert("screen"@.len() != "destination-out"@.len());
            reveal_strlit("overlay");
            assert("overlay"@.len() != "destination-out"@.len());
            reveal_strlit("darken");
            assert("darken"@.len() != "destination-out"@.len());
            reveal_strlit("lighten");
            assert("lighten"@.len() != "destination-out"@.len());
            reveal_strlit("colorDodge");
            assert("colorDodge"@.len() != "destination-out"@.len());
            reveal_strlit("color_dodge");
            assert("color_dodge"@.len() != "destination-out"@.len());
            reveal_strlit("color-dodge");
            assert("color-dodge"@.len() != "destination-out"@.len());
            reveal_strlit("colorBurn");
            assert("colorBurn"@.len() != "destination-out"@.len());
            reveal_strlit("color_burn");
            assert("color_burn"@.len() != "destination-out"@.len());
            reveal_strlit("color-burn");
            assert("color-burn"@.len() != "destination-out"@.len());
            reveal_strlit("hardLight");
            assert("hardLight"@.len() != "destination-out"@.len());
            reveal_strlit("hard_light");
            assert("hard_light"@.len() != "destination-out"@.len());
            reveal_strlit("hard-light");
            assert("hard-light"@.len() != "destination-out"@.len());
            reveal_strlit("softLight");
            assert("softLight"@.len() != "destination-out"@.len());
            reveal_strlit("soft_light");
            assert("soft_light"@.len() != "destination-out"@.len());
            reveal_strlit("soft-light");
            assert("soft-light"@.len() != "destination-out"@.len());
            reveal_strlit("difference");
            assert("difference"@.len() != "destination-out"@.len());
            reveal_strlit("exclusion");
            assert("exclusion"@.len() != "destination-out"@.len());
            reveal_strlit("hue");
            assert("hue"@.len() != "destination-out"@.len());
            reveal_strlit("saturation");
            assert("saturation"@.len() != "destination-out"@.len());
            reveal_strlit("color");
            assert("color"@.len() != "destination-out"@.len());
            reveal_strlit("luminosity");
            assert("luminosity"@.len() != "destination-out"@.len());
            reveal_strlit("addition");
            assert("addition"@.len() != "destination-out"@.len());
            reveal_strlit("subtract");
            assert("subtract"@.len() != "destination-out"@.len());
            reveal_strlit("divide");
            assert("divide"@.len() != "destination-out"@.len());
            reveal_strlit("passThrough");
            assert("passThrough"@.len() != "destination-out"@.len());
            reveal_strlit("pass_through");
            assert("pass_through"@.len() != "destination-out"@.len());
            reveal_strlit("pass-through");
            assert("pass-through"@.len() != "destination-out"@.len());
            reveal_strlit("destinationIn");
            assert("destinationIn"@.len() != "destination-out"@.len());
            reveal_strlit("destination_in");
            assert("destination_in"@.len() != "destination-out"@.len());
            reveal_strlit("destination-in");
            assert("destination-in"@.len() != "destination-out"@.len());
        },
    }
}


/// Reading a mode back from its numeric code gives the same mode.
pub proof fn lemma_code_round_trip(m: BlendMode)
    ensures
        mode_of_code(code_of(m)) == Some(m),
{
}

/// A code names a mode exactly when it is below the number of modes, and
/// the mode named gives the code back.
pub proof fn lemma_code_exact(v: u32)
    ensures
        mode_of_code(v) is Some <==> v < 22,
        mode_of_code(v) is Some ==> code_of(mode_of_code(v)->0) == v,
{
}

} // verus!
