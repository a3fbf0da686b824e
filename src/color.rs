use vstd::prelude::*;
use vstd::string::StringExecFns;

verus! {

/// A colour in the RGBA format, four independent channels, not premultiplied.
#[derive(Debug, Clone, Copy, PartialEq, Eq, Structural, Hash)]
pub struct Color {
    /// The red component.
    pub red: u8,
    /// The green component.
    pub green: u8,
    /// The blue component.
    pub blue: u8,
    /// The alpha component.
    pub alpha: u8,
}

/// The colour packed as `0xRRGGBB`.
pub open spec fn rgb_value(c: Color) -> int {
    c.red as int * 0x10000 + c.green as int * 0x100 + c.blue as int
}

/// The colour packed as `0xRRGGBBAA`.
pub open spec fn rgba_value(c: Color) -> int {
    c.red as int * 0x1000000 + c.green as int * 0x10000 + c.blue as int * 0x100 + c.alpha as int
}

/// The colour packed as `0xAARRGGBB`.
pub open spec fn argb_value(c: Color) -> int {
    c.alpha as int * 0x1000000 + c.red as int * 0x10000 + c.green as int * 0x100 + c.blue as int
}

/// The byte `n` of `v`, counted from the least significant one.
pub open spec fn byte_of(v: u32, n: nat) -> u8 {
    ((v as int / pow256(n)) % 256) as u8
}

/// 256 to the power `n`.
pub open spec fn pow256(n: nat) -> int
    decreases n,
{
    if n == 0 {
        1
    } else {
        256 * pow256((n - 1) as nat)
    }
}

/// The byte of `value` that starts at bit `shift`.
fn channel(value: u32, shift: u32) -> (b: u8)
    requires
        shift == 0 || shift == 8 || shift == 16 || shift == 24,
    ensures
        b == byte_of(value, (shift / 8) as nat),
{
    reveal_with_fuel(pow256, 4);
    let r = (value >> shift) & 0xff;
    assert(r < 256) by (bit_vector)
        requires
            r == (value >> shift) & 0xff,
    ;
    if shift == 0 {
        assert((value >> 0u32) & 0xff == value % 256) by (bit_vector);
    } else if shift == 8 {
        assert((value >> 8u32) & 0xff == (value / 256) % 256) by (bit_vector);
    } else if shift == 16 {
        assert((value >> 16u32) & 0xff == (value / 65536) % 256) by (bit_vector);
    } else {
        assert((value >> 24u32) & 0xff == (value / 16777216) % 256) by (bit_vector);
    }
    r as u8
}

/// A value is the sum of its four bytes.
proof fn lemma_bytes_sum(v: u32)
    ensures
        v as int == byte_of(v, 3) as int * 0x1000000 + byte_of(v, 2) as int * 0x10000
            + byte_of(v, 1) as int * 0x100 + byte_of(v, 0) as int,
{
    reveal_with_fuel(pow256, 4);
    assert(v == (v / 16777216) % 256 * 0x1000000 + (v / 65536) % 256 * 0x10000 + (v / 256)
        % 256 * 0x100 + v % 256) by (bit_vector);
}

impl Color {
    /// Creates a colour from a value in the `0xRRGGBB` format; the alpha is
    /// opaque and any bits above the lowest 24 are ignored.
    pub fn from_rgb_u32(value: u32) -> (c: Color)
        ensures
            c.red == byte_of(value, 2),
            c.green == byte_of(value, 1),
            c.blue == byte_of(value, 0),
            c.alpha == 0xff,
    {
        Color { red: channel(value, 16), green: channel(value, 8), blue: channel(value, 0), alpha: 0xff }
    }

    /// Creates a colour from a value in the `0xRRGGBBAA` format.
    pub fn from_rgba_u32(value: u32) -> (c: Color)
        ensures
            c.red == byte_of(value, 3),
            c.green == byte_of(value, 2),
            c.blue == byte_of(value, 1),
            c.alpha == byte_of(value, 0),
            rgba_value(c) == value,
    {
        proof {
            lemma_bytes_sum(value);
        }
        Color {
            red: channel(value, 24),
            green: channel(value, 16),
            blue: channel(value, 8),
            alpha: channel(value, 0),
        }
    }

    /// Creates a colour from a value in the `0xAARRGGBB` format.
    pub fn from_argb_u32(value: u32) -> (c: Color)
        ensures
            c.alpha == byte_of(value, 3),
            c.red == byte_of(value, 2),
            c.green == byte_of(value, 1),
            c.blue == byte_of(value, 0),
            argb_value(c) == value,
    {
        proof {
            lemma_bytes_sum(value);
        }
        Color {
            red: channel(value, 16),
            green: channel(value, 8),
            blue: channel(value, 0),
            alpha: channel(value, 24),
        }
    }
    /// Returns the colour packed as `0xRRGGBB`, without its alpha.
    pub fn as_rgb_u32(&self) -> (r: u32)
        ensures
            r == rgb_value(*self),
    {
        let (red, green, blue) = (self.red as u32, self.green as u32, self.blue as u32);
        assert(red < 256 && green < 256 && blue < 256 ==> (red << 16) | (green << 8) | blue
            == red * 0x10000 + green * 0x100 + blue) by (bit_vector);
        (red << 16) | (green << 8) | blue
    }

    /// Returns the colour packed as `0xRRGGBBAA`.
    pub fn as_rgba_u32(&self) -> (r: u32)
        ensures
            r == rgba_value(*self),
    {
        let (red, green, blue, alpha) = (
            self.red as u32,
            self.green as u32,
            self.blue as u32,
            self.alpha as u32,
        );
        assert(red < 256 && green < 256 && blue < 256 && alpha < 256 ==> (red << 24) | (green
            << 16) | (blue << 8) | alpha == red * 0x1000000 + green * 0x10000 + blue * 0x100
            + alpha) by (bit_vector);
        (red << 24) | (green << 16) | (blue << 8) | alpha
    }

    /// Returns the colour packed as `0xAARRGGBB`.
    pub fn as_argb_u32(&self) -> (r: u32)
        ensures
            r == argb_value(*self),
    {
        let (red, green, blue, alpha) = (
            self.red as u32,
            self.green as u32,
            self.blue as u32,
            self.alpha as u32,
        );
        assert(red < 256 && green < 256 && blue < 256 && alpha < 256 ==> (alpha << 24) | (red
            << 16) | (green << 8) | blue == alpha * 0x1000000 + red * 0x10000 + green * 0x100
            + blue) by (bit_vector);
        (alpha << 24) | (red << 16) | (green << 8) | blue
    }
}

/// The characters of hexadecimal digits, by value.
pub open spec fn hex_chars() -> Seq<char> {
    seq!['0', '1', '2', '3', '4', '5', '6', '7', '8', '9', 'a', 'b', 'c', 'd', 'e', 'f']
}

/// `n` in lower-case hexadecimal, without leading zeros.
pub open spec fn hex_of(n: nat) -> Seq<char>
    decreases n,
{
    if n < 16 {
        seq![hex_chars()[n as int]]
    } else {
        hex_of(n / 16).push(hex_chars()[(n % 16) as int])
    }
}

/// The one-character string of the hexadecimal digit `d`.
fn hex_digit(d: u32) -> (r: &'static str)
    requires
        d < 16,
    ensures
        r@ == seq![hex_chars()[d as int]],
{
    if d == 0 {
        proof {
            reveal_strlit("0");
        }
        assert("0"@ =~= seq![hex_chars()[0]]);
        "0"
    } else if d == 1 {
        proof {
            reveal_strlit("1");
        }
        assert("1"@ =~= seq![hex_chars()[1]]);
        "1"
    } else if d == 2 {
        proof {
            reveal_strlit("2");
        }
        assert("2"@ =~= seq![hex_chars()[2]]);
        "2"
    } else if d == 3 {
        proof {
            reveal_strlit("3");
        }
        assert("3"@ =~= seq![hex_chars()[3]]);
        "3"
    } else if d == 4 {
        proof {
            reveal_strlit("4");
        }
        assert("4"@ =~= seq![hex_chars()[4]]);
        "4"
    } else if d == 5 {
        proof {
            reveal_strlit("5");
        }
        assert("5"@ =~= seq![hex_chars()[5]]);
        "5"
    } else if d == 6 {
        proof {
            reveal_strlit("6");
        }
        assert("6"@ =~= seq![hex_chars()[6]]);
        "6"
    } else if d == 7 {
        proof {
            reveal_strlit("7");
        }
        assert("7"@ =~= seq![hex_chars()[7]]);
        "7"
    } else if d == 8 {
        proof {
            reveal_strlit("8");
        }
        assert("8"@ =~= seq![hex_chars()[8]]);
        "8"
    } else if d == 9 {
        proof {
            reveal_strlit("9");
        }
        assert("9"@ =~= seq![hex_chars()[9]]);
        "9"
    } else if d == 10 {
        proof {
            reveal_strlit("a");
        }
        assert("a"@ =~= seq![hex_chars()[10]]);
        "a"
    } else if d == 11 {
        proof {
            reveal_strlit("b");
        }
        assert("b"@ =~= seq![hex_chars()[11]]);
        "b"
    } else if d == 12 {
        proof {
            reveal_strlit("c");
        }
        assert("c"@ =~= seq![hex_chars()[12]]);
        "c"
    } else if d == 13 {
        proof {
            reveal_strlit("d");
        }
        assert("d"@ =~= seq![hex_chars()[13]]);
        "d"
    } else if d == 14 {
        proof {
            reveal_strlit("e");
        }
        assert("e"@ =~= seq![hex_chars()[14]]);
        "e"
    } else {
        proof {
            reveal_strlit("f");
        }
        assert("f"@ =~= seq![hex_chars()[15]]);
        "f"
    }
}

/// Appends `n` in hexadecimal to `s`.
fn append_hex(s: &mut String, n: u32)
    ensures
        final(s)@ == old(s)@ + hex_of(n as nat),
    decreases n,
{
    if n >= 16 {
        append_hex(s, n / 16);
    }
    s.append(hex_digit(n % 16));
    assert(final(s)@ =~= old(s)@ + hex_of(n as nat));
}

/// Relies on `rand::random::<u8>`: a byte drawn from the thread-local
/// generator, of which nothing is promised.
#[verifier::external_body]
fn random_byte() -> (b: u8) {
    rand::random::<u8>()
}

impl Color {
    /// Returns the colour as lower-case hexadecimal `RRGGBB` without leading
    /// zeros, dropping the alpha, and prefixed with `#` when asked.
    pub fn as_hex(&self, include_octothorpe: bool) -> (r: String)
        ensures
            r@ == (if include_octothorpe {
                seq!['#']
            } else {
                Seq::<char>::empty()
            }) + hex_of(rgb_value(*self) as nat),
    {
        let mut result = String::new();
        if include_octothorpe {
            proof {
                reveal_strlit("#");
            }
            result.append("#");
        }
        append_hex(&mut result, self.as_rgb_u32());
        result
    }

    /// Returns an opaque colour whose channels are drawn at random.
    pub fn random() -> (c: Color)
        ensures
            c.alpha == 0xff,
    {
        let red = random_byte();
        let green = random_byte();
        let blue = random_byte();
        Color { red, green, blue, alpha: 0xff }
    }

    /// Opaque white.
    pub fn white() -> (c: Color)
        ensures
            c.red == 0xff,
            c.green == 0xff,
            c.blue == 0xff,
            c.alpha == 0xff,
    {
        Color { red: 0xff, green: 0xff, blue: 0xff, alpha: 0xff }
    }

    /// Opaque black.
    pub fn black() -> (c: Color)
        ensures
            c.red == 0x00,
            c.green == 0x00,
            c.blue == 0x00,
            c.alpha == 0xff,
    {
        Color { red: 0x00, green: 0x00, blue: 0x00, alpha: 0xff }
    }

    /// Fully transparent black.
    pub fn clear() -> (c: Color)
        ensures
            c.red == 0x00,
            c.green == 0x00,
            c.blue == 0x00,
            c.alpha == 0x00,
    {
        Color { red: 0x00, green: 0x00, blue: 0x00, alpha: 0x00 }
    }

    /// Opaque red.
    pub fn red() -> (c: Color)
        ensures
            c.red == 0xff,
            c.green == 0x00,
            c.blue == 0x00,
            c.alpha == 0xff,
    {
        Color { red: 0xff, green: 0x00, blue: 0x00, alpha: 0xff }
    }

    /// Opaque yellow.
    pub fn yellow() -> (c: Color)
        ensures
            c.red == 0xff,
            c.green == 0xff,
            c.blue == 0x00,
            c.alpha == 0xff,
    {
        Color { red: 0xff, green: 0xff, blue: 0x00, alpha: 0xff }
    }

    /// Opaque green.
    pub fn green() -> (c: Color)
        ensures
            c.red == 0x00,
            c.green == 0xff,
            c.blue == 0x00,
            c.alpha == 0xff,
    {
        Color { red: 0x00, green: 0xff, blue: 0x00, alpha: 0xff }
    }

    /// Opaque cyan.
    pub fn cyan() -> (c: Color)
        ensures
            c.red == 0x00,
            c.green == 0xff,
            c.blue == 0xff,
            c.alpha == 0xff,
    {
        Color { red: 0x00, green: 0xff, blue: 0xff, alpha: 0xff }
    }

    /// Opaque blue.
    pub fn blue() -> (c: Color)
        ensures
            c.red == 0x00,
            c.green == 0x00,
            c.blue == 0xff,
            c.alpha == 0xff,
    {
        Color { red: 0x00, green: 0x00, blue: 0xff, alpha: 0xff }
    }

    /// Opaque magenta.
    pub fn magenta() -> (c: Color)
        ensures
            c.red == 0xff,
            c.green == 0x00,
            c.blue == 0xff,
            c.alpha == 0xff,
    {
        Color { red: 0xff, green: 0x00, blue: 0xff, alpha: 0xff }
    }
}

impl Default for Color {
    fn default() -> (c: Color)
        ensures
            c == (Color { red: 0, green: 0, blue: 0, alpha: 0xff }),
    {
        Color::black()
    }
}

impl From<[u8; 4]> for Color {
    fn from(array: [u8; 4]) -> (c: Color) {
        Color { red: array[0], green: array[1], blue: array[2], alpha: array[3] }
    }
}

impl vstd::std_specs::convert::FromSpecImpl<[u8; 4]> for Color {
    open spec fn obeys_from_spec() -> bool {
        true
    }

    open spec fn from_spec(array: [u8; 4]) -> Color {
        Color { red: array@[0], green: array@[1], blue: array@[2], alpha: array@[3] }
    }
}

} // verus!
