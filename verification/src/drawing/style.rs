//! Colours, lengths and the colour options that every style shares.

use vstd::prelude::*;

verus! {

/// A colour as four channels of eight bits.
#[derive(Clone, Copy, Debug, PartialEq, Eq, Structural)]
pub struct Color {
    pub red: u8,
    pub green: u8,
    pub blue: u8,
    pub alpha: u8,
}

impl Color {
    /// The colour of the given channels.
    pub fn from_rgba8(red: u8, green: u8, blue: u8, alpha: u8) -> (color: Color)
        ensures
            color == (Color { red, green, blue, alpha }),
    {
        Color { red, green, blue, alpha }
    }

    /// The four channels in the order red, green, blue, alpha.
    pub open spec fn channels(self) -> Seq<u8> {
        seq![self.red, self.green, self.blue, self.alpha]
    }

    /// The colour as a hex code: a hash sign and two lowercase hex digits
    /// for each of red, green, blue and alpha.
    pub open spec fn hex_code(self) -> Seq<char> {
        seq!['#'] + hex_text(self.channels())
    }

    /// Writes the colour as a hex code.
    pub fn as_hex_code(&self) -> (code: String)
        ensures
            code@ == self.hex_code(),
    {
        let mut bytes: Vec<u8> = Vec::new();
        bytes.push(self.red);
        bytes.push(self.green);
        bytes.push(self.blue);
        bytes.push(self.alpha);
        assert(bytes@ =~= self.channels());
        let digits = encode_hex(&bytes);
        let mut code = String::from_str("#");
        proof {
            reveal_strlit("#");
            assert("#"@ =~= seq!['#']);
        }
        code.append(digits.as_str());
        code
    }
}

/// A length on the canvas in hundredths of a pixel.
#[derive(Clone, Copy, Debug, PartialEq, Eq, Structural)]
pub struct Length {
    pub hundredths: u32,
}

impl Length {
    /// The length of `whole` pixels.
    pub fn pixels(whole: u16) -> (length: Length)
        ensures
            length.hundredths == 100 * whole,
    {
        Length { hundredths: 100 * (whole as u32) }
    }

    /// The length in pixels as a decimal number: the whole pixels, and after
    /// a point the hundredths where there are any, without a trailing zero.
    pub open spec fn text(self) -> Seq<char> {
        let whole = (self.hundredths / 100) as nat;
        let rest = (self.hundredths % 100) as int;
        if rest == 0 {
            decimal_text(whole)
        } else if rest % 10 == 0 {
            decimal_text(whole) + seq!['.'] + seq![digit_char(rest / 10)]
        } else {
            decimal_text(whole) + seq!['.'] + seq![digit_char(rest / 10)] + seq![digit_char(rest % 10)]
        }
    }

    /// Writes the length in pixels as a decimal number.
    pub fn to_text(&self) -> (text: String)
        ensures
            text@ == self.text(),
    {
        let whole = self.hundredths / 100;
        let rest = self.hundredths % 100;
        let mut text = decimal(whole);
        if rest != 0 {
            proof {
                reveal_strlit(".");
                assert("."@ =~= seq!['.']);
            }
            text.append(".");
            text.append(digit_str(rest / 10));
            if rest % 10 != 0 {
                text.append(digit_str(rest % 10));
            }
        }
        text
    }
}

/// The decimal digit of a value below ten.
pub open spec fn digit_char(value: int) -> char {
    seq!['0', '1', '2', '3', '4', '5', '6', '7', '8', '9'][value]
}

/// A number written in decimal digits, without leading zeros.
pub open spec fn decimal_text(value: nat) -> Seq<char>
    decreases value,
{
    if value < 10 {
        seq![digit_char(value as int)]
    } else {
        decimal_text(value / 10) + seq![digit_char((value % 10) as int)]
    }
}

/// The text of one decimal digit.
fn digit_str(value: u32) -> (text: &'static str)
    requires
        value < 10,
    ensures
        text@ == seq![digit_char(value as int)],
{
    proof {
        reveal_strlit("0");
        reveal_strlit("1");
        reveal_strlit("2");
        reveal_strlit("3");
        reveal_strlit("4");
        reveal_strlit("5");
        reveal_strlit("6");
        reveal_strlit("7");
        reveal_strlit("8");
        reveal_strlit("9");
    }
    let text = if value == 0 {
        "0"
    } else if value == 1 {
        "1"
    } else if value == 2 {
        "2"
    } else if value == 3 {
        "3"
    } else if value == 4 {
        "4"
    } else if value == 5 {
        "5"
    } else if value == 6 {
        "6"
    } else if value == 7 {
        "7"
    } else if value == 8 {
        "8"
    } else {
        "9"
    };
    assert(text@ =~= seq![digit_char(value as int)]);
    text
}

/// Writes a number in decimal digits.
pub fn decimal(value: u32) -> (text: String)
    ensures
        text@ == decimal_text(value as nat),
    decreases value,
{
    if value < 10 {
        String::from_str(digit_str(value))
    } else {
        let mut text = decimal(value / 10);
        text.append(digit_str(value % 10));
        text
    }
}

/// The lowercase hex digit of a value below sixteen.
pub open spec fn hex_digit(value: int) -> char {
    seq!['0', '1', '2', '3', '4', '5', '6', '7', '8', '9', 'a', 'b', 'c', 'd', 'e', 'f'][value]
}

/// Bytes written as lowercase hex digits, two for each byte, the high half
/// first.
pub open spec fn hex_text(bytes: Seq<u8>) -> Seq<char> {
    Seq::new(
        2 * bytes.len(),
        |position: int|
            if position % 2 == 0 {
                hex_digit(bytes[position / 2] as int / 16)
            } else {
                hex_digit(bytes[position / 2] as int % 16)
            },
    )
}

/// `hex::encode`: the bytes as a string of lowercase hex digits, two for
/// each byte.
#[verifier::external_body]
fn encode_hex(bytes: &Vec<u8>) -> (text: String)
    ensures
        text@ == hex_text(bytes@),
{
    hex::encode(bytes)
}

/// The background that is used where a style names none.
pub open spec fn default_background() -> Color {
    Color { red: 26, green: 26, blue: 26, alpha: 255 }
}

/// The colour options that every style has.
#[derive(Clone, Copy, Debug, PartialEq, Eq, Structural)]
pub struct ColorOptions {
    /// The colour of fills and of the inner stroke of lines.
    pub foreground: Color,
    /// The colour of borders; where absent, the default background.
    pub background: Option<Color>,
    /// Whether edges are smoothed.
    pub anti_alias: bool,
    /// The width of the border; no border is drawn where absent.
    pub border: Option<Length>,
}

impl ColorOptions {
    /// The options that a style has unless told otherwise.
    pub open spec fn standard() -> ColorOptions {
        ColorOptions {
            foreground: Color { red: 248, green: 248, blue: 248, alpha: 255 },
            background: Some(default_background()),
            anti_alias: true,
            border: Some(Length { hundredths: 100 }),
        }
    }

    /// The colour that borders are drawn in.
    pub open spec fn border_color(self) -> Color {
        match self.background {
            Some(color) => color,
            None => default_background(),
        }
    }

    /// `self` overridden by `later`: the foreground and the anti-aliasing
    /// are those of `later`; the background and the border are those of
    /// `later` where it has them, else those of `self`.
    pub open spec fn merged(self, later: ColorOptions) -> ColorOptions {
        ColorOptions {
            foreground: later.foreground,
            background: if later.background is Some {
                later.background
            } else {
                self.background
            },
            anti_alias: later.anti_alias,
            border: if later.border is Some {
                later.border
            } else {
                self.border
            },
        }
    }

    /// Merges two sets of options, the later one winning.
    pub fn merge(self, later: ColorOptions) -> (merged: ColorOptions)
        ensures
            merged == self.merged(later),
    {
        ColorOptions {
            foreground: later.foreground,
            background: match later.background {
                Some(color) => Some(color),
                None => self.background,
            },
            anti_alias: later.anti_alias,
            border: match later.border {
                Some(width) => Some(width),
                None => self.border,
            },
        }
    }

    /// The colour that borders are drawn in.
    pub fn background_or_default(&self) -> (color: Color)
        ensures
            color == self.border_color(),
    {
        match self.background {
            Some(color) => color,
            None => Color::from_rgba8(26, 26, 26, 255),
        }
    }

    /// The foreground as a hex code.
    pub fn foreground_as_hex_code(&self) -> (code: String)
        ensures
            code@ == self.foreground.hex_code(),
    {
        self.foreground.as_hex_code()
    }

    /// The colour of borders as a hex code.
    pub fn background_as_hex_code(&self) -> (code: String)
        ensures
            code@ == self.border_color().hex_code(),
    {
        self.background_or_default().as_hex_code()
    }
}

impl Default for ColorOptions {
    fn default() -> (options: ColorOptions)
        ensures
            options == ColorOptions::standard(),
    {
        ColorOptions {
            foreground: Color::from_rgba8(248, 248, 248, 255),
            background: Some(Color::from_rgba8(26, 26, 26, 255)),
            anti_alias: true,
            border: Some(Length::pixels(1)),
        }
    }
}

/// Merging colour options is associative: it does not matter which two of
/// three sets are merged first.
pub proof fn lemma_color_merge_is_associative(
    first: ColorOptions,
    second: ColorOptions,
    third: ColorOptions,
)
    ensures
        first.merged(second).merged(third) == first.merged(second.merged(third)),
{
}

/// Merging colour options is right-biased: a border of the later set wins,
/// and only where the later set has none does the earlier border stay.  The
/// same holds of the background.
pub proof fn lemma_color_merge_is_right_biased(earlier: ColorOptions, later: ColorOptions)
    ensures
        later.border is Some ==> earlier.merged(later).border == later.border,
        later.border is None ==> earlier.merged(later).border == earlier.border,
        later.background is Some ==> earlier.merged(later).background == later.background,
        later.background is None ==> earlier.merged(later).background == earlier.background,
        earlier.merged(later).foreground == later.foreground,
        earlier.merged(later).anti_alias == later.anti_alias,
{
}

} // verus!
