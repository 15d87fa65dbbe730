//! Color resolution: hex color literals, the fixed 256-color table, and the
//! terminal theme that maps color references from the emulator to concrete
//! RGBA values.

use vstd::prelude::*;

verus! {

/// A concrete color, 8 bits per channel. `a == 255` is fully opaque.
#[derive(Clone, Copy, Debug, PartialEq, Eq, Structural)]
pub struct Rgba {
    pub r: u8,
    pub g: u8,
    pub b: u8,
    pub a: u8,
}

/// Why a configured color string was rejected.
#[derive(Clone, Copy, Debug, PartialEq, Eq, Structural)]
pub enum ColorError {
    /// The string is not 7 or 9 characters long.
    BadLength,
    /// A character in the digit positions is not a hexadecimal digit.
    BadDigit,
}

pub open spec fn is_hex_digit(c: char) -> bool {
    ||| ('0' <= c && c <= '9')
    ||| ('a' <= c && c <= 'f')
    ||| ('A' <= c && c <= 'F')
}

pub open spec fn hex_val(c: char) -> u32 {
    if '0' <= c && c <= '9' {
        (c as u32 - '0' as u32) as u32
    } else if 'a' <= c && c <= 'f' {
        (c as u32 - 'a' as u32 + 10) as u32
    } else {
        (c as u32 - 'A' as u32 + 10) as u32
    }
}

/// A well-formed color literal: 7 characters (`_rrggbb`) or 9 (`_rrggbbaa`),
/// with hexadecimal digits everywhere after the first character. The first
/// character is conventionally `#` but is not inspected.
pub open spec fn valid_hex_color(s: Seq<char>) -> bool {
    &&& (s.len() == 7 || s.len() == 9)
    &&& forall|i: int| 1 <= i < s.len() ==> is_hex_digit(#[trigger] s[i])
}

/// The byte encoded by the two hex digits at positions `i` and `i + 1`.
pub open spec fn hex_byte(s: Seq<char>, i: int) -> u8 {
    (hex_val(s[i]) * 16 + hex_val(s[i + 1])) as u8
}

/// The color a well-formed literal denotes; a 7-character literal is opaque.
pub open spec fn spec_hex_color(s: Seq<char>) -> Rgba {
    Rgba {
        r: hex_byte(s, 1),
        g: hex_byte(s, 3),
        b: hex_byte(s, 5),
        a: if s.len() == 9 {
            hex_byte(s, 7)
        } else {
            255
        },
    }
}

fn hex_digit(c: char) -> (r: Option<u32>)
    ensures
        r is Some <==> is_hex_digit(c),
        r matches Some(v) ==> v == hex_val(c) && v < 16,
{
    if '0' <= c && c <= '9' {
        Some(c as u32 - '0' as u32)
    } else if 'a' <= c && c <= 'f' {
        Some(c as u32 - 'a' as u32 + 10)
    } else if 'A' <= c && c <= 'F' {
        Some(c as u32 - 'A' as u32 + 10)
    } else {
        None
    }
}

/// The byte at digit positions `i`, `i + 1` of a checked literal.
fn parse_hex_byte(s: &str, i: usize) -> (r: u8)
    requires
        i + 1 < s@.len() <= usize::MAX,
        is_hex_digit(s@[i as int]),
        is_hex_digit(s@[i + 1]),
    ensures
        r == hex_byte(s@, i as int),
{
    let hi = s.get_char(i);
    let lo = s.get_char(i + 1);
    let hv = hex_digit(hi).unwrap();
    let lv = hex_digit(lo).unwrap();
    (hv * 16 + lv) as u8
}

/// Parses a configured color literal. Exactly the well-formed literals
/// (`valid_hex_color`) are accepted; a wrong length and a bad digit are told
/// apart in the error.
pub fn hex_to_color(s: &str) -> (res: Result<Rgba, ColorError>)
    ensures
        res matches Ok(c) ==> valid_hex_color(s@) && c == spec_hex_color(s@),
        res == Err::<Rgba, ColorError>(ColorError::BadLength) <==> !(s@.len() == 7 || s@.len()
            == 9),
        res == Err::<Rgba, ColorError>(ColorError::BadDigit) <==> ((s@.len() == 7 || s@.len() == 9)
            && !valid_hex_color(s@)),
{
    let n = s.unicode_len();
    if n != 7 && n != 9 {
        return Err(ColorError::BadLength);
    }
    let mut i: usize = 1;
    while i < n
        invariant
            1 <= i <= n,
            n == s@.len(),
            n == 7 || n == 9,
            forall|j: int| 1 <= j < i ==> is_hex_digit(#[trigger] s@[j]),
        decreases n - i,
    {
        if hex_digit(s.get_char(i)).is_none() {
            return Err(ColorError::BadDigit);
        }
        i += 1;
    }
    let r = parse_hex_byte(s, 1);
    let g = parse_hex_byte(s, 3);
    let b = parse_hex_byte(s, 5);
    let a: u8 = if n == 9 {
        parse_hex_byte(s, 7)
    } else {
        255
    };
    Ok(Rgba { r, g, b, a })
}

/// The configured terminal palette, as color literals. The first character
/// of each entry is conventionally `#`.
#[derive(Clone, Debug)]
pub struct ColorPalette {
    pub foreground: String,
    pub background: String,
    pub black: String,
    pub red: String,
    pub green: String,
    pub yellow: String,
    pub blue: String,
    pub magenta: String,
    pub cyan: String,
    pub white: String,
    pub bright_black: String,
    pub bright_red: String,
    pub bright_green: String,
    pub bright_yellow: String,
    pub bright_blue: String,
    pub bright_magenta: String,
    pub bright_cyan: String,
    pub bright_white: String,
    pub bright_foreground: Option<String>,
    pub dim_foreground: String,
    pub dim_black: String,
    pub dim_red: String,
    pub dim_green: String,
    pub dim_yellow: String,
    pub dim_blue: String,
    pub dim_magenta: String,
    pub dim_cyan: String,
    pub dim_white: String,
}

impl ColorPalette {
    /// Every configured literal is a well-formed hex color.
    pub open spec fn valid(self) -> bool {
        &&& valid_hex_color(self.foreground@)
        &&& valid_hex_color(self.background@)
        &&& valid_hex_color(self.black@)
        &&& valid_hex_color(self.red@)
        &&& valid_hex_color(self.green@)
        &&& valid_hex_color(self.yellow@)
        &&& valid_hex_color(self.blue@)
        &&& valid_hex_color(self.magenta@)
        &&& valid_hex_color(self.cyan@)
        &&& valid_hex_color(self.white@)
        &&& valid_hex_color(self.bright_black@)
        &&& valid_hex_color(self.bright_red@)
        &&& valid_hex_color(self.bright_green@)
        &&& valid_hex_color(self.bright_yellow@)
        &&& valid_hex_color(self.bright_blue@)
        &&& valid_hex_color(self.bright_magenta@)
        &&& valid_hex_color(self.bright_cyan@)
        &&& valid_hex_color(self.bright_white@)
        &&& (self.bright_foreground matches Some(s) ==> valid_hex_color(s@))
        &&& valid_hex_color(self.dim_foreground@)
        &&& valid_hex_color(self.dim_black@)
        &&& valid_hex_color(self.dim_red@)
        &&& valid_hex_color(self.dim_green@)
        &&& valid_hex_color(self.dim_yellow@)
        &&& valid_hex_color(self.dim_blue@)
        &&& valid_hex_color(self.dim_magenta@)
        &&& valid_hex_color(self.dim_cyan@)
        &&& valid_hex_color(self.dim_white@)
    }
}

/// A color reference as the emulator reports it for a cell: a direct
/// 24-bit value, an index into the 256-color table, or a named palette
/// entry.
#[derive(Clone, Copy, Debug, PartialEq, Eq, Structural)]
pub enum AnsiColor {
    Spec { r: u8, g: u8, b: u8 },
    Indexed(u8),
    Named(NamedColor),
}

/// The named palette entries.
#[derive(Clone, Copy, Debug, PartialEq, Eq, Structural)]
pub enum NamedColor {
    Foreground,
    Background,
    Black,
    Red,
    Green,
    Yellow,
    Blue,
    Magenta,
    Cyan,
    White,
    BrightBlack,
    BrightRed,
    BrightGreen,
    BrightYellow,
    BrightBlue,
    BrightMagenta,
    BrightCyan,
    BrightWhite,
    BrightForeground,
    DimForeground,
    DimBlack,
    DimRed,
    DimGreen,
    DimYellow,
    DimBlue,
    DimMagenta,
    DimCyan,
    DimWhite,
    Cursor,
}

/// One channel of the 6x6x6 color cube: coordinate 0 is 0, otherwise
/// `55 + 40 * n`, so that coordinate 5 reaches 255.
pub open spec fn cube_channel(n: int) -> u8 {
    if n == 0 {
        0
    } else {
        (55 + 40 * n) as u8
    }
}

/// The fixed part of the 256-color table. Indices 16..=231 form the 6x6x6
/// cube; indices 232..=255 form a 24-step grayscale ramp `8 + 10 * i`.
/// Indices 0..=15 are reserved for the configured palette and map to black
/// here.
pub open spec fn spec_ansi256(i: int) -> Rgba {
    if i < 16 {
        Rgba { r: 0, g: 0, b: 0, a: 255 }
    } else if i < 232 {
        let x = i - 16;
        Rgba {
            r: cube_channel(x / 36),
            g: cube_channel((x / 6) % 6),
            b: cube_channel(x % 6),
            a: 255,
        }
    } else {
        let v = ((i - 232) * 10 + 8) as u8;
        Rgba { r: v, g: v, b: v, a: 255 }
    }
}

/// Builds the full 256-entry table of `spec_ansi256`.
pub fn build_ansi256_colors() -> (table: Vec<Rgba>)
    ensures
        table@.len() == 256,
        forall|i: int| 0 <= i < 256 ==> table@[i] == spec_ansi256(i),
{
    let mut table: Vec<Rgba> = Vec::new();
    let mut i: usize = 0;
    while i < 256
        invariant
            i <= 256,
            table@.len() == i,
            forall|j: int| 0 <= j < i ==> table@[j] == spec_ansi256(j),
        decreases 256 - i,
    {
        let c: Rgba = if i < 16 {
            Rgba { r: 0, g: 0, b: 0, a: 255 }
        } else if i < 232 {
            let x = i - 16;
            let rc = x / 36;
            let gc = (x / 6) % 6;
            let bc = x % 6;
            Rgba {
                r: if rc == 0 {
                    0
                } else {
                    (55 + 40 * rc) as u8
                },
                g: if gc == 0 {
                    0
                } else {
                    (55 + 40 * gc) as u8
                },
                b: if bc == 0 {
                    0
                } else {
                    (55 + 40 * bc) as u8
                },
                a: 255,
            }
        } else {
            let v = ((i - 232) * 10 + 8) as u8;
            Rgba { r: v, g: v, b: v, a: 255 }
        };
        table.push(c);
        i += 1;
    }
    table
}

impl Default for ColorPalette {
    /// The built-in palette, used where the configuration overrides nothing.
    fn default() -> (r: ColorPalette)
        ensures
            r.foreground@ == "#d8d8d8"@,
            r.background@ == "#181818"@,
            r.black@ == "#181818"@,
            r.red@ == "#ac4242"@,
            r.green@ == "#90a959"@,
            r.yellow@ == "#f4bf75"@,
            r.blue@ == "#6a9fb5"@,
            r.magenta@ == "#aa759f"@,
            r.cyan@ == "#75b5aa"@,
            r.white@ == "#d8d8d8"@,
            r.bright_black@ == "#6b6b6b"@,
            r.bright_red@ == "#c55555"@,
            r.bright_green@ == "#aac474"@,
            r.bright_yellow@ == "#feca88"@,
            r.bright_blue@ == "#82b8c8"@,
            r.bright_magenta@ == "#c28cb8"@,
            r.bright_cyan@ == "#93d3c3"@,
            r.bright_white@ == "#f8f8f8"@,
            r.bright_foreground is None,
            r.dim_foreground@ == "#828482"@,
            r.dim_black@ == "#0f0f0f"@,
            r.dim_red@ == "#712b2b"@,
            r.dim_green@ == "#5f6f3a"@,
            r.dim_yellow@ == "#a17e4d"@,
            r.dim_blue@ == "#456877"@,
            r.dim_magenta@ == "#704d68"@,
            r.dim_cyan@ == "#4d7770"@,
            r.dim_white@ == "#8e8e8e"@,
    {
        ColorPalette {
            foreground: "#d8d8d8".to_owned(),
            background: "#181818".to_owned(),
            black: "#181818".to_owned(),
            red: "#ac4242".to_owned(),
            green: "#90a959".to_owned(),
            yellow: "#f4bf75".to_owned(),
            blue: "#6a9fb5".to_owned(),
            magenta: "#aa759f".to_owned(),
            cyan: "#75b5aa".to_owned(),
            white: "#d8d8d8".to_owned(),
            bright_black: "#6b6b6b".to_owned(),
            bright_red: "#c55555".to_owned(),
            bright_green: "#aac474".to_owned(),
            bright_yellow: "#feca88".to_owned(),
            bright_blue: "#82b8c8".to_owned(),
            bright_magenta: "#c28cb8".to_owned(),
            bright_cyan: "#93d3c3".to_owned(),
            bright_white: "#f8f8f8".to_owned(),
            bright_foreground: None,
            dim_foreground: "#828482".to_owned(),
            dim_black: "#0f0f0f".to_owned(),
            dim_red: "#712b2b".to_owned(),
            dim_green: "#5f6f3a".to_owned(),
            dim_yellow: "#a17e4d".to_owned(),
            dim_blue: "#456877".to_owned(),
            dim_magenta: "#704d68".to_owned(),
            dim_cyan: "#4d7770".to_owned(),
            dim_white: "#8e8e8e".to_owned(),
        }
    }
}

/// The active theme: the configured palette parsed once, at startup, plus
/// the fixed 256-color table. A malformed configured color is rejected here,
/// by `Theme::new`, and never at resolution time.
#[derive(Clone, Debug)]
pub struct Theme {
    pub foreground: Rgba,
    pub background: Rgba,
    pub black: Rgba,
    pub red: Rgba,
    pub green: Rgba,
    pub yellow: Rgba,
    pub blue: Rgba,
    pub magenta: Rgba,
    pub cyan: Rgba,
    pub white: Rgba,
    pub bright_black: Rgba,
    pub bright_red: Rgba,
    pub bright_green: Rgba,
    pub bright_yellow: Rgba,
    pub bright_blue: Rgba,
    pub bright_magenta: Rgba,
    pub bright_cyan: Rgba,
    pub bright_white: Rgba,
    pub bright_foreground: Option<Rgba>,
    pub dim_foreground: Rgba,
    pub dim_black: Rgba,
    pub dim_red: Rgba,
    pub dim_green: Rgba,
    pub dim_yellow: Rgba,
    pub dim_blue: Rgba,
    pub dim_magenta: Rgba,
    pub dim_cyan: Rgba,
    pub dim_white: Rgba,
    pub ansi256: Vec<Rgba>,
}

/// The background color a container drawn behind the grid is filled with.
#[derive(Clone, Copy, Debug, PartialEq, Eq, Structural)]
pub struct ContainerStyle {
    pub background: Option<Rgba>,
}

impl Theme {
    /// The 256-color table holds exactly the fixed values.
    pub open spec fn wf(self) -> bool {
        &&& self.ansi256@.len() == 256
        &&& forall|i: int| 0 <= i < 256 ==> self.ansi256@[i] == spec_ansi256(i)
    }

    /// The parsed fields agree with the configured literals.
    pub open spec fn matches_palette(self, p: ColorPalette) -> bool {
        &&& self.foreground == spec_hex_color(p.foreground@)
        &&& self.background == spec_hex_color(p.background@)
        &&& self.black == spec_hex_color(p.black@)
        &&& self.red == spec_hex_color(p.red@)
        &&& self.green == spec_hex_color(p.green@)
        &&& self.yellow == spec_hex_color(p.yellow@)
        &&& self.blue == spec_hex_color(p.blue@)
        &&& self.magenta == spec_hex_color(p.magenta@)
        &&& self.cyan == spec_hex_color(p.cyan@)
        &&& self.white == spec_hex_color(p.white@)
        &&& self.bright_black == spec_hex_color(p.bright_black@)
        &&& self.bright_red == spec_hex_color(p.bright_red@)
        &&& self.bright_green == spec_hex_color(p.bright_green@)
        &&& self.bright_yellow == spec_hex_color(p.bright_yellow@)
        &&& self.bright_blue == spec_hex_color(p.bright_blue@)
        &&& self.bright_magenta == spec_hex_color(p.bright_magenta@)
        &&& self.bright_cyan == spec_hex_color(p.bright_cyan@)
        &&& self.bright_white == spec_hex_color(p.bright_white@)
        &&& (match p.bright_foreground {
            Some(s) => self.bright_foreground == Some(spec_hex_color(s@)),
            None => self.bright_foreground is None,
        })
        &&& self.dim_foreground == spec_hex_color(p.dim_foreground@)
        &&& self.dim_black == spec_hex_color(p.dim_black@)
        &&& self.dim_red == spec_hex_color(p.dim_red@)
        &&& self.dim_green == spec_hex_color(p.dim_green@)
        &&& self.dim_yellow == spec_hex_color(p.dim_yellow@)
        &&& self.dim_blue == spec_hex_color(p.dim_blue@)
        &&& self.dim_magenta == spec_hex_color(p.dim_magenta@)
        &&& self.dim_cyan == spec_hex_color(p.dim_cyan@)
        &&& self.dim_white == spec_hex_color(p.dim_white@)
    }

    /// Parses the configured palette. Succeeds exactly when every literal is
    /// well formed; this is the startup gate that makes color resolution
    /// total afterwards.
    pub fn new(palette: &ColorPalette) -> (res: Result<Theme, ColorError>)
        ensures
            res is Ok <==> palette.valid(),
            res matches Ok(t) ==> t.wf() && t.matches_palette(*palette),
    {
        let foreground = match hex_to_color(palette.foreground.as_str()) {
            Ok(c) => c,
            Err(e) => { return Err(e); },
        };
        let background = match hex_to_color(palette.background.as_str()) {
            Ok(c) => c,
            Err(e) => { return Err(e); },
        };
        let black = match hex_to_color(palette.black.as_str()) {
            Ok(c) => c,
            Err(e) => { return Err(e); },
        };
        let red = match hex_to_color(palette.red.as_str()) {
            Ok(c) => c,
            Err(e) => { return Err(e); },
        };
        let green = match hex_to_color(palette.green.as_str()) {
            Ok(c) => c,
            Err(e) => { return Err(e); },
        };
        let yellow = match hex_to_color(palette.yellow.as_str()) {
            Ok(c) => c,
            Err(e) => { return Err(e); },
        };
        let blue = match hex_to_color(palette.blue.as_str()) {
            Ok(c) => c,
            Err(e) => { return Err(e); },
        };
        let magenta = match hex_to_color(palette.magenta.as_str()) {
            Ok(c) => c,
            Err(e) => { return Err(e); },
        };
        let cyan = match hex_to_color(palette.cyan.as_str()) {
            Ok(c) => c,
            Err(e) => { return Err(e); },
        };
        let white = match hex_to_color(palette.white.as_str()) {
            Ok(c) => c,
            Err(e) => { return Err(e); },
        };
        let bright_black = match hex_to_color(palette.bright_black.as_str()) {
            Ok(c) => c,
            Err(e) => { return Err(e); },
        };
        let bright_red = match hex_to_color(palette.bright_red.as_str()) {
            Ok(c) => c,
            Err(e) => { return Err(e); },
        };
        let bright_green = match hex_to_color(palette.bright_green.as_str()) {
            Ok(c) => c,
            Err(e) => { return Err(e); },
        };
        let bright_yellow = match hex_to_color(palette.bright_yellow.as_str()) {
            Ok(c) => c,
            Err(e) => { return Err(e); },
        };
        let bright_blue = match hex_to_color(palette.bright_blue.as_str()) {
            Ok(c) => c,
            Err(e) => { return Err(e); },
        };
        let bright_magenta = match hex_to_color(palette.bright_magenta.as_str()) {
            Ok(c) => c,
            Err(e) => { return Err(e); },
        };
        let bright_cyan = match hex_to_color(palette.bright_cyan.as_str()) {
            Ok(c) => c,
            Err(e) => { return Err(e); },
        };
        let bright_white = match hex_to_color(palette.bright_white.as_str()) {
            Ok(c) => c,
            Err(e) => { return Err(e); },
        };
        let bright_foreground = match &palette.bright_foreground {
            Some(s) => match hex_to_color(s.as_str()) {
                Ok(c) => Some(c),
                Err(e) => { return Err(e); },
            },
            None => None,
        };
        let dim_foreground = match hex_to_color(palette.dim_foreground.as_str()) {
            Ok(c) => c,
            Err(e) => { return Err(e); },
        };
        let dim_black = match hex_to_color(palette.dim_black.as_str()) {
            Ok(c) => c,
            Err(e) => { return Err(e); },
        };
        let dim_red = match hex_to_color(palette.dim_red.as_str()) {
            Ok(c) => c,
            Err(e) => { return Err(e); },
        };
        let dim_green = match hex_to_color(palette.dim_green.as_str()) {
            Ok(c) => c,
            Err(e) => { return Err(e); },
        };
        let dim_yellow = match hex_to_color(palette.dim_yellow.as_str()) {
            Ok(c) => c,
            Err(e) => { return Err(e); },
        };
        let dim_blue = match hex_to_color(palette.dim_blue.as_str()) {
            Ok(c) => c,
            Err(e) => { return Err(e); },
        };
        let dim_magenta = match hex_to_color(palette.dim_magenta.as_str()) {
            Ok(c) => c,
            Err(e) => { return Err(e); },
        };
        let dim_cyan = match hex_to_color(palette.dim_cyan.as_str()) {
            Ok(c) => c,
            Err(e) => { return Err(e); },
        };
        let dim_white = match hex_to_color(palette.dim_white.as_str()) {
            Ok(c) => c,
            Err(e) => { return Err(e); },
        };
        Ok(
            Theme {
                foreground,
                background,
                black,
                red,
                green,
                yellow,
                blue,
                magenta,
                cyan,
                white,
                bright_black,
                bright_red,
                bright_green,
                bright_yellow,
                bright_blue,
                bright_magenta,
                bright_cyan,
                bright_white,
                bright_foreground,
                dim_foreground,
                dim_black,
                dim_red,
                dim_green,
                dim_yellow,
                dim_blue,
                dim_magenta,
                dim_cyan,
                dim_white,
                ansi256: build_ansi256_colors(),
            },
        )
    }

    /// The color an indexed reference in 0..=15 resolves to.
    pub open spec fn spec_index_color(self, index: u8) -> Rgba {
        if index == 0 {
            self.black
        } else if index == 1 {
            self.red
        } else if index == 2 {
            self.green
        } else if index == 3 {
            self.yellow
        } else if index == 4 {
            self.blue
        } else if index == 5 {
            self.magenta
        } else if index == 6 {
            self.cyan
        } else if index == 7 {
            self.white
        } else if index == 8 {
            self.bright_black
        } else if index == 9 {
            self.bright_red
        } else if index == 10 {
            self.bright_green
        } else if index == 11 {
            self.bright_yellow
        } else if index == 12 {
            self.bright_blue
        } else if index == 13 {
            self.bright_magenta
        } else if index == 14 {
            self.bright_cyan
        } else {
            self.bright_white
        }
    }

    /// The color a named reference resolves to. An unset bright foreground
    /// falls back to the plain foreground; names the theme does not
    /// distinguish (the cursor) fall back to the background.
    pub open spec fn spec_named_color(self, n: NamedColor) -> Rgba {
        match n {
            NamedColor::Foreground => self.foreground,
            NamedColor::Background => self.background,
            NamedColor::Black => self.black,
            NamedColor::Red => self.red,
            NamedColor::Green => self.green,
            NamedColor::Yellow => self.yellow,
            NamedColor::Blue => self.blue,
            NamedColor::Magenta => self.magenta,
            NamedColor::Cyan => self.cyan,
            NamedColor::White => self.white,
            NamedColor::BrightBlack => self.bright_black,
            NamedColor::BrightRed => self.bright_red,
            NamedColor::BrightGreen => self.bright_green,
            NamedColor::BrightYellow => self.bright_yellow,
            NamedColor::BrightBlue => self.bright_blue,
            NamedColor::BrightMagenta => self.bright_magenta,
            NamedColor::BrightCyan => self.bright_cyan,
            NamedColor::BrightWhite => self.bright_white,
            NamedColor::BrightForeground => match self.bright_foreground {
                Some(c) => c,
                None => self.foreground,
            },
            NamedColor::DimForeground => self.dim_foreground,
            NamedColor::DimBlack => self.dim_black,
            NamedColor::DimRed => self.dim_red,
            NamedColor::DimGreen => self.dim_green,
            NamedColor::DimYellow => self.dim_yellow,
            NamedColor::DimBlue => self.dim_blue,
            NamedColor::DimMagenta => self.dim_magenta,
            NamedColor::DimCyan => self.dim_cyan,
            NamedColor::DimWhite => self.dim_white,
            NamedColor::Cursor => self.background,
        }
    }

    /// What any color reference resolves to: direct values bypass the
    /// palette, indices 0..=15 read the configured palette, higher indices
    /// read the fixed table, names read the configured palette with its
    /// fallback rules.
    pub open spec fn spec_color_of(self, c: AnsiColor) -> Rgba {
        match c {
            AnsiColor::Spec { r, g, b } => Rgba { r, g, b, a: 255 },
            AnsiColor::Indexed(i) => if i <= 15 {
                self.spec_index_color(i)
            } else {
                spec_ansi256(i as int)
            },
            AnsiColor::Named(n) => self.spec_named_color(n),
        }
    }

    pub fn get_color(&self, c: AnsiColor) -> (r: Rgba)
        requires
            self.wf(),
        ensures
            r == self.spec_color_of(c),
    {
        match c {
            AnsiColor::Spec { r, g, b } => Rgba { r, g, b, a: 255 },
            AnsiColor::Indexed(index) => {
                if index <= 15 {
                    match index {
                        0 => self.black,
                        1 => self.red,
                        2 => self.green,
                        3 => self.yellow,
                        4 => self.blue,
                        5 => self.magenta,
                        6 => self.cyan,
                        7 => self.white,
                        8 => self.bright_black,
                        9 => self.bright_red,
                        10 => self.bright_green,
                        11 => self.bright_yellow,
                        12 => self.bright_blue,
                        13 => self.bright_magenta,
                        14 => self.bright_cyan,
                        _ => self.bright_white,
                    }
                } else {
                    self.ansi256[index as usize]
                }
            },
            AnsiColor::Named(n) => match n {
                NamedColor::Foreground => self.foreground,
                NamedColor::Background => self.background,
                NamedColor::Black => self.black,
                NamedColor::Red => self.red,
                NamedColor::Green => self.green,
                NamedColor::Yellow => self.yellow,
                NamedColor::Blue => self.blue,
                NamedColor::Magenta => self.magenta,
                NamedColor::Cyan => self.cyan,
                NamedColor::White => self.white,
                NamedColor::BrightBlack => self.bright_black,
                NamedColor::BrightRed => self.bright_red,
                NamedColor::BrightGreen => self.bright_green,
                NamedColor::BrightYellow => self.bright_yellow,
                NamedColor::BrightBlue => self.bright_blue,
                NamedColor::BrightMagenta => self.bright_magenta,
                NamedColor::BrightCyan => self.bright_cyan,
                NamedColor::BrightWhite => self.bright_white,
                NamedColor::BrightForeground => match &self.bright_foreground {
                    Some(c) => *c,
                    None => self.foreground,
                },
                NamedColor::DimForeground => self.dim_foreground,
                NamedColor::DimBlack => self.dim_black,
                NamedColor::DimRed => self.dim_red,
                NamedColor::DimGreen => self.dim_green,
                NamedColor::DimYellow => self.dim_yellow,
                NamedColor::DimBlue => self.dim_blue,
                NamedColor::DimMagenta => self.dim_magenta,
                NamedColor::DimCyan => self.dim_cyan,
                NamedColor::DimWhite => self.dim_white,
                NamedColor::Cursor => self.background,
            },
        }
    }

    /// The style of the container drawn behind the grid: filled with the
    /// theme's background color.
    pub fn container_style(&self) -> (r: ContainerStyle)
        ensures
            r.background == Some(self.background),
    {
        ContainerStyle { background: Some(self.background) }
    }
}

/// An opaque color from its three channels.
pub open spec fn spec_rgb(r: u8, g: u8, b: u8) -> Rgba {
    Rgba { r, g, b, a: 255 }
}

impl Default for Theme {
    /// The built-in palette, already parsed: the colors `Theme::new`
    /// yields on the default configuration.
    fn default() -> (r: Theme)
        ensures
            r.wf(),
            r.foreground == spec_rgb(0xd8, 0xd8, 0xd8),
            r.background == spec_rgb(0x18, 0x18, 0x18),
            r.black == spec_rgb(0x18, 0x18, 0x18),
            r.red == spec_rgb(0xac, 0x42, 0x42),
            r.green == spec_rgb(0x90, 0xa9, 0x59),
            r.yellow == spec_rgb(0xf4, 0xbf, 0x75),
            r.blue == spec_rgb(0x6a, 0x9f, 0xb5),
            r.magenta == spec_rgb(0xaa, 0x75, 0x9f),
            r.cyan == spec_rgb(0x75, 0xb5, 0xaa),
            r.white == spec_rgb(0xd8, 0xd8, 0xd8),
            r.bright_black == spec_rgb(0x6b, 0x6b, 0x6b),
            r.bright_red == spec_rgb(0xc5, 0x55, 0x55),
            r.bright_green == spec_rgb(0xaa, 0xc4, 0x74),
            r.bright_yellow == spec_rgb(0xfe, 0xca, 0x88),
            r.bright_blue == spec_rgb(0x82, 0xb8, 0xc8),
            r.bright_magenta == spec_rgb(0xc2, 0x8c, 0xb8),
            r.bright_cyan == spec_rgb(0x93, 0xd3, 0xc3),
            r.bright_white == spec_rgb(0xf8, 0xf8, 0xf8),
            r.bright_foreground is None,
            r.dim_foreground == spec_rgb(0x82, 0x84, 0x82),
            r.dim_black == spec_rgb(0x0f, 0x0f, 0x0f),
            r.dim_red == spec_rgb(0x71, 0x2b, 0x2b),
            r.dim_green == spec_rgb(0x5f, 0x6f, 0x3a),
            r.dim_yellow == spec_rgb(0xa1, 0x7e, 0x4d),
            r.dim_blue == spec_rgb(0x45, 0x68, 0x77),
            r.dim_magenta == spec_rgb(0x70, 0x4d, 0x68),
            r.dim_cyan == spec_rgb(0x4d, 0x77, 0x70),
            r.dim_white == spec_rgb(0x8e, 0x8e, 0x8e),
    {
        Theme {
            foreground: Rgba { r: 0xd8, g: 0xd8, b: 0xd8, a: 255 },
            background: Rgba { r: 0x18, g: 0x18, b: 0x18, a: 255 },
            black: Rgba { r: 0x18, g: 0x18, b: 0x18, a: 255 },
            red: Rgba { r: 0xac, g: 0x42, b: 0x42, a: 255 },
            green: Rgba { r: 0x90, g: 0xa9, b: 0x59, a: 255 },
            yellow: Rgba { r: 0xf4, g: 0xbf, b: 0x75, a: 255 },
            blue: Rgba { r: 0x6a, g: 0x9f, b: 0xb5, a: 255 },
            magenta: Rgba { r: 0xaa, g: 0x75, b: 0x9f, a: 255 },
            cyan: Rgba { r: 0x75, g: 0xb5, b: 0xaa, a: 255 },
            white: Rgba { r: 0xd8, g: 0xd8, b: 0xd8, a: 255 },
            bright_black: Rgba { r: 0x6b, g: 0x6b, b: 0x6b, a: 255 },
            bright_red: Rgba { r: 0xc5, g: 0x55, b: 0x55, a: 255 },
            bright_green: Rgba { r: 0xaa, g: 0xc4, b: 0x74, a: 255 },
            bright_yellow: Rgba { r: 0xfe, g: 0xca, b: 0x88, a: 255 },
            bright_blue: Rgba { r: 0x82, g: 0xb8, b: 0xc8, a: 255 },
            bright_magenta: Rgba { r: 0xc2, g: 0x8c, b: 0xb8, a: 255 },
            bright_cyan: Rgba { r: 0x93, g: 0xd3, b: 0xc3, a: 255 },
            bright_white: Rgba { r: 0xf8, g: 0xf8, b: 0xf8, a: 255 },
            bright_foreground: None,
            dim_foreground: Rgba { r: 0x82, g: 0x84, b: 0x82, a: 255 },
            dim_black: Rgba { r: 0x0f, g: 0x0f, b: 0x0f, a: 255 },
            dim_red: Rgba { r: 0x71, g: 0x2b, b: 0x2b, a: 255 },
            dim_green: Rgba { r: 0x5f, g: 0x6f, b: 0x3a, a: 255 },
            dim_yellow: Rgba { r: 0xa1, g: 0x7e, b: 0x4d, a: 255 },
            dim_blue: Rgba { r: 0x45, g: 0x68, b: 0x77, a: 255 },
            dim_magenta: Rgba { r: 0x70, g: 0x4d, b: 0x68, a: 255 },
            dim_cyan: Rgba { r: 0x4d, g: 0x77, b: 0x70, a: 255 },
            dim_white: Rgba { r: 0x8e, g: 0x8e, b: 0x8e, a: 255 },
            ansi256: build_ansi256_colors(),
        }
    }
}

/// The configured literal where present, the built-in one otherwise.
pub open spec fn override_str(v: Option<String>, default: Seq<char>) -> Seq<char> {
    match v {
        Some(s) => s@,
        None => default,
    }
}

fn pick(v: Option<String>, default: &str) -> (r: String)
    ensures
        r@ == override_str(v, default@),
{
    match v {
        Some(s) => s,
        None => default.to_owned(),
    }
}

impl ColorPalette {
    /// The built-in palette with the configured color sections applied
    /// over it, field by field.
    pub fn with_overrides(
        primary: Option<crate::config::Primary>,
        normal: Option<crate::config::TerminalColors>,
        bright: Option<crate::config::TerminalColors>,
        dim: Option<crate::config::TerminalColors>,
    ) -> (r: ColorPalette)
        ensures
            r.foreground@ == override_str(
                match primary {
                    Some(p) => p.foreground,
                    None => None,
                },
                "#d8d8d8"@,
            ),
            r.background@ == override_str(
                match primary {
                    Some(p) => p.background,
                    None => None,
                },
                "#181818"@,
            ),
            r.dim_foreground@ == override_str(
                match primary {
                    Some(p) => p.dim_foreground,
                    None => None,
                },
                "#828482"@,
            ),
            (match primary {
                Some(p) => match p.bright_foreground {
                    Some(s) => r.bright_foreground matches Some(t) && t@ == s@,
                    None => r.bright_foreground is None,
                },
                None => r.bright_foreground is None,
            }),
            r.black@ == override_str(
                match normal {
                    Some(n) => n.black,
                    None => None,
                },
                "#181818"@,
            ),
            r.red@ == override_str(
                match normal {
                    Some(n) => n.red,
                    None => None,
                },
                "#ac4242"@,
            ),
            r.green@ == override_str(
                match normal {
                    Some(n) => n.green,
                    None => None,
                },
                "#90a959"@,
            ),
            r.yellow@ == override_str(
                match normal {
                    Some(n) => n.yellow,
                    None => None,
                },
                "#f4bf75"@,
            ),
            r.blue@ == override_str(
                match normal {
                    Some(n) => n.blue,
                    None => None,
                },
                "#6a9fb5"@,
            ),
            r.magenta@ == override_str(
                match normal {
                    Some(n) => n.magenta,
                    None => None,
                },
                "#aa759f"@,
            ),
            r.cyan@ == override_str(
                match normal {
                    Some(n) => n.cyan,
                    None => None,
                },
                "#75b5aa"@,
            ),
            r.white@ == override_str(
                match normal {
                    Some(n) => n.white,
                    None => None,
                },
                "#d8d8d8"@,
            ),
            r.bright_black@ == override_str(
                match bright {
                    Some(b) => b.black,
                    None => None,
                },
                "#6b6b6b"@,
            ),
            r.bright_red@ == override_str(
                match bright {
                    Some(b) => b.red,
                    None => None,
                },
                "#c55555"@,
            ),
            r.bright_green@ == override_str(
                match bright {
                    Some(b) => b.green,
                    None => None,
                },
                "#aac474"@,
            ),
            r.bright_yellow@ == override_str(
                match bright {
                    Some(b) => b.yellow,
                    None => None,
                },
                "#feca88"@,
            ),
            r.bright_blue@ == override_str(
                match bright {
                    Some(b) => b.blue,
                    None => None,
                },
                "#82b8c8"@,
            ),
            r.bright_magenta@ == override_str(
                match bright {
                    Some(b) => b.magenta,
                    None => None,
                },
                "#c28cb8"@,
            ),
            r.bright_cyan@ == override_str(
                match bright {
                    Some(b) => b.cyan,
                    None => None,
                },
                "#93d3c3"@,
            ),
            r.bright_white@ == override_str(
                match bright {
                    Some(b) => b.white,
                    None => None,
                },
                "#f8f8f8"@,
            ),
            r.dim_black@ == override_str(
                match dim {
                    Some(d) => d.black,
                    None => None,
                },
                "#0f0f0f"@,
            ),
            r.dim_red@ == override_str(
                match dim {
                    Some(d) => d.red,
                    None => None,
                },
                "#712b2b"@,
            ),
            r.dim_green@ == override_str(
                match dim {
                    Some(d) => d.green,
                    None => None,
                },
                "#5f6f3a"@,
            ),
            r.dim_yellow@ == override_str(
                match dim {
                    Some(d) => d.yellow,
                    None => None,
                },
                "#a17e4d"@,
            ),
            r.dim_blue@ == override_str(
                match dim {
                    Some(d) => d.blue,
                    None => None,
                },
                "#456877"@,
            ),
            r.dim_magenta@ == override_str(
                match dim {
                    Some(d) => d.magenta,
                    None => None,
                },
                "#704d68"@,
            ),
            r.dim_cyan@ == override_str(
                match dim {
                    Some(d) => d.cyan,
                    None => None,
                },
                "#4d7770"@,
            ),
            r.dim_white@ == override_str(
                match dim {
                    Some(d) => d.white,
                    None => None,
                },
                "#8e8e8e"@,
            ),
    {
        let (p_fg, p_bg, p_dfg, p_bfg): (
            Option<String>,
            Option<String>,
            Option<String>,
            Option<String>,
        ) = match primary {
            Some(p) => (p.foreground, p.background, p.dim_foreground, p.bright_foreground),
            None => (None, None, None, None),
        };
        let (n_bk, n_r, n_g, n_y, n_bl, n_m, n_c, n_w) = match normal {
            Some(n) => (n.black, n.red, n.green, n.yellow, n.blue, n.magenta, n.cyan, n.white),
            None => (None, None, None, None, None, None, None, None),
        };
        let (b_bk, b_r, b_g, b_y, b_bl, b_m, b_c, b_w) = match bright {
            Some(b) => (b.black, b.red, b.green, b.yellow, b.blue, b.magenta, b.cyan, b.white),
            None => (None, None, None, None, None, None, None, None),
        };
        let (d_bk, d_r, d_g, d_y, d_bl, d_m, d_c, d_w) = match dim {
            Some(d) => (d.black, d.red, d.green, d.yellow, d.blue, d.magenta, d.cyan, d.white),
            None => (None, None, None, None, None, None, None, None),
        };
        ColorPalette {
            foreground: pick(p_fg, "#d8d8d8"),
            background: pick(p_bg, "#181818"),
            black: pick(n_bk, "#181818"),
            red: pick(n_r, "#ac4242"),
            green: pick(n_g, "#90a959"),
            yellow: pick(n_y, "#f4bf75"),
            blue: pick(n_bl, "#6a9fb5"),
            magenta: pick(n_m, "#aa759f"),
            cyan: pick(n_c, "#75b5aa"),
            white: pick(n_w, "#d8d8d8"),
            bright_black: pick(b_bk, "#6b6b6b"),
            bright_red: pick(b_r, "#c55555"),
            bright_green: pick(b_g, "#aac474"),
            bright_yellow: pick(b_y, "#feca88"),
            bright_blue: pick(b_bl, "#82b8c8"),
            bright_magenta: pick(b_m, "#c28cb8"),
            bright_cyan: pick(b_c, "#93d3c3"),
            bright_white: pick(b_w, "#f8f8f8"),
            bright_foreground: p_bfg,
            dim_foreground: pick(p_dfg, "#828482"),
            dim_black: pick(d_bk, "#0f0f0f"),
            dim_red: pick(d_r, "#712b2b"),
            dim_green: pick(d_g, "#5f6f3a"),
            dim_yellow: pick(d_y, "#a17e4d"),
            dim_blue: pick(d_bl, "#456877"),
            dim_magenta: pick(d_m, "#704d68"),
            dim_cyan: pick(d_c, "#4d7770"),
            dim_white: pick(d_w, "#8e8e8e"),
        }
    }
}

/// The application chrome palette, parsed once at startup.
#[derive(Clone, Copy, Debug, PartialEq, Eq, Structural)]
pub struct AppPalette {
    pub background: Rgba,
    pub primary: Rgba,
    pub text: Rgba,
    pub danger: Rgba,
    pub success: Rgba,
}

/// Every configured chrome color literal is well formed.
pub open spec fn app_colors_valid(app: Option<crate::config::App>) -> bool {
    match app {
        Some(a) => {
            &&& (a.background matches Some(s) ==> valid_hex_color(s@))
            &&& (a.active matches Some(s) ==> valid_hex_color(s@))
            &&& (a.inactive matches Some(s) ==> valid_hex_color(s@))
        },
        None => true,
    }
}

/// A configured chrome color where present and valid, the built-in value
/// otherwise (validity is settled by `app_palette`'s result).
pub open spec fn spec_app_color(v: Option<String>, default: Rgba) -> Rgba {
    match v {
        Some(s) => spec_hex_color(s@),
        None => default,
    }
}

/// Builds the application chrome palette from the configured section.
/// Succeeds exactly when every configured literal is well formed; absent
/// entries take the built-in values, and the danger and success colors are
/// fixed.
pub fn app_palette(app: Option<crate::config::App>) -> (res: Result<AppPalette, ColorError>)
    ensures
        res is Ok <==> app_colors_valid(app),
        res matches Ok(p) ==> {
            let (bg, act, inact) = match app {
                Some(a) => (a.background, a.active, a.inactive),
                None => (None, None, None),
            };
            &&& p.background == spec_app_color(bg, Rgba { r: 0x18, g: 0x18, b: 0x18, a: 255 })
            &&& p.primary == spec_app_color(act, Rgba { r: 0xac, g: 0x42, b: 0x42, a: 255 })
            &&& p.text == spec_app_color(inact, Rgba { r: 0xd8, g: 0xd8, b: 0xd8, a: 255 })
            &&& p.danger == (Rgba { r: 0xac, g: 0x42, b: 0x42, a: 255 })
            &&& p.success == (Rgba { r: 0x90, g: 0xa9, b: 0x59, a: 255 })
        },
{
    let (bg, act, inact): (Option<String>, Option<String>, Option<String>) = match app {
        Some(a) => (a.background, a.active, a.inactive),
        None => (None, None, None),
    };
    let background = match bg {
        Some(s) => match hex_to_color(s.as_str()) {
            Ok(c) => c,
            Err(e) => {
                return Err(e);
            },
        },
        None => Rgba { r: 0x18, g: 0x18, b: 0x18, a: 255 },
    };
    let primary = match act {
        Some(s) => match hex_to_color(s.as_str()) {
            Ok(c) => c,
            Err(e) => {
                return Err(e);
            },
        },
        None => Rgba { r: 0xac, g: 0x42, b: 0x42, a: 255 },
    };
    let text = match inact {
        Some(s) => match hex_to_color(s.as_str()) {
            Ok(c) => c,
            Err(e) => {
                return Err(e);
            },
        },
        None => Rgba { r: 0xd8, g: 0xd8, b: 0xd8, a: 255 },
    };
    Ok(
        AppPalette {
            background,
            primary,
            text,
            danger: Rgba { r: 0xac, g: 0x42, b: 0x42, a: 255 },
            success: Rgba { r: 0x90, g: 0xa9, b: 0x59, a: 255 },
        },
    )
}

} // verus!
