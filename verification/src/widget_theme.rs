//! Named widget themes and the palette each resolves to.

use vstd::prelude::*;
use crate::color::Rgba;

verus! {

/// The selectable widget themes.
#[derive(Clone, Copy, Debug, PartialEq, Eq, Structural)]
pub enum TerminalTheme {
    Light,
    Dark,
    Dracula,
    Nord,
    SolarizedLight,
    SolarizedDark,
    GruvboxLight,
    GruvboxDark,
    CatppuccinLatte,
    CatppuccinFrappe,
    CatppuccinMacchiato,
    CatppuccinMocha,
    TokyoNight,
    TokyoNightStorm,
    TokyoNightLight,
    KanagawaWave,
    KanagawaDragon,
    KanagawaLotus,
    Moonfly,
    Nightfly,
    Oxocarbon,
    Ferra,
}

/// The eight ANSI colors of one layer.
#[derive(Clone, Copy, Debug, PartialEq, Eq, Structural)]
pub struct TerminalColor {
    pub black: Rgba,
    pub red: Rgba,
    pub green: Rgba,
    pub yellow: Rgba,
    pub blue: Rgba,
    pub magenta: Rgba,
    pub cyan: Rgba,
    pub white: Rgba,
}

/// A widget theme's palette: cursor color plus a foreground and a
/// background color layer.
#[derive(Clone, Copy, Debug, PartialEq, Eq, Structural)]
pub struct TerminalPalette {
    pub cursor: Rgba,
    pub foreground: TerminalColor,
    pub background: TerminalColor,
}

/// The palette every theme currently resolves to; named themes beyond
/// this one set are reserved.
pub open spec fn spec_base_palette() -> TerminalPalette {
    TerminalPalette {
        cursor: Rgba { r: 248, g: 248, b: 242, a: 255 },
        foreground: TerminalColor {
            black: Rgba { r: 38, g: 38, b: 38, a: 255 },
            red: Rgba { r: 230, g: 71, b: 71, a: 255 },
            green: Rgba { r: 66, g: 230, b: 108, a: 255 },
            yellow: Rgba { r: 228, g: 243, b: 74, a: 255 },
            blue: Rgba { r: 155, g: 107, b: 223, a: 255 },
            magenta: Rgba { r: 227, g: 86, b: 167, a: 255 },
            cyan: Rgba { r: 117, g: 215, b: 236, a: 255 },
            white: Rgba { r: 248, g: 248, b: 242, a: 255 },
        },
        background: TerminalColor {
            black: Rgba { r: 122, g: 122, b: 122, a: 255 },
            red: Rgba { r: 255, g: 85, b: 85, a: 255 },
            green: Rgba { r: 80, g: 250, b: 123, a: 255 },
            yellow: Rgba { r: 241, g: 250, b: 140, a: 255 },
            blue: Rgba { r: 189, g: 147, b: 249, a: 255 },
            magenta: Rgba { r: 255, g: 121, b: 198, a: 255 },
            cyan: Rgba { r: 139, g: 233, b: 253, a: 255 },
            white: Rgba { r: 249, g: 249, b: 251, a: 255 },
        },
    }
}

impl TerminalTheme {
    /// The palette this theme resolves to.
    pub fn get_theme(&self) -> (r: TerminalPalette)
        ensures
            r == spec_base_palette(),
    {
        TerminalPalette {
            cursor: Rgba { r: 248, g: 248, b: 242, a: 255 },
            foreground: TerminalColor {
                black: Rgba { r: 38, g: 38, b: 38, a: 255 },
                red: Rgba { r: 230, g: 71, b: 71, a: 255 },
                green: Rgba { r: 66, g: 230, b: 108, a: 255 },
                yellow: Rgba { r: 228, g: 243, b: 74, a: 255 },
                blue: Rgba { r: 155, g: 107, b: 223, a: 255 },
                magenta: Rgba { r: 227, g: 86, b: 167, a: 255 },
                cyan: Rgba { r: 117, g: 215, b: 236, a: 255 },
                white: Rgba { r: 248, g: 248, b: 242, a: 255 },
            },
            background: TerminalColor {
                black: Rgba { r: 122, g: 122, b: 122, a: 255 },
                red: Rgba { r: 255, g: 85, b: 85, a: 255 },
                green: Rgba { r: 80, g: 250, b: 123, a: 255 },
                yellow: Rgba { r: 241, g: 250, b: 140, a: 255 },
                blue: Rgba { r: 189, g: 147, b: 249, a: 255 },
                magenta: Rgba { r: 255, g: 121, b: 198, a: 255 },
                cyan: Rgba { r: 139, g: 233, b: 253, a: 255 },
                white: Rgba { r: 249, g: 249, b: 251, a: 255 },
            },
        }
    }
}

/// The palette a named theme resolves to.
pub fn terminal_palette(theme: TerminalTheme) -> (r: TerminalPalette)
    ensures
        r == spec_base_palette(),
{
    theme.get_theme()
}

} // verus!
