use frostty::color::{
    app_palette, build_ansi256_colors, hex_to_color, AnsiColor, ColorError, ColorPalette,
    NamedColor, Rgba, Theme,
};
use frostty::config::{App, Primary, TerminalColors};

fn rgb(r: u8, g: u8, b: u8) -> Rgba {
    Rgba { r, g, b, a: 255 }
}

#[test]
fn hex_parses_six_digit_color() {
    assert_eq!(hex_to_color("#102030"), Ok(rgb(0x10, 0x20, 0x30)));
    assert_eq!(hex_to_color("#d8d8d8"), Ok(rgb(0xd8, 0xd8, 0xd8)));
    assert_eq!(hex_to_color("#AC4242"), Ok(rgb(0xac, 0x42, 0x42)));
}

#[test]
fn hex_parses_eight_digit_color_with_alpha() {
    assert_eq!(
        hex_to_color("#10203040"),
        Ok(Rgba { r: 0x10, g: 0x20, b: 0x30, a: 0x40 })
    );
}

#[test]
fn hex_rejects_wrong_length() {
    assert_eq!(hex_to_color(""), Err(ColorError::BadLength));
    assert_eq!(hex_to_color("#1020"), Err(ColorError::BadLength));
    assert_eq!(hex_to_color("#1020304"), Err(ColorError::BadLength));
}

#[test]
fn hex_rejects_bad_digit() {
    assert_eq!(hex_to_color("#10203g"), Err(ColorError::BadDigit));
    assert_eq!(hex_to_color("#zzzzzz"), Err(ColorError::BadDigit));
}

#[test]
fn ansi256_table_fixed_points() {
    let table = build_ansi256_colors();
    assert_eq!(table.len(), 256);
    assert_eq!(table[16], rgb(0, 0, 0));
    assert_eq!(table[21], rgb(0, 0, 255));
    assert_eq!(table[231], rgb(255, 255, 255));
    assert_eq!(table[232], rgb(8, 8, 8));
    assert_eq!(table[255], rgb(238, 238, 238));
}

#[test]
fn ansi256_cube_formula() {
    let table = build_ansi256_colors();
    // cube coordinate (1, 2, 3): index 16 + 36 + 12 + 3
    assert_eq!(table[16 + 36 + 12 + 3], rgb(95, 135, 175));
}

#[test]
fn theme_parses_default_palette() {
    let theme = Theme::new(&ColorPalette::default()).unwrap();
    assert_eq!(theme.foreground, rgb(0xd8, 0xd8, 0xd8));
    assert_eq!(theme.background, rgb(0x18, 0x18, 0x18));
    assert_eq!(theme.bright_white, rgb(0xf8, 0xf8, 0xf8));
    assert!(theme.bright_foreground.is_none());
}

#[test]
fn default_theme_matches_parsed_default_palette() {
    let parsed = Theme::new(&ColorPalette::default()).unwrap();
    let built_in = Theme::default();
    assert_eq!(parsed.foreground, built_in.foreground);
    assert_eq!(parsed.background, built_in.background);
    assert_eq!(parsed.red, built_in.red);
    assert_eq!(parsed.bright_yellow, built_in.bright_yellow);
    assert_eq!(parsed.dim_white, built_in.dim_white);
    assert_eq!(parsed.bright_foreground, built_in.bright_foreground);
    assert_eq!(parsed.ansi256, built_in.ansi256);
}

#[test]
fn theme_rejects_malformed_palette() {
    let mut palette = ColorPalette::default();
    palette.red = String::from("#nothex");
    assert!(Theme::new(&palette).is_err());
    palette.red = String::from("#12345");
    assert_eq!(Theme::new(&palette).unwrap_err(), ColorError::BadLength);
}

#[test]
fn get_color_resolves_direct_indexed_and_named() {
    let theme = Theme::new(&ColorPalette::default()).unwrap();
    assert_eq!(
        theme.get_color(AnsiColor::Spec { r: 1, g: 2, b: 3 }),
        rgb(1, 2, 3)
    );
    assert_eq!(theme.get_color(AnsiColor::Indexed(1)), rgb(0xac, 0x42, 0x42));
    assert_eq!(theme.get_color(AnsiColor::Indexed(15)), rgb(0xf8, 0xf8, 0xf8));
    assert_eq!(theme.get_color(AnsiColor::Indexed(21)), rgb(0, 0, 255));
    assert_eq!(
        theme.get_color(AnsiColor::Named(NamedColor::Foreground)),
        rgb(0xd8, 0xd8, 0xd8)
    );
    assert_eq!(
        theme.get_color(AnsiColor::Named(NamedColor::DimRed)),
        rgb(0x71, 0x2b, 0x2b)
    );
}

#[test]
fn bright_foreground_falls_back_to_foreground() {
    let theme = Theme::new(&ColorPalette::default()).unwrap();
    assert_eq!(
        theme.get_color(AnsiColor::Named(NamedColor::BrightForeground)),
        theme.get_color(AnsiColor::Named(NamedColor::Foreground))
    );
    let mut palette = ColorPalette::default();
    palette.bright_foreground = Some(String::from("#ffffff"));
    let theme = Theme::new(&palette).unwrap();
    assert_eq!(
        theme.get_color(AnsiColor::Named(NamedColor::BrightForeground)),
        rgb(255, 255, 255)
    );
}

#[test]
fn overrides_apply_only_configured_fields() {
    let primary = Primary {
        foreground: Some(String::from("#111111")),
        background: None,
        dim_foreground: None,
        bright_foreground: Some(String::from("#222222")),
    };
    let normal = TerminalColors {
        black: None,
        red: Some(String::from("#ff0000")),
        green: None,
        yellow: None,
        blue: None,
        magenta: None,
        cyan: None,
        white: None,
    };
    let palette = ColorPalette::with_overrides(Some(primary), Some(normal), None, None);
    assert_eq!(palette.foreground, "#111111");
    assert_eq!(palette.background, "#181818");
    assert_eq!(palette.red, "#ff0000");
    assert_eq!(palette.green, "#90a959");
    assert_eq!(palette.bright_foreground.as_deref(), Some("#222222"));
    assert_eq!(palette.bright_red, "#c55555");
    assert_eq!(palette.dim_white, "#8e8e8e");
}

#[test]
fn overrides_absent_sections_give_defaults() {
    let palette = ColorPalette::with_overrides(None, None, None, None);
    let reference = ColorPalette::default();
    assert_eq!(palette.foreground, reference.foreground);
    assert_eq!(palette.dim_cyan, reference.dim_cyan);
    assert!(palette.bright_foreground.is_none());
}

#[test]
fn app_palette_defaults() {
    let palette = app_palette(None).unwrap();
    assert_eq!(palette.background, rgb(0x18, 0x18, 0x18));
    assert_eq!(palette.primary, rgb(0xac, 0x42, 0x42));
    assert_eq!(palette.text, rgb(0xd8, 0xd8, 0xd8));
    assert_eq!(palette.danger, rgb(0xac, 0x42, 0x42));
    assert_eq!(palette.success, rgb(0x90, 0xa9, 0x59));
}

#[test]
fn app_palette_reads_configured_colors() {
    let app = App {
        background: Some(String::from("#000000")),
        active: None,
        inactive: Some(String::from("#eeeeee")),
    };
    let palette = app_palette(Some(app)).unwrap();
    assert_eq!(palette.background, rgb(0, 0, 0));
    assert_eq!(palette.primary, rgb(0xac, 0x42, 0x42));
    assert_eq!(palette.text, rgb(0xee, 0xee, 0xee));
}

#[test]
fn app_palette_rejects_malformed_color() {
    let app = App {
        background: Some(String::from("bad")),
        active: None,
        inactive: None,
    };
    assert_eq!(app_palette(Some(app)), Err(ColorError::BadLength));
}

#[test]
fn container_style_uses_background() {
    let theme = Theme::new(&ColorPalette::default()).unwrap();
    let style = theme.container_style();
    assert_eq!(style.background, Some(rgb(0x18, 0x18, 0x18)));
}
