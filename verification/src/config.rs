//! The configuration surface the core consumes, as plain values. Reading
//! and deserializing the configuration file is the host's concern; it is
//! done once, at startup, and the resulting values are handed in here.

use vstd::prelude::*;

verus! {

/// The whole configuration, every section optional: a missing file or
/// section falls back to defaults.
#[derive(Clone, Debug)]
pub struct Config {
    pub colors: Option<Colors>,
    pub general: Option<General>,
    pub keybinds: Option<Keybinds>,
    pub bell: Option<Bell>,
}

/// Miscellaneous appearance settings.
#[derive(Clone, Debug)]
pub struct General {
    pub wallpaper: Option<String>,
}

/// An external command to run, with or without arguments.
#[derive(Clone, Debug, PartialEq)]
pub enum Command {
    Simple(String),
    Complex { program: String, args: Vec<String> },
}

/// Bell behavior: how long the visual bell lasts, what color marks it,
/// and an optional external notification command.
#[derive(Clone, Debug)]
pub struct Bell {
    pub duration: Option<u64>,
    pub color: Option<String>,
    pub command: Option<Command>,
}

/// Hotkey overrides for pane management.
#[derive(Clone, Debug)]
pub struct Keybinds {
    pub new: Option<String>,
    pub close: Option<String>,
}

/// All color sections.
#[derive(Clone, Debug)]
pub struct Colors {
    pub app: Option<App>,
    pub primary: Option<Primary>,
    pub normal: Option<TerminalColors>,
    pub bright: Option<TerminalColors>,
    pub dim: Option<TerminalColors>,
}

/// The application chrome colors.
#[derive(Clone, Debug)]
pub struct App {
    pub background: Option<String>,
    pub active: Option<String>,
    pub inactive: Option<String>,
}

/// The primary terminal colors.
#[derive(Clone, Debug)]
pub struct Primary {
    pub foreground: Option<String>,
    pub background: Option<String>,
    pub dim_foreground: Option<String>,
    pub bright_foreground: Option<String>,
}

/// One group of the eight ANSI colors.
#[derive(Clone, Debug)]
pub struct TerminalColors {
    pub black: Option<String>,
    pub red: Option<String>,
    pub green: Option<String>,
    pub yellow: Option<String>,
    pub blue: Option<String>,
    pub magenta: Option<String>,
    pub cyan: Option<String>,
    pub white: Option<String>,
}

} // verus!
