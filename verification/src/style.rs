//! Pane chrome decisions: which style a pane's border takes, and the
//! border color each style resolves to under the chrome palette.

use vstd::prelude::*;
use crate::color::{
    hex_to_color,
    spec_hex_color,
    valid_hex_color,
    AppPalette,
    ColorError,
    Rgba,
};

verus! {

/// How a pane's frame is drawn.
#[derive(Clone, Copy, Debug, PartialEq, Eq, Structural)]
pub enum PaneStyle {
    /// Not the focused pane.
    Unfocused,
    /// The focused pane.
    Focused,
    /// The focused pane while its bell rings.
    Bell,
}

/// The style a pane takes: the focused pane is highlighted, and a ringing
/// bell wins over the plain focus highlight; unfocused panes stay plain.
pub open spec fn spec_pane_style(is_focused: bool, bell: bool) -> PaneStyle {
    if is_focused {
        if bell {
            PaneStyle::Bell
        } else {
            PaneStyle::Focused
        }
    } else {
        PaneStyle::Unfocused
    }
}

pub fn pane_style(is_focused: bool, bell: bool) -> (r: PaneStyle)
    ensures
        r == spec_pane_style(is_focused, bell),
{
    if is_focused {
        if bell {
            PaneStyle::Bell
        } else {
            PaneStyle::Focused
        }
    } else {
        PaneStyle::Unfocused
    }
}

/// The border color of each pane style: the chrome text color for an
/// unfocused pane, the primary accent for the focused one (with or
/// without a ringing bell).
pub fn pane_border_color(style: PaneStyle, palette: &AppPalette) -> (r: Rgba)
    ensures
        r == (match style {
            PaneStyle::Unfocused => palette.text,
            PaneStyle::Focused => palette.primary,
            PaneStyle::Bell => palette.primary,
        }),
{
    match style {
        PaneStyle::Unfocused => palette.text,
        PaneStyle::Focused => palette.primary,
        PaneStyle::Bell => palette.primary,
    }
}

/// The background a ringing pane is washed with: the configured bell
/// color where one is set, nothing otherwise. A malformed literal is a
/// configuration error, surfaced when the style is built at startup.
pub fn pane_bell_background(color: Option<String>) -> (r: Result<Option<Rgba>, ColorError>)
    ensures
        match color {
            Some(s) => {
                &&& (valid_hex_color(s@) ==> r == Ok::<Option<Rgba>, ColorError>(
                    Some(spec_hex_color(s@)),
                ))
                &&& (!valid_hex_color(s@) ==> r is Err)
            },
            None => r == Ok::<Option<Rgba>, ColorError>(None),
        },
{
    match color {
        Some(s) => match hex_to_color(s.as_str()) {
            Ok(c) => Ok(Some(c)),
            Err(e) => Err(e),
        },
        None => Ok(None),
    }
}

} // verus!
