//! Built-in terminal-safe visual themes.

use vstd::prelude::*;
use crate::domain::ThemeId;

verus! {

/// A terminal colour.
#[derive(Clone, Copy, Debug, PartialEq, Eq, Structural)]
pub enum Colour {
    Reset,
    Black,
    White,
    DarkGray,
    Cyan,
    Blue,
    LightBlue,
    Yellow,
    LightRed,
    Rgb(u8, u8, u8),
}

/// How text is drawn: its colours, where they are not the terminal's own, and
/// its modifiers.
#[derive(Clone, Copy, Debug, PartialEq, Eq, Structural)]
pub struct Style {
    pub foreground: Option<Colour>,
    pub background: Option<Colour>,
    pub bold: bool,
    pub dim: bool,
    pub reversed: bool,
}

/// Concrete colours and modifiers of one theme.
#[derive(Clone, Copy, Debug, PartialEq, Eq, Structural)]
pub struct Theme {
    /// Stable theme identifier.
    pub id: ThemeId,
    /// Base text style.
    pub text: Style,
    /// Muted metadata style.
    pub muted: Style,
    /// Accent used for borders and key hints.
    pub accent: Style,
    /// Selected-row style.
    pub selected: Style,
    /// Warning and destructive-action style.
    pub warning: Style,
}

/// The style of text that nothing is said about.
pub open spec fn plain() -> Style {
    Style { foreground: None, background: None, bold: false, dim: false, reversed: false }
}

pub open spec fn strong(colour: Colour) -> Style {
    Style { foreground: Some(colour), bold: true, ..plain() }
}

pub open spec fn accent_of(id: ThemeId) -> Colour {
    match id {
        ThemeId::AdaptiveCyan => Colour::Cyan,
        ThemeId::BlueCommandPalette => Colour::LightBlue,
        ThemeId::AmberOperator => Colour::Yellow,
        ThemeId::EmberOrange => Colour::Rgb(255, 135, 48),
        ThemeId::Monochrome => Colour::Reset,
    }
}

pub open spec fn warning_of(id: ThemeId) -> Colour {
    match id {
        ThemeId::AdaptiveCyan => Colour::Yellow,
        ThemeId::BlueCommandPalette => Colour::LightRed,
        ThemeId::AmberOperator => Colour::LightRed,
        ThemeId::EmberOrange => Colour::LightRed,
        ThemeId::Monochrome => Colour::Reset,
    }
}

/// The selected row: on the accent colour, except where a theme has a background
/// of its own.
pub open spec fn selected_of(id: ThemeId) -> Style {
    match id {
        ThemeId::Monochrome => Style { reversed: true, ..plain() },
        ThemeId::BlueCommandPalette => Style {
            background: Some(Colour::Blue),
            ..strong(Colour::White)
        },
        _ => Style { background: Some(accent_of(id)), ..strong(Colour::Black) },
    }
}

pub open spec fn muted_of(id: ThemeId) -> Style {
    if id == ThemeId::Monochrome {
        Style { dim: true, ..plain() }
    } else {
        Style { foreground: Some(Colour::DarkGray), ..plain() }
    }
}

fn plain_style() -> (r: Style)
    ensures
        r == plain(),
{
    Style { foreground: None, background: None, bold: false, dim: false, reversed: false }
}

fn strong_style(colour: Colour) -> (r: Style)
    ensures
        r == strong(colour),
{
    Style { foreground: Some(colour), background: None, bold: true, dim: false, reversed: false }
}

/// Resolves a built-in visual profile.
pub fn theme(id: ThemeId) -> (r: Theme)
    ensures
        r.id == id,
        r.text == plain(),
        r.muted == muted_of(id),
        r.accent == strong(accent_of(id)),
        r.selected == selected_of(id),
        r.warning == strong(warning_of(id)),
{
    let (accent, selected_foreground, selected_background, warning) = match id {
        ThemeId::AdaptiveCyan => (Colour::Cyan, Colour::Black, Colour::Cyan, Colour::Yellow),
        ThemeId::BlueCommandPalette => (
            Colour::LightBlue,
            Colour::White,
            Colour::Blue,
            Colour::LightRed,
        ),
        ThemeId::AmberOperator => (
            Colour::Yellow,
            Colour::Black,
            Colour::Yellow,
            Colour::LightRed,
        ),
        ThemeId::EmberOrange => (
            Colour::Rgb(255, 135, 48),
            Colour::Black,
            Colour::Rgb(255, 135, 48),
            Colour::LightRed,
        ),
        ThemeId::Monochrome => (Colour::Reset, Colour::Reset, Colour::Reset, Colour::Reset),
    };
    let monochrome = match id {
        ThemeId::Monochrome => true,
        _ => false,
    };
    let mut muted = plain_style();
    let mut selected = plain_style();
    if monochrome {
        muted.dim = true;
        selected.reversed = true;
    } else {
        muted.foreground = Some(Colour::DarkGray);
        selected = strong_style(selected_foreground);
        selected.background = Some(selected_background);
    }
    Theme {
        id,
        text: plain_style(),
        muted,
        accent: strong_style(accent),
        selected,
        warning: strong_style(warning),
    }
}

/// No theme but the monochrome one depends on reversed or dimmed text, and the
/// monochrome one names no colour but the terminal's own.
pub proof fn monochrome_needs_no_colour(id: ThemeId)
    ensures
        id == ThemeId::Monochrome <==> selected_of(id).reversed,
        id == ThemeId::Monochrome <==> muted_of(id).dim,
        id == ThemeId::Monochrome <==> accent_of(id) == Colour::Reset,
        id == ThemeId::Monochrome ==> selected_of(id).foreground is None
            && selected_of(id).background is None && muted_of(id).foreground is None,
{
}

/// A warning never looks like the accent of its theme, a selected row never looks like
/// plain text, and where a theme has colours, no two themes share an accent.
pub proof fn what_matters_is_told_apart(id: ThemeId, other: ThemeId)
    ensures
        id != ThemeId::Monochrome ==> warning_of(id) != accent_of(id),
        selected_of(id) != plain(),
        muted_of(id) != plain(),
        muted_of(id) != selected_of(id),
        id != other ==> accent_of(id) != accent_of(other),
        id != ThemeId::Monochrome ==> selected_of(id).background is Some && selected_of(
            id,
        ).foreground is Some && selected_of(id).background != selected_of(id).foreground,
        id != ThemeId::Monochrome && id != ThemeId::BlueCommandPalette ==> selected_of(
            id,
        ).background == Some(accent_of(id)),
{
}

} // verus!
