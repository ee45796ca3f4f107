//! Which palette the window uses.

use vstd::prelude::*;

verus! {

/// How the platform draws windows.
#[derive(Debug, Clone, Copy, PartialEq, Eq, Structural)]
pub enum Appearance {
    Light,
    VibrantLight,
    Dark,
    VibrantDark,
}

/// The palettes of the interface.
#[derive(Debug, Clone, Copy, PartialEq, Eq, Structural)]
pub enum ThemeKind {
    Light,
    Dark,
    /// The palette for any other appearance; it has the light palette's colours.
    Default,
}

/// The palette for an appearance: dark for `Dark`, light for `Light`, the default for
/// the vibrant appearances.
pub fn theme_kind_for(appearance: Appearance) -> (kind: ThemeKind)
    ensures
        appearance == Appearance::Dark ==> kind == ThemeKind::Dark,
        appearance == Appearance::Light ==> kind == ThemeKind::Light,
        appearance != Appearance::Dark && appearance != Appearance::Light ==> kind
            == ThemeKind::Default,
{
    match appearance {
        Appearance::Dark => ThemeKind::Dark,
        Appearance::Light => ThemeKind::Light,
        _ => ThemeKind::Default,
    }
}

} // verus!
