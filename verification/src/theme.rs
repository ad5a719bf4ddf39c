//! Display settings of the session: color scheme and the two toggled
//! screen effects. Plain state, mutated only by the `theme` command.

use vstd::prelude::*;
use vstd::string::StringExecFns;

verus! {

/// The available color schemes.
#[derive(Clone, Copy, PartialEq, Eq, Structural, Debug)]
pub enum ColorScheme {
    Orange,
    Green,
    Amber,
}

/// The CSS class a scheme maps to.
pub open spec fn css_class_spec(s: ColorScheme) -> Seq<char> {
    match s {
        ColorScheme::Orange => "theme-orange"@,
        ColorScheme::Green => "theme-green"@,
        ColorScheme::Amber => "theme-amber"@,
    }
}

/// The name a scheme is addressed by.
pub open spec fn scheme_name(s: ColorScheme) -> Seq<char> {
    match s {
        ColorScheme::Orange => "orange"@,
        ColorScheme::Green => "green"@,
        ColorScheme::Amber => "amber"@,
    }
}

/// The scheme a name denotes, if any.
pub open spec fn scheme_of(name: Seq<char>) -> Option<ColorScheme> {
    if name == "orange"@ {
        Some(ColorScheme::Orange)
    } else if name == "green"@ {
        Some(ColorScheme::Green)
    } else if name == "amber"@ {
        Some(ColorScheme::Amber)
    } else {
        None
    }
}

impl ColorScheme {
    /// The CSS class this scheme maps to.
    pub fn css_class(&self) -> (r: String)
        ensures
            r@ == css_class_spec(*self),
    {
        match self {
            ColorScheme::Orange => String::from_str("theme-orange"),
            ColorScheme::Green => String::from_str("theme-green"),
            ColorScheme::Amber => String::from_str("theme-amber"),
        }
    }

    /// The name this scheme is addressed by.
    pub fn name(&self) -> (r: String)
        ensures
            r@ == scheme_name(*self),
    {
        match self {
            ColorScheme::Orange => String::from_str("orange"),
            ColorScheme::Green => String::from_str("green"),
            ColorScheme::Amber => String::from_str("amber"),
        }
    }

    /// The scheme the given name denotes, if any.
    pub fn from_str(string: &str) -> (r: Option<ColorScheme>)
        ensures
            r == scheme_of(string@),
    {
        if crate::text::str_eq(string, "orange") {
            Some(ColorScheme::Orange)
        } else if crate::text::str_eq(string, "green") {
            Some(ColorScheme::Green)
        } else if crate::text::str_eq(string, "amber") {
            Some(ColorScheme::Amber)
        } else {
            None
        }
    }
}

/// The display settings of one session.
#[derive(Clone, Copy, PartialEq, Eq, Structural, Debug)]
pub struct ThemeState {
    pub color_scheme: ColorScheme,
    pub crt_enabled: bool,
    pub matrix_rain: bool,
}

impl ThemeState {
    /// The startup settings: the orange scheme, both effects off.
    pub fn new() -> (r: Self)
        ensures
            r.color_scheme == ColorScheme::Orange,
            !r.crt_enabled,
            !r.matrix_rain,
    {
        ThemeState { color_scheme: ColorScheme::Orange, crt_enabled: false, matrix_rain: false }
    }
}

} // verus!
