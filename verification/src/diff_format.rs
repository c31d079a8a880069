//! The pieces of diff presentation the library decides itself: whether
//! color output is enabled, and which mode a command-line word selects.
//! Rendering a diff to the terminal stays with the caller.

use vstd::prelude::*;

verus! {

use vstd::string::StringSliceAdditionalSpecFns;
use crate::text::token_is;

/// When colored output is produced.
#[derive(Clone, Copy, Debug, PartialEq, Eq, Structural)]
pub enum ColorMode {
    Auto,
    Always,
    Never,
}

/// The rejection value for a color word that names no mode.
#[derive(Clone, Copy, Debug, PartialEq, Eq, Structural)]
pub struct UnsupportedPrintColor;

impl UnsupportedPrintColor {
    /// The message the command line reports for this error.
    pub fn message(&self) -> (r: String)
        ensures
            r@ == "unsupported color mode, pick any of: auto, always, never"@,
    {
        "unsupported color mode, pick any of: auto, always, never".to_owned()
    }
}

impl Default for ColorMode {
    /// The default coloring is `auto`.
    fn default() -> (r: Self)
        ensures
            r == ColorMode::Auto,
    {
        ColorMode::Auto
    }
}

/// The mode a color word names, or `None` for an unsupported word.
pub open spec fn color_mode_from_str_spec(s: Seq<u8>) -> Option<ColorMode> {
    if s == "auto".spec_bytes() {
        Some(ColorMode::Auto)
    } else if s == "always".spec_bytes() {
        Some(ColorMode::Always)
    } else if s == "never".spec_bytes() {
        Some(ColorMode::Never)
    } else {
        None
    }
}

impl ColorMode {
    /// True when this mode colors output: `auto` and `always` do, `never`
    /// does not.
    pub fn enabled(&self) -> (r: bool)
        ensures
            r == !(*self == ColorMode::Never),
    {
        match self {
            ColorMode::Auto => true,
            ColorMode::Always => true,
            ColorMode::Never => false,
        }
    }

    /// Parses a coloring word: `auto`, `always` or `never`.
    pub fn from_str(s: &str) -> (r: Result<ColorMode, UnsupportedPrintColor>)
        ensures
            match r {
                Ok(m) => color_mode_from_str_spec(s.spec_bytes()) == Some(m),
                Err(_) => color_mode_from_str_spec(s.spec_bytes()) is None,
            },
    {
        let b = s.as_bytes();
        if token_is(b, "auto") {
            Ok(ColorMode::Auto)
        } else if token_is(b, "always") {
            Ok(ColorMode::Always)
        } else if token_is(b, "never") {
            Ok(ColorMode::Never)
        } else {
            Err(UnsupportedPrintColor)
        }
    }
}

} // verus!
