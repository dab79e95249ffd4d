//! Render-quality presets as chosen on the command line.

use vstd::prelude::*;
use crate::text::str_eq;

verus! {

#[derive(Clone, Copy, Debug, PartialEq, Eq, Structural)]
pub enum RenderPreset {
    Performance,
    Balanced,
    M5AirHigh,
    Cinematic,
}

impl Default for RenderPreset {
    fn default() -> (p: Self)
        ensures
            p == RenderPreset::M5AirHigh,
    {
        RenderPreset::M5AirHigh
    }
}

/// A preset name that is none of the four.
#[derive(Clone, Debug, PartialEq, Eq)]
pub struct PresetError {
    pub given: String,
}

impl PresetError {
    /// The message shown to the user.
    pub fn message(&self) -> (m: &'static str)
        ensures
            m@ == preset_error_message(),
    {
        "--preset must be performance, balanced, m5_air_high, or cinematic"
    }
}

pub open spec fn preset_error_message() -> Seq<char> {
    "--preset must be performance, balanced, m5_air_high, or cinematic"@
}

/// The preset named `name`, if it names one.
pub open spec fn preset_named(name: Seq<char>) -> Option<RenderPreset> {
    if name == "performance"@ {
        Some(RenderPreset::Performance)
    } else if name == "balanced"@ {
        Some(RenderPreset::Balanced)
    } else if name == "m5_air_high"@ {
        Some(RenderPreset::M5AirHigh)
    } else if name == "cinematic"@ {
        Some(RenderPreset::Cinematic)
    } else {
        None
    }
}

impl RenderPreset {
    /// The preset written `value` on the command line.
    pub fn parse(value: &str) -> (r: Result<RenderPreset, PresetError>)
        ensures
            match preset_named(value@) {
                Some(p) => r == Ok::<RenderPreset, PresetError>(p),
                None => r matches Err(e) && e.given@ == value@,
            },
    {
        if str_eq(value, "performance") {
            Ok(RenderPreset::Performance)
        } else if str_eq(value, "balanced") {
            Ok(RenderPreset::Balanced)
        } else if str_eq(value, "m5_air_high") {
            Ok(RenderPreset::M5AirHigh)
        } else if str_eq(value, "cinematic") {
            Ok(RenderPreset::Cinematic)
        } else {
            Err(PresetError { given: value.to_string() })
        }
    }
}

} // verus!
