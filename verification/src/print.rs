//! Where print specifications come from.

use vstd::prelude::*;

verus! {

/// The source of a print specification.
#[derive(Debug, Clone, Copy, PartialEq, Eq)]
pub enum PrintAuthority {
    /// The system's defaults, used where nothing else is given.
    System,
    /// The template's specification.
    Template,
    /// What the user asked for, after validation.
    User,
}

/// The color space of a print.
#[derive(Debug, Clone, PartialEq, Eq)]
pub enum ColorSpace {
    Rgb,
    Cmyk,
    Grayscale,
}

impl Default for PrintAuthority {
    fn default() -> (authority: Self)
        ensures
            authority is System,
    {
        PrintAuthority::System
    }
}

} // verus!
