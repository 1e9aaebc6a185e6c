use vstd::prelude::*;

verus! {

/// Why a template failed to parse. A malformed template is rejected as a
/// whole; no partial node sequence is ever returned.
#[derive(Debug, PartialEq, Eq, Structural, Clone, Copy)]
pub enum ParseError {
    /// A `{` with no matching `}` before the end of the template.
    UnterminatedToken,
    /// Token content that is neither a known variable name nor a
    /// well-formed function call.
    UnknownToken,
    /// A function call whose name no handler recognises.
    UnknownFunction,
    /// A `color` call with a name outside the colour table.
    InvalidColorName,
    /// An `rgb` component that is not a decimal integer in 0..=255.
    InvalidRgbComponent,
    /// A `color` call with other than one argument.
    ColorArity,
    /// An `rgb` call with other than three arguments.
    RgbArity,
}

/// The diagnostic text for each parse failure.
pub open spec fn spec_message(e: ParseError) -> Seq<char> {
    match e {
        ParseError::UnterminatedToken => "unterminated token: missing closing brace"@,
        ParseError::UnknownToken => "unrecognized token"@,
        ParseError::UnknownFunction => "unknown function"@,
        ParseError::InvalidColorName => "color: must be a valid color name"@,
        ParseError::InvalidRgbComponent => "rbg: arguments must be numbers between 0 and 255"@,
        ParseError::ColorArity => "color: must have one arguments"@,
        ParseError::RgbArity => "rgb: must have three arguments"@,
    }
}

impl ParseError {
    /// A human-readable description of the failure.
    pub fn message(&self) -> (s: String)
        ensures
            s@ == spec_message(*self),
    {
        match self {
            ParseError::UnterminatedToken => String::from_str(
                "unterminated token: missing closing brace",
            ),
            ParseError::UnknownToken => String::from_str("unrecognized token"),
            ParseError::UnknownFunction => String::from_str("unknown function"),
            ParseError::InvalidColorName => String::from_str("color: must be a valid color name"),
            ParseError::InvalidRgbComponent => String::from_str(
                "rbg: arguments must be numbers between 0 and 255",
            ),
            ParseError::ColorArity => String::from_str("color: must have one arguments"),
            ParseError::RgbArity => String::from_str("rgb: must have three arguments"),
        }
    }
}

} // verus!
