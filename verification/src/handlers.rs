use vstd::prelude::*;
use crate::color::{ansi_chars, color_from_name, TerminalColor};
use crate::errors::ParseError;
use crate::numbers::{parse_u8, spec_parse_u8};
use crate::strutil::str_eq;

verus! {

/// The views of a sequence of owned strings.
pub open spec fn views_of(v: Seq<String>) -> Seq<Seq<char>> {
    v.map_values(|s: String| s@)
}

/// What resolving a function-style token comes to: `color` takes exactly one
/// argument, a name from the colour table; `rgb` takes exactly three decimal
/// components in 0..=255; anything else is unknown. Malformed calls fail with
/// the error that names what went wrong.
pub open spec fn spec_resolve(name: Seq<char>, args: Seq<Seq<char>>) -> Result<
    TerminalColor,
    ParseError,
> {
    if name == "color"@ {
        if args.len() == 1 {
            match color_from_name(args[0]) {
                Some(c) => Ok(c),
                None => Err(ParseError::InvalidColorName),
            }
        } else {
            Err(ParseError::ColorArity)
        }
    } else if name == "rgb"@ {
        if args.len() == 3 {
            match (spec_parse_u8(args[0]), spec_parse_u8(args[1]), spec_parse_u8(args[2])) {
                (Some(r), Some(g), Some(b)) => Ok(TerminalColor::TrueColor(r, g, b)),
                _ => Err(ParseError::InvalidRgbComponent),
            }
        } else {
            Err(ParseError::RgbArity)
        }
    } else {
        Err(ParseError::UnknownFunction)
    }
}

/// The name-to-behaviour table for function-style tokens, consulted while
/// parsing: malformed calls are parse-time errors, never deferred to
/// rendering.
pub fn resolve_function(name: &str, args: &Vec<String>) -> (r: Result<TerminalColor, ParseError>)
    ensures
        r == spec_resolve(name@, views_of(args@)),
{
    if str_eq(name, "color") {
        if args.len() == 1 {
            match TerminalColor::convert(args[0].as_str()) {
                Some(c) => Ok(c),
                None => Err(ParseError::InvalidColorName),
            }
        } else {
            Err(ParseError::ColorArity)
        }
    } else if str_eq(name, "rgb") {
        if args.len() == 3 {
            let r = parse_u8(args[0].as_str());
            let g = parse_u8(args[1].as_str());
            let b = parse_u8(args[2].as_str());
            match (r, g, b) {
                (Some(r), Some(g), Some(b)) => Ok(TerminalColor::TrueColor(r, g, b)),
                _ => Err(ParseError::InvalidRgbComponent),
            }
        } else {
            Err(ParseError::RgbArity)
        }
    } else {
        Err(ParseError::UnknownFunction)
    }
}

/// Resolves a `color` call as the raw escape text it renders to. One
/// argument, a colour name; unknown names fail rather than falling back to
/// the reset code.
pub fn color_handler<'a>(args: Vec<&'a str>) -> (r: Result<String, String>)
    ensures
        ({
            if args@.len() == 1 {
                match color_from_name(args@[0]@) {
                    Some(c) => r matches Ok(s) && s@ == ansi_chars(c),
                    None => r matches Err(m) && m@ == "color: must be a valid color name"@,
                }
            } else {
                r matches Err(m) && m@ == "color: must have one arguments"@
            }
        }),
{
    if args.len() == 1 {
        match TerminalColor::convert(args[0]) {
            Some(c) => Ok(c.to_ansi()),
            None => Err(String::from_str("color: must be a valid color name")),
        }
    } else {
        Err(String::from_str("color: must have one arguments"))
    }
}

/// Resolves an `rgb` call as the raw escape text it renders to. Three
/// arguments, each a decimal integer in 0..=255; anything out of range or
/// non-numeric fails.
pub fn rgb_handler<'a>(args: Vec<&'a str>) -> (r: Result<String, String>)
    ensures
        ({
            if args@.len() == 3 {
                match (spec_parse_u8(args@[0]@), spec_parse_u8(args@[1]@), spec_parse_u8(
                    args@[2]@,
                )) {
                    (Some(cr), Some(cg), Some(cb)) => r matches Ok(s) && s@ == ansi_chars(
                        TerminalColor::TrueColor(cr, cg, cb),
                    ),
                    _ => r matches Err(m) && m@
                        == "rbg: arguments must be numbers between 0 and 255"@,
                }
            } else {
                r matches Err(m) && m@ == "rgb: must have three arguments"@
            }
        }),
{
    if args.len() == 3 {
        let cr = parse_u8(args[0]);
        let cg = parse_u8(args[1]);
        let cb = parse_u8(args[2]);
        match (cr, cg, cb) {
            (Some(cr), Some(cg), Some(cb)) => Ok(TerminalColor::TrueColor(cr, cg, cb).to_ansi()),
            _ => Err(String::from_str("rbg: arguments must be numbers between 0 and 255")),
        }
    } else {
        Err(String::from_str("rgb: must have three arguments"))
    }
}

} // verus!
