use vstd::prelude::*;
use crate::numbers::{dec_chars, u64_to_string};
use crate::strutil::str_eq;

verus! {

/// A terminal colour directive: one of sixteen named ANSI colours
/// (eight colours, each in a normal and a bold weight), the reset code,
/// or a 24-bit red/green/blue triple.
#[derive(Debug, PartialEq, Eq, Structural, Clone, Copy)]
pub enum TerminalColor {
    Reset,
    Black,
    Red,
    Green,
    Yellow,
    Blue,
    Magenta,
    Cyan,
    White,
    BoldBlack,
    BoldRed,
    BoldGreen,
    BoldYellow,
    BoldBlue,
    BoldMagenta,
    BoldCyan,
    BoldWhite,
    TrueColor(u8, u8, u8),
}

/// The colour a symbolic name stands for, or nothing for an unknown name.
pub open spec fn color_from_name(s: Seq<char>) -> Option<TerminalColor> {
    if s == "reset"@ {
        Some(TerminalColor::Reset)
    } else if s == "black"@ {
        Some(TerminalColor::Black)
    } else if s == "red"@ {
        Some(TerminalColor::Red)
    } else if s == "green"@ {
        Some(TerminalColor::Green)
    } else if s == "yellow"@ {
        Some(TerminalColor::Yellow)
    } else if s == "blue"@ {
        Some(TerminalColor::Blue)
    } else if s == "magenta"@ {
        Some(TerminalColor::Magenta)
    } else if s == "cyan"@ {
        Some(TerminalColor::Cyan)
    } else if s == "white"@ {
        Some(TerminalColor::White)
    } else if s == "bold_black"@ {
        Some(TerminalColor::BoldBlack)
    } else if s == "bold_red"@ {
        Some(TerminalColor::BoldRed)
    } else if s == "bold_green"@ {
        Some(TerminalColor::BoldGreen)
    } else if s == "bold_yellow"@ {
        Some(TerminalColor::BoldYellow)
    } else if s == "bold_blue"@ {
        Some(TerminalColor::BoldBlue)
    } else if s == "bold_magenta"@ {
        Some(TerminalColor::BoldMagenta)
    } else if s == "bold_cyan"@ {
        Some(TerminalColor::BoldCyan)
    } else if s == "bold_white"@ {
        Some(TerminalColor::BoldWhite)
    } else {
        None
    }
}

/// The escape sequence a colour renders to: `ESC[<code>m` for the named
/// colours and the reset code, and the 24-bit form `ESC[38;2;r;g;bm` for a
/// true-colour triple.
pub open spec fn ansi_chars(c: TerminalColor) -> Seq<char> {
    match c {
        TerminalColor::Reset => "\x1b[0m"@,
        TerminalColor::Black => "\x1b[0;30m"@,
        TerminalColor::Red => "\x1b[0;31m"@,
        TerminalColor::Green => "\x1b[0;32m"@,
        TerminalColor::Yellow => "\x1b[0;33m"@,
        TerminalColor::Blue => "\x1b[0;34m"@,
        TerminalColor::Magenta => "\x1b[0;35m"@,
        TerminalColor::Cyan => "\x1b[0;36m"@,
        TerminalColor::White => "\x1b[0;37m"@,
        TerminalColor::BoldBlack => "\x1b[1;30m"@,
        TerminalColor::BoldRed => "\x1b[1;31m"@,
        TerminalColor::BoldGreen => "\x1b[1;32m"@,
        TerminalColor::BoldYellow => "\x1b[1;33m"@,
        TerminalColor::BoldBlue => "\x1b[1;34m"@,
        TerminalColor::BoldMagenta => "\x1b[1;35m"@,
        TerminalColor::BoldCyan => "\x1b[1;36m"@,
        TerminalColor::BoldWhite => "\x1b[1;37m"@,
        TerminalColor::TrueColor(r, g, b) => "\x1b[38;2;"@ + dec_chars(r as int) + ";"@ + dec_chars(
            g as int,
        ) + ";"@ + dec_chars(b as int) + "m"@,
    }
}

impl TerminalColor {
    /// Looks a colour name up in the table. Unknown names yield `None`;
    /// they are never silently read as the reset code.
    pub fn convert(color_name: &str) -> (r: Option<TerminalColor>)
        ensures
            r == color_from_name(color_name@),
    {
        if str_eq(color_name, "reset") {
            Some(TerminalColor::Reset)
        } else if str_eq(color_name, "black") {
            Some(TerminalColor::Black)
        } else if str_eq(color_name, "red") {
            Some(TerminalColor::Red)
        } else if str_eq(color_name, "green") {
            Some(TerminalColor::Green)
        } else if str_eq(color_name, "yellow") {
            Some(TerminalColor::Yellow)
        } else if str_eq(color_name, "blue") {
            Some(TerminalColor::Blue)
        } else if str_eq(color_name, "magenta") {
            Some(TerminalColor::Magenta)
        } else if str_eq(color_name, "cyan") {
            Some(TerminalColor::Cyan)
        } else if str_eq(color_name, "white") {
            Some(TerminalColor::White)
        } else if str_eq(color_name, "bold_black") {
            Some(TerminalColor::BoldBlack)
        } else if str_eq(color_name, "bold_red") {
            Some(TerminalColor::BoldRed)
        } else if str_eq(color_name, "bold_green") {
            Some(TerminalColor::BoldGreen)
        } else if str_eq(color_name, "bold_yellow") {
            Some(TerminalColor::BoldYellow)
        } else if str_eq(color_name, "bold_blue") {
            Some(TerminalColor::BoldBlue)
        } else if str_eq(color_name, "bold_magenta") {
            Some(TerminalColor::BoldMagenta)
        } else if str_eq(color_name, "bold_cyan") {
            Some(TerminalColor::BoldCyan)
        } else if str_eq(color_name, "bold_white") {
            Some(TerminalColor::BoldWhite)
        } else {
            None
        }
    }

    /// Renders the colour as its terminal escape sequence.
    pub fn to_ansi(&self) -> (s: String)
        ensures
            s@ == ansi_chars(*self),
    {
        match self {
            TerminalColor::Reset => String::from_str("\x1b[0m"),
            TerminalColor::Black => String::from_str("\x1b[0;30m"),
            TerminalColor::Red => String::from_str("\x1b[0;31m"),
            TerminalColor::Green => String::from_str("\x1b[0;32m"),
            TerminalColor::Yellow => String::from_str("\x1b[0;33m"),
            TerminalColor::Blue => String::from_str("\x1b[0;34m"),
            TerminalColor::Magenta => String::from_str("\x1b[0;35m"),
            TerminalColor::Cyan => String::from_str("\x1b[0;36m"),
            TerminalColor::White => String::from_str("\x1b[0;37m"),
            TerminalColor::BoldBlack => String::from_str("\x1b[1;30m"),
            TerminalColor::BoldRed => String::from_str("\x1b[1;31m"),
            TerminalColor::BoldGreen => String::from_str("\x1b[1;32m"),
            TerminalColor::BoldYellow => String::from_str("\x1b[1;33m"),
            TerminalColor::BoldBlue => String::from_str("\x1b[1;34m"),
            TerminalColor::BoldMagenta => String::from_str("\x1b[1;35m"),
            TerminalColor::BoldCyan => String::from_str("\x1b[1;36m"),
            TerminalColor::BoldWhite => String::from_str("\x1b[1;37m"),
            TerminalColor::TrueColor(r, g, b) => {
                let mut s = String::from_str("\x1b[38;2;");
                s.append(u64_to_string(*r as u64).as_str());
                s.append(";");
                s.append(u64_to_string(*g as u64).as_str());
                s.append(";");
                s.append(u64_to_string(*b as u64).as_str());
                s.append("m");
                proof {
                    assert(s@ =~= ansi_chars(*self));
                }
                s
            },
        }
    }
}

} // verus!
