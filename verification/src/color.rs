//! Styles for text on a terminal.

use crate::text::decimal;
use color_string::Font;
use vstd::prelude::*;
use vstd::string::StringExecFns;

verus! {

/// A way to set text off on a terminal.
#[derive(Debug, Clone, Copy, PartialEq, Eq)]
pub enum Tint {
    Bold,
    /// Bold, with all other styles ended.
    RBold,
    Green,
    Yellow,
    /// Cyan, with all other styles ended.
    RCyan,
    BgRed,
    BgGreen,
    BgYellow,
    BgBlue,
    BgPurple,
    /// A colour by its red, green and blue parts.
    Color(u8, u8, u8),
}

impl Tint {
    /// The parameter that selects the style in a terminal's escape
    /// sequence.
    pub open spec fn code(self) -> Seq<char> {
        match self {
            Tint::Bold => "1"@,
            Tint::RBold => "0;1"@,
            Tint::Green => "32"@,
            Tint::Yellow => "33"@,
            Tint::RCyan => "0;36"@,
            Tint::BgRed => "41"@,
            Tint::BgGreen => "42"@,
            Tint::BgYellow => "43"@,
            Tint::BgBlue => "44"@,
            Tint::BgPurple => "45"@,
            Tint::Color(r, g, b) => "38;2;"@ + decimal(r as nat) + ";"@ + decimal(g as nat) + ";"@
                + decimal(b as nat),
        }
    }
}

/// `color_string::Font::as_str` on the font of the same name: the
/// parameter that selects the style.
#[verifier::external_body]
fn font_code(tint: Tint) -> (code: String)
    ensures
        code@ == tint.code(),
{
    let font = match tint {
        Tint::Bold => Font::Bold,
        Tint::RBold => Font::RBold,
        Tint::Green => Font::Green,
        Tint::Yellow => Font::Yellow,
        Tint::RCyan => Font::RCyan,
        Tint::BgRed => Font::BgRed,
        Tint::BgGreen => Font::BgGreen,
        Tint::BgYellow => Font::BgYellow,
        Tint::BgBlue => Font::BgBlue,
        Tint::BgPurple => Font::BgPurple,
        Tint::Color(r, g, b) => Font::Color(r, g, b),
    };
    font.as_str().into_owned()
}

/// The escape sequence that ends every style.
pub open spec fn reset() -> Seq<char> {
    "\x1b[0m"@
}

/// `color_string::Colored::fonts` on a string slice: the text behind the
/// escape sequence given, and the sequence that ends every style behind it.
#[verifier::external_body]
fn paint(fonts: String, text: &str) -> (out: String)
    ensures
        out@ == fonts@ + text@ + reset(),
{
    color_string::Colored::fonts(text, fonts)
}

/// The escape sequence that starts one style.
pub open spec fn escape(tint: Tint) -> Seq<char> {
    "\x1b["@ + tint.code() + "m"@
}

/// The escape sequence that starts two styles at once.
pub open spec fn escape_both(first: Tint, second: Tint) -> Seq<char> {
    "\x1b["@ + first.code() + ";"@ + second.code() + "m"@
}

/// `text` in one style.
pub open spec fn painted(tint: Tint, text: Seq<char>) -> Seq<char> {
    escape(tint) + text + reset()
}

/// `text` in two styles.
pub open spec fn painted_both(first: Tint, second: Tint, text: Seq<char>) -> Seq<char> {
    escape_both(first, second) + text + reset()
}

/// The escape sequence that starts one style.
pub fn escape_of(tint: Tint) -> (out: String)
    ensures
        out@ == escape(tint),
{
    let mut fonts = String::from_str("\x1b[");
    let code = font_code(tint);
    fonts.append(code.as_str());
    fonts.append("m");
    fonts
}

/// `text` in one style.
pub fn paint_one(tint: Tint, text: &str) -> (out: String)
    ensures
        out@ == painted(tint, text@),
{
    paint(escape_of(tint), text)
}

/// `text` in two styles.
pub fn paint_two(first: Tint, second: Tint, text: &str) -> (out: String)
    ensures
        out@ == painted_both(first, second, text@),
{
    let mut fonts = String::from_str("\x1b[");
    let code = font_code(first);
    fonts.append(code.as_str());
    fonts.append(";");
    let code = font_code(second);
    fonts.append(code.as_str());
    fonts.append("m");
    paint(fonts, text)
}

} // verus!
