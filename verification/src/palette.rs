//! The escape codes that colour the rendered reply.
//!
//! The codes come from `termion`, which writes a colour as nothing at all
//! when the environment variable `NO_COLOR` is set. What a palette holds
//! therefore depends on the environment, and everything that renders takes
//! the palette as an argument.

use vstd::prelude::*;
use crate::decimal::decimal;

verus! {

/// The code that sets the foreground to a true colour.
pub open spec fn rgb_code(r: u8, g: u8, b: u8) -> Seq<char> {
    "\x1b[38;2;"@ + decimal(r as nat) + ";"@ + decimal(g as nat) + ";"@ + decimal(b as nat) + "m"@
}

/// The code that sets the foreground to yellow.
pub open spec fn yellow_code() -> Seq<char> {
    "\x1b[38;5;3m"@
}

/// The code that sets the foreground back to the terminal's default.
pub open spec fn reset_code() -> Seq<char> {
    "\x1b[39m"@
}

/// `termion::color::Fg(termion::color::Rgb(r, g, b))` as `Display` writes
/// it: the code for that true colour, with the three parts in decimal, or
/// nothing where colours are switched off.
#[verifier::external_body]
fn fg_rgb(r: u8, g: u8, b: u8) -> (code: String)
    ensures
        code@.len() == 0 || code@ == rgb_code(r, g, b),
{
    format!("{}", termion::color::Fg(termion::color::Rgb(r, g, b)))
}

/// `termion::color::Fg(termion::color::Yellow)` as `Display` writes it: the
/// code for yellow, or nothing where colours are switched off.
#[verifier::external_body]
fn fg_yellow() -> (code: String)
    ensures
        code@.len() == 0 || code@ == yellow_code(),
{
    format!("{}", termion::color::Fg(termion::color::Yellow))
}

/// `termion::color::Fg(termion::color::Reset)` as `Display` writes it:
/// always the code that resets the foreground.
#[verifier::external_body]
fn fg_reset() -> (code: String)
    ensures
        code@ == reset_code(),
{
    format!("{}", termion::color::Fg(termion::color::Reset))
}

/// The escape codes used in the output: one that starts the reasoning
/// block, one that starts the usage line, and one that ends either.
#[derive(Clone, Debug, PartialEq, Eq)]
pub struct Palette {
    pub reasoning: String,
    pub summary: String,
    pub reset: String,
}

/// The mathematical model of a [`Palette`].
pub struct PaletteView {
    pub reasoning: Seq<char>,
    pub summary: Seq<char>,
    pub reset: Seq<char>,
}

impl View for Palette {
    type V = PaletteView;

    open spec fn view(&self) -> PaletteView {
        PaletteView { reasoning: self.reasoning@, summary: self.summary@, reset: self.reset@ }
    }
}

impl Palette {
    /// A palette of the given codes.
    pub fn new(reasoning: String, summary: String, reset: String) -> (palette: Palette)
        ensures
            palette@ == (PaletteView {
                reasoning: reasoning@,
                summary: summary@,
                reset: reset@,
            }),
    {
        Palette { reasoning, summary, reset }
    }

    /// The palette of the terminal: light grey for the reasoning block and
    /// yellow for the usage line, each of which is empty where colours are
    /// switched off, and the code that resets the foreground.
    pub fn terminal() -> (palette: Palette)
        ensures
            palette@.reasoning.len() == 0 || palette@.reasoning == rgb_code(200, 200, 200),
            palette@.summary.len() == 0 || palette@.summary == yellow_code(),
            palette@.reset == reset_code(),
    {
        Palette { reasoning: fg_rgb(200, 200, 200), summary: fg_yellow(), reset: fg_reset() }
    }
}

} // verus!
