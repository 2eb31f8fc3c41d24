//! Lexical classes of characters and their display colours.

use termion::color;
use vstd::prelude::*;

verus! {

/// The lexical class given to one character of a row.
#[derive(Debug, Clone, Copy, PartialEq, Eq, Structural)]
pub enum Type {
    Normal,
    Number,
    Match,
    String,
    Escape,
    Character,
    Comment,
    PrimaryKey,
    SecondaryKey,
}

/// The foreground colour, as red, green and blue, of each class.
pub open spec fn color_of(t: Type) -> (u8, u8, u8) {
    match t {
        Type::Number => (220, 163, 163),
        Type::Match => (38, 139, 210),
        Type::String => (211, 54, 130),
        Type::Escape => (255, 255, 0),
        Type::Character => (108, 113, 196),
        Type::Comment => (128, 128, 128),
        Type::PrimaryKey => (0, 245, 255),
        Type::SecondaryKey => (255, 99, 71),
        Type::Normal => (255, 255, 255),
    }
}

impl Type {
    /// The foreground colour of this class.
    pub fn to_color(&self) -> (r: (u8, u8, u8))
        ensures
            r == color_of(*self),
    {
        match self {
            Type::Number => (220, 163, 163),
            Type::Match => (38, 139, 210),
            Type::String => (211, 54, 130),
            Type::Escape => (255, 255, 0),
            Type::Character => (108, 113, 196),
            Type::Comment => (128, 128, 128),
            Type::PrimaryKey => (0, 245, 255),
            Type::SecondaryKey => (255, 99, 71),
            Type::Normal => (255, 255, 255),
        }
    }
}

/// The decimal digits of `n`, most significant first, without leading zeros.
pub open spec fn decimal(n: nat) -> Seq<char>
    decreases n,
{
    if n < 10 {
        seq![(('0' as u8) + n as u8) as char]
    } else {
        decimal(n / 10).push(((('0' as u8) + (n % 10) as u8) as char))
    }
}

/// The control sequence that sets a 24-bit foreground colour.
pub open spec fn fg_sequence(c: (u8, u8, u8)) -> Seq<char> {
    seq!['\x1b', '[', '3', '8', ';', '2', ';'] + decimal(c.0 as nat) + seq![';'] + decimal(
        c.1 as nat,
    ) + seq![';'] + decimal(c.2 as nat) + seq!['m']
}

/// The control sequence that resets the foreground colour.
pub open spec fn fg_reset_sequence() -> Seq<char> {
    seq!['\x1b', '[', '3', '9', 'm']
}

/// Relies on termion's `Rgb::fg_string`: `ESC [ 3 8 ; 2 ; r ; g ; b m` with each
/// component in decimal.
#[verifier::external_body]
pub(crate) fn fg_color(c: (u8, u8, u8)) -> (r: String)
    ensures
        r@ == fg_sequence(c),
{
    color::Rgb(c.0, c.1, c.2).fg_string()
}

/// Relies on termion's `Reset::fg_str`: `ESC [ 3 9 m`.
#[verifier::external_body]
pub(crate) fn fg_reset() -> (r: &'static str)
    ensures
        r@ == fg_reset_sequence(),
{
    color::Reset.fg_str()
}

} // verus!
