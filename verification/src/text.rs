//! The status overlay: a positioned label and the text it shows.

use vstd::prelude::*;
use crate::color::Color;

verus! {

/// A positioned, coloured label. `x`, `y` place it, `z` is its stacking order,
/// `w` and `h` are the room laid out for it; `fontsize` is in points.
#[derive(Clone, Debug, PartialEq)]
pub struct TextBlock {
    pub text: String,
    pub x: usize,
    pub y: usize,
    pub z: isize,
    pub w: usize,
    pub h: usize,
    pub color: Color,
    pub fontname: String,
    pub fontsize: u32,
}

/// The character for one decimal digit.
pub open spec fn digit(d: nat) -> char {
    if d == 0 {
        '0'
    } else if d == 1 {
        '1'
    } else if d == 2 {
        '2'
    } else if d == 3 {
        '3'
    } else if d == 4 {
        '4'
    } else if d == 5 {
        '5'
    } else if d == 6 {
        '6'
    } else if d == 7 {
        '7'
    } else if d == 8 {
        '8'
    } else {
        '9'
    }
}

/// `n` in decimal, without leading zeros.
pub open spec fn decimal(n: nat) -> Seq<char>
    decreases n,
{
    if n < 10 {
        seq![digit(n)]
    } else {
        decimal(n / 10).push(digit(n % 10))
    }
}

/// A count of hundredths written as a number with two decimals: 1234 is "12.34".
pub open spec fn hundredths(c: nat) -> Seq<char> {
    decimal(c / 100).push('.').push(digit((c / 10) % 10)).push(digit(c % 10))
}

/// The three status lines: update rate and frame rate, both given in hundredths
/// of a hertz, and the number of live cells.
pub open spec fn status_text(ups: nat, fps: nat, alive: nat) -> Seq<char> {
    "UPS: "@ + hundredths(ups) + "\nFPS: "@ + hundredths(fps) + "\nnum: "@ + decimal(alive)
}

fn digit_str(d: u8) -> (s: &'static str)
    requires
        d < 10,
    ensures
        s@ == seq![digit(d as nat)],
{
    proof {
        reveal_strlit("0");
        reveal_strlit("1");
        reveal_strlit("2");
        reveal_strlit("3");
        reveal_strlit("4");
        reveal_strlit("5");
        reveal_strlit("6");
        reveal_strlit("7");
        reveal_strlit("8");
        reveal_strlit("9");
    }
    let s = if d == 0 {
        "0"
    } else if d == 1 {
        "1"
    } else if d == 2 {
        "2"
    } else if d == 3 {
        "3"
    } else if d == 4 {
        "4"
    } else if d == 5 {
        "5"
    } else if d == 6 {
        "6"
    } else if d == 7 {
        "7"
    } else if d == 8 {
        "8"
    } else {
        "9"
    };
    assert(s@ =~= seq![digit(d as nat)]);
    s
}

fn push_digit(out: &mut String, d: u8)
    requires
        d < 10,
    ensures
        final(out)@ == old(out)@.push(digit(d as nat)),
{
    let s = digit_str(d);
    out.append(s);
    assert(out@ =~= old(out)@.push(digit(d as nat)));
}

fn push_decimal(out: &mut String, n: u128)
    ensures
        final(out)@ == old(out)@ + decimal(n as nat),
    decreases n,
{
    if n >= 10 {
        push_decimal(out, n / 10);
    }
    push_digit(out, (n % 10) as u8);
    assert(out@ =~= old(out)@ + decimal(n as nat));
}

fn push_hundredths(out: &mut String, c: u128)
    ensures
        final(out)@ == old(out)@ + hundredths(c as nat),
{
    push_decimal(out, c / 100);
    out.append(".");
    push_digit(out, ((c / 10) % 10) as u8);
    push_digit(out, (c % 10) as u8);
    proof {
        reveal_strlit(".");
        assert("."@ =~= seq!['.']);
        assert(out@ =~= old(out)@ + hundredths(c as nat));
    }
}

/// Writes the status lines for an update rate and a frame rate, both in
/// hundredths of a hertz, and a number of live cells.
pub fn format_status(ups: u128, fps: u128, alive: usize) -> (text: String)
    ensures
        text@ == status_text(ups as nat, fps as nat, alive as nat),
{
    let mut out = String::from_str("UPS: ");
    push_hundredths(&mut out, ups);
    out.append("\nFPS: ");
    push_hundredths(&mut out, fps);
    out.append("\nnum: ");
    push_decimal(&mut out, alive as u128);
    out
}

/// The standard fonts: each name with the file that holds the font.
pub fn standard_fonts() -> (table: Vec<(&'static str, &'static str)>)
    ensures
        table@ == seq![("Standard", "rsc/disposabledroid-bb.regular.ttf")],
{
    let mut table: Vec<(&'static str, &'static str)> = Vec::new();
    table.push(("Standard", "rsc/disposabledroid-bb.regular.ttf"));
    assert(table@ =~= seq![("Standard", "rsc/disposabledroid-bb.regular.ttf")]);
    table
}

/// Whether `t` is the status label as it stands before any rate is known:
/// white, in the top left corner, in the standard font, with all counts at
/// zero.
pub open spec fn is_initial_status(t: TextBlock) -> bool {
    &&& t.text@ == status_text(0, 0, 0)
    &&& t.x == 0 && t.y == 0 && t.z == 0
    &&& t.w == 100 && t.h == 100
    &&& t.color == (Color { r: 255, g: 255, b: 255, a: 255 })
    &&& t.fontname@ == "Standard"@
    &&& t.fontsize == 14
}

impl TextBlock {
    /// The status label as it stands before any rate is known.
    pub fn status() -> (t: TextBlock)
        ensures
            is_initial_status(t),
    {
        TextBlock {
            text: format_status(0, 0, 0),
            x: 0,
            y: 0,
            z: 0,
            w: 100,
            h: 100,
            color: Color::rgb(255, 255, 255),
            fontname: String::from_str("Standard"),
            fontsize: 14,
        }
    }
}

} // verus!
