//! The text commands for the hardware link: a frame of square colours and a
//! list of gantry waypoints.
use vstd::prelude::*;

use crate::bitboard::member;
use crate::chess::contains;
use crate::kinematics::Step;
use crate::led::Rgb;

verus! {

/// Relies on std's String::push_str: it appends the text.
pub assume_specification[ String::push_str ](s: &mut String, string: &str)
    ensures
        final(s)@ == old(s)@ + string@,
;

/// The character of a decimal digit.
pub open spec fn digit_char(d: nat) -> char {
    if d == 0 {
        '0'
    } else if d == 1 {
        '1'
    } else if d == 2 {
        '2'
    } else if d == 3 {
        '3'
    } else if d == 4 {
        '4'
    } else if d == 5 {
        '5'
    } else if d == 6 {
        '6'
    } else if d == 7 {
        '7'
    } else if d == 8 {
        '8'
    } else {
        '9'
    }
}

/// A natural number in decimal, without leading zeros.
pub open spec fn decimal_text(n: nat) -> Seq<char>
    decreases n,
{
    if n < 10 {
        seq![digit_char(n)]
    } else {
        decimal_text(n / 10).push(digit_char(n % 10))
    }
}

/// Appends the character of the digit `d`.
fn push_digit(out: &mut String, d: u64)
    requires
        d < 10,
    ensures
        final(out)@ == old(out)@.push(digit_char(d as nat)),
{
    proof {
        reveal_strlit("0");
        reveal_strlit("1");
        reveal_strlit("2");
        reveal_strlit("3");
        reveal_strlit("4");
        reveal_strlit("5");
        reveal_strlit("6");
        reveal_strlit("7");
        reveal_strlit("8");
        reveal_strlit("9");
    }
    let digit = match d {
        0 => "0",
        1 => "1",
        2 => "2",
        3 => "3",
        4 => "4",
        5 => "5",
        6 => "6",
        7 => "7",
        8 => "8",
        _ => "9",
    };
    out.push_str(digit);
    assert(out@ =~= old(out)@.push(digit_char(d as nat)));
}

/// Appends `n` in decimal.
fn push_decimal(out: &mut String, n: u64)
    ensures
        final(out)@ == old(out)@ + decimal_text(n as nat),
    decreases n,
{
    if n >= 10 {
        push_decimal(out, n / 10);
    }
    push_digit(out, n % 10);
    assert(out@ =~= old(out)@ + decimal_text(n as nat));
}

/// `n` in decimal, without leading zeros.
pub(crate) fn decimal(n: u64) -> (r: String)
    ensures
        r@ == decimal_text(n as nat),
{
    let mut out = String::new();
    push_decimal(&mut out, n);
    assert(out@ =~= decimal_text(n as nat));
    out
}

/// A count of half units as a number of whole units: `3` is `1.5`, `4` is
/// `2`, `-1` is `-0.5`.
pub open spec fn halves_text(h: int) -> Seq<char> {
    let a = if h < 0 { -h } else { h };
    let sign = if h < 0 { seq!['-'] } else { Seq::<char>::empty() };
    if a % 2 == 0 {
        sign + decimal_text((a / 2) as nat)
    } else {
        sign + decimal_text((a / 2) as nat) + seq!['.', '5']
    }
}

pub open spec fn bool_text(b: bool) -> Seq<char> {
    if b {
        seq!['t', 'r', 'u', 'e']
    } else {
        seq!['f', 'a', 'l', 's', 'e']
    }
}

/// `" <x> <y> <magnet>"` for one waypoint.
pub open spec fn step_text(s: Step) -> Seq<char> {
    seq![' '] + halves_text(s.x as int) + seq![' '] + halves_text(s.y as int) + seq![' ']
        + bool_text(s.magnet)
}

/// The waypoint command: `WRITE MAGNET` followed by each waypoint.
pub open spec fn steps_text(steps: Seq<Step>) -> Seq<char>
    decreases steps.len(),
{
    if steps.len() == 0 {
        "WRITE MAGNET"@
    } else {
        steps_text(steps.drop_last()) + step_text(steps.last())
    }
}

fn halves(h: i64) -> (r: String)
    ensures
        r@ == halves_text(h as int),
{
    let a: u64 = if h < 0 { (0 - (h as i128)) as u64 } else { h as u64 };
    let mut out = String::new();
    if h < 0 {
        out.push_str("-");
    }
    let whole = decimal(a / 2);
    out.push_str(whole.as_str());
    if a % 2 == 1 {
        out.push_str(".5");
    }
    proof {
        reveal_strlit("-");
        reveal_strlit(".5");
    }
    assert(out@ =~= halves_text(h as int));
    out
}

/// The waypoint command for the hardware link.
pub fn steps_to_str(steps: &Vec<Step>) -> (r: String)
    ensures
        r@ == steps_text(steps@),
{
    let mut output = "WRITE MAGNET".to_owned();
    let mut i: usize = 0;
    while i < steps.len()
        invariant
            i <= steps@.len(),
            output@ == steps_text(steps@.subrange(0, i as int)),
        decreases steps@.len() - i,
    {
        let s = steps[i];
        output.push_str(" ");
        output.push_str(halves(s.x).as_str());
        output.push_str(" ");
        output.push_str(halves(s.y).as_str());
        output.push_str(" ");
        output.push_str(if s.magnet { "true" } else { "false" });
        proof {
            reveal_strlit(" ");
            reveal_strlit("true");
            reveal_strlit("false");
            let next = steps@.subrange(0, i + 1);
            assert(next.drop_last() =~= steps@.subrange(0, i as int));
            assert(output@ =~= steps_text(steps@.subrange(0, i as int)) + step_text(s));
        }
        i = i + 1;
    }
    assert(steps@.subrange(0, steps@.len() as int) =~= steps@);
    output
}

/// The colour code of a square lit by the given channels.
pub open spec fn palette(r: bool, g: bool, b: bool) -> u64 {
    match (r, g, b) {
        (true, false, false) => 0xFF0000,
        (false, true, false) => 0x008000,
        (false, false, true) => 0x0000FF,
        (true, true, false) => 0xFFA500,
        (true, false, true) => 0x800080,
        (true, true, true) => 0xFFFFFF,
        (false, true, true) => 0x40E0D0,
        (false, false, false) => 0,
    }
}

/// The colour code of square `sq`.
pub open spec fn square_color(rgb: Rgb, sq: int) -> u64 {
    palette(member(rgb.r, sq), member(rgb.g, sq), member(rgb.b, sq))
}

/// `WRITE LED` and the colour codes of the first `k` squares, counted from
/// square 63 down.
pub open spec fn led_text(rgb: Rgb, k: nat) -> Seq<char>
    decreases k,
{
    if k == 0 {
        "WRITE LED"@
    } else {
        led_text(rgb, (k - 1) as nat) + seq![' '] + decimal_text(
            square_color(rgb, 64 - k) as nat,
        )
    }
}

/// The colour code of square `sq`.
pub fn color_code(rgb: Rgb, sq: u8) -> (r: u64)
    requires
        sq < 64,
    ensures
        r == square_color(rgb, sq as int),
{
    match (contains(rgb.r, sq), contains(rgb.g, sq), contains(rgb.b, sq)) {
        (true, false, false) => 0xFF0000,
        (false, true, false) => 0x008000,
        (false, false, true) => 0x0000FF,
        (true, true, false) => 0xFFA500,
        (true, false, true) => 0x800080,
        (true, true, true) => 0xFFFFFF,
        (false, true, true) => 0x40E0D0,
        (false, false, false) => 0,
    }
}

/// The colour frame command: `WRITE LED` and one colour code per square,
/// from square 63 down to square 0.
pub fn rgb_to_str(rgb: Rgb) -> (r: String)
    ensures
        r@ == led_text(rgb, 64),
{
    let mut output = "WRITE LED".to_owned();
    let mut k: u8 = 0;
    while k < 64
        invariant
            k <= 64,
            output@ == led_text(rgb, k as nat),
        decreases 64 - k,
    {
        let code = color_code(rgb, 63 - k);
        output.push_str(" ");
        output.push_str(decimal(code).as_str());
        proof {
            reveal_strlit(" ");
        }
        k = k + 1;
    }
    output
}

} // verus!
